use camt53::extract::{ntry_parser, process_camt53, txdtls_parser};
use camt53::records::{ExtractError, FlatEntry, Part};
use camt53::xml::XmlNode;

fn el(name: &str, text: &str, children: Vec<XmlNode>) -> XmlNode {
    XmlNode { name: name.to_string(), text: text.to_string(), children }
}

fn leaf(name: &str, text: &str) -> XmlNode {
    el(name, text, vec![])
}

fn plain_entry(amount: &str, indicator: &str, children: Vec<XmlNode>) -> XmlNode {
    let mut kids = vec![
        leaf("Amt", amount),
        el("BookgDt", "", vec![leaf("Dt", "2023-01-15")]),
        leaf("AddtlNtryInf", "monthly payment"),
        leaf("CdtDbtInd", indicator),
    ];
    kids.extend(children);
    el("Ntry", "", kids)
}

fn document(stmt_children: Vec<XmlNode>) -> XmlNode {
    el(
        "Document",
        "",
        vec![el("BkToCstmrStmt", "", vec![el("Stmt", "", stmt_children)])],
    )
}

fn acct(iban: &str) -> XmlNode {
    el("Acct", "", vec![el("Id", "", vec![leaf("IBAN", iban)])])
}

#[test]
fn credit_entry_without_details_yields_one_row() {
    let root = document(vec![
        acct("FR7630006000011234567890189"),
        plain_entry("100.00", "CRDT", vec![]),
    ]);
    let rows = process_camt53(&root).unwrap();
    assert_eq!(rows.len(), 1);
    let r = &rows[0];
    assert_eq!(r.account, "FR7630006000011234567890189");
    assert_eq!(r.date, "2023-01-15");
    assert_eq!(r.description, "monthly payment");
    assert_eq!(r.debit, "0");
    assert_eq!(r.credit, "100.00");
    assert_eq!(r.ntry_type, "CRDT");
}

#[test]
fn debit_detail_with_debtor_overrides_amount_but_not_ntry_type() {
    let tx = el(
        "TxDtls",
        "",
        vec![
            leaf("Amt", "42.50"),
            leaf("CdtDbtInd", "DBIT"),
            el(
                "RltdPties",
                "",
                vec![
                    el("Dbtr", "", vec![leaf("Nm", "Jane Doe")]),
                    el("DbtrAcct", "", vec![el("Id", "", vec![leaf("IBAN", "DE0001")])]),
                ],
            ),
        ],
    );
    let root = document(vec![
        acct("FR7630006000011234567890189"),
        plain_entry("100.00", "CRDT", vec![el("NtryDtls", "", vec![tx])]),
    ]);
    let rows = process_camt53(&root).unwrap();
    assert_eq!(rows.len(), 1);
    let r = &rows[0];
    assert_eq!(r.debit, "42.50");
    assert_eq!(r.credit, "0");
    assert!(r.description.contains("Jane Doe - DE0001"));
    assert_eq!(r.ntry_type, "CRDT");
    assert_eq!(r.account, "FR7630006000011234567890189");
}

#[test]
fn malformed_sequence_number_aborts_with_format_error() {
    let root = document(vec![
        leaf("ElctrncSeqNb", "not-a-number"),
        acct("FR7630006000011234567890189"),
        plain_entry("100.00", "CRDT", vec![]),
    ]);
    assert_eq!(
        process_camt53(&root),
        Err(ExtractError::Format(Part::ElctrncSeqNb))
    );
}

#[test]
fn well_formed_sequence_number_is_accepted() {
    let root = document(vec![
        leaf("ElctrncSeqNb", "17"),
        plain_entry("5.00", "DBIT", vec![]),
    ]);
    let rows = process_camt53(&root).unwrap();
    assert_eq!(rows.len(), 1);
}

#[test]
fn iban_resolution_is_positional() {
    let root = document(vec![
        plain_entry("1.00", "CRDT", vec![]),
        acct("CH9300762011623852957"),
        plain_entry("2.00", "CRDT", vec![]),
    ]);
    let rows = process_camt53(&root).unwrap();
    assert_eq!(rows.len(), 2);
    assert_eq!(rows[0].account, "IBAN");
    assert_eq!(rows[1].account, "CH9300762011623852957");
}

#[test]
fn later_acct_rewrites_iban_for_later_entries_only() {
    let root = document(vec![
        acct("AA11"),
        plain_entry("1.00", "CRDT", vec![]),
        acct("BB22"),
        plain_entry("2.00", "CRDT", vec![]),
    ]);
    let rows = process_camt53(&root).unwrap();
    assert_eq!(rows[0].account, "AA11");
    assert_eq!(rows[1].account, "BB22");
}

#[test]
fn details_across_wrappers_explode_in_document_order() {
    let tx = |amt: &str| {
        el(
            "TxDtls",
            "",
            vec![leaf("Amt", amt), leaf("CdtDbtInd", "CRDT")],
        )
    };
    let root = document(vec![
        acct("FR7630006000011234567890189"),
        plain_entry(
            "9.99",
            "CRDT",
            vec![
                el("NtryDtls", "", vec![tx("1.00"), tx("2.00")]),
                el("NtryDtls", "", vec![tx("3.00")]),
            ],
        ),
    ]);
    let rows = process_camt53(&root).unwrap();
    assert_eq!(rows.len(), 3);
    assert_eq!(rows[0].credit, "1.00");
    assert_eq!(rows[1].credit, "2.00");
    assert_eq!(rows[2].credit, "3.00");
    // the undecorated template (credit 9.99) is not among the rows
    assert!(rows.iter().all(|r| r.credit != "9.99"));
}

#[test]
fn unknown_indicator_defaults_to_debit() {
    let root = document(vec![plain_entry("3.50", "XXXX", vec![])]);
    let rows = process_camt53(&root).unwrap();
    assert_eq!(rows[0].debit, "3.50");
    assert_eq!(rows[0].credit, "0");
    assert_eq!(rows[0].ntry_type, "XXXX");
}

#[test]
fn amount_text_is_kept_verbatim() {
    let root = document(vec![plain_entry("0100.50", "CRDT", vec![])]);
    let rows = process_camt53(&root).unwrap();
    assert_eq!(rows[0].credit, "0100.50");
}

#[test]
fn missing_statement_spine_is_a_structure_error() {
    let no_wrapper = el("Document", "", vec![]);
    assert_eq!(
        process_camt53(&no_wrapper),
        Err(ExtractError::Structure(Part::BkToCstmrStmt))
    );
    let no_stmt = el("Document", "", vec![el("BkToCstmrStmt", "", vec![])]);
    assert_eq!(
        process_camt53(&no_stmt),
        Err(ExtractError::Structure(Part::Stmt))
    );
}

#[test]
fn acct_without_iban_is_a_structure_error() {
    let root = document(vec![el("Acct", "", vec![el("Id", "", vec![])])]);
    assert_eq!(
        process_camt53(&root),
        Err(ExtractError::Structure(Part::AcctIban))
    );
}

#[test]
fn entry_missing_required_children_is_a_structure_error() {
    let cases: Vec<(usize, ExtractError)> = vec![
        (0, ExtractError::Structure(Part::Amt)),
        (1, ExtractError::Structure(Part::BookgDt)),
        (2, ExtractError::Structure(Part::AddtlNtryInf)),
        (3, ExtractError::Structure(Part::CdtDbtInd)),
    ];
    for (drop, expected) in cases {
        let full = vec![
            leaf("Amt", "1.00"),
            el("BookgDt", "", vec![leaf("Dt", "2023-01-15")]),
            leaf("AddtlNtryInf", "x"),
            leaf("CdtDbtInd", "CRDT"),
        ];
        let kids: Vec<XmlNode> = full
            .into_iter()
            .enumerate()
            .filter(|(i, _)| *i != drop)
            .map(|(_, c)| c)
            .collect();
        let root = document(vec![el("Ntry", "", kids)]);
        assert_eq!(process_camt53(&root), Err(expected));
    }
}

#[test]
fn bookg_dt_without_dt_is_a_structure_error() {
    let root = document(vec![el(
        "Ntry",
        "",
        vec![
            leaf("Amt", "1.00"),
            el("BookgDt", "", vec![]),
            leaf("AddtlNtryInf", "x"),
            leaf("CdtDbtInd", "CRDT"),
        ],
    )]);
    assert_eq!(
        process_camt53(&root),
        Err(ExtractError::Structure(Part::BookgDt))
    );
}

#[test]
fn detail_without_amount_or_operation_is_a_missing_field_error() {
    let no_amount = el("TxDtls", "", vec![leaf("CdtDbtInd", "DBIT")]);
    let root = document(vec![plain_entry(
        "1.00",
        "CRDT",
        vec![el("NtryDtls", "", vec![no_amount])],
    )]);
    assert_eq!(
        process_camt53(&root),
        Err(ExtractError::MissingField(Part::Amount))
    );

    let no_operation = el("TxDtls", "", vec![leaf("Amt", "1.00")]);
    let root = document(vec![plain_entry(
        "1.00",
        "CRDT",
        vec![el("NtryDtls", "", vec![no_operation])],
    )]);
    assert_eq!(
        process_camt53(&root),
        Err(ExtractError::MissingField(Part::Operation))
    );
}

#[test]
fn creditor_without_name_is_a_structure_error() {
    let tx = el(
        "TxDtls",
        "",
        vec![
            leaf("Amt", "1.00"),
            leaf("CdtDbtInd", "CRDT"),
            el("RltdPties", "", vec![el("Cdtr", "", vec![])]),
        ],
    );
    let root = document(vec![plain_entry(
        "1.00",
        "CRDT",
        vec![el("NtryDtls", "", vec![tx])],
    )]);
    assert_eq!(
        process_camt53(&root),
        Err(ExtractError::Structure(Part::CdtrNm))
    );
}

#[test]
fn remittance_without_ustrd_is_a_structure_error() {
    let tx = el(
        "TxDtls",
        "",
        vec![
            leaf("Amt", "1.00"),
            leaf("CdtDbtInd", "CRDT"),
            el("RmtInf", "", vec![]),
        ],
    );
    let root = document(vec![plain_entry(
        "1.00",
        "CRDT",
        vec![el("NtryDtls", "", vec![tx])],
    )]);
    assert_eq!(
        process_camt53(&root),
        Err(ExtractError::Structure(Part::Ustrd))
    );
}

#[test]
fn creditor_identity_and_no_iban_sentinel() {
    let tx = el(
        "TxDtls",
        "",
        vec![
            leaf("Amt", "5.00"),
            leaf("CdtDbtInd", "CRDT"),
            el("RltdPties", "", vec![el("Cdtr", "", vec![leaf("Nm", "ACME")])]),
        ],
    );
    let entry = plain_entry("5.00", "CRDT", vec![el("NtryDtls", "", vec![tx])]);
    let rows = ntry_parser("X".to_string(), &entry).unwrap();
    assert_eq!(rows.len(), 1);
    assert_eq!(rows[0].description, "ACME - no IBAN");
}

#[test]
fn debtor_overrides_creditor_in_description() {
    let tx = el(
        "TxDtls",
        "",
        vec![
            leaf("Amt", "5.00"),
            leaf("CdtDbtInd", "DBIT"),
            el(
                "RltdPties",
                "",
                vec![
                    el("Cdtr", "", vec![leaf("Nm", "ACME")]),
                    el("CdtrAcct", "", vec![el("Id", "", vec![leaf("IBAN", "CC33")])]),
                    el("Dbtr", "", vec![leaf("Nm", "Jane Doe")]),
                    el("DbtrAcct", "", vec![el("Id", "", vec![leaf("IBAN", "DD44")])]),
                ],
            ),
        ],
    );
    let entry = plain_entry("5.00", "CRDT", vec![el("NtryDtls", "", vec![tx])]);
    let rows = ntry_parser("X".to_string(), &entry).unwrap();
    assert_eq!(rows[0].description, "Jane Doe - DD44");
}

#[test]
fn no_parties_yields_sentinel_description() {
    let tx = el(
        "TxDtls",
        "",
        vec![
            leaf("Amt", "5.00"),
            leaf("CdtDbtInd", "CRDT"),
            el("RltdPties", "", vec![]),
        ],
    );
    let entry = plain_entry("5.00", "CRDT", vec![el("NtryDtls", "", vec![tx])]);
    let rows = ntry_parser("X".to_string(), &entry).unwrap();
    assert_eq!(rows[0].description, "unknown_partner - unknown_iban");
}

#[test]
fn remittance_text_is_appended_without_separator() {
    let tx = el(
        "TxDtls",
        "",
        vec![
            leaf("Amt", "5.00"),
            leaf("CdtDbtInd", "CRDT"),
            el(
                "RltdPties",
                "",
                vec![
                    el("Dbtr", "", vec![leaf("Nm", "Jane Doe")]),
                    el("DbtrAcct", "", vec![el("Id", "", vec![leaf("IBAN", "DE0001")])]),
                ],
            ),
            el("RmtInf", "", vec![leaf("Ustrd", "invoice 42")]),
        ],
    );
    let entry = plain_entry("5.00", "CRDT", vec![el("NtryDtls", "", vec![tx])]);
    let rows = ntry_parser("X".to_string(), &entry).unwrap();
    assert_eq!(rows[0].description, "Jane Doe - DE0001invoice 42");
}

#[test]
fn remittance_without_parties_appends_to_entry_description() {
    let tx = el(
        "TxDtls",
        "",
        vec![
            leaf("Amt", "5.00"),
            leaf("CdtDbtInd", "CRDT"),
            el("RmtInf", "", vec![leaf("Ustrd", " extra")]),
        ],
    );
    let template = FlatEntry {
        account: "X".to_string(),
        date: "2023-01-15".to_string(),
        description: "base".to_string(),
        debit: "0".to_string(),
        credit: "9.99".to_string(),
        ntry_type: "CRDT".to_string(),
    };
    let rec = txdtls_parser(&template, &tx).unwrap();
    assert_eq!(rec.description, "base extra");
    assert_eq!(rec.credit, "5.00");
    assert_eq!(rec.debit, "0");
}

#[test]
fn later_detail_amount_and_operation_win() {
    let tx = el(
        "TxDtls",
        "",
        vec![
            leaf("Amt", "1.00"),
            leaf("CdtDbtInd", "CRDT"),
            leaf("Amt", "2.00"),
            leaf("CdtDbtInd", "DBIT"),
        ],
    );
    let entry = plain_entry("9.99", "CRDT", vec![el("NtryDtls", "", vec![tx])]);
    let rows = ntry_parser("X".to_string(), &entry).unwrap();
    assert_eq!(rows[0].debit, "2.00");
    assert_eq!(rows[0].credit, "0");
}

#[test]
fn entry_level_lookup_takes_first_matching_child() {
    let mut entry = plain_entry("1.00", "CRDT", vec![]);
    entry.children.push(leaf("Amt", "2.00"));
    let rows = ntry_parser("X".to_string(), &entry).unwrap();
    assert_eq!(rows[0].credit, "1.00");
}

#[test]
fn exactly_one_amount_side_is_zero_per_row() {
    let tx = el(
        "TxDtls",
        "",
        vec![leaf("Amt", "7.00"), leaf("CdtDbtInd", "DBIT")],
    );
    let root = document(vec![
        plain_entry("1.00", "CRDT", vec![]),
        plain_entry("2.00", "DBIT", vec![]),
        plain_entry("9.99", "CRDT", vec![el("NtryDtls", "", vec![tx])]),
    ]);
    let rows = process_camt53(&root).unwrap();
    assert_eq!(rows.len(), 3);
    for r in &rows {
        assert!((r.debit == "0") != (r.credit == "0"));
    }
}

#[test]
fn fail_fast_yields_no_rows_at_all() {
    let root = document(vec![
        plain_entry("1.00", "CRDT", vec![]),
        leaf("ElctrncSeqNb", "12x"),
        plain_entry("2.00", "CRDT", vec![]),
    ]);
    assert!(process_camt53(&root).is_err());
}

#[test]
fn duplicate_is_an_equal_independent_copy() {
    let rec = FlatEntry {
        account: "A".to_string(),
        date: "B".to_string(),
        description: "C".to_string(),
        debit: "0".to_string(),
        credit: "1.00".to_string(),
        ntry_type: "CRDT".to_string(),
    };
    let copy = rec.duplicate();
    assert_eq!(copy, rec);
}

#[test]
fn out_of_range_sequence_number_is_a_format_error() {
    let root = document(vec![
        leaf("ElctrncSeqNb", "99999999999999999999"),
        plain_entry("1.00", "CRDT", vec![]),
    ]);
    assert_eq!(
        process_camt53(&root),
        Err(ExtractError::Format(Part::ElctrncSeqNb))
    );
}

#[test]
fn entry_texts_are_carried_verbatim_even_when_empty() {
    let root = document(vec![el(
        "Ntry",
        "",
        vec![
            leaf("Amt", "1.00"),
            el("BookgDt", "", vec![leaf("Dt", "")]),
            leaf("AddtlNtryInf", ""),
            leaf("CdtDbtInd", "CRDT"),
        ],
    )]);
    let rows = process_camt53(&root).unwrap();
    assert_eq!(rows[0].date, "");
    assert_eq!(rows[0].description, "");
    assert_eq!(rows[0].account, "IBAN");
}
