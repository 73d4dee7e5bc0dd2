//! The general guarantees of the extraction, each proved from the spec
//! functions that the executable functions are verified against.

use vstd::prelude::*;

use crate::extract::{
    iban_so_far, lemma_stmt_scan_stops, spec_acct_iban, spec_detail_scan, spec_enrich_all,
    spec_entry_template, spec_ntry, spec_parties_description, spec_process, spec_stmt_scan,
    spec_txdtls, tx_details_in, DetailScan, StmtScan,
};
use crate::intparse::spec_parse_i64;
use crate::records::{EntryModel, ExtractError, Part};
use crate::xml::XmlNode;

verus! {

/// An entry with no transaction details anywhere beneath it yields exactly
/// one record: its undecorated template, whose amount sits in `credit` when
/// the entry-level indicator is `CRDT` and in `debit` for any other token.
pub proof fn lemma_entry_without_details(account: Seq<char>, entry: XmlNode)
    requires
        spec_ntry(account, entry) is Ok,
        tx_details_in(entry.children@).len() == 0,
    ensures
        spec_ntry(account, entry)->Ok_0.len() == 1,
        spec_entry_template(account, entry) is Ok,
        spec_ntry(account, entry)->Ok_0[0] == spec_entry_template(account, entry)->Ok_0,
        ({
            let rec = spec_ntry(account, entry)->Ok_0[0];
            let amt = entry.spec_child_named("Amt"@)->Some_0.text@;
            &&& rec.account == account
            &&& if rec.ntry_type == "CRDT"@ {
                rec.credit == amt && rec.debit == "0"@
            } else {
                rec.debit == amt && rec.credit == "0"@
            }
        }),
{
}

/// Every successfully enriched detail sequence yields one record per
/// detail, each the enrichment of the corresponding detail.
pub proof fn lemma_enrich_all_elements(template: EntryModel, txs: Seq<XmlNode>)
    requires
        spec_enrich_all(template, txs) is Ok,
    ensures
        spec_enrich_all(template, txs)->Ok_0.len() == txs.len(),
        forall|k: int|
            0 <= k < txs.len() ==> (#[trigger] spec_txdtls(template, txs[k])) is Ok
                && spec_enrich_all(template, txs)->Ok_0[k] == spec_txdtls(template, txs[k])->Ok_0,
    decreases txs.len(),
{
    if txs.len() > 0 {
        let prefix = txs.drop_last();
        lemma_enrich_all_elements(template, prefix);
        let rs = spec_enrich_all(template, prefix)->Ok_0;
        let r = spec_txdtls(template, txs.last())->Ok_0;
        assert(spec_enrich_all(template, txs)->Ok_0 == rs.push(r));
        assert forall|k: int|
            0 <= k < txs.len() implies (#[trigger] spec_txdtls(template, txs[k])) is Ok
            && spec_enrich_all(template, txs)->Ok_0[k] == spec_txdtls(template, txs[k])->Ok_0 by {
            if k < txs.len() - 1 {
                assert(prefix[k] == txs[k]);
                assert(spec_txdtls(template, prefix[k]) is Ok);
                assert(rs.push(r)[k] == rs[k]);
            } else {
                assert(txs[k] == txs.last());
                assert(rs.push(r)[k] == r);
            }
        }
    }
}

/// An entry with details — however they are spread over `NtryDtls`
/// wrappers — yields exactly one record per detail, each the enrichment of
/// its detail from the entry's template; the undecorated template itself
/// is not among them unless some detail's enrichment reproduces it exactly
/// (which a detail that repeats the entry's own amount and indicator and
/// names no parties does).
pub proof fn lemma_entry_with_details(account: Seq<char>, entry: XmlNode)
    requires
        spec_ntry(account, entry) is Ok,
        tx_details_in(entry.children@).len() > 0,
    ensures
        spec_ntry(account, entry)->Ok_0.len() == tx_details_in(entry.children@).len(),
        forall|k: int|
            0 <= k < tx_details_in(entry.children@).len() ==> spec_ntry(account, entry)->Ok_0[k]
                == spec_txdtls(
                spec_entry_template(account, entry)->Ok_0,
                tx_details_in(entry.children@)[k],
            )->Ok_0,
{
    lemma_enrich_all_elements(
        spec_entry_template(account, entry)->Ok_0,
        tx_details_in(entry.children@),
    );
}

/// How one detail resolves: its scanned amount lands in `debit` exactly
/// when its scanned operation is `DBIT` and in `credit` otherwise, the
/// other side is the literal `"0"` — both only coincide when the amount
/// text itself is `"0"` — and account, date and the entry-level
/// `ntry_type` are kept from the template untouched.
pub proof fn lemma_txdtls_resolution(template: EntryModel, tx: XmlNode)
    requires
        spec_txdtls(template, tx) is Ok,
    ensures
        ({
            let init = DetailScan {
                description: template.description,
                operation: None,
                amount: None,
            };
            let st = spec_detail_scan(tx.children@, init)->Ok_0;
            let rec = spec_txdtls(template, tx)->Ok_0;
            &&& st.amount is Some
            &&& st.operation is Some
            &&& rec.account == template.account
            &&& rec.date == template.date
            &&& rec.ntry_type == template.ntry_type
            &&& rec.description == st.description
            &&& if st.operation->Some_0 == "DBIT"@ {
                rec.debit == st.amount->Some_0 && rec.credit == "0"@
            } else {
                rec.credit == st.amount->Some_0 && rec.debit == "0"@
            }
            &&& (st.amount->Some_0 != "0"@ ==> !(rec.debit == "0"@ && rec.credit == "0"@))
        }),
{
}

/// A record has at least one side equal to the literal `"0"`.
pub open spec fn amount_shape(rec: EntryModel) -> bool {
    rec.debit == "0"@ || rec.credit == "0"@
}

/// Every record of `recs` carries `account` and has one side of its amount
/// pair equal to `"0"`.
pub open spec fn seeded_with(recs: Seq<EntryModel>, account: Seq<char>) -> bool {
    forall|k: int| 0 <= k < recs.len() ==> (#[trigger] recs[k]).account == account && amount_shape(recs[k])
}

/// Every record of `recs` has one side of its amount pair equal to `"0"`.
pub open spec fn all_amount_shaped(recs: Seq<EntryModel>) -> bool {
    forall|k: int| 0 <= k < recs.len() ==> amount_shape(#[trigger] recs[k])
}

/// Every record an entry yields carries the account it was given and has
/// one side of its amount pair equal to `"0"`.
pub proof fn lemma_ntry_shape(account: Seq<char>, entry: XmlNode)
    requires
        spec_ntry(account, entry) is Ok,
    ensures
        seeded_with(spec_ntry(account, entry)->Ok_0, account),
{
    let out = spec_ntry(account, entry)->Ok_0;
    let template = spec_entry_template(account, entry)->Ok_0;
    let txs = tx_details_in(entry.children@);
    if txs.len() == 0 {
        lemma_entry_without_details(account, entry);
        assert(out[0].account == account && amount_shape(out[0]));
    } else {
        assert(spec_enrich_all(template, txs) is Ok);
        lemma_enrich_all_elements(template, txs);
        assert forall|k: int|
            0 <= k < out.len() implies (#[trigger] out[k]).account == account && amount_shape(
            out[k],
        ) by {
            assert(spec_txdtls(template, txs[k]) is Ok);
            lemma_txdtls_resolution(template, txs[k]);
            assert(out[k] == spec_txdtls(template, txs[k])->Ok_0);
        }
    }
}

/// The three child names the statement scan reacts to are pairwise
/// distinct, so exactly one branch of `spec_stmt_step` can fire.
proof fn lemma_scan_names_distinct()
    ensures
        "ElctrncSeqNb"@ != "Acct"@,
        "ElctrncSeqNb"@ != "Ntry"@,
        "Acct"@ != "Ntry"@,
{
    reveal_strlit("Acct");
    reveal_strlit("ElctrncSeqNb");
    reveal_strlit("Ntry");
    assert("Acct"@.len() == 4);
    assert("ElctrncSeqNb"@.len() == 12);
    assert("Ntry"@.len() == 4);
    assert("Acct"@[0] == 'A');
    assert("Ntry"@[0] == 'N');
}

/// Every record a statement scan has produced has one side of its amount
/// pair equal to `"0"`.
pub proof fn lemma_stmt_scan_shape(s: Seq<XmlNode>)
    requires
        spec_stmt_scan(s) is Ok,
    ensures
        all_amount_shaped(spec_stmt_scan(s)->Ok_0.out),
    decreases s.len(),
{
    lemma_scan_names_distinct();
    if s.len() > 0 {
        let prefix = s.drop_last();
        assert(spec_stmt_scan(prefix) is Ok);
        lemma_stmt_scan_shape(prefix);
        let st = spec_stmt_scan(prefix)->Ok_0;
        let c = s.last();
        let cur = spec_stmt_scan(s)->Ok_0;
        if c.name@ == "Ntry"@ {
            lemma_ntry_shape(st.iban, c);
            let rs = spec_ntry(st.iban, c)->Ok_0;
            assert(cur.out == st.out + rs);
            assert forall|k: int| 0 <= k < cur.out.len() implies amount_shape(
                #[trigger] cur.out[k],
            ) by {
                if k < st.out.len() {
                    assert(cur.out[k] == st.out[k]);
                } else {
                    assert(cur.out[k] == rs[k - st.out.len()]);
                }
            }
        } else {
            assert(cur.out == st.out);
        }
    }
}

/// Every record a whole document yields has exactly one side of its amount
/// pair equal to the literal `"0"` — the other carries the resolved amount
/// text verbatim, as `lemma_entry_without_details` and
/// `lemma_txdtls_resolution` state — with the two sides coinciding only
/// when that amount text is itself `"0"`.
pub proof fn lemma_process_shape(root: XmlNode)
    requires
        spec_process(root) is Ok,
    ensures
        all_amount_shaped(spec_process(root)->Ok_0),
{
    let stmt = root.spec_child_named("BkToCstmrStmt"@)->Some_0.spec_child_named("Stmt"@)->Some_0;
    lemma_stmt_scan_shape(stmt.children@);
}

/// The scan's IBAN is positional: after any successful scan it is the text
/// of the last resolvable `Acct` element passed, or the placeholder when
/// none was.
pub proof fn lemma_scan_tracks_iban(s: Seq<XmlNode>)
    requires
        spec_stmt_scan(s) is Ok,
    ensures
        spec_stmt_scan(s)->Ok_0.iban == iban_so_far(s),
    decreases s.len(),
{
    lemma_scan_names_distinct();
    if s.len() > 0 {
        let prefix = s.drop_last();
        assert(spec_stmt_scan(prefix) is Ok);
        lemma_scan_tracks_iban(prefix);
        let st = spec_stmt_scan(prefix)->Ok_0;
        let c = s.last();
        if c.name@ == "Acct"@ {
            assert(c.spec_descend2("Id"@, "IBAN"@) is Some);
        }
    }
}

/// Before any `Acct` element has been passed, the IBAN seen so far is the
/// placeholder.
pub proof fn lemma_iban_default(s: Seq<XmlNode>)
    requires
        forall|j: int| 0 <= j < s.len() ==> s[j].name@ != "Acct"@,
    ensures
        iban_so_far(s) == "IBAN"@,
    decreases s.len(),
{
    if s.len() > 0 {
        assert(forall|j: int| 0 <= j < s.len() - 1 ==> s.drop_last()[j] == s[j]);
        lemma_iban_default(s.drop_last());
    }
}

/// After the last `Acct` element, the IBAN seen so far is the one found
/// there.
pub proof fn lemma_iban_after_acct(s: Seq<XmlNode>, j: int)
    requires
        0 <= j < s.len(),
        s[j].name@ == "Acct"@,
        forall|m: int| j < m < s.len() ==> s[m].name@ != "Acct"@,
        s[j].spec_descend2("Id"@, "IBAN"@) is Some,
    ensures
        iban_so_far(s) == s[j].spec_descend2("Id"@, "IBAN"@)->Some_0.text@,
    decreases s.len() - j,
{
    if j == s.len() - 1 {
    } else {
        assert(forall|m: int| 0 <= m < s.len() - 1 ==> s.drop_last()[m] == s[m]);
        lemma_iban_after_acct(s.drop_last(), j);
    }
}

/// IBAN resolution is positional: an entry is seeded with the IBAN seen
/// strictly before it in the scan — the placeholder when no `Acct` element
/// precedes it, never a value found later in the document — and every
/// record it contributes carries that IBAN as its account.
pub proof fn lemma_iban_resolution_is_positional(s: Seq<XmlNode>, i: int)
    requires
        0 <= i < s.len(),
        s[i].name@ == "Ntry"@,
        spec_stmt_scan(s.take(i + 1)) is Ok,
    ensures
        spec_stmt_scan(s.take(i)) is Ok,
        spec_ntry(iban_so_far(s.take(i)), s[i]) is Ok,
        spec_stmt_scan(s.take(i + 1))->Ok_0.out == spec_stmt_scan(s.take(i))->Ok_0.out + spec_ntry(
            iban_so_far(s.take(i)),
            s[i],
        )->Ok_0,
        seeded_with(spec_ntry(iban_so_far(s.take(i)), s[i])->Ok_0, iban_so_far(s.take(i))),
        (forall|j: int| 0 <= j < i ==> s[j].name@ != "Acct"@) ==> iban_so_far(s.take(i)) == "IBAN"@,
{
    lemma_scan_names_distinct();
    let pre = s.take(i);
    assert(s.take(i + 1).drop_last() =~= pre);
    assert(s.take(i + 1).last() == s[i]);
    assert(spec_stmt_scan(pre) is Ok);
    let st = spec_stmt_scan(pre)->Ok_0;
    assert(spec_ntry(st.iban, s[i]) is Ok);
    lemma_scan_tracks_iban(pre);
    lemma_ntry_shape(iban_so_far(pre), s[i]);
    if forall|j: int| 0 <= j < i ==> s[j].name@ != "Acct"@ {
        assert(forall|j: int| 0 <= j < pre.len() ==> pre[j].name@ != "Acct"@);
        lemma_iban_default(pre);
    }
}

/// When one `RltdPties` element holds both a creditor and a debtor, the
/// debtor's identity wins: the description is built from the debtor's name
/// and the debtor-side account IBAN.
pub proof fn lemma_debtor_overrides_creditor(rp: XmlNode)
    requires
        rp.spec_child_named("Cdtr"@) is Some,
        rp.spec_child_named("Dbtr"@) is Some,
        spec_parties_description(rp) is Ok,
    ensures
        spec_parties_description(rp)->Ok_0 == rp.spec_child_named("Dbtr"@)->Some_0.spec_child_named(
            "Nm"@,
        )->Some_0.text@ + " - "@ + spec_acct_iban(rp, "DbtrAcct"@),
{
}

/// A malformed sequence number aborts the whole scan — and with it the
/// run, before any record is surfaced — with a format error, provided
/// nothing before it already aborted the scan.
pub proof fn lemma_malformed_seqnb_aborts(s: Seq<XmlNode>, i: int)
    requires
        0 <= i < s.len(),
        s[i].name@ == "ElctrncSeqNb"@,
        spec_parse_i64(s[i].text@) is None,
        spec_stmt_scan(s.take(i)) is Ok,
    ensures
        spec_stmt_scan(s) == Err::<StmtScan, ExtractError>(ExtractError::Format(
            Part::ElctrncSeqNb,
        )),
{
    assert(s.take(i + 1).drop_last() =~= s.take(i));
    assert(s.take(i + 1).last() == s[i]);
    lemma_stmt_scan_stops(s, i + 1);
}

} // verus!


