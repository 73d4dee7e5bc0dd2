//! The extraction algorithm: locating the statement, scanning its children
//! in document order, exploding entries on their transaction details and
//! resolving amounts, directions and counterparty descriptions.
//!
//! Each executable function is specified against a spec function here that
//! states the produced records (or the aborting error) as a fold over the
//! document's children.

use vstd::prelude::*;

use crate::intparse::{parse_i64, spec_parse_i64};
use crate::records::{entries_view, EntryModel, ExtractError, FlatEntry, Part, StatementInfo};
use crate::xml::{str_eq, XmlNode};

verus! {

// ---------------------------------------------------------------------------
// Detail enrichment
// ---------------------------------------------------------------------------

/// The running state of one transaction-detail scan: the description built
/// so far and the operation and amount texts once they have been seen.
pub struct DetailScan {
    pub description: Seq<char>,
    pub operation: Option<Seq<char>>,
    pub amount: Option<Seq<char>>,
}

/// The sentinel put in a counterparty description when a related party's
/// account IBAN cannot be resolved.
pub open spec fn no_iban_sentinel() -> Seq<char> {
    "no IBAN"@
}

/// The IBAN of a related party's account element (`CdtrAcct` or
/// `DbtrAcct`), reached through `Id/IBAN`; the sentinel when any step of
/// that path is absent.
pub open spec fn spec_acct_iban(rp: XmlNode, acct_name: Seq<char>) -> Seq<char> {
    match rp.spec_child_named(acct_name) {
        Some(acct) => match acct.spec_descend2("Id"@, "IBAN"@) {
            Some(el) => el.text@,
            None => no_iban_sentinel(),
        },
        None => no_iban_sentinel(),
    }
}

/// One party's identity: its name and account IBAN if the party element is
/// present (a party without a name aborts), the fallback pair otherwise.
pub open spec fn spec_party_identity(
    rp: XmlNode,
    party_name: Seq<char>,
    acct_name: Seq<char>,
    missing_nm: Part,
    fallback: (Seq<char>, Seq<char>),
) -> Result<(Seq<char>, Seq<char>), ExtractError> {
    match rp.spec_child_named(party_name) {
        None => Ok(fallback),
        Some(p) => match p.spec_child_named("Nm"@) {
            None => Err(ExtractError::Structure(missing_nm)),
            Some(nm) => Ok((nm.text@, spec_acct_iban(rp, acct_name))),
        },
    }
}

/// The counterparty description built from one `RltdPties` element: the
/// creditor's identity if present, then overridden by the debtor's if
/// present — the debtor wins when both occur — joined as `name - iban`.
pub open spec fn spec_parties_description(rp: XmlNode) -> Result<Seq<char>, ExtractError> {
    let fallback = ("unknown_partner"@, "unknown_iban"@);
    match spec_party_identity(rp, "Cdtr"@, "CdtrAcct"@, Part::CdtrNm, fallback) {
        Err(e) => Err(e),
        Ok(after_cdtr) => match spec_party_identity(
            rp,
            "Dbtr"@,
            "DbtrAcct"@,
            Part::DbtrNm,
            after_cdtr,
        ) {
            Err(e) => Err(e),
            Ok(identity) => Ok(identity.0 + " - "@ + identity.1),
        },
    }
}

/// One step of a detail scan, reacting to one child of `TxDtls`: amounts
/// and indicators are remembered (a later occurrence replaces an earlier
/// one), related parties replace the description, remittance text is
/// appended to it, anything else is passed over.
pub open spec fn spec_detail_step(st: DetailScan, c: XmlNode) -> Result<DetailScan, ExtractError> {
    if c.name@ == "Amt"@ {
        Ok(DetailScan { amount: Some(c.text@), ..st })
    } else if c.name@ == "CdtDbtInd"@ {
        Ok(DetailScan { operation: Some(c.text@), ..st })
    } else if c.name@ == "RltdPties"@ {
        match spec_parties_description(c) {
            Err(e) => Err(e),
            Ok(d) => Ok(DetailScan { description: d, ..st }),
        }
    } else if c.name@ == "RmtInf"@ {
        match c.spec_child_named("Ustrd"@) {
            None => Err(ExtractError::Structure(Part::Ustrd)),
            Some(u) => Ok(DetailScan { description: st.description + u.text@, ..st }),
        }
    } else {
        Ok(st)
    }
}

/// A whole detail scan: `spec_detail_step` folded over the children from
/// the front, stopping at the first error.
pub open spec fn spec_detail_scan(s: Seq<XmlNode>, init: DetailScan) -> Result<
    DetailScan,
    ExtractError,
>
    decreases s.len(),
{
    if s.len() == 0 {
        Ok(init)
    } else {
        match spec_detail_scan(s.drop_last(), init) {
            Ok(st) => spec_detail_step(st, s.last()),
            Err(e) => Err(e),
        }
    }
}

/// Once a prefix of a detail scan has failed, the whole scan fails the same
/// way: the first error aborts it.
pub proof fn lemma_detail_scan_stops(s: Seq<XmlNode>, init: DetailScan, i: int)
    requires
        0 <= i <= s.len(),
        spec_detail_scan(s.take(i), init) is Err,
    ensures
        spec_detail_scan(s, init) == spec_detail_scan(s.take(i), init),
    decreases s.len() - i,
{
    if i == s.len() {
        assert(s.take(i) =~= s);
    } else {
        assert(s.take(i + 1).drop_last() =~= s.take(i));
        lemma_detail_scan_stops(s, init, i + 1);
    }
}

/// The record one `TxDtls` element makes from the entry's template: the
/// scanned description replaces the template's, the scanned amount lands in
/// `debit` exactly when the scanned operation is `DBIT` and in `credit`
/// otherwise, and everything else — `ntry_type` in particular — is kept
/// from the template.  A scan that never saw an amount or an operation
/// aborts.
pub open spec fn spec_txdtls(template: EntryModel, tx: XmlNode) -> Result<
    EntryModel,
    ExtractError,
> {
    let init = DetailScan { description: template.description, operation: None, amount: None };
    match spec_detail_scan(tx.children@, init) {
        Err(e) => Err(e),
        Ok(st) => match st.amount {
            None => Err(ExtractError::MissingField(Part::Amount)),
            Some(amt) => match st.operation {
                None => Err(ExtractError::MissingField(Part::Operation)),
                Some(op) => Ok(
                    if op == "DBIT"@ {
                        EntryModel { description: st.description, debit: amt, credit: "0"@, ..template }
                    } else {
                        EntryModel { description: st.description, credit: amt, debit: "0"@, ..template }
                    },
                ),
            },
        },
    }
}

/// An optional text, reduced to its character sequence.
pub open spec fn opt_text(o: Option<String>) -> Option<Seq<char>> {
    match o {
        Some(s) => Some(s@),
        None => None,
    }
}

/// The IBAN of a related party's account, as `spec_acct_iban` describes.
fn acct_iban(rp: &XmlNode, acct_name: &str) -> (r: String)
    ensures
        r@ == spec_acct_iban(*rp, acct_name@),
{
    match rp.get_child(acct_name) {
        Some(acct) => match acct.get_descendant2("Id", "IBAN") {
            Some(el) => el.text.clone(),
            None => String::from_str("no IBAN"),
        },
        None => String::from_str("no IBAN"),
    }
}

/// Builds the counterparty description of one `RltdPties` element, as
/// `spec_parties_description` describes.
fn parties_description(rp: &XmlNode) -> (r: Result<String, ExtractError>)
    ensures
        match r {
            Ok(d) => spec_parties_description(*rp) == Ok::<Seq<char>, ExtractError>(d@),
            Err(e) => spec_parties_description(*rp) == Err::<Seq<char>, ExtractError>(e),
        },
{
    let mut partner = String::from_str("unknown_partner");
    let mut iban = String::from_str("unknown_iban");
    match rp.get_child("Cdtr") {
        Some(cdtr) => {
            match cdtr.get_child("Nm") {
                Some(nm) => {
                    partner = nm.text.clone();
                    iban = acct_iban(rp, "CdtrAcct");
                },
                None => {
                    return Err(ExtractError::Structure(Part::CdtrNm));
                },
            }
        },
        None => {},
    }
    match rp.get_child("Dbtr") {
        Some(dbtr) => {
            match dbtr.get_child("Nm") {
                Some(nm) => {
                    partner = nm.text.clone();
                    iban = acct_iban(rp, "DbtrAcct");
                },
                None => {
                    return Err(ExtractError::Structure(Part::DbtrNm));
                },
            }
        },
        None => {},
    }
    let mut description = partner;
    description.append(" - ");
    description.append(iban.as_str());
    Ok(description)
}

/// Enriches one clone of the entry template from one `TxDtls` element, as
/// `spec_txdtls` describes: the detail's own indicator decides where its
/// amount lands, while `ntry_type` keeps the entry-level token.
pub fn txdtls_parser(entry: &FlatEntry, tx_dtls: &XmlNode) -> (r: Result<FlatEntry, ExtractError>)
    ensures
        match r {
            Ok(rec) => spec_txdtls(entry@, *tx_dtls) == Ok::<EntryModel, ExtractError>(rec@),
            Err(e) => spec_txdtls(entry@, *tx_dtls) == Err::<EntryModel, ExtractError>(e),
        },
{
    let ghost init = DetailScan { description: entry.description@, operation: None, amount: None };
    let mut description = entry.description.clone();
    let mut operation: Option<String> = None;
    let mut amount: Option<String> = None;
    let n = tx_dtls.children.len();
    let mut i: usize = 0;
    while i < n
        invariant
            n == tx_dtls.children@.len(),
            i <= n,
            init == (DetailScan { description: entry.description@, operation: None, amount: None }),
            spec_detail_scan(tx_dtls.children@.take(i as int), init) == Ok::<
                DetailScan,
                ExtractError,
            >(
                DetailScan {
                    description: description@,
                    operation: opt_text(operation),
                    amount: opt_text(amount),
                },
            ),
        decreases n - i,
    {
        let c = &tx_dtls.children[i];
        proof {
            assert(tx_dtls.children@.take(i + 1).drop_last() =~= tx_dtls.children@.take(i as int));
            assert(tx_dtls.children@.take(i + 1).last() == tx_dtls.children@[i as int]);
        }
        if str_eq(c.name.as_str(), "Amt") {
            amount = Some(c.text.clone());
        } else if str_eq(c.name.as_str(), "CdtDbtInd") {
            operation = Some(c.text.clone());
        } else if str_eq(c.name.as_str(), "RltdPties") {
            match parties_description(c) {
                Ok(d) => {
                    description = d;
                },
                Err(e) => {
                    proof {
                        lemma_detail_scan_stops(tx_dtls.children@, init, i + 1);
                    }
                    return Err(e);
                },
            }
        } else if str_eq(c.name.as_str(), "RmtInf") {
            match c.get_child("Ustrd") {
                Some(u) => {
                    description.append(u.text.as_str());
                },
                None => {
                    proof {
                        lemma_detail_scan_stops(tx_dtls.children@, init, i + 1);
                    }
                    return Err(ExtractError::Structure(Part::Ustrd));
                },
            }
        }
        i = i + 1;
    }
    proof {
        assert(tx_dtls.children@.take(n as int) =~= tx_dtls.children@);
    }
    let amt = match amount {
        Some(a) => a,
        None => {
            return Err(ExtractError::MissingField(Part::Amount));
        },
    };
    let op = match operation {
        Some(o) => o,
        None => {
            return Err(ExtractError::MissingField(Part::Operation));
        },
    };
    let mut result = entry.duplicate();
    result.description = description;
    if str_eq(op.as_str(), "DBIT") {
        result.debit = amt;
        result.credit = String::from_str("0");
    } else {
        result.credit = amt;
        result.debit = String::from_str("0");
    }
    Ok(result)
}

// ---------------------------------------------------------------------------
// Entry extraction
// ---------------------------------------------------------------------------

/// A sequence of borrowed nodes, reduced to the nodes themselves.
pub open spec fn deref_all(s: Seq<&XmlNode>) -> Seq<XmlNode> {
    s.map_values(|t: &XmlNode| *t)
}

/// `deref_all` is elementwise dereferencing.
pub proof fn lemma_deref_all(s: Seq<&XmlNode>)
    ensures
        deref_all(s).len() == s.len(),
        forall|i: int| 0 <= i < s.len() ==> deref_all(s)[i] == *s[i],
{
}

/// `deref_all` commutes with appending one node.
pub proof fn lemma_deref_all_push(s: Seq<&XmlNode>, t: &XmlNode)
    ensures
        deref_all(s.push(t)) == deref_all(s).push(*t),
{
    lemma_deref_all(s);
    lemma_deref_all(s.push(t));
    assert(deref_all(s.push(t)) =~= deref_all(s).push(*t));
}

/// The `TxDtls` elements directly under one sequence of children, in
/// document order.
pub open spec fn direct_tx_details(s: Seq<XmlNode>) -> Seq<XmlNode>
    decreases s.len(),
{
    if s.len() == 0 {
        Seq::empty()
    } else {
        direct_tx_details(s.drop_last()) + (
        if s.last().name@ == "TxDtls"@ {
            seq![s.last()]
        } else {
            Seq::empty()
        })
    }
}

/// Every `TxDtls` under an entry: those directly inside each `NtryDtls`
/// wrapper child, flattened into one sequence in document order.
pub open spec fn tx_details_in(s: Seq<XmlNode>) -> Seq<XmlNode>
    decreases s.len(),
{
    if s.len() == 0 {
        Seq::empty()
    } else {
        tx_details_in(s.drop_last()) + (
        if s.last().name@ == "NtryDtls"@ {
            direct_tx_details(s.last().children@)
        } else {
            Seq::empty()
        })
    }
}

/// The records of all transaction details in turn, each enriched from the
/// same template; the first failing detail aborts.
pub open spec fn spec_enrich_all(template: EntryModel, txs: Seq<XmlNode>) -> Result<
    Seq<EntryModel>,
    ExtractError,
>
    decreases txs.len(),
{
    if txs.len() == 0 {
        Ok(Seq::empty())
    } else {
        match spec_enrich_all(template, txs.drop_last()) {
            Ok(rs) => match spec_txdtls(template, txs.last()) {
                Ok(r) => Ok(rs.push(r)),
                Err(e) => Err(e),
            },
            Err(e) => Err(e),
        }
    }
}

/// Once a prefix of the details has failed, enriching them all fails the
/// same way: the first failing detail aborts.
pub proof fn lemma_enrich_all_stops(template: EntryModel, txs: Seq<XmlNode>, i: int)
    requires
        0 <= i <= txs.len(),
        spec_enrich_all(template, txs.take(i)) is Err,
    ensures
        spec_enrich_all(template, txs) == spec_enrich_all(template, txs.take(i)),
    decreases txs.len() - i,
{
    if i == txs.len() {
        assert(txs.take(i) =~= txs);
    } else {
        assert(txs.take(i + 1).drop_last() =~= txs.take(i));
        lemma_enrich_all_stops(template, txs, i + 1);
    }
}

/// An entry's base template: account from the statement scan, date,
/// description and indicator token from the entry's required children, and
/// the entry amount placed in `credit` exactly when the indicator equals
/// `CRDT` — any other token, malformed ones included, defaults to `debit`.
/// A missing required child aborts.
pub open spec fn spec_entry_template(account: Seq<char>, entry: XmlNode) -> Result<
    EntryModel,
    ExtractError,
> {
    match entry.spec_child_named("Amt"@) {
        None => Err(ExtractError::Structure(Part::Amt)),
        Some(amt) => match entry.spec_descend2("BookgDt"@, "Dt"@) {
            None => Err(ExtractError::Structure(Part::BookgDt)),
            Some(dt) => match entry.spec_child_named("AddtlNtryInf"@) {
                None => Err(ExtractError::Structure(Part::AddtlNtryInf)),
                Some(descr) => match entry.spec_child_named("CdtDbtInd"@) {
                    None => Err(ExtractError::Structure(Part::CdtDbtInd)),
                    Some(ind) => Ok(
                        EntryModel {
                            account: account,
                            date: dt.text@,
                            description: descr.text@,
                            ntry_type: ind.text@,
                            credit: if ind.text@ == "CRDT"@ {
                                amt.text@
                            } else {
                                "0"@
                            },
                            debit: if ind.text@ == "CRDT"@ {
                                "0"@
                            } else {
                                amt.text@
                            },
                        },
                    ),
                },
            },
        },
    }
}

/// What one entry contributes: one record per transaction detail when there
/// are any, the bare template as the sole record when there are none —
/// never both.
pub open spec fn spec_ntry(account: Seq<char>, entry: XmlNode) -> Result<
    Seq<EntryModel>,
    ExtractError,
> {
    match spec_entry_template(account, entry) {
        Err(e) => Err(e),
        Ok(template) => {
            let txs = tx_details_in(entry.children@);
            if txs.len() == 0 {
                Ok(seq![template])
            } else {
                spec_enrich_all(template, txs)
            }
        },
    }
}

/// Extracts one entry into its records, as `spec_ntry` describes: the base
/// template is built from the entry's required children, then either
/// emitted alone (no transaction details anywhere under the entry) or
/// enriched once per `TxDtls` found across all `NtryDtls` wrappers, in
/// document order — never both.
pub fn ntry_parser(account: String, child: &XmlNode) -> (r: Result<Vec<FlatEntry>, ExtractError>)
    ensures
        match r {
            Ok(v) => spec_ntry(account@, *child) == Ok::<Seq<EntryModel>, ExtractError>(
                entries_view(v@),
            ),
            Err(e) => spec_ntry(account@, *child) == Err::<Seq<EntryModel>, ExtractError>(e),
        },
{
    let amt = match child.get_child("Amt") {
        Some(c) => c,
        None => {
            return Err(ExtractError::Structure(Part::Amt));
        },
    };
    let dt = match child.get_descendant2("BookgDt", "Dt") {
        Some(c) => c,
        None => {
            return Err(ExtractError::Structure(Part::BookgDt));
        },
    };
    let descr = match child.get_child("AddtlNtryInf") {
        Some(c) => c,
        None => {
            return Err(ExtractError::Structure(Part::AddtlNtryInf));
        },
    };
    let ind = match child.get_child("CdtDbtInd") {
        Some(c) => c,
        None => {
            return Err(ExtractError::Structure(Part::CdtDbtInd));
        },
    };
    let is_credit = str_eq(ind.text.as_str(), "CRDT");
    let template = FlatEntry {
        account: account,
        date: dt.text.clone(),
        description: descr.text.clone(),
        debit: if is_credit {
            String::from_str("0")
        } else {
            amt.text.clone()
        },
        credit: if is_credit {
            amt.text.clone()
        } else {
            String::from_str("0")
        },
        ntry_type: ind.text.clone(),
    };
    proof {
        assert(spec_entry_template(account@, *child) == Ok::<EntryModel, ExtractError>(template@));
    }

    // gather every TxDtls under an NtryDtls wrapper, in document order
    let mut txs: Vec<&XmlNode> = Vec::new();
    let n = child.children.len();
    let mut i: usize = 0;
    while i < n
        invariant
            n == child.children@.len(),
            i <= n,
            deref_all(txs@) == tx_details_in(child.children@.take(i as int)),
        decreases n - i,
    {
        let w = &child.children[i];
        proof {
            assert(child.children@.take(i + 1).drop_last() =~= child.children@.take(i as int));
            assert(child.children@.take(i + 1).last() == child.children@[i as int]);
        }
        if str_eq(w.name.as_str(), "NtryDtls") {
            let ghost txs_before = deref_all(txs@);
            let m = w.children.len();
            let mut j: usize = 0;
            while j < m
                invariant
                    m == w.children@.len(),
                    j <= m,
                    txs_before == tx_details_in(child.children@.take(i as int)),
                    deref_all(txs@) == txs_before + direct_tx_details(
                        w.children@.take(j as int),
                    ),
                decreases m - j,
            {
                let c = &w.children[j];
                proof {
                    assert(w.children@.take(j + 1).drop_last() =~= w.children@.take(j as int));
                    assert(w.children@.take(j + 1).last() == w.children@[j as int]);
                }
                if str_eq(c.name.as_str(), "TxDtls") {
                    let ghost pre_txs = txs@;
                    txs.push(c);
                    proof {
                        lemma_deref_all_push(pre_txs, c);
                        assert(direct_tx_details(w.children@.take(j + 1))
                            == direct_tx_details(w.children@.take(j as int)) + seq![
                            w.children@[j as int],
                        ]);
                        assert(deref_all(txs@) =~= txs_before
                            + direct_tx_details(w.children@.take(j + 1)));
                    }
                } else {
                    proof {
                        assert(txs_before + direct_tx_details(w.children@.take(j + 1)) =~= txs_before
                            + direct_tx_details(w.children@.take(j as int)));
                    }
                }
                j = j + 1;
            }
            proof {
                assert(w.children@.take(m as int) =~= w.children@);
                assert(txs_before + direct_tx_details(w.children@) =~= tx_details_in(
                    child.children@.take(i + 1),
                ));
            }
        } else {
            proof {
                assert(tx_details_in(child.children@.take(i + 1)) =~= tx_details_in(
                    child.children@.take(i as int),
                ));
            }
        }
        i = i + 1;
    }
    proof {
        assert(child.children@.take(n as int) =~= child.children@);
    }
    let ghost spec_txs = tx_details_in(child.children@);
    proof {
        lemma_deref_all(txs@);
    }

    if txs.len() == 0 {
        let mut out: Vec<FlatEntry> = Vec::new();
        out.push(template);
        proof {
            assert(entries_view(out@) =~= seq![out@[0]@]);
        }
        return Ok(out);
    }

    // enrich one clone of the template per detail
    let mut out: Vec<FlatEntry> = Vec::new();
    proof {
        assert(spec_txs.take(0) =~= Seq::<XmlNode>::empty());
        assert(entries_view(out@) =~= Seq::<EntryModel>::empty());
    }
    let count = txs.len();
    let mut k: usize = 0;
    while k < count
        invariant
            count == txs@.len(),
            k <= count,
            deref_all(txs@) == spec_txs,
            spec_txs == tx_details_in(child.children@),
            spec_txs.len() == count,
            count > 0,
            spec_entry_template(account@, *child) == Ok::<EntryModel, ExtractError>(template@),
            spec_enrich_all(template@, spec_txs.take(k as int)) == Ok::<
                Seq<EntryModel>,
                ExtractError,
            >(entries_view(out@)),
        decreases count - k,
    {
        let tx: &XmlNode = txs[k];
        proof {
            assert(spec_txs[k as int] == *txs@[k as int]);
            assert(spec_txs.take(k + 1).drop_last() =~= spec_txs.take(k as int));
            assert(spec_txs.take(k + 1).last() == spec_txs[k as int]);
        }
        match txdtls_parser(&template, tx) {
            Ok(rec) => {
                out.push(rec);
                proof {
                    assert(entries_view(out@) =~= spec_enrich_all(
                        template@,
                        spec_txs.take(k + 1),
                    )->Ok_0);
                }
            },
            Err(e) => {
                proof {
                    lemma_enrich_all_stops(template@, spec_txs, k + 1);
                }
                return Err(e);
            },
        }
        k = k + 1;
    }
    proof {
        assert(spec_txs.take(count as int) =~= spec_txs);
    }
    Ok(out)
}

// ---------------------------------------------------------------------------
// Statement scan
// ---------------------------------------------------------------------------

/// The running state of the statement scan: the IBAN and declared entry
/// count seen so far, and the records produced so far.
pub struct StmtScan {
    pub iban: Seq<char>,
    pub entries_count: int,
    pub out: Seq<EntryModel>,
}

/// The scan state before any child has been looked at: a placeholder IBAN,
/// a zero entry count, no records.
pub open spec fn spec_stmt_init() -> StmtScan {
    StmtScan { iban: "IBAN"@, entries_count: 0, out: Seq::empty() }
}

/// One step of the statement scan, reacting to one direct child of `Stmt`:
/// a sequence number is parsed (aborting when malformed), an account
/// element replaces the IBAN seen so far (aborting when it holds none), an
/// entry contributes records built with the IBAN as of this point, and
/// anything else is passed over.
pub open spec fn spec_stmt_step(st: StmtScan, c: XmlNode) -> Result<StmtScan, ExtractError> {
    if c.name@ == "ElctrncSeqNb"@ {
        match spec_parse_i64(c.text@) {
            None => Err(ExtractError::Format(Part::ElctrncSeqNb)),
            Some(v) => Ok(StmtScan { entries_count: v as int, ..st }),
        }
    } else if c.name@ == "Acct"@ {
        match c.spec_descend2("Id"@, "IBAN"@) {
            None => Err(ExtractError::Structure(Part::AcctIban)),
            Some(el) => Ok(StmtScan { iban: el.text@, ..st }),
        }
    } else if c.name@ == "Ntry"@ {
        match spec_ntry(st.iban, c) {
            Err(e) => Err(e),
            Ok(rs) => Ok(StmtScan { out: st.out + rs, ..st }),
        }
    } else {
        Ok(st)
    }
}

/// A whole statement scan: `spec_stmt_step` folded over `Stmt`'s children
/// from the front, stopping at the first error.
pub open spec fn spec_stmt_scan(s: Seq<XmlNode>) -> Result<StmtScan, ExtractError>
    decreases s.len(),
{
    if s.len() == 0 {
        Ok(spec_stmt_init())
    } else {
        match spec_stmt_scan(s.drop_last()) {
            Ok(st) => spec_stmt_step(st, s.last()),
            Err(e) => Err(e),
        }
    }
}

/// Once a prefix of the statement scan has failed, the whole scan fails the
/// same way: the first error aborts the run.
pub proof fn lemma_stmt_scan_stops(s: Seq<XmlNode>, i: int)
    requires
        0 <= i <= s.len(),
        spec_stmt_scan(s.take(i)) is Err,
    ensures
        spec_stmt_scan(s) == spec_stmt_scan(s.take(i)),
    decreases s.len() - i,
{
    if i == s.len() {
        assert(s.take(i) =~= s);
    } else {
        assert(s.take(i + 1).drop_last() =~= s.take(i));
        lemma_stmt_scan_stops(s, i + 1);
    }
}

/// The IBAN in effect after passing `s`: the text found under the last
/// `Acct` element that resolves one, the placeholder when none has been
/// passed.  (An `Acct` element that resolves none aborts the scan itself;
/// it is skipped here so that the function is total.)
pub open spec fn iban_so_far(s: Seq<XmlNode>) -> Seq<char>
    decreases s.len(),
{
    if s.len() == 0 {
        "IBAN"@
    } else if s.last().name@ == "Acct"@ {
        match s.last().spec_descend2("Id"@, "IBAN"@) {
            Some(el) => el.text@,
            None => iban_so_far(s.drop_last()),
        }
    } else {
        iban_so_far(s.drop_last())
    }
}

/// What a whole document yields: the records of the statement scan, found
/// by descending `BkToCstmrStmt` then `Stmt`; a document without that
/// spine aborts.
pub open spec fn spec_process(root: XmlNode) -> Result<Seq<EntryModel>, ExtractError> {
    match root.spec_child_named("BkToCstmrStmt"@) {
        None => Err(ExtractError::Structure(Part::BkToCstmrStmt)),
        Some(b) => match b.spec_child_named("Stmt"@) {
            None => Err(ExtractError::Structure(Part::Stmt)),
            Some(stmt) => match spec_stmt_scan(stmt.children@) {
                Err(e) => Err(e),
                Ok(st) => Ok(st.out),
            },
        },
    }
}

/// Extracts every record of one document, as `spec_process` describes:
/// `Stmt`'s direct children are scanned exactly once, in document order,
/// each entry seeded with the IBAN observed so far — never one resolved by
/// a pre-scan — and the records are appended in that same order.
pub fn process_camt53(root: &XmlNode) -> (r: Result<Vec<FlatEntry>, ExtractError>)
    ensures
        match r {
            Ok(v) => spec_process(*root) == Ok::<Seq<EntryModel>, ExtractError>(entries_view(v@)),
            Err(e) => spec_process(*root) == Err::<Seq<EntryModel>, ExtractError>(e),
        },
{
    let customer_statement = match root.get_child("BkToCstmrStmt") {
        Some(c) => c,
        None => {
            return Err(ExtractError::Structure(Part::BkToCstmrStmt));
        },
    };
    let stmt = match customer_statement.get_child("Stmt") {
        Some(c) => c,
        None => {
            return Err(ExtractError::Structure(Part::Stmt));
        },
    };
    let mut ntry_vec: Vec<FlatEntry> = Vec::new();
    let mut stmt_info = StatementInfo { iban: String::from_str("IBAN"), entries_count: 0 };
    proof {
        assert(stmt.children@.take(0) =~= Seq::<XmlNode>::empty());
        assert(entries_view(ntry_vec@) =~= Seq::<EntryModel>::empty());
    }
    let n = stmt.children.len();
    let mut i: usize = 0;
    while i < n
        invariant
            n == stmt.children@.len(),
            i <= n,
            root.spec_child_named("BkToCstmrStmt"@) == Some(*customer_statement),
            customer_statement.spec_child_named("Stmt"@) == Some(*stmt),
            spec_stmt_scan(stmt.children@.take(i as int)) == Ok::<StmtScan, ExtractError>(
                StmtScan {
                    iban: stmt_info.iban@,
                    entries_count: stmt_info.entries_count as int,
                    out: entries_view(ntry_vec@),
                },
            ),
        decreases n - i,
    {
        let c = &stmt.children[i];
        proof {
            assert(stmt.children@.take(i + 1).drop_last() =~= stmt.children@.take(i as int));
            assert(stmt.children@.take(i + 1).last() == stmt.children@[i as int]);
        }
        if str_eq(c.name.as_str(), "ElctrncSeqNb") {
            match parse_i64(c.text.as_str()) {
                Some(v) => {
                    stmt_info.entries_count = v;
                },
                None => {
                    proof {
                        lemma_stmt_scan_stops(stmt.children@, i + 1);
                    }
                    return Err(ExtractError::Format(Part::ElctrncSeqNb));
                },
            }
        } else if str_eq(c.name.as_str(), "Acct") {
            match c.get_descendant2("Id", "IBAN") {
                Some(el) => {
                    stmt_info.iban = el.text.clone();
                },
                None => {
                    proof {
                        lemma_stmt_scan_stops(stmt.children@, i + 1);
                    }
                    return Err(ExtractError::Structure(Part::AcctIban));
                },
            }
        } else if str_eq(c.name.as_str(), "Ntry") {
            match ntry_parser(stmt_info.iban.clone(), c) {
                Ok(mut res) => {
                    let ghost pre_out = ntry_vec@;
                    let ghost res_seq = res@;
                    ntry_vec.append(&mut res);
                    proof {
                        assert(entries_view(pre_out + res_seq) =~= entries_view(pre_out)
                            + entries_view(res_seq));
                    }
                },
                Err(e) => {
                    proof {
                        lemma_stmt_scan_stops(stmt.children@, i + 1);
                    }
                    return Err(e);
                },
            }
        }
        i = i + 1;
    }
    proof {
        assert(stmt.children@.take(n as int) =~= stmt.children@);
    }
    Ok(ntry_vec)
}

} // verus!
