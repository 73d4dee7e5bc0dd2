//! The output record of the extraction and the errors that abort it.

use vstd::prelude::*;

verus! {

/// The document parts whose absence or malformed content aborts a run.
#[derive(Clone, Copy, PartialEq, Eq, Structural, Debug)]
pub enum Part {
    /// The top-level bank-to-customer statement wrapper.
    BkToCstmrStmt,
    /// The statement element beneath the wrapper.
    Stmt,
    /// The statement's declared electronic sequence number.
    ElctrncSeqNb,
    /// The account IBAN reached through `Acct/Id/IBAN`.
    AcctIban,
    /// An entry's amount element.
    Amt,
    /// An entry's booking date reached through `BookgDt/Dt`.
    BookgDt,
    /// An entry's additional-information text.
    AddtlNtryInf,
    /// An entry's credit/debit indicator.
    CdtDbtInd,
    /// A creditor without a name element.
    CdtrNm,
    /// A debtor without a name element.
    DbtrNm,
    /// Remittance information without unstructured text.
    Ustrd,
    /// The amount field of a transaction-detail scan.
    Amount,
    /// The operation (credit/debit indicator) field of a detail scan.
    Operation,
}

/// Why an extraction run was aborted.  None of these is recovered from:
/// a failing document produces no records at all.
#[derive(Clone, Copy, PartialEq, Eq, Structural, Debug)]
pub enum ExtractError {
    /// A required element is absent: the document does not have the
    /// expected shape.
    Structure(Part),
    /// An element's text does not parse as the expected scalar.
    Format(Part),
    /// A required field was never observed anywhere during a detail scan.
    MissingField(Part),
}

impl Part {
    /// The part's name as it appears in the source schema.
    pub open spec fn spec_name(self) -> Seq<char> {
        match self {
            Part::BkToCstmrStmt => "BkToCstmrStmt"@,
            Part::Stmt => "Stmt"@,
            Part::ElctrncSeqNb => "ElctrncSeqNb"@,
            Part::AcctIban => "Acct/Id/IBAN"@,
            Part::Amt => "Amt"@,
            Part::BookgDt => "BookgDt/Dt"@,
            Part::AddtlNtryInf => "AddtlNtryInf"@,
            Part::CdtDbtInd => "CdtDbtInd"@,
            Part::CdtrNm => "Cdtr/Nm"@,
            Part::DbtrNm => "Dbtr/Nm"@,
            Part::Ustrd => "RmtInf/Ustrd"@,
            Part::Amount => "amount"@,
            Part::Operation => "operation type"@,
        }
    }

    /// The part's name, for error reporting.
    pub fn name_text(&self) -> (r: String)
        ensures
            r@ == self.spec_name(),
    {
        match self {
            Part::BkToCstmrStmt => String::from_str("BkToCstmrStmt"),
            Part::Stmt => String::from_str("Stmt"),
            Part::ElctrncSeqNb => String::from_str("ElctrncSeqNb"),
            Part::AcctIban => String::from_str("Acct/Id/IBAN"),
            Part::Amt => String::from_str("Amt"),
            Part::BookgDt => String::from_str("BookgDt/Dt"),
            Part::AddtlNtryInf => String::from_str("AddtlNtryInf"),
            Part::CdtDbtInd => String::from_str("CdtDbtInd"),
            Part::CdtrNm => String::from_str("Cdtr/Nm"),
            Part::DbtrNm => String::from_str("Dbtr/Nm"),
            Part::Ustrd => String::from_str("RmtInf/Ustrd"),
            Part::Amount => String::from_str("amount"),
            Part::Operation => String::from_str("operation type"),
        }
    }
}

impl ExtractError {
    /// The descriptive message an aborted run surfaces.
    pub open spec fn spec_message(self) -> Seq<char> {
        match self {
            ExtractError::Structure(p) => "missing element: "@ + p.spec_name(),
            ExtractError::Format(p) => "malformed value in "@ + p.spec_name(),
            ExtractError::MissingField(p) => "did not find "@ + p.spec_name(),
        }
    }

    /// The descriptive message, for the fail-fast top-level handler.
    pub fn message(&self) -> (r: String)
        ensures
            r@ == self.spec_message(),
    {
        match self {
            ExtractError::Structure(p) => {
                let mut s = String::from_str("missing element: ");
                s.append(p.name_text().as_str());
                s
            },
            ExtractError::Format(p) => {
                let mut s = String::from_str("malformed value in ");
                s.append(p.name_text().as_str());
                s
            },
            ExtractError::MissingField(p) => {
                let mut s = String::from_str("did not find ");
                s.append(p.name_text().as_str());
                s
            },
        }
    }
}

/// The mathematical content of one flat record: each field as its
/// character sequence.
pub struct EntryModel {
    pub account: Seq<char>,
    pub date: Seq<char>,
    pub description: Seq<char>,
    pub debit: Seq<char>,
    pub credit: Seq<char>,
    pub ntry_type: Seq<char>,
}

/// One flat transaction record, the unit of output.
///
/// `account` is the statement's IBAN as resolved at the point the entry was
/// scanned; `date` and the amount strings are carried verbatim from the
/// document, never reformatted; exactly one of `debit` and `credit` carries
/// the resolved amount while the other is the literal `"0"` (both can be
/// `"0"` only if the document's own amount text is `"0"`); `ntry_type` is
/// the entry-level indicator token, left untouched by detail enrichment.
#[derive(Debug, Clone, PartialEq, Eq)]
pub struct FlatEntry {
    pub account: String,
    pub date: String,
    pub description: String,
    pub debit: String,
    pub credit: String,
    pub ntry_type: String,
}

impl View for FlatEntry {
    type V = EntryModel;

    open spec fn view(&self) -> EntryModel {
        EntryModel {
            account: self.account@,
            date: self.date@,
            description: self.description@,
            debit: self.debit@,
            credit: self.credit@,
            ntry_type: self.ntry_type@,
        }
    }
}

impl FlatEntry {
    /// An independent copy; enrichment of one clone never affects another.
    pub fn duplicate(&self) -> (r: FlatEntry)
        ensures
            r@ == self@,
    {
        FlatEntry {
            account: self.account.clone(),
            date: self.date.clone(),
            description: self.description.clone(),
            debit: self.debit.clone(),
            credit: self.credit.clone(),
            ntry_type: self.ntry_type.clone(),
        }
    }
}

/// Statement-level metadata gathered while scanning: the IBAN seen so far
/// (a placeholder until an `Acct` element has been passed) and the declared
/// entry count.  Seeds every record of the statement; not itself emitted.
pub struct StatementInfo {
    pub iban: String,
    pub entries_count: i64,
}

/// A sequence of records, each reduced to its model.
pub open spec fn entries_view(v: Seq<FlatEntry>) -> Seq<EntryModel> {
    v.map_values(|e: FlatEntry| e@)
}

} // verus!
