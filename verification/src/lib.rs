//! Extraction of flat transaction records from CAMT.053 bank-statement
//! documents.
//!
//! The statement document is modelled as a tree of named elements with text
//! content ([`xml::XmlNode`]); building that tree from raw XML, expanding file
//! globs and writing CSV are left to the surrounding application.  Everything
//! here — locating the statement, scanning its entries, exploding
//! transaction details and resolving amounts and counterparties — is verified
//! against the spec functions in [`extract`].

pub mod extract;
pub mod intparse;
pub mod laws;
pub mod records;
pub mod xml;
