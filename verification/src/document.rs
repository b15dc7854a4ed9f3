//! The closed set of document types the schema knows; this crate renders
//! plain invoices, whose root element carries the `Invoice` type name.

use vstd::prelude::*;

verus! {

/// A document type of the target schema.
pub enum DocumentType {
    CreditMemo,
    FinalSettlement,
    Invoice,
    InvoiceForAdvancePayment,
    InvoiceForPartialDelivery,
    SelfBilling,
    SubsequentCredit,
    SubsequentDebit,
}

/// The document type's name as written into the document.
pub open spec fn doc_type_str_v(d: DocumentType) -> Seq<char> {
    match d {
        DocumentType::CreditMemo => "CreditMemo"@,
        DocumentType::FinalSettlement => "FinalSettlement"@,
        DocumentType::Invoice => "Invoice"@,
        DocumentType::InvoiceForAdvancePayment => "InvoiceForAdvancePayment"@,
        DocumentType::InvoiceForPartialDelivery => "InvoiceForPartialDelivery"@,
        DocumentType::SelfBilling => "SelfBilling"@,
        DocumentType::SubsequentCredit => "SubsequentCredit"@,
        DocumentType::SubsequentDebit => "SubsequentDebit"@,
    }
}

impl DocumentType {
    /// The type's name as written into the document.
    pub fn as_str(&self) -> (r: &'static str)
        ensures
            r@ == doc_type_str_v(*self),
    {
        match self {
            DocumentType::CreditMemo => "CreditMemo",
            DocumentType::FinalSettlement => "FinalSettlement",
            DocumentType::Invoice => "Invoice",
            DocumentType::InvoiceForAdvancePayment => "InvoiceForAdvancePayment",
            DocumentType::InvoiceForPartialDelivery => "InvoiceForPartialDelivery",
            DocumentType::SelfBilling => "SelfBilling",
            DocumentType::SubsequentCredit => "SubsequentCredit",
            DocumentType::SubsequentDebit => "SubsequentDebit",
        }
    }
}

} // verus!
