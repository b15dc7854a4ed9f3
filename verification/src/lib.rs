//! Construction and deterministic serialization of a fixed, versioned
//! electronic-invoice XML document from an in-memory invoice model.
//!
//! The crate covers exact decimal money arithmetic with
//! round-half-away-from-zero rounding, per-line-item amount computation with
//! reductions and surcharges, tax aggregation grouped by (rate, category),
//! and a generic XML element builder that escapes reserved characters at
//! insertion time and renders compact, whitespace-free output.

pub mod address;
pub mod biller;
pub mod contact;
pub mod decimal;
pub mod details;
pub mod document;
pub mod identification;
pub mod invoice;
pub mod invoice_recipient;
pub mod numtext;
pub mod order_reference;
pub mod payment_method;
pub mod reduction_and_surcharge;
pub mod tax;
pub mod xml;
