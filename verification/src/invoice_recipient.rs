//! The receiving party of the invoice: VAT number, further
//! identifications, an optional order reference, address and contact.

use vstd::prelude::*;

verus! {

use crate::address::{address_xml_v, Address};
use crate::contact::{contact_xml_v, Contact};
use crate::identification::{fi_xml_v, FurtherIdentification};
use crate::order_reference::{order_ref_xml_v, OrderReference};
use crate::xml::{escape, elem_str_v, strs_view, text_elem_v, xml_of, XmlElement};

/// The receiving party.
pub struct InvoiceRecipient {
    pub vat_identification_number: String,
    pub further_identification: Option<Vec<FurtherIdentification>>,
    pub order_reference: Option<OrderReference>,
    pub address: Option<Address>,
    pub contact: Option<Contact>,
}

/// The further identifications, empty when none were attached.
pub open spec fn recipient_fis(b: InvoiceRecipient) -> Seq<FurtherIdentification> {
    match b.further_identification {
        Some(v) => v@,
        None => Seq::empty(),
    }
}

/// The rendered `InvoiceRecipient` element: the VAT number, the further
/// identifications, then the order reference, address and contact where
/// given.
pub open spec fn recipient_xml_v(b: InvoiceRecipient) -> Seq<char> {
    elem_str_v(
        escape("InvoiceRecipient"@),
        Seq::empty(),
        seq![text_elem_v("VATIdentificationNumber"@, b.vat_identification_number@)] + recipient_fis(
            b,
        ).map_values(|f: FurtherIdentification| fi_xml_v(f)) + (if b.order_reference is Some {
            seq![order_ref_xml_v(b.order_reference->0)]
        } else {
            Seq::empty()
        }) + (if b.address is Some {
            seq![address_xml_v(b.address->0)]
        } else {
            Seq::empty()
        }) + (if b.contact is Some {
            seq![contact_xml_v(b.contact->0)]
        } else {
            Seq::empty()
        }),
    )
}

impl InvoiceRecipient {
    /// A recipient from its VAT identification number alone.
    pub fn new(vat_identification_number: &str) -> (r: InvoiceRecipient)
        ensures
            r.vat_identification_number@ == vat_identification_number@,
            r.further_identification is None,
            r.order_reference is None,
            r.address is None,
            r.contact is None,
    {
        InvoiceRecipient {
            vat_identification_number: vat_identification_number.to_owned(),
            further_identification: None,
            order_reference: None,
            address: None,
            contact: None,
        }
    }

    /// The recipient with one further identification appended.
    pub fn with_further_identification(self, further_identification: FurtherIdentification) -> (r:
        InvoiceRecipient)
        ensures
            recipient_fis(r) == recipient_fis(self).push(further_identification),
            r.vat_identification_number == self.vat_identification_number,
            r.order_reference == self.order_reference,
            r.address == self.address,
            r.contact == self.contact,
    {
        let ghost olds = recipient_fis(self);
        let mut v = match self.further_identification {
            Some(v) => v,
            None => Vec::new(),
        };
        proof {
            assert(v@ =~= olds);
        }
        v.push(further_identification);
        InvoiceRecipient { further_identification: Some(v), ..self }
    }

    /// The recipient with its order reference set.
    pub fn with_order_reference(self, order_reference: OrderReference) -> (r: InvoiceRecipient)
        ensures
            r.order_reference matches Some(o) && o == order_reference,
            r == (InvoiceRecipient { order_reference: r.order_reference, ..self }),
    {
        InvoiceRecipient { order_reference: Some(order_reference), ..self }
    }

    /// The recipient with its address set.
    pub fn with_address(self, address: Address) -> (r: InvoiceRecipient)
        ensures
            r.address matches Some(a) && a == address,
            r == (InvoiceRecipient { address: r.address, ..self }),
    {
        InvoiceRecipient { address: Some(address), ..self }
    }

    /// The recipient with its contact set.
    pub fn with_contact(self, contact: Contact) -> (r: InvoiceRecipient)
        ensures
            r.contact matches Some(c) && c == contact,
            r == (InvoiceRecipient { contact: r.contact, ..self }),
    {
        InvoiceRecipient { contact: Some(contact), ..self }
    }

    /// This recipient as an element, ready to splice into the document.
    pub(crate) fn build_element(&self) -> (e: XmlElement)
        ensures
            xml_of(e) == recipient_xml_v(*self),
    {
        let ghost seg_fi = recipient_fis(*self).map_values(|f: FurtherIdentification| fi_xml_v(f));
        let ghost head = seq![
            text_elem_v("VATIdentificationNumber"@, self.vat_identification_number@),
        ];
        let mut e = XmlElement::new("InvoiceRecipient").with_text_element(
            "VATIdentificationNumber",
            self.vat_identification_number.as_str(),
        );
        proof {
            assert(strs_view(e.body@) =~= head + seg_fi.take(0int));
        }
        match &self.further_identification {
            Some(fis) => {
                let mut i: usize = 0;
                while i < fis.len()
                    invariant
                        i <= fis@.len(),
                        fis@ == recipient_fis(*self),
                        seg_fi == recipient_fis(*self).map_values(
                            |f: FurtherIdentification| fi_xml_v(f),
                        ),
                        e.name@ == escape("InvoiceRecipient"@),
                        e.attrs@.len() == 0,
                        strs_view(e.body@) == head + seg_fi.take(i as int),
                    decreases fis@.len() - i,
                {
                    let child = fis[i].build_element();
                    e = e.with_element(&child);
                    proof {
                        assert(strs_view(e.body@) =~= head + seg_fi.take(i + 1));
                    }
                    i = i + 1;
                }
            },
            None => {},
        }
        proof {
            assert(seg_fi.take(seg_fi.len() as int) =~= seg_fi);
            assert(strs_view(e.body@) =~= head + seg_fi);
        }
        match &self.order_reference {
            Some(o) => {
                let child = o.build_element();
                e = e.with_element(&child);
            },
            None => {},
        }
        match &self.address {
            Some(a) => {
                let child = a.build_element();
                e = e.with_element(&child);
            },
            None => {},
        }
        match &self.contact {
            Some(c) => {
                let child = c.build_element();
                e = e.with_element(&child);
            },
            None => {},
        }
        proof {
            assert(strs_view(e.attrs@) =~= Seq::<Seq<char>>::empty());
            assert(strs_view(e.body@) =~= head + seg_fi + (if self.order_reference is Some {
                seq![order_ref_xml_v(self.order_reference->0)]
            } else {
                Seq::empty()
            }) + (if self.address is Some {
                seq![address_xml_v(self.address->0)]
            } else {
                Seq::empty()
            }) + (if self.contact is Some {
                seq![contact_xml_v(self.contact->0)]
            } else {
                Seq::empty()
            }));
        }
        e
    }

    /// The rendered `InvoiceRecipient` element.
    pub fn to_xml(&self) -> (r: String)
        ensures
            r@ == recipient_xml_v(*self),
    {
        self.build_element().to_xml()
    }
}

} // verus!
