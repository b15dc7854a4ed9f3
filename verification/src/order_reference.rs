//! The order a recipient refers the invoice to: an order identifier with an
//! optional reference date and description.

use vstd::prelude::*;

verus! {

use crate::xml::{escape, elem_str_v, strs_view, text_elem_v, xml_of, XmlElement};

/// A reference to the recipient's order.
pub struct OrderReference {
    pub order_id: String,
    pub reference_date: Option<String>,
    pub description: Option<String>,
}

/// The rendered `OrderReference` element: the order identifier, then the
/// reference date and description where given.
pub open spec fn order_ref_xml_v(o: OrderReference) -> Seq<char> {
    elem_str_v(
        escape("OrderReference"@),
        Seq::empty(),
        seq![text_elem_v("OrderID"@, o.order_id@)] + (match o.reference_date {
            Some(d) => seq![text_elem_v("ReferenceDate"@, d@)],
            None => Seq::empty(),
        }) + (match o.description {
            Some(d) => seq![text_elem_v("Description"@, d@)],
            None => Seq::empty(),
        }),
    )
}

impl OrderReference {
    /// A reference from the order identifier alone.
    pub fn new(order_id: &str) -> (r: OrderReference)
        ensures
            r.order_id@ == order_id@,
            r.reference_date is None,
            r.description is None,
    {
        OrderReference { order_id: order_id.to_owned(), reference_date: None, description: None }
    }

    /// The reference with its date set.
    pub fn with_reference_date(self, reference_date: &str) -> (r: OrderReference)
        ensures
            r.order_id == self.order_id,
            r.reference_date matches Some(d) && d@ == reference_date@,
            r.description == self.description,
    {
        OrderReference { reference_date: Some(reference_date.to_owned()), ..self }
    }

    /// The reference with its description set.
    pub fn with_description(self, description: &str) -> (r: OrderReference)
        ensures
            r.order_id == self.order_id,
            r.reference_date == self.reference_date,
            r.description matches Some(d) && d@ == description@,
    {
        OrderReference { description: Some(description.to_owned()), ..self }
    }

    /// This reference as an element, ready to splice into a party block.
    pub(crate) fn build_element(&self) -> (e: XmlElement)
        ensures
            xml_of(e) == order_ref_xml_v(*self),
    {
        let mut e = XmlElement::new("OrderReference").with_text_element(
            "OrderID",
            self.order_id.as_str(),
        );
        match &self.reference_date {
            Some(d) => {
                e = e.with_text_element("ReferenceDate", d.as_str());
            },
            None => {},
        }
        match &self.description {
            Some(d) => {
                e = e.with_text_element("Description", d.as_str());
            },
            None => {},
        }
        proof {
            assert(strs_view(e.attrs@) =~= Seq::<Seq<char>>::empty());
            assert(strs_view(e.body@) =~= seq![text_elem_v("OrderID"@, self.order_id@)] + (
            match self.reference_date {
                Some(d) => seq![text_elem_v("ReferenceDate"@, d@)],
                None => Seq::empty(),
            }) + (match self.description {
                Some(d) => seq![text_elem_v("Description"@, d@)],
                None => Seq::empty(),
            }));
        }
        e
    }

    /// The rendered `OrderReference` element.
    pub fn to_xml(&self) -> (r: String)
        ensures
            r@ == order_ref_xml_v(*self),
    {
        self.build_element().to_xml()
    }
}

} // verus!
