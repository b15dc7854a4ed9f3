//! A postal address of a party: name, optional street, town, postal code,
//! country with an optional country code, and any number of phone numbers
//! and email addresses.

use vstd::prelude::*;

verus! {

use crate::xml::{attr_str_v, escape, elem_str_v, strs_view, text_elem_v, xml_of, XmlElement};

/// A postal address.
pub struct Address {
    pub name: String,
    pub street: Option<String>,
    pub town: String,
    pub zip: String,
    pub country: String,
    pub country_code: Option<String>,
    pub phone: Option<Vec<String>>,
    pub email: Option<Vec<String>>,
}

/// The phone numbers, empty when none were attached.
pub open spec fn address_phones(a: Address) -> Seq<String> {
    match a.phone {
        Some(v) => v@,
        None => Seq::empty(),
    }
}

/// The email addresses, empty when none were attached.
pub open spec fn address_emails(a: Address) -> Seq<String> {
    match a.email {
        Some(v) => v@,
        None => Seq::empty(),
    }
}

/// The rendered `Country` element: the country name as text, the optional
/// country code as an attribute.
pub open spec fn country_xml_v(a: Address) -> Seq<char> {
    elem_str_v(
        escape("Country"@),
        if a.country_code is Some {
            seq![attr_str_v("CountryCode"@, a.country_code->0@)]
        } else {
            Seq::empty()
        },
        seq![escape(a.country@)],
    )
}

/// The rendered `Address` element: name, optional street, town, postal
/// code, country, then every phone number and email address in insertion
/// order.
pub open spec fn address_xml_v(a: Address) -> Seq<char> {
    elem_str_v(
        escape("Address"@),
        Seq::empty(),
        seq![text_elem_v("Name"@, a.name@)] + (if a.street is Some {
            seq![text_elem_v("Street"@, a.street->0@)]
        } else {
            Seq::empty()
        }) + seq![text_elem_v("Town"@, a.town@), text_elem_v("ZIP"@, a.zip@), country_xml_v(a)]
            + address_phones(a).map_values(|p: String| text_elem_v("Phone"@, p@)) + address_emails(
            a,
        ).map_values(|m: String| text_elem_v("Email"@, m@)),
    )
}

impl Address {
    /// An address from name, town, postal code and country.
    pub fn new(name: &str, town: &str, zip: &str, country: &str) -> (r: Address)
        ensures
            r.name@ == name@,
            r.street is None,
            r.town@ == town@,
            r.zip@ == zip@,
            r.country@ == country@,
            r.country_code is None,
            r.phone is None,
            r.email is None,
    {
        Address {
            name: name.to_owned(),
            street: None,
            town: town.to_owned(),
            zip: zip.to_owned(),
            country: country.to_owned(),
            country_code: None,
            phone: None,
            email: None,
        }
    }

    /// The address with its street set.
    pub fn with_street(self, street: &str) -> (r: Address)
        ensures
            r.street matches Some(s) && s@ == street@,
            r == (Address { street: r.street, ..self }),
    {
        Address { street: Some(street.to_owned()), ..self }
    }

    /// The address with its country code set.
    pub fn with_country_code(self, country_code: &str) -> (r: Address)
        ensures
            r.country_code matches Some(c) && c@ == country_code@,
            r == (Address { country_code: r.country_code, ..self }),
    {
        Address { country_code: Some(country_code.to_owned()), ..self }
    }

    /// The address with one phone number appended.
    pub fn with_phone(self, phone_number: &str) -> (r: Address)
        ensures
            address_phones(r).len() == address_phones(self).len() + 1,
            address_phones(r).last()@ == phone_number@,
            forall|i: int|
                0 <= i < address_phones(self).len() ==> address_phones(r)[i] == address_phones(
                    self,
                )[i],
            r == (Address { phone: r.phone, ..self }),
    {
        let ghost olds = address_phones(self);
        let mut v = match self.phone {
            Some(v) => v,
            None => Vec::new(),
        };
        proof {
            assert(v@ =~= olds);
        }
        v.push(phone_number.to_owned());
        Address { phone: Some(v), ..self }
    }

    /// The address with one email address appended.
    pub fn with_email(self, email_address: &str) -> (r: Address)
        ensures
            address_emails(r).len() == address_emails(self).len() + 1,
            address_emails(r).last()@ == email_address@,
            forall|i: int|
                0 <= i < address_emails(self).len() ==> address_emails(r)[i] == address_emails(
                    self,
                )[i],
            r == (Address { email: r.email, ..self }),
    {
        let ghost olds = address_emails(self);
        let mut v = match self.email {
            Some(v) => v,
            None => Vec::new(),
        };
        proof {
            assert(v@ =~= olds);
        }
        v.push(email_address.to_owned());
        Address { email: Some(v), ..self }
    }

    /// This address as an element, ready to splice into a party block.
    pub(crate) fn build_element(&self) -> (e: XmlElement)
        ensures
            xml_of(e) == address_xml_v(*self),
    {
        let ghost seg_street: Seq<Seq<char>> = if self.street is Some {
            seq![text_elem_v("Street"@, self.street->0@)]
        } else {
            Seq::empty()
        };
        let ghost seg_phone = address_phones(*self).map_values(
            |p: String| text_elem_v("Phone"@, p@),
        );
        let ghost seg_email = address_emails(*self).map_values(
            |m: String| text_elem_v("Email"@, m@),
        );
        let mut e = XmlElement::new("Address").with_text_element("Name", self.name.as_str());
        match &self.street {
            Some(s) => {
                e = e.with_text_element("Street", s.as_str());
            },
            None => {},
        }
        e = e.with_text_element("Town", self.town.as_str()).with_text_element(
            "ZIP",
            self.zip.as_str(),
        );
        let mut ce = XmlElement::new("Country").with_text(self.country.as_str());
        match &self.country_code {
            Some(cc) => {
                ce = ce.with_attr("CountryCode", cc.as_str());
                proof {
                    assert(strs_view(ce.attrs@) =~= seq![attr_str_v("CountryCode"@, cc@)]);
                }
            },
            None => {
                proof {
                    assert(strs_view(ce.attrs@) =~= Seq::<Seq<char>>::empty());
                }
            },
        }
        proof {
            assert(strs_view(ce.body@) =~= seq![escape(self.country@)]);
            assert(xml_of(ce) == country_xml_v(*self));
        }
        e = e.with_element(&ce);
        let ghost seg_head = seq![text_elem_v("Name"@, self.name@)] + seg_street + seq![
            text_elem_v("Town"@, self.town@),
            text_elem_v("ZIP"@, self.zip@),
            country_xml_v(*self),
        ];
        proof {
            assert(strs_view(e.body@) =~= seg_head);
        }
        match &self.phone {
            Some(phone_numbers) => {
                let mut i: usize = 0;
                while i < phone_numbers.len()
                    invariant
                        i <= phone_numbers@.len(),
                        phone_numbers@ == address_phones(*self),
                        seg_phone == address_phones(*self).map_values(
                            |p: String| text_elem_v("Phone"@, p@),
                        ),
                        e.name@ == escape("Address"@),
                        e.attrs@.len() == 0,
                        strs_view(e.body@) == seg_head + seg_phone.take(i as int),
                    decreases phone_numbers@.len() - i,
                {
                    e = e.with_text_element("Phone", phone_numbers[i].as_str());
                    proof {
                        assert(strs_view(e.body@) =~= seg_head + seg_phone.take(i + 1));
                    }
                    i = i + 1;
                }
            },
            None => {},
        }
        proof {
            assert(seg_phone.take(seg_phone.len() as int) =~= seg_phone);
            assert(strs_view(e.body@) =~= seg_head + seg_phone);
        }
        match &self.email {
            Some(email_addresses) => {
                let mut i: usize = 0;
                while i < email_addresses.len()
                    invariant
                        i <= email_addresses@.len(),
                        email_addresses@ == address_emails(*self),
                        seg_email == address_emails(*self).map_values(
                            |m: String| text_elem_v("Email"@, m@),
                        ),
                        e.name@ == escape("Address"@),
                        e.attrs@.len() == 0,
                        strs_view(e.body@) == seg_head + seg_phone + seg_email.take(i as int),
                    decreases email_addresses@.len() - i,
                {
                    e = e.with_text_element("Email", email_addresses[i].as_str());
                    proof {
                        assert(strs_view(e.body@) =~= seg_head + seg_phone + seg_email.take(
                            i + 1,
                        ));
                    }
                    i = i + 1;
                }
            },
            None => {},
        }
        proof {
            assert(seg_email.take(seg_email.len() as int) =~= seg_email);
            assert(strs_view(e.attrs@) =~= Seq::<Seq<char>>::empty());
            assert(strs_view(e.body@) =~= seg_head + seg_phone + seg_email);
        }
        e
    }

    /// The rendered `Address` element.
    pub fn to_xml(&self) -> (r: String)
        ensures
            r@ == address_xml_v(*self),
    {
        self.build_element().to_xml()
    }
}

} // verus!
