//! A contact person of a party: a name with an optional salutation and any
//! number of phone numbers and email addresses.

use vstd::prelude::*;

verus! {

use crate::xml::{escape, elem_str_v, strs_view, text_elem_v, xml_of, XmlElement};

/// A contact person.
pub struct Contact {
    pub salutation: Option<String>,
    pub name: String,
    pub phone: Option<Vec<String>>,
    pub email: Option<Vec<String>>,
}

/// The phone numbers, empty when none were attached.
pub open spec fn contact_phones(c: Contact) -> Seq<String> {
    match c.phone {
        Some(v) => v@,
        None => Seq::empty(),
    }
}

/// The email addresses, empty when none were attached.
pub open spec fn contact_emails(c: Contact) -> Seq<String> {
    match c.email {
        Some(v) => v@,
        None => Seq::empty(),
    }
}

/// The rendered `Contact` element: the optional salutation, the name, then
/// every phone number and email address in insertion order.
pub open spec fn contact_xml_v(c: Contact) -> Seq<char> {
    elem_str_v(
        escape("Contact"@),
        Seq::empty(),
        (match c.salutation {
            Some(s) => seq![text_elem_v("Salutation"@, s@)],
            None => Seq::empty(),
        }) + seq![text_elem_v("Name"@, c.name@)] + contact_phones(c).map_values(
            |p: String| text_elem_v("Phone"@, p@),
        ) + contact_emails(c).map_values(|m: String| text_elem_v("Email"@, m@)),
    )
}

impl Contact {
    /// A contact from a name alone.
    pub fn new(name: &str) -> (r: Contact)
        ensures
            r.salutation is None,
            r.name@ == name@,
            r.phone is None,
            r.email is None,
    {
        Contact { salutation: None, name: name.to_owned(), phone: None, email: None }
    }

    /// The contact with a salutation set.
    pub fn with_salutation(self, salutation: &str) -> (r: Contact)
        ensures
            r.salutation matches Some(s) && s@ == salutation@,
            r.name == self.name,
            r.phone == self.phone,
            r.email == self.email,
    {
        Contact { salutation: Some(salutation.to_owned()), ..self }
    }

    /// The contact with one phone number appended.
    pub fn with_phone(self, phone_number: &str) -> (r: Contact)
        ensures
            r.salutation == self.salutation,
            r.name == self.name,
            contact_phones(r).len() == contact_phones(self).len() + 1,
            contact_phones(r).last()@ == phone_number@,
            forall|i: int|
                0 <= i < contact_phones(self).len() ==> contact_phones(r)[i] == contact_phones(
                    self,
                )[i],
            r.email == self.email,
    {
        let ghost olds = contact_phones(self);
        let mut v = match self.phone {
            Some(v) => v,
            None => Vec::new(),
        };
        proof {
            assert(v@ =~= olds);
        }
        v.push(phone_number.to_owned());
        Contact { phone: Some(v), ..self }
    }

    /// The contact with one email address appended.
    pub fn with_email(self, email_address: &str) -> (r: Contact)
        ensures
            r.salutation == self.salutation,
            r.name == self.name,
            r.phone == self.phone,
            contact_emails(r).len() == contact_emails(self).len() + 1,
            contact_emails(r).last()@ == email_address@,
            forall|i: int|
                0 <= i < contact_emails(self).len() ==> contact_emails(r)[i] == contact_emails(
                    self,
                )[i],
    {
        let ghost olds = contact_emails(self);
        let mut v = match self.email {
            Some(v) => v,
            None => Vec::new(),
        };
        proof {
            assert(v@ =~= olds);
        }
        v.push(email_address.to_owned());
        Contact { email: Some(v), ..self }
    }

    /// This contact as an element, ready to splice into a party block.
    pub(crate) fn build_element(&self) -> (e: XmlElement)
        ensures
            xml_of(e) == contact_xml_v(*self),
    {
        let ghost seg_sal: Seq<Seq<char>> = if self.salutation is Some {
            seq![text_elem_v("Salutation"@, self.salutation->0@)]
        } else {
            Seq::empty()
        };
        let ghost seg_phone = contact_phones(*self).map_values(
            |p: String| text_elem_v("Phone"@, p@),
        );
        let ghost seg_email = contact_emails(*self).map_values(
            |m: String| text_elem_v("Email"@, m@),
        );
        let mut e = XmlElement::new("Contact");
        match &self.salutation {
            Some(s) => {
                e = e.with_text_element("Salutation", s.as_str());
            },
            None => {},
        }
        e = e.with_text_element("Name", self.name.as_str());
        proof {
            assert(strs_view(e.body@) =~= seg_sal + seq![text_elem_v("Name"@, self.name@)]);
        }
        match &self.phone {
            Some(phone_numbers) => {
                let mut i: usize = 0;
                while i < phone_numbers.len()
                    invariant
                        i <= phone_numbers@.len(),
                        phone_numbers@ == contact_phones(*self),
                        seg_phone == contact_phones(*self).map_values(
                            |p: String| text_elem_v("Phone"@, p@),
                        ),
                        e.name@ == escape("Contact"@),
                        e.attrs@.len() == 0,
                        strs_view(e.body@) == seg_sal + seq![text_elem_v("Name"@, self.name@)]
                            + seg_phone.take(i as int),
                    decreases phone_numbers@.len() - i,
                {
                    e = e.with_text_element("Phone", phone_numbers[i].as_str());
                    proof {
                        assert(strs_view(e.body@) =~= seg_sal + seq![
                            text_elem_v("Name"@, self.name@),
                        ] + seg_phone.take(i + 1));
                    }
                    i = i + 1;
                }
            },
            None => {},
        }
        proof {
            assert(seg_phone.take(seg_phone.len() as int) =~= seg_phone);
            assert(strs_view(e.body@) =~= seg_sal + seq![text_elem_v("Name"@, self.name@)]
                + seg_phone);
        }
        match &self.email {
            Some(email_addresses) => {
                let mut i: usize = 0;
                while i < email_addresses.len()
                    invariant
                        i <= email_addresses@.len(),
                        email_addresses@ == contact_emails(*self),
                        seg_email == contact_emails(*self).map_values(
                            |m: String| text_elem_v("Email"@, m@),
                        ),
                        e.name@ == escape("Contact"@),
                        e.attrs@.len() == 0,
                        strs_view(e.body@) == seg_sal + seq![text_elem_v("Name"@, self.name@)]
                            + seg_phone + seg_email.take(i as int),
                    decreases email_addresses@.len() - i,
                {
                    e = e.with_text_element("Email", email_addresses[i].as_str());
                    proof {
                        assert(strs_view(e.body@) =~= seg_sal + seq![
                            text_elem_v("Name"@, self.name@),
                        ] + seg_phone + seg_email.take(i + 1));
                    }
                    i = i + 1;
                }
            },
            None => {},
        }
        proof {
            assert(seg_email.take(seg_email.len() as int) =~= seg_email);
            assert(strs_view(e.attrs@) =~= Seq::<Seq<char>>::empty());
            assert(strs_view(e.body@) =~= seg_sal + seq![text_elem_v("Name"@, self.name@)]
                + seg_phone + seg_email);
        }
        e
    }

    /// The rendered `Contact` element.
    pub fn to_xml(&self) -> (r: String)
        ensures
            r@ == contact_xml_v(*self),
    {
        self.build_element().to_xml()
    }
}

} // verus!
