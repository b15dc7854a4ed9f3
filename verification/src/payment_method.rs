//! Payment methods: a closed set of variants (none, SEPA direct debit,
//! universal bank transaction, payment card, other), each validating its
//! fields against the schema's shape rules and rendering its own element.
//! The first violated rule aborts rendering with a message naming it.

use vstd::prelude::*;

verus! {

use vstd::string::StringExecFns;
use crate::numtext::{int_str, i64_to_string};
use crate::xml::{attr_str_v, escape, elem_str_v, strs_view, text_elem_v, xml_of, XmlElement};

/// The UTF-8 byte length of a string; the schema's length limits count
/// bytes.
pub open spec fn byte_len(s: Seq<char>) -> nat {
    vstd::utf8::encode_utf8(s).len()
}

pub open spec fn is_ascii_digit(c: char) -> bool {
    '0' <= c && c <= '9'
}

pub open spec fn is_ascii_alnum(c: char) -> bool {
    is_ascii_digit(c) || ('a' <= c && c <= 'z') || ('A' <= c && c <= 'Z')
}

/// The shape of a BIC: eight or eleven ASCII letters or digits.
pub open spec fn is_bic(s: Seq<char>) -> bool {
    (s.len() == 8 || s.len() == 11) && forall|i: int| 0 <= i < s.len() ==> is_ascii_alnum(#[trigger] s[i])
}

/// The shape of a collection date: four digits, a dash, two digits, a dash,
/// two digits.
pub open spec fn is_date_shape(s: Seq<char>) -> bool {
    &&& s.len() == 10
    &&& s[4] == '-'
    &&& s[7] == '-'
    &&& forall|i: int|
        0 <= i < 10 && i != 4 && i != 7 ==> is_ascii_digit(#[trigger] s[i])
}

/// The shape of a masked primary account number: at most the first six
/// digits, one '*', and at most the last four digits.
pub open spec fn is_card_number(s: Seq<char>) -> bool {
    exists|k: int|
        {
            &&& 0 <= k < s.len()
            &&& #[trigger] s[k] == '*'
            &&& k <= 6
            &&& s.len() - 1 - k <= 4
            &&& forall|i: int| 0 <= i < s.len() && i != k ==> is_ascii_digit(#[trigger] s[i])
        }
}

/// Relies on `regex::Regex::is_match` with the fixed anchored pattern
/// `^[0-9A-Za-z]{8}([0-9A-Za-z]{3})?$`: the whole string is eight or eleven
/// ASCII letters or digits.
#[verifier::external_body]
fn bic_matches(s: &str) -> (r: bool)
    ensures
        r == is_bic(s@),
{
    regex::Regex::new(r"^[0-9A-Za-z]{8}([0-9A-Za-z]{3})?$").unwrap().is_match(s)
}

/// Relies on `regex::Regex::is_match` with the fixed anchored pattern
/// `^[0-9]{4}-[0-9]{2}-[0-9]{2}$`: the whole string is three dash-separated
/// ASCII digit groups of four, two and two.
#[verifier::external_body]
fn date_matches(s: &str) -> (r: bool)
    ensures
        r == is_date_shape(s@),
{
    regex::Regex::new(r"^[0-9]{4}-[0-9]{2}-[0-9]{2}$").unwrap().is_match(s)
}

/// Relies on `regex::Regex::is_match` with the fixed anchored pattern
/// `^[0-9]{0,6}\*[0-9]{0,4}$`: at most six ASCII digits, one '*', at most
/// four ASCII digits, and nothing else.
#[verifier::external_body]
fn card_number_matches(s: &str) -> (r: bool)
    ensures
        r == is_card_number(s@),
{
    regex::Regex::new(r"^[0-9]{0,6}\*[0-9]{0,4}$").unwrap().is_match(s)
}

/// The body segment of one optional text element: one element when the
/// field is set, nothing otherwise.
pub open spec fn opt_text_seg(name: Seq<char>, v: Option<String>) -> Seq<Seq<char>> {
    if v is Some {
        seq![text_elem_v(name, v->0@)]
    } else {
        Seq::empty()
    }
}

/// "true" or "false", as the schema writes booleans.
pub open spec fn bool_str_v(b: bool) -> Seq<char> {
    if b {
        "true"@
    } else {
        "false"@
    }
}

/// A SEPA direct debit: every field optional, each validated on rendering.
pub struct PaymentMethodSEPADirectDebit {
    pub direct_debit_type: Option<String>,
    pub bic: Option<String>,
    pub iban: Option<String>,
    pub bank_account_owner: Option<String>,
    pub creditor_id: Option<String>,
    pub mandate_reference: Option<String>,
    pub debit_collection_date: Option<String>,
}

/// Every present SEPA field meets its shape or length rule.
pub open spec fn sepa_ok(p: PaymentMethodSEPADirectDebit) -> bool {
    &&& (p.bic is Some ==> is_bic(p.bic->0@))
    &&& (p.iban is Some ==> byte_len(p.iban->0@) <= 34)
    &&& (p.bank_account_owner is Some ==> byte_len(p.bank_account_owner->0@) <= 70)
    &&& (p.creditor_id is Some ==> byte_len(p.creditor_id->0@) <= 35)
    &&& (p.mandate_reference is Some ==> byte_len(p.mandate_reference->0@) <= 35)
    &&& (p.debit_collection_date is Some ==> is_date_shape(p.debit_collection_date->0@))
}

/// The message for the first SEPA field that breaks its rule, in the order
/// the fields are checked: BIC, IBAN, owner, creditor, mandate, date.
pub open spec fn sepa_err_v(p: PaymentMethodSEPADirectDebit) -> Seq<char> {
    if p.bic is Some && !is_bic(p.bic->0@) {
        "BIC "@ + p.bic->0@ + " doesn't match regex ^[0-9A-Za-z]{8}([0-9A-Za-z]{3})?$!"@
    } else if p.iban is Some && byte_len(p.iban->0@) > 34 {
        "IBAN "@ + p.iban->0@ + " is too long!"@
    } else if p.bank_account_owner is Some && byte_len(p.bank_account_owner->0@) > 70 {
        "BankAccountOwner "@ + p.bank_account_owner->0@ + " is too long!"@
    } else if p.creditor_id is Some && byte_len(p.creditor_id->0@) > 35 {
        "CreditorID "@ + p.creditor_id->0@ + " is too long!"@
    } else if p.mandate_reference is Some && byte_len(p.mandate_reference->0@) > 35 {
        "MandateReference "@ + p.mandate_reference->0@ + " is too long!"@
    } else if p.debit_collection_date is Some && !is_date_shape(p.debit_collection_date->0@) {
        "DebitCollectionDate "@ + p.debit_collection_date->0@
            + " doesn't match regex ^[0-9]{4}-[0-9]{2}-[0-9]{2}$!"@
    } else {
        Seq::empty()
    }
}

/// The rendered `SEPADirectDebit` element: the type (defaulting to "B2C"),
/// then every present field in schema order.
pub open spec fn sepa_xml_v(p: PaymentMethodSEPADirectDebit) -> Seq<char> {
    elem_str_v(
        escape("SEPADirectDebit"@),
        Seq::empty(),
        seq![
            text_elem_v(
                "Type"@,
                if p.direct_debit_type is Some {
                    p.direct_debit_type->0@
                } else {
                    "B2C"@
                },
            ),
        ] + opt_text_seg("BIC"@, p.bic) + opt_text_seg("IBAN"@, p.iban) + opt_text_seg(
            "BankAccountOwner"@,
            p.bank_account_owner,
        ) + opt_text_seg("CreditorID"@, p.creditor_id) + opt_text_seg(
            "MandateReference"@,
            p.mandate_reference,
        ) + opt_text_seg("DebitCollectionDate"@, p.debit_collection_date),
    )
}

impl PaymentMethodSEPADirectDebit {
    /// A direct debit with no fields set.
    pub fn new() -> (r: PaymentMethodSEPADirectDebit)
        ensures
            r.direct_debit_type is None,
            r.bic is None,
            r.iban is None,
            r.bank_account_owner is None,
            r.creditor_id is None,
            r.mandate_reference is None,
            r.debit_collection_date is None,
    {
        PaymentMethodSEPADirectDebit {
            direct_debit_type: None,
            bic: None,
            iban: None,
            bank_account_owner: None,
            creditor_id: None,
            mandate_reference: None,
            debit_collection_date: None,
        }
    }

    /// The direct debit with its type set.
    pub fn with_direct_debit_type(self, direct_debit_type: &str) -> (r:
        PaymentMethodSEPADirectDebit)
        ensures
            r.direct_debit_type matches Some(v) && v@ == direct_debit_type@,
            r == (PaymentMethodSEPADirectDebit { direct_debit_type: r.direct_debit_type, ..self }),
    {
        PaymentMethodSEPADirectDebit {
            direct_debit_type: Some(direct_debit_type.to_owned()),
            ..self
        }
    }

    /// The direct debit with its BIC set.
    pub fn with_bic(self, bic: &str) -> (r: PaymentMethodSEPADirectDebit)
        ensures
            r.bic matches Some(v) && v@ == bic@,
            r == (PaymentMethodSEPADirectDebit { bic: r.bic, ..self }),
    {
        PaymentMethodSEPADirectDebit { bic: Some(bic.to_owned()), ..self }
    }

    /// The direct debit with its IBAN set.
    pub fn with_iban(self, iban: &str) -> (r: PaymentMethodSEPADirectDebit)
        ensures
            r.iban matches Some(v) && v@ == iban@,
            r == (PaymentMethodSEPADirectDebit { iban: r.iban, ..self }),
    {
        PaymentMethodSEPADirectDebit { iban: Some(iban.to_owned()), ..self }
    }

    /// The direct debit with its account owner set.
    pub fn with_bank_account_owner(self, bank_account_owner: &str) -> (r:
        PaymentMethodSEPADirectDebit)
        ensures
            r.bank_account_owner matches Some(v) && v@ == bank_account_owner@,
            r == (PaymentMethodSEPADirectDebit { bank_account_owner: r.bank_account_owner, ..self }),
    {
        PaymentMethodSEPADirectDebit {
            bank_account_owner: Some(bank_account_owner.to_owned()),
            ..self
        }
    }

    /// The direct debit with its creditor identifier set.
    pub fn with_creditor_id(self, creditor_id: &str) -> (r: PaymentMethodSEPADirectDebit)
        ensures
            r.creditor_id matches Some(v) && v@ == creditor_id@,
            r == (PaymentMethodSEPADirectDebit { creditor_id: r.creditor_id, ..self }),
    {
        PaymentMethodSEPADirectDebit { creditor_id: Some(creditor_id.to_owned()), ..self }
    }

    /// The direct debit with its mandate reference set.
    pub fn with_mandate_reference(self, mandate_reference: &str) -> (r:
        PaymentMethodSEPADirectDebit)
        ensures
            r.mandate_reference matches Some(v) && v@ == mandate_reference@,
            r == (PaymentMethodSEPADirectDebit { mandate_reference: r.mandate_reference, ..self }),
    {
        PaymentMethodSEPADirectDebit {
            mandate_reference: Some(mandate_reference.to_owned()),
            ..self
        }
    }

    /// The direct debit with its collection date set.
    pub fn with_debit_collection_date(self, debit_collection_date: &str) -> (r:
        PaymentMethodSEPADirectDebit)
        ensures
            r.debit_collection_date matches Some(v) && v@ == debit_collection_date@,
            r == (PaymentMethodSEPADirectDebit {
                debit_collection_date: r.debit_collection_date,
                ..self
            }),
    {
        PaymentMethodSEPADirectDebit {
            debit_collection_date: Some(debit_collection_date.to_owned()),
            ..self
        }
    }

    /// The rendered `SEPADirectDebit` element, or the message of the first
    /// field that breaks its rule.
    #[verifier::rlimit(30)]
    fn as_xml(&self) -> (r: Result<XmlElement, String>)
        ensures
            match r {
                Ok(e) => sepa_ok(*self) && xml_of(e) == sepa_xml_v(*self),
                Err(m) => !sepa_ok(*self) && m@ == sepa_err_v(*self),
            },
    {
        let mut e = XmlElement::new("SEPADirectDebit");
        match &self.direct_debit_type {
            Some(t) => {
                e = e.with_text_element("Type", t.as_str());
            },
            None => {
                e = e.with_text_element("Type", "B2C");
            },
        }
        match &self.bic {
            Some(bic) => {
                if bic_matches(bic.as_str()) {
                    e = e.with_text_element("BIC", bic.as_str());
                } else {
                    let mut m = String::from_str("BIC ");
                    m.append(bic.as_str());
                    m.append(" doesn't match regex ^[0-9A-Za-z]{8}([0-9A-Za-z]{3})?$!");
                    return Err(m);
                }
            },
            None => {},
        }
        match &self.iban {
            Some(iban) => {
                if iban.as_str().as_bytes().len() <= 34 {
                    e = e.with_text_element("IBAN", iban.as_str());
                } else {
                    let mut m = String::from_str("IBAN ");
                    m.append(iban.as_str());
                    m.append(" is too long!");
                    return Err(m);
                }
            },
            None => {},
        }
        match &self.bank_account_owner {
            Some(owner) => {
                if owner.as_str().as_bytes().len() <= 70 {
                    e = e.with_text_element("BankAccountOwner", owner.as_str());
                } else {
                    let mut m = String::from_str("BankAccountOwner ");
                    m.append(owner.as_str());
                    m.append(" is too long!");
                    return Err(m);
                }
            },
            None => {},
        }
        match &self.creditor_id {
            Some(creditor_id) => {
                if creditor_id.as_str().as_bytes().len() <= 35 {
                    e = e.with_text_element("CreditorID", creditor_id.as_str());
                } else {
                    let mut m = String::from_str("CreditorID ");
                    m.append(creditor_id.as_str());
                    m.append(" is too long!");
                    return Err(m);
                }
            },
            None => {},
        }
        match &self.mandate_reference {
            Some(mandate_reference) => {
                if mandate_reference.as_str().as_bytes().len() <= 35 {
                    e = e.with_text_element("MandateReference", mandate_reference.as_str());
                } else {
                    let mut m = String::from_str("MandateReference ");
                    m.append(mandate_reference.as_str());
                    m.append(" is too long!");
                    return Err(m);
                }
            },
            None => {},
        }
        match &self.debit_collection_date {
            Some(date) => {
                if date_matches(date.as_str()) {
                    e = e.with_text_element("DebitCollectionDate", date.as_str());
                } else {
                    let mut m = String::from_str("DebitCollectionDate ");
                    m.append(date.as_str());
                    m.append(" doesn't match regex ^[0-9]{4}-[0-9]{2}-[0-9]{2}$!");
                    return Err(m);
                }
            },
            None => {},
        }
        proof {
            assert(strs_view(e.attrs@) =~= Seq::<Seq<char>>::empty());
            assert(strs_view(e.body@) =~= seq![
                text_elem_v(
                    "Type"@,
                    if self.direct_debit_type is Some {
                        self.direct_debit_type->0@
                    } else {
                        "B2C"@
                    },
                ),
            ] + opt_text_seg("BIC"@, self.bic) + opt_text_seg("IBAN"@, self.iban) + opt_text_seg(
                "BankAccountOwner"@,
                self.bank_account_owner,
            ) + opt_text_seg("CreditorID"@, self.creditor_id) + opt_text_seg(
                "MandateReference"@,
                self.mandate_reference,
            ) + opt_text_seg("DebitCollectionDate"@, self.debit_collection_date));
        }
        Ok(e)
    }
}

/// A bank code together with its two-letter country code type.
pub struct PaymentMethodUniversalBankTransactionBeneficiaryAccountBankCode {
    pub bank_code: i64,
    pub bank_code_type: String,
}

impl PaymentMethodUniversalBankTransactionBeneficiaryAccountBankCode {
    /// A bank code from its number and its country code type.
    pub fn new(bank_code: i64, bank_code_type: &str) -> (r:
        PaymentMethodUniversalBankTransactionBeneficiaryAccountBankCode)
        ensures
            r.bank_code == bank_code,
            r.bank_code_type@ == bank_code_type@,
    {
        PaymentMethodUniversalBankTransactionBeneficiaryAccountBankCode {
            bank_code,
            bank_code_type: bank_code_type.to_owned(),
        }
    }
}

/// A beneficiary account of a universal bank transaction: every field
/// optional, each validated on rendering.
pub struct PaymentMethodUniversalBankTransactionBeneficiaryAccount {
    pub bank_name: Option<String>,
    pub bank_code: Option<PaymentMethodUniversalBankTransactionBeneficiaryAccountBankCode>,
    pub bic: Option<String>,
    pub bank_account_number: Option<String>,
    pub iban: Option<String>,
    pub bank_account_owner: Option<String>,
}

/// Every present account field meets its shape or length rule.
pub open spec fn acct_ok(a: PaymentMethodUniversalBankTransactionBeneficiaryAccount) -> bool {
    &&& (a.bank_name is Some ==> byte_len(a.bank_name->0@) <= 255)
    &&& (a.bank_code is Some ==> byte_len(a.bank_code->0.bank_code_type@) == 2)
    &&& (a.bic is Some ==> is_bic(a.bic->0@))
    &&& (a.iban is Some ==> byte_len(a.iban->0@) <= 34)
    &&& (a.bank_account_owner is Some ==> byte_len(a.bank_account_owner->0@) <= 70)
}

/// The message for the first account field that breaks its rule, in the
/// order the fields are checked: bank name, bank code type, BIC, IBAN,
/// owner.
pub open spec fn acct_err_v(a: PaymentMethodUniversalBankTransactionBeneficiaryAccount) -> Seq<
    char,
> {
    if a.bank_name is Some && byte_len(a.bank_name->0@) > 255 {
        "BankName "@ + a.bank_name->0@ + " is too long!"@
    } else if a.bank_code is Some && byte_len(a.bank_code->0.bank_code_type@) != 2 {
        "BankCodeType "@ + a.bank_code->0.bank_code_type@ + " is not 2 characters long!"@
    } else if a.bic is Some && !is_bic(a.bic->0@) {
        "BIC "@ + a.bic->0@ + " doesn't match regex ^[0-9A-Za-z]{8}([0-9A-Za-z]{3})?$!"@
    } else if a.iban is Some && byte_len(a.iban->0@) > 34 {
        "IBAN "@ + a.iban->0@ + " is too long!"@
    } else if a.bank_account_owner is Some && byte_len(a.bank_account_owner->0@) > 70 {
        "BankAccountOwner "@ + a.bank_account_owner->0@ + " is too long!"@
    } else {
        Seq::empty()
    }
}

/// The rendered `BeneficiaryAccount` element: every present field in schema
/// order, the bank code with its type as an attribute.
pub open spec fn acct_xml_v(a: PaymentMethodUniversalBankTransactionBeneficiaryAccount) -> Seq<
    char,
> {
    elem_str_v(
        escape("BeneficiaryAccount"@),
        Seq::empty(),
        opt_text_seg("BankName"@, a.bank_name) + (if a.bank_code is Some {
            seq![
                elem_str_v(
                    escape("BankCode"@),
                    seq![attr_str_v("BankCodeType"@, a.bank_code->0.bank_code_type@)],
                    seq![escape(int_str(a.bank_code->0.bank_code as int))],
                ),
            ]
        } else {
            Seq::empty()
        }) + opt_text_seg("BIC"@, a.bic) + opt_text_seg("BankAccountNr"@, a.bank_account_number)
            + opt_text_seg("IBAN"@, a.iban) + opt_text_seg(
            "BankAccountOwner"@,
            a.bank_account_owner,
        ),
    )
}

impl PaymentMethodUniversalBankTransactionBeneficiaryAccount {
    /// An account with no fields set.
    pub fn new() -> (r: PaymentMethodUniversalBankTransactionBeneficiaryAccount)
        ensures
            r.bank_name is None,
            r.bank_code is None,
            r.bic is None,
            r.bank_account_number is None,
            r.iban is None,
            r.bank_account_owner is None,
    {
        PaymentMethodUniversalBankTransactionBeneficiaryAccount {
            bank_name: None,
            bank_code: None,
            bic: None,
            bank_account_number: None,
            iban: None,
            bank_account_owner: None,
        }
    }

    /// The account with its bank name set.
    pub fn with_bank_name(self, bank_name: &str) -> (r:
        PaymentMethodUniversalBankTransactionBeneficiaryAccount)
        ensures
            r.bank_name matches Some(v) && v@ == bank_name@,
            r == (PaymentMethodUniversalBankTransactionBeneficiaryAccount {
                bank_name: r.bank_name,
                ..self
            }),
    {
        PaymentMethodUniversalBankTransactionBeneficiaryAccount {
            bank_name: Some(bank_name.to_owned()),
            ..self
        }
    }

    /// The account with its bank code set.
    pub fn with_bank_code(
        self,
        bank_code: PaymentMethodUniversalBankTransactionBeneficiaryAccountBankCode,
    ) -> (r: PaymentMethodUniversalBankTransactionBeneficiaryAccount)
        ensures
            r.bank_code matches Some(v) && v == bank_code,
            r == (PaymentMethodUniversalBankTransactionBeneficiaryAccount {
                bank_code: r.bank_code,
                ..self
            }),
    {
        PaymentMethodUniversalBankTransactionBeneficiaryAccount {
            bank_code: Some(bank_code),
            ..self
        }
    }

    /// The account with its BIC set.
    pub fn with_bic(self, bic: &str) -> (r:
        PaymentMethodUniversalBankTransactionBeneficiaryAccount)
        ensures
            r.bic matches Some(v) && v@ == bic@,
            r == (PaymentMethodUniversalBankTransactionBeneficiaryAccount { bic: r.bic, ..self }),
    {
        PaymentMethodUniversalBankTransactionBeneficiaryAccount {
            bic: Some(bic.to_owned()),
            ..self
        }
    }

    /// The account with its account number set.
    pub fn with_bank_account_number(self, bank_account_number: &str) -> (r:
        PaymentMethodUniversalBankTransactionBeneficiaryAccount)
        ensures
            r.bank_account_number matches Some(v) && v@ == bank_account_number@,
            r == (PaymentMethodUniversalBankTransactionBeneficiaryAccount {
                bank_account_number: r.bank_account_number,
                ..self
            }),
    {
        PaymentMethodUniversalBankTransactionBeneficiaryAccount {
            bank_account_number: Some(bank_account_number.to_owned()),
            ..self
        }
    }

    /// The account with its IBAN set.
    pub fn with_iban(self, iban: &str) -> (r:
        PaymentMethodUniversalBankTransactionBeneficiaryAccount)
        ensures
            r.iban matches Some(v) && v@ == iban@,
            r == (PaymentMethodUniversalBankTransactionBeneficiaryAccount { iban: r.iban, ..self }),
    {
        PaymentMethodUniversalBankTransactionBeneficiaryAccount {
            iban: Some(iban.to_owned()),
            ..self
        }
    }

    /// The account with its owner set.
    pub fn with_bank_account_owner(self, bank_account_owner: &str) -> (r:
        PaymentMethodUniversalBankTransactionBeneficiaryAccount)
        ensures
            r.bank_account_owner matches Some(v) && v@ == bank_account_owner@,
            r == (PaymentMethodUniversalBankTransactionBeneficiaryAccount {
                bank_account_owner: r.bank_account_owner,
                ..self
            }),
    {
        PaymentMethodUniversalBankTransactionBeneficiaryAccount {
            bank_account_owner: Some(bank_account_owner.to_owned()),
            ..self
        }
    }

    /// The rendered `BeneficiaryAccount` element, or the message of the
    /// first field that breaks its rule.
    #[verifier::rlimit(30)]
    fn as_xml(&self) -> (r: Result<XmlElement, String>)
        ensures
            match r {
                Ok(e) => acct_ok(*self) && xml_of(e) == acct_xml_v(*self),
                Err(m) => !acct_ok(*self) && m@ == acct_err_v(*self),
            },
    {
        let mut e = XmlElement::new("BeneficiaryAccount");
        match &self.bank_name {
            Some(bank_name) => {
                if bank_name.as_str().as_bytes().len() <= 255 {
                    e = e.with_text_element("BankName", bank_name.as_str());
                } else {
                    let mut m = String::from_str("BankName ");
                    m.append(bank_name.as_str());
                    m.append(" is too long!");
                    return Err(m);
                }
            },
            None => {},
        }
        match &self.bank_code {
            Some(bank_code) => {
                if bank_code.bank_code_type.as_str().as_bytes().len() != 2 {
                    let mut m = String::from_str("BankCodeType ");
                    m.append(bank_code.bank_code_type.as_str());
                    m.append(" is not 2 characters long!");
                    return Err(m);
                }
                let code_str = i64_to_string(bank_code.bank_code);
                let bce = XmlElement::new("BankCode").with_text(code_str.as_str()).with_attr(
                    "BankCodeType",
                    bank_code.bank_code_type.as_str(),
                );
                proof {
                    assert(strs_view(bce.attrs@) =~= seq![
                        attr_str_v("BankCodeType"@, bank_code.bank_code_type@),
                    ]);
                    assert(strs_view(bce.body@) =~= seq![
                        escape(int_str(bank_code.bank_code as int)),
                    ]);
                }
                e = e.with_element(&bce);
            },
            None => {},
        }
        match &self.bic {
            Some(bic) => {
                if bic_matches(bic.as_str()) {
                    e = e.with_text_element("BIC", bic.as_str());
                } else {
                    let mut m = String::from_str("BIC ");
                    m.append(bic.as_str());
                    m.append(" doesn't match regex ^[0-9A-Za-z]{8}([0-9A-Za-z]{3})?$!");
                    return Err(m);
                }
            },
            None => {},
        }
        match &self.bank_account_number {
            Some(n) => {
                e = e.with_text_element("BankAccountNr", n.as_str());
            },
            None => {},
        }
        match &self.iban {
            Some(iban) => {
                if iban.as_str().as_bytes().len() <= 34 {
                    e = e.with_text_element("IBAN", iban.as_str());
                } else {
                    let mut m = String::from_str("IBAN ");
                    m.append(iban.as_str());
                    m.append(" is too long!");
                    return Err(m);
                }
            },
            None => {},
        }
        match &self.bank_account_owner {
            Some(owner) => {
                if owner.as_str().as_bytes().len() <= 70 {
                    e = e.with_text_element("BankAccountOwner", owner.as_str());
                } else {
                    let mut m = String::from_str("BankAccountOwner ");
                    m.append(owner.as_str());
                    m.append(" is too long!");
                    return Err(m);
                }
            },
            None => {},
        }
        proof {
            assert(strs_view(e.attrs@) =~= Seq::<Seq<char>>::empty());
            assert(strs_view(e.body@) =~= opt_text_seg("BankName"@, self.bank_name) + (
            if self.bank_code is Some {
                seq![
                    elem_str_v(
                        escape("BankCode"@),
                        seq![attr_str_v("BankCodeType"@, self.bank_code->0.bank_code_type@)],
                        seq![escape(int_str(self.bank_code->0.bank_code as int))],
                    ),
                ]
            } else {
                Seq::empty()
            }) + opt_text_seg("BIC"@, self.bic) + opt_text_seg(
                "BankAccountNr"@,
                self.bank_account_number,
            ) + opt_text_seg("IBAN"@, self.iban) + opt_text_seg(
                "BankAccountOwner"@,
                self.bank_account_owner,
            ));
        }
        Ok(e)
    }
}

/// A universal bank transaction: an optional consolidator flag, any number
/// of beneficiary accounts, and an optional payment reference with checksum.
pub struct PaymentMethodUniversalBankTransaction {
    pub consolidator_payable: Option<bool>,
    pub beneficiary_account: Option<Vec<PaymentMethodUniversalBankTransactionBeneficiaryAccount>>,
    pub payment_reference: Option<String>,
    pub payment_reference_checksum: Option<String>,
}

/// The beneficiary accounts, empty when none were attached.
pub open spec fn accounts_of(u: PaymentMethodUniversalBankTransaction) -> Seq<
    PaymentMethodUniversalBankTransactionBeneficiaryAccount,
> {
    match u.beneficiary_account {
        Some(v) => v@,
        None => Seq::empty(),
    }
}

/// Every account and the payment reference meet their rules.
pub open spec fn ubt_ok(u: PaymentMethodUniversalBankTransaction) -> bool {
    &&& forall|i: int| 0 <= i < accounts_of(u).len() ==> acct_ok(#[trigger] accounts_of(u)[i])
    &&& (u.payment_reference is Some ==> byte_len(u.payment_reference->0@) <= 35)
}

/// The message of the first failing account, walking the accounts in order.
pub open spec fn first_acct_err(
    s: Seq<PaymentMethodUniversalBankTransactionBeneficiaryAccount>,
) -> Seq<char>
    decreases s.len(),
{
    if s.len() == 0 {
        Seq::empty()
    } else if !acct_ok(s[0]) {
        acct_err_v(s[0])
    } else {
        first_acct_err(s.drop_first())
    }
}

/// The message for the first broken rule: the first failing account's
/// message, else the payment reference length message.
pub open spec fn ubt_err_v(u: PaymentMethodUniversalBankTransaction) -> Seq<char> {
    if exists|i: int| 0 <= i < accounts_of(u).len() && !acct_ok(#[trigger] accounts_of(u)[i]) {
        first_acct_err(accounts_of(u))
    } else {
        "PaymentReference "@ + u.payment_reference->0@ + " is too long!"@
    }
}

/// The rendered `UniversalBankTransaction` element: the consolidator flag
/// as an attribute (false when unset), every account, then the payment
/// reference with its optional checksum attribute.
pub open spec fn ubt_xml_v(u: PaymentMethodUniversalBankTransaction) -> Seq<char> {
    elem_str_v(
        escape("UniversalBankTransaction"@),
        seq![
            attr_str_v(
                "ConsolidatorPayable"@,
                bool_str_v(
                    match u.consolidator_payable {
                        Some(b) => b,
                        None => false,
                    },
                ),
            ),
        ],
        accounts_of(u).map_values(
            |a: PaymentMethodUniversalBankTransactionBeneficiaryAccount| acct_xml_v(a),
        ) + (if u.payment_reference is Some {
            seq![
                elem_str_v(
                    escape("PaymentReference"@),
                    if u.payment_reference_checksum is Some {
                        seq![attr_str_v("CheckSum"@, u.payment_reference_checksum->0@)]
                    } else {
                        Seq::empty()
                    },
                    seq![escape(u.payment_reference->0@)],
                ),
            ]
        } else {
            Seq::empty()
        }),
    )
}

proof fn lemma_first_acct_err(
    s: Seq<PaymentMethodUniversalBankTransactionBeneficiaryAccount>,
    i: int,
)
    requires
        0 <= i < s.len(),
        !acct_ok(s[i]),
        forall|j: int| 0 <= j < i ==> acct_ok(#[trigger] s[j]),
    ensures
        first_acct_err(s) == acct_err_v(s[i]),
    decreases s.len(),
{
    if i == 0 {
    } else {
        assert(acct_ok(s[0]));
        lemma_first_acct_err(s.drop_first(), i - 1);
        assert(s.drop_first()[i - 1] == s[i]);
    }
}

impl PaymentMethodUniversalBankTransaction {
    /// The rendered `UniversalBankTransaction` element, or the message of
    /// the first broken rule.
    #[verifier::rlimit(30)]
    fn as_xml(&self) -> (r: Result<XmlElement, String>)
        ensures
            match r {
                Ok(e) => ubt_ok(*self) && xml_of(e) == ubt_xml_v(*self),
                Err(m) => !ubt_ok(*self) && m@ == ubt_err_v(*self),
            },
    {
        let ghost rendered = accounts_of(*self).map_values(
            |a: PaymentMethodUniversalBankTransactionBeneficiaryAccount| acct_xml_v(a),
        );
        let consolidator_payable = match &self.consolidator_payable {
            Some(b) => *b,
            None => false,
        };
        let mut e = XmlElement::new("UniversalBankTransaction").with_attr(
            "ConsolidatorPayable",
            if consolidator_payable {
                "true"
            } else {
                "false"
            },
        );
        proof {
            assert(strs_view(e.attrs@) =~= seq![
                attr_str_v(
                    "ConsolidatorPayable"@,
                    bool_str_v(
                        match self.consolidator_payable {
                            Some(b) => b,
                            None => false,
                        },
                    ),
                ),
            ]);
        }
        match &self.beneficiary_account {
            Some(accounts) => {
                let mut i: usize = 0;
                while i < accounts.len()
                    invariant
                        i <= accounts@.len(),
                        accounts@ == accounts_of(*self),
                        rendered == accounts_of(*self).map_values(
                            |a: PaymentMethodUniversalBankTransactionBeneficiaryAccount|
                                acct_xml_v(a),
                        ),
                        e.name@ == escape("UniversalBankTransaction"@),
                        strs_view(e.attrs@) == seq![
                            attr_str_v(
                                "ConsolidatorPayable"@,
                                bool_str_v(
                                    match self.consolidator_payable {
                                        Some(b) => b,
                                        None => false,
                                    },
                                ),
                            ),
                        ],
                        strs_view(e.body@) == rendered.take(i as int),
                        forall|j: int| 0 <= j < i ==> acct_ok(#[trigger] accounts@[j]),
                    decreases accounts@.len() - i,
                {
                    match accounts[i].as_xml() {
                        Ok(child) => {
                            e = e.with_element(&child);
                            proof {
                                assert(strs_view(e.body@) =~= rendered.take(i + 1));
                            }
                        },
                        Err(m) => {
                            proof {
                                lemma_first_acct_err(accounts@, i as int);
                            }
                            return Err(m);
                        },
                    }
                    i = i + 1;
                }
            },
            None => {},
        }
        proof {
            assert(rendered.take(rendered.len() as int) =~= rendered);
            assert(strs_view(e.body@) =~= rendered);
        }
        match &self.payment_reference {
            Some(payment_reference) => {
                if payment_reference.as_str().as_bytes().len() <= 35 {
                    let mut pre = XmlElement::new("PaymentReference").with_text(
                        payment_reference.as_str(),
                    );
                    match &self.payment_reference_checksum {
                        Some(checksum) => {
                            pre = pre.with_attr("CheckSum", checksum.as_str());
                            proof {
                                assert(strs_view(pre.attrs@) =~= seq![
                                    attr_str_v("CheckSum"@, checksum@),
                                ]);
                            }
                        },
                        None => {
                            proof {
                                assert(strs_view(pre.attrs@) =~= Seq::<Seq<char>>::empty());
                            }
                        },
                    }
                    proof {
                        assert(strs_view(pre.body@) =~= seq![escape(self.payment_reference->0@)]);
                    }
                    e = e.with_element(&pre);
                    proof {
                        assert(strs_view(e.body@) =~= rendered + seq![xml_of(pre)]);
                    }
                } else {
                    let mut m = String::from_str("PaymentReference ");
                    m.append(payment_reference.as_str());
                    m.append(" is too long!");
                    return Err(m);
                }
            },
            None => {
                proof {
                    assert(rendered + Seq::<Seq<char>>::empty() =~= rendered);
                }
            },
        }
        proof {
            assert(strs_view(e.body@) =~= accounts_of(*self).map_values(
                |a: PaymentMethodUniversalBankTransactionBeneficiaryAccount| acct_xml_v(a),
            ) + (if self.payment_reference is Some {
                seq![
                    elem_str_v(
                        escape("PaymentReference"@),
                        if self.payment_reference_checksum is Some {
                            seq![attr_str_v("CheckSum"@, self.payment_reference_checksum->0@)]
                        } else {
                            Seq::empty()
                        },
                        seq![escape(self.payment_reference->0@)],
                    ),
                ]
            } else {
                Seq::empty()
            }));
        }
        Ok(e)
    }
}

/// A payment card: the masked primary account number and the optional card
/// holder name.
pub struct PaymentMethodPaymentCard {
    pub primary_account_number: String,
    pub card_holder_name: Option<String>,
}

/// The masked primary account number has the allowed shape.
pub open spec fn card_ok(p: PaymentMethodPaymentCard) -> bool {
    is_card_number(p.primary_account_number@)
}

/// The message for a malformed primary account number.
pub open spec fn card_err_v(p: PaymentMethodPaymentCard) -> Seq<char> {
    "Invalid primary account number \""@ + p.primary_account_number@
        + "\". Only provide at most the first 6 and last 4 digits, separated with a \"*\"."@
}

/// The rendered `PaymentCard` element.
pub open spec fn card_xml_v(p: PaymentMethodPaymentCard) -> Seq<char> {
    elem_str_v(
        escape("PaymentCard"@),
        Seq::empty(),
        seq![text_elem_v("PrimaryAccountNumber"@, p.primary_account_number@)] + opt_text_seg(
            "CardHolderName"@,
            p.card_holder_name,
        ),
    )
}

impl PaymentMethodPaymentCard {
    /// A card from its masked primary account number: provide at most the
    /// first six and last four digits, separated with a '*'.
    pub fn new(primary_account_number: &str) -> (r: PaymentMethodPaymentCard)
        ensures
            r.primary_account_number@ == primary_account_number@,
            r.card_holder_name is None,
    {
        PaymentMethodPaymentCard {
            primary_account_number: primary_account_number.to_owned(),
            card_holder_name: None,
        }
    }

    /// The card with its holder's name set.
    pub fn with_card_holder_name(self, card_holder_name: &str) -> (r: PaymentMethodPaymentCard)
        ensures
            r.primary_account_number == self.primary_account_number,
            r.card_holder_name matches Some(v) && v@ == card_holder_name@,
    {
        PaymentMethodPaymentCard {
            card_holder_name: Some(card_holder_name.to_owned()),
            ..self
        }
    }

    /// The rendered `PaymentCard` element, or the message for a malformed
    /// primary account number.
    fn as_xml(&self) -> (r: Result<XmlElement, String>)
        ensures
            match r {
                Ok(e) => card_ok(*self) && xml_of(e) == card_xml_v(*self),
                Err(m) => !card_ok(*self) && m@ == card_err_v(*self),
            },
    {
        let mut e = XmlElement::new("PaymentCard");
        if card_number_matches(self.primary_account_number.as_str()) {
            e = e.with_text_element("PrimaryAccountNumber", self.primary_account_number.as_str());
        } else {
            let mut m = String::from_str("Invalid primary account number \"");
            m.append(self.primary_account_number.as_str());
            m.append(
                "\". Only provide at most the first 6 and last 4 digits, separated with a \"*\".",
            );
            return Err(m);
        }
        match &self.card_holder_name {
            Some(name) => {
                e = e.with_text_element("CardHolderName", name.as_str());
            },
            None => {},
        }
        proof {
            assert(strs_view(e.attrs@) =~= Seq::<Seq<char>>::empty());
            assert(strs_view(e.body@) =~= seq![
                text_elem_v("PrimaryAccountNumber"@, self.primary_account_number@),
            ] + opt_text_seg("CardHolderName"@, self.card_holder_name));
        }
        Ok(e)
    }
}

/// The closed set of payment method variants.
pub enum PaymentMethodType {
    NoPayment,
    SEPADirectDebit(PaymentMethodSEPADirectDebit),
    UniversalBankTransactionBeneficiaryAccount(
        PaymentMethodUniversalBankTransactionBeneficiaryAccount,
    ),
    UniversalBankTransaction(PaymentMethodUniversalBankTransaction),
    PaymentCard(PaymentMethodPaymentCard),
    OtherPayment,
}

/// The variant's fields meet their rules.
pub open spec fn pmt_ok(t: PaymentMethodType) -> bool {
    match t {
        PaymentMethodType::NoPayment => true,
        PaymentMethodType::SEPADirectDebit(p) => sepa_ok(p),
        PaymentMethodType::UniversalBankTransactionBeneficiaryAccount(a) => acct_ok(a),
        PaymentMethodType::UniversalBankTransaction(u) => ubt_ok(u),
        PaymentMethodType::PaymentCard(p) => card_ok(p),
        PaymentMethodType::OtherPayment => true,
    }
}

/// The variant's message for its first broken rule.
pub open spec fn pmt_err_v(t: PaymentMethodType) -> Seq<char> {
    match t {
        PaymentMethodType::NoPayment => Seq::empty(),
        PaymentMethodType::SEPADirectDebit(p) => sepa_err_v(p),
        PaymentMethodType::UniversalBankTransactionBeneficiaryAccount(a) => acct_err_v(a),
        PaymentMethodType::UniversalBankTransaction(u) => ubt_err_v(u),
        PaymentMethodType::PaymentCard(p) => card_err_v(p),
        PaymentMethodType::OtherPayment => Seq::empty(),
    }
}

/// The variant's rendered element.
pub open spec fn pmt_xml_v(t: PaymentMethodType) -> Seq<char> {
    match t {
        PaymentMethodType::NoPayment => elem_str_v(
            escape("NoPayment"@),
            Seq::empty(),
            Seq::empty(),
        ),
        PaymentMethodType::SEPADirectDebit(p) => sepa_xml_v(p),
        PaymentMethodType::UniversalBankTransactionBeneficiaryAccount(a) => acct_xml_v(a),
        PaymentMethodType::UniversalBankTransaction(u) => ubt_xml_v(u),
        PaymentMethodType::PaymentCard(p) => card_xml_v(p),
        PaymentMethodType::OtherPayment => elem_str_v(
            escape("OtherPayment"@),
            Seq::empty(),
            Seq::empty(),
        ),
    }
}

impl PaymentMethodType {
    /// The variant's rendered element, or its first broken rule's message.
    fn as_xml(&self) -> (r: Result<XmlElement, String>)
        ensures
            match r {
                Ok(e) => pmt_ok(*self) && xml_of(e) == pmt_xml_v(*self),
                Err(m) => !pmt_ok(*self) && m@ == pmt_err_v(*self),
            },
    {
        match self {
            PaymentMethodType::NoPayment => {
                let e = XmlElement::new("NoPayment");
                proof {
                    assert(strs_view(e.attrs@) =~= Seq::<Seq<char>>::empty());
                    assert(strs_view(e.body@) =~= Seq::<Seq<char>>::empty());
                }
                Ok(e)
            },
            PaymentMethodType::SEPADirectDebit(p) => p.as_xml(),
            PaymentMethodType::UniversalBankTransactionBeneficiaryAccount(a) => a.as_xml(),
            PaymentMethodType::UniversalBankTransaction(u) => u.as_xml(),
            PaymentMethodType::PaymentCard(p) => p.as_xml(),
            PaymentMethodType::OtherPayment => {
                let e = XmlElement::new("OtherPayment");
                proof {
                    assert(strs_view(e.attrs@) =~= Seq::<Seq<char>>::empty());
                    assert(strs_view(e.body@) =~= Seq::<Seq<char>>::empty());
                }
                Ok(e)
            },
        }
    }
}

/// A payment method: an optional comment and the method variant.
pub struct PaymentMethod {
    pub comment: Option<String>,
    pub method: PaymentMethodType,
}

/// The method's fields meet their rules.
pub open spec fn pm_ok(m: PaymentMethod) -> bool {
    pmt_ok(m.method)
}

/// The method's message for its first broken rule.
pub open spec fn pm_err_v(m: PaymentMethod) -> Seq<char> {
    pmt_err_v(m.method)
}

/// The rendered `PaymentMethod` element: the optional comment, then the
/// variant's own element.
pub open spec fn pm_xml_v(m: PaymentMethod) -> Seq<char> {
    elem_str_v(
        escape("PaymentMethod"@),
        Seq::empty(),
        opt_text_seg("Comment"@, m.comment) + seq![pmt_xml_v(m.method)],
    )
}

impl PaymentMethod {
    /// No payment is expected.
    pub fn no_payment() -> (r: PaymentMethod)
        ensures
            r.comment is None,
            r.method is NoPayment,
    {
        PaymentMethod { comment: None, method: PaymentMethodType::NoPayment }
    }

    /// Payment by SEPA direct debit.
    pub fn sepa_direct_debit(sepa_direct_debit: PaymentMethodSEPADirectDebit) -> (r: PaymentMethod)
        ensures
            r.comment is None,
            r.method matches PaymentMethodType::SEPADirectDebit(p) && p == sepa_direct_debit,
    {
        PaymentMethod {
            comment: None,
            method: PaymentMethodType::SEPADirectDebit(sepa_direct_debit),
        }
    }

    /// Payment by universal bank transaction.
    pub fn universal_bank_transaction(
        universal_bank_transaction: PaymentMethodUniversalBankTransaction,
    ) -> (r: PaymentMethod)
        ensures
            r.comment is None,
            r.method matches PaymentMethodType::UniversalBankTransaction(u) && u
                == universal_bank_transaction,
    {
        PaymentMethod {
            comment: None,
            method: PaymentMethodType::UniversalBankTransaction(universal_bank_transaction),
        }
    }

    /// Payment to one beneficiary account.
    pub fn universal_bank_transaction_beneficiary_account(
        universal_bank_transaction_beneficiary_account:
            PaymentMethodUniversalBankTransactionBeneficiaryAccount,
    ) -> (r: PaymentMethod)
        ensures
            r.comment is None,
            r.method matches PaymentMethodType::UniversalBankTransactionBeneficiaryAccount(a) && a
                == universal_bank_transaction_beneficiary_account,
    {
        PaymentMethod {
            comment: None,
            method: PaymentMethodType::UniversalBankTransactionBeneficiaryAccount(
                universal_bank_transaction_beneficiary_account,
            ),
        }
    }

    /// Payment by card.
    pub fn payment_card(payment_card: PaymentMethodPaymentCard) -> (r: PaymentMethod)
        ensures
            r.comment is None,
            r.method matches PaymentMethodType::PaymentCard(p) && p == payment_card,
    {
        PaymentMethod { comment: None, method: PaymentMethodType::PaymentCard(payment_card) }
    }

    /// Payment by some other arrangement.
    pub fn other_payment() -> (r: PaymentMethod)
        ensures
            r.comment is None,
            r.method is OtherPayment,
    {
        PaymentMethod { comment: None, method: PaymentMethodType::OtherPayment }
    }

    /// The method with its comment set.
    pub fn with_comment(self, comment: &str) -> (r: PaymentMethod)
        ensures
            r.comment matches Some(c) && c@ == comment@,
            r.method == self.method,
    {
        PaymentMethod { comment: Some(comment.to_owned()), ..self }
    }

    /// The rendered `PaymentMethod` element, or the message of the first
    /// broken rule of the method's fields.
    pub fn as_xml(&self) -> (r: Result<XmlElement, String>)
        ensures
            match r {
                Ok(e) => pm_ok(*self) && xml_of(e) == pm_xml_v(*self),
                Err(m) => !pm_ok(*self) && m@ == pm_err_v(*self),
            },
    {
        let mut e = XmlElement::new("PaymentMethod");
        match &self.comment {
            Some(c) => {
                e = e.with_text_element("Comment", c.as_str());
            },
            None => {},
        }
        match self.method.as_xml() {
            Ok(pmt) => {
                e = e.with_element(&pmt);
                proof {
                    assert(strs_view(e.attrs@) =~= Seq::<Seq<char>>::empty());
                    assert(strs_view(e.body@) =~= opt_text_seg("Comment"@, self.comment) + seq![
                        pmt_xml_v(self.method),
                    ]);
                }
                Ok(e)
            },
            Err(m) => Err(m),
        }
    }
}

impl core::default::Default for PaymentMethod {
    /// No payment, with no comment.
    fn default() -> (r: PaymentMethod)
        ensures
            r.comment is None,
            r.method is NoPayment,
    {
        PaymentMethod { comment: None, method: PaymentMethodType::NoPayment }
    }
}

} // verus!
