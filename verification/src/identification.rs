//! Further identification entries of a party: a free identifier together
//! with the kind of register it refers to.

use vstd::prelude::*;

verus! {

use vstd::string::StringExecFns;
use crate::xml::{attr_str_v, elem_str_v, escape, strs_view, xml_of, XmlElement};

/// The kind of register a further identification refers to.
#[allow(non_camel_case_types)]
pub enum FurtherIdentificationType {
    ARA,
    BBG_GZ,
    Consolidator,
    Contract,
    DVR,
    EORI,
    ERSB,
    FN,
    FR,
    HG,
    Payer,
    FASTNR,
    VID,
    VN,
}

/// The identification type's code as written into the document.
pub open spec fn fi_type_str_v(t: FurtherIdentificationType) -> Seq<char> {
    match t {
        FurtherIdentificationType::ARA => "ARA"@,
        FurtherIdentificationType::BBG_GZ => "BBG_GZ"@,
        FurtherIdentificationType::Consolidator => "Consolidator"@,
        FurtherIdentificationType::Contract => "Contract"@,
        FurtherIdentificationType::DVR => "DVR"@,
        FurtherIdentificationType::EORI => "EORI"@,
        FurtherIdentificationType::ERSB => "ERSB"@,
        FurtherIdentificationType::FN => "FN"@,
        FurtherIdentificationType::FR => "FR"@,
        FurtherIdentificationType::HG => "HG"@,
        FurtherIdentificationType::Payer => "Payer"@,
        FurtherIdentificationType::FASTNR => "FASTNR"@,
        FurtherIdentificationType::VID => "VID"@,
        FurtherIdentificationType::VN => "VN"@,
    }
}

impl FurtherIdentificationType {
    /// The type's code as written into the document.
    pub fn to_string(&self) -> (r: String)
        ensures
            r@ == fi_type_str_v(*self),
    {
        String::from_str(
            match self {
                FurtherIdentificationType::ARA => "ARA",
                FurtherIdentificationType::BBG_GZ => "BBG_GZ",
                FurtherIdentificationType::Consolidator => "Consolidator",
                FurtherIdentificationType::Contract => "Contract",
                FurtherIdentificationType::DVR => "DVR",
                FurtherIdentificationType::EORI => "EORI",
                FurtherIdentificationType::ERSB => "ERSB",
                FurtherIdentificationType::FN => "FN",
                FurtherIdentificationType::FR => "FR",
                FurtherIdentificationType::HG => "HG",
                FurtherIdentificationType::Payer => "Payer",
                FurtherIdentificationType::FASTNR => "FASTNR",
                FurtherIdentificationType::VID => "VID",
                FurtherIdentificationType::VN => "VN",
            },
        )
    }
}

/// One further identification entry of a party.
pub struct FurtherIdentification {
    pub id: String,
    pub id_type: FurtherIdentificationType,
}

/// The rendered `FurtherIdentification` element: the identifier as text,
/// the register kind as the `IdentificationType` attribute.
pub open spec fn fi_xml_v(f: FurtherIdentification) -> Seq<char> {
    elem_str_v(
        escape("FurtherIdentification"@),
        seq![attr_str_v("IdentificationType"@, fi_type_str_v(f.id_type))],
        seq![escape(f.id@)],
    )
}

impl FurtherIdentification {
    /// An entry from an identifier and its register kind.
    pub fn new(id: &str, id_type: FurtherIdentificationType) -> (r: FurtherIdentification)
        ensures
            r.id@ == id@,
            r.id_type == id_type,
    {
        FurtherIdentification { id: id.to_owned(), id_type }
    }

    /// This entry as an element, ready to splice into a party block.
    pub(crate) fn build_element(&self) -> (e: XmlElement)
        ensures
            xml_of(e) == fi_xml_v(*self),
    {
        let t = self.id_type.to_string();
        let e = XmlElement::new("FurtherIdentification").with_attr(
            "IdentificationType",
            t.as_str(),
        ).with_text(self.id.as_str());
        proof {
            assert(strs_view(e.attrs@) =~= seq![
                attr_str_v("IdentificationType"@, fi_type_str_v(self.id_type)),
            ]);
            assert(strs_view(e.body@) =~= seq![escape(self.id@)]);
        }
        e
    }

    /// The rendered `FurtherIdentification` element.
    pub fn to_xml(&self) -> (r: String)
        ensures
            r@ == fi_xml_v(*self),
    {
        self.build_element().to_xml()
    }
}

} // verus!
