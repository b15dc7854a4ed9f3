//! Tax categories, the per-item tax pair (rate, category), and the rendering
//! of one `TaxItem` element from a rate, a category and a taxable amount.

use vstd::prelude::*;

verus! {

use crate::decimal::{half_away, iabs, lemma_div_by_hundred_ok, lemma_percent_of_amount_rounded,
    lemma_pow10_le, lemma_pow10_pos, max_dec_scale, max_mantissa, mul_ok, mul_v, pow10,
    rescale_ok, rescale_v, DecV, Decimal, dec_mul, dec_div, dec_rescale, dec_to_string,
    dec_str_v};
use crate::xml::{attr_str_v, elem_str_v, escape, strs_view, xml_of, XmlElement};

/// A government tax-category code. The declared order of the variants is the
/// tie-breaking order of the aggregated tax summary.
#[derive(Clone, Copy, Debug, PartialEq, Eq, Structural, Hash)]
pub enum TaxCategory {
    S,
    AA,
    O,
    D,
    E,
    F,
    G,
    I,
    J,
    K,
    AE,
    Z,
}

/// The position of a category in the declared enumeration order.
pub open spec fn cat_rank(c: TaxCategory) -> int {
    match c {
        TaxCategory::S => 0,
        TaxCategory::AA => 1,
        TaxCategory::O => 2,
        TaxCategory::D => 3,
        TaxCategory::E => 4,
        TaxCategory::F => 5,
        TaxCategory::G => 6,
        TaxCategory::I => 7,
        TaxCategory::J => 8,
        TaxCategory::K => 9,
        TaxCategory::AE => 10,
        TaxCategory::Z => 11,
    }
}

/// The category's code as written into the document.
pub open spec fn cat_str_v(c: TaxCategory) -> Seq<char> {
    match c {
        TaxCategory::S => seq!['S'],
        TaxCategory::AA => seq!['A', 'A'],
        TaxCategory::O => seq!['O'],
        TaxCategory::D => seq!['D'],
        TaxCategory::E => seq!['E'],
        TaxCategory::F => seq!['F'],
        TaxCategory::G => seq!['G'],
        TaxCategory::I => seq!['I'],
        TaxCategory::J => seq!['J'],
        TaxCategory::K => seq!['K'],
        TaxCategory::AE => seq!['A', 'E'],
        TaxCategory::Z => seq!['Z'],
    }
}

impl TaxCategory {
    /// The position of this category in the declared enumeration order.
    pub fn rank(&self) -> (r: u32)
        ensures
            r as int == cat_rank(*self),
    {
        match self {
            TaxCategory::S => 0,
            TaxCategory::AA => 1,
            TaxCategory::O => 2,
            TaxCategory::D => 3,
            TaxCategory::E => 4,
            TaxCategory::F => 5,
            TaxCategory::G => 6,
            TaxCategory::I => 7,
            TaxCategory::J => 8,
            TaxCategory::K => 9,
            TaxCategory::AE => 10,
            TaxCategory::Z => 11,
        }
    }

    /// The category's code as written into the document.
    pub fn as_str(&self) -> (r: &'static str)
        ensures
            r@ == cat_str_v(*self),
    {
        proof {
            reveal_strlit("S");
            reveal_strlit("AA");
            reveal_strlit("O");
            reveal_strlit("D");
            reveal_strlit("E");
            reveal_strlit("F");
            reveal_strlit("G");
            reveal_strlit("I");
            reveal_strlit("J");
            reveal_strlit("K");
            reveal_strlit("AE");
            reveal_strlit("Z");
            assert("S"@ =~= seq!['S']);
            assert("AA"@ =~= seq!['A', 'A']);
            assert("O"@ =~= seq!['O']);
            assert("D"@ =~= seq!['D']);
            assert("E"@ =~= seq!['E']);
            assert("F"@ =~= seq!['F']);
            assert("G"@ =~= seq!['G']);
            assert("I"@ =~= seq!['I']);
            assert("J"@ =~= seq!['J']);
            assert("K"@ =~= seq!['K']);
            assert("AE"@ =~= seq!['A', 'E']);
            assert("Z"@ =~= seq!['Z']);
        }
        match self {
            TaxCategory::S => "S",
            TaxCategory::AA => "AA",
            TaxCategory::O => "O",
            TaxCategory::D => "D",
            TaxCategory::E => "E",
            TaxCategory::F => "F",
            TaxCategory::G => "G",
            TaxCategory::I => "I",
            TaxCategory::J => "J",
            TaxCategory::K => "K",
            TaxCategory::AE => "AE",
            TaxCategory::Z => "Z",
        }
    }
}

/// One line item's tax classification: the rate and the category.
pub struct TaxItem {
    pub tax_percent: Decimal,
    pub tax_category: TaxCategory,
}

/// The tax amount charged on `taxable` at `percent`, at two fractional
/// digits: `taxable * percent / 100` rounded half away from zero, stated
/// over the denoted values (fifty-six digits below the scale-28 product).
pub open spec fn tax_amount_2dp_v(percent: DecV, taxable: DecV) -> DecV {
    DecV { num: half_away(taxable.val() * percent.val(), 56), scale: 2 }
}

/// The rendered `TaxItem` element for one rate, category and taxable amount:
/// the taxable amount at two fractional digits, the rate in its own plain
/// rendering with the category code as an attribute, and the computed tax
/// amount at two fractional digits.
pub open spec fn tax_item_xml_v(percent: DecV, cat: TaxCategory, taxable: DecV) -> Seq<char> {
    elem_str_v(
        escape("TaxItem"@),
        Seq::empty(),
        seq![
            elem_str_v(
                escape("TaxableAmount"@),
                Seq::empty(),
                seq![escape(dec_str_v(rescale_v(taxable, 2)))],
            ),
            elem_str_v(
                escape("TaxPercent"@),
                seq![attr_str_v("TaxCategoryCode"@, cat_str_v(cat))],
                seq![escape(dec_str_v(percent))],
            ),
            elem_str_v(
                escape("TaxAmount"@),
                Seq::empty(),
                seq![escape(dec_str_v(tax_amount_2dp_v(percent, taxable)))],
            ),
        ],
    )
}

/// The arithmetic of one rendered `TaxItem` stays within exact range: the
/// rate keeps two digits of scale headroom for the division by one hundred,
/// and the product keeps two more for the rounding.
pub open spec fn tax_item_xml_ok(percent: DecV, taxable: DecV) -> bool {
    &&& percent.wf()
    &&& taxable.wf()
    &&& rescale_ok(taxable, 2)
    &&& taxable.scale + percent.scale + 4 <= max_dec_scale()
    &&& iabs(taxable.num) * iabs(percent.num) * 100 <= max_mantissa()
}

proof fn lemma_mul_with_percent_quotient_ok(t: DecV, p: DecV, q: DecV)
    requires
        tax_item_xml_ok(p, t),
        q.wf(),
        iabs(q.num) <= iabs(p.num),
        q.scale <= p.scale + 2,
    ensures
        mul_ok(t, q),
        mul_v(t, q).wf(),
        iabs(mul_v(t, q).num) * 100 <= max_mantissa(),
{
    assert(iabs(t.num * q.num) == iabs(t.num) * iabs(q.num)) by (nonlinear_arith);
    assert(iabs(t.num) * iabs(q.num) * 100 <= iabs(t.num) * iabs(p.num) * 100)
        by (nonlinear_arith)
        requires
            0 <= iabs(q.num) <= iabs(p.num) && iabs(t.num) >= 0,
    ;
    assert(iabs(t.num) * iabs(q.num) <= iabs(t.num) * iabs(q.num) * 100) by (nonlinear_arith)
        requires
            iabs(t.num) >= 0 && iabs(q.num) >= 0,
    ;
    if t.num == 0 || q.num == 0 {
        assert(iabs(mul_v(t, q).num) * 100 == 0) by (nonlinear_arith)
            requires
                mul_v(t, q).num == 0,
        ;
    } else {
        assert(-max_mantissa() <= mul_v(t, q).num <= max_mantissa()) by {
            assert(iabs(mul_v(t, q).num) <= max_mantissa());
        }
    }
}

proof fn lemma_rescale_tax_amount_ok(t: DecV, p: DecV, q: DecV)
    requires
        tax_item_xml_ok(p, t),
        q.wf(),
        iabs(q.num) <= iabs(p.num),
        q.scale <= p.scale + 2,
    ensures
        rescale_ok(mul_v(t, q), 2),
{
    lemma_mul_with_percent_quotient_ok(t, p, q);
    let m = mul_v(t, q);
    if m.scale < 2 {
        lemma_pow10_le((2 - m.scale) as nat, 2);
        lemma_pow10_pos((2 - m.scale) as nat);
        assert(pow10(0) == 1);
        assert(pow10(1) == 10 * pow10(0));
        assert(pow10(2) == 10 * pow10(1));
        assert(iabs(m.num) * pow10((2 - m.scale) as nat) <= iabs(m.num) * 100)
            by (nonlinear_arith)
            requires
                iabs(m.num) >= 0 && 1 <= pow10((2 - m.scale) as nat) <= 100,
        ;
    }
}

impl TaxItem {
    /// A tax classification from a rate and a category.
    pub fn new(tax_percent: Decimal, tax_category: TaxCategory) -> (r: TaxItem)
        ensures
            r.tax_percent == tax_percent,
            r.tax_category == tax_category,
    {
        TaxItem { tax_percent, tax_category }
    }

    /// This classification together with a taxable amount, ready to render.
    pub fn taxable_amount(&self, taxable_amount: Decimal) -> (r: TaxItemWithTaxableAmount)
        ensures
            r.tax_percent == self.tax_percent,
            r.tax_category == self.tax_category,
            r.taxable_amount == taxable_amount,
    {
        TaxItemWithTaxableAmount {
            tax_percent: self.tax_percent,
            tax_category: self.tax_category,
            taxable_amount: taxable_amount,
        }
    }
}

/// A tax classification bound to the amount it applies to; what one
/// `TaxItem` element is rendered from.
pub struct TaxItemWithTaxableAmount {
    pub tax_percent: Decimal,
    pub tax_category: TaxCategory,
    pub taxable_amount: Decimal,
}

impl TaxItemWithTaxableAmount {
    /// This entry as an element, ready to splice into a container.
    pub(crate) fn build_element(&self) -> (e: XmlElement)
        requires
            tax_item_xml_ok(self.tax_percent@, self.taxable_amount@),
        ensures
            xml_of(e) == tax_item_xml_v(self.tax_percent@, self.tax_category, self.taxable_amount@),
    {
        let hundred = Decimal { num: 100, scale: 0 };
        proof {
            lemma_div_by_hundred_ok(self.tax_percent@);
        }
        let quot = dec_div(&self.tax_percent, &hundred);
        proof {
            lemma_mul_with_percent_quotient_ok(self.taxable_amount@, self.tax_percent@, quot@);
        }
        let tax_amount = dec_mul(&self.taxable_amount, &quot);
        let taxable2 = dec_rescale(&self.taxable_amount, 2);
        proof {
            lemma_rescale_tax_amount_ok(self.taxable_amount@, self.tax_percent@, quot@);
            lemma_percent_of_amount_rounded(
                self.taxable_amount@,
                self.tax_percent@,
                quot@,
                tax_amount@,
            );
        }
        let tax_amount2 = dec_rescale(&tax_amount, 2);
        let percent_child = XmlElement::new("TaxPercent")
            .with_attr("TaxCategoryCode", self.tax_category.as_str())
            .with_text(dec_to_string(&self.tax_percent).as_str());
        proof {
            assert(strs_view(percent_child.attrs@) =~= seq![
                attr_str_v("TaxCategoryCode"@, cat_str_v(self.tax_category)),
            ]);
            assert(strs_view(percent_child.body@) =~= seq![
                escape(dec_str_v(self.tax_percent@)),
            ]);
        }
        let e = XmlElement::new("TaxItem")
            .with_text_element("TaxableAmount", dec_to_string(&taxable2).as_str())
            .with_element(&percent_child)
            .with_text_element("TaxAmount", dec_to_string(&tax_amount2).as_str());
        proof {
            assert(strs_view(e.attrs@) =~= Seq::<Seq<char>>::empty());
            assert(strs_view(e.body@) =~= seq![
                elem_str_v(
                    escape("TaxableAmount"@),
                    Seq::empty(),
                    seq![escape(dec_str_v(rescale_v(self.taxable_amount@, 2)))],
                ),
                xml_of(percent_child),
                elem_str_v(
                    escape("TaxAmount"@),
                    Seq::empty(),
                    seq![
                        escape(dec_str_v(tax_amount_2dp_v(self.tax_percent@, self.taxable_amount@))),
                    ],
                ),
            ]);
            assert(xml_of(e) == tax_item_xml_v(
                self.tax_percent@,
                self.tax_category,
                self.taxable_amount@,
            ));
        }
        e
    }

    /// The rendered `TaxItem` element.
    pub fn to_xml(&self) -> (r: String)
        requires
            tax_item_xml_ok(self.tax_percent@, self.taxable_amount@),
        ensures
            r@ == tax_item_xml_v(self.tax_percent@, self.tax_category, self.taxable_amount@),
    {
        self.build_element().to_xml()
    }
}

} // verus!
