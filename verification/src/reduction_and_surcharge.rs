//! Reductions and surcharges on one line item: each adjustment carries a
//! base amount, a percentage and/or fixed amount, and an optional comment;
//! the signed net of all adjustments is the surcharge sum minus the
//! reduction sum.

use vstd::prelude::*;

verus! {

use crate::decimal::{add_ok, add_v, dec_add, dec_div, dec_mul, dec_rescale, dec_sub,
    dec_to_string, dec_str_v, half_away, hundred_v, iabs, lemma_div_by_hundred_ok,
    lemma_percent_product_rounded, max_dec_scale, max_mantissa, mul_ok, mul_v, rescale_ok,
    rescale_v, sub_v, zero_v, DecV, Decimal};
use crate::xml::{elems_rendered, elem_str_v, escape, strs_view, text_elem_v, text_element, xml_of, XmlElement};

/// The value of one adjustment: a percentage of the base amount, a fixed
/// amount, or both (where both are given, the amount alone enters the sum
/// and the percentage is informational).
pub enum ReductionAndSurchargeValue {
    Percentage(Decimal),
    Amount(Decimal),
    PercentageAndAmount(Decimal, Decimal),
}

/// What one adjustment contributes to the net sum: a percentage contributes
/// `base * percentage / 100` rounded half away from zero to two fractional
/// digits (stated over the denoted values, fifty-six digits below the
/// scale-28 product); a fixed amount contributes the amount unmodified;
/// where both are given, the amount alone counts and the percentage is
/// informational.
pub open spec fn contribution_v(base: DecV, value: ReductionAndSurchargeValue) -> DecV {
    match value {
        ReductionAndSurchargeValue::Percentage(p) => DecV {
            num: half_away(base.val() * p@.val(), 56),
            scale: 2,
        },
        ReductionAndSurchargeValue::Amount(a) => a@,
        ReductionAndSurchargeValue::PercentageAndAmount(p, a) => a@,
    }
}

/// The contribution's arithmetic stays within exact range: a percentage's
/// product keeps two digits of scale headroom for the division by one
/// hundred and two more for the rescale.
pub open spec fn contribution_ok(base: DecV, value: ReductionAndSurchargeValue) -> bool {
    base.wf() && match value {
        ReductionAndSurchargeValue::Percentage(p) => p@.wf() && base.scale + p@.scale + 2
            <= max_dec_scale() && iabs(base.num) * iabs(p@.num) * 100 <= max_mantissa(),
        ReductionAndSurchargeValue::Amount(a) => a@.wf(),
        ReductionAndSurchargeValue::PercentageAndAmount(p, a) => p@.wf() && a@.wf(),
    }
}

proof fn lemma_rescale_after_div_by_hundred_ok(m: DecV, q: DecV)
    requires
        m.wf(),
        q.wf(),
        iabs(q.num) <= iabs(m.num),
        iabs(m.num) * 100 <= max_mantissa(),
    ensures
        rescale_ok(q, 2),
{
    if q.scale < 2 {
        crate::decimal::lemma_pow10_le((2 - q.scale) as nat, 2);
        assert(crate::decimal::pow10(0) == 1);
        assert(crate::decimal::pow10(1) == 10 * crate::decimal::pow10(0));
        assert(crate::decimal::pow10(2) == 10 * crate::decimal::pow10(1));
        assert(iabs(q.num) * crate::decimal::pow10((2 - q.scale) as nat) <= iabs(m.num) * 100)
            by (nonlinear_arith)
            requires
                0 <= iabs(q.num) <= iabs(m.num) && 1 <= crate::decimal::pow10(
                    (2 - q.scale) as nat,
                ) <= 100,
        ;
        crate::decimal::lemma_pow10_pos((2 - q.scale) as nat);
    }
}

/// The common shape of one reduction or surcharge entry.
pub struct ReductionAndSurchargeListLineItemBase {
    pub base_amount: Decimal,
    pub value: ReductionAndSurchargeValue,
    pub comment: Option<String>,
}

/// The body pieces every rendered entry carries: the base amount at two
/// fractional digits, then whichever of `Percentage` and `Amount` are
/// present (in that order, both at two fractional digits), then the comment
/// where one was given.
pub open spec fn base_xml_elems_v(b: ReductionAndSurchargeListLineItemBase) -> Seq<Seq<char>> {
    seq![text_elem_v("BaseAmount"@, dec_str_v(rescale_v(b.base_amount@, 2)))] + (match b.value {
        ReductionAndSurchargeValue::Percentage(p) => seq![
            text_elem_v("Percentage"@, dec_str_v(rescale_v(p@, 2))),
        ],
        ReductionAndSurchargeValue::Amount(a) => seq![
            text_elem_v("Amount"@, dec_str_v(rescale_v(a@, 2))),
        ],
        ReductionAndSurchargeValue::PercentageAndAmount(p, a) => seq![
            text_elem_v("Percentage"@, dec_str_v(rescale_v(p@, 2))),
            text_elem_v("Amount"@, dec_str_v(rescale_v(a@, 2))),
        ],
    }) + (match b.comment {
        Some(c) => seq![text_elem_v("Comment"@, c@)],
        None => Seq::empty(),
    })
}

/// The rendering's rescales stay within exact range.
pub open spec fn base_xml_ok(b: ReductionAndSurchargeListLineItemBase) -> bool {
    b.base_amount@.wf() && rescale_ok(b.base_amount@, 2) && match b.value {
        ReductionAndSurchargeValue::Percentage(p) => p@.wf() && rescale_ok(p@, 2),
        ReductionAndSurchargeValue::Amount(a) => a@.wf() && rescale_ok(a@, 2),
        ReductionAndSurchargeValue::PercentageAndAmount(p, a) => p@.wf() && a@.wf() && rescale_ok(
            p@,
            2,
        ) && rescale_ok(a@, 2),
    }
}

impl ReductionAndSurchargeListLineItemBase {
    /// An entry from a base amount and a value, with no comment.
    pub fn new(base_amount: Decimal, value: ReductionAndSurchargeValue) -> (r:
        ReductionAndSurchargeListLineItemBase)
        ensures
            r.base_amount == base_amount,
            r.value == value,
            r.comment is None,
    {
        ReductionAndSurchargeListLineItemBase { base_amount, value, comment: None }
    }

    /// The entry's contribution to the net adjustment sum.
    pub fn sum(&self) -> (r: Decimal)
        requires
            contribution_ok(self.base_amount@, self.value),
        ensures
            r@ == contribution_v(self.base_amount@, self.value),
            r@.wf(),
    {
        let hundred = Decimal { num: 100, scale: 0 };
        match &self.value {
            ReductionAndSurchargeValue::Percentage(p) => {
                proof {
                    assert(iabs(self.base_amount@.num * p@.num) == iabs(self.base_amount@.num)
                        * iabs(p@.num)) by (nonlinear_arith);
                    assert(iabs(self.base_amount@.num) * iabs(p@.num) <= max_mantissa())
                        by (nonlinear_arith)
                        requires
                            iabs(self.base_amount@.num) * iabs(p@.num) * 100 <= max_mantissa()
                                && iabs(self.base_amount@.num) >= 0 && iabs(p@.num) >= 0,
                    ;
                }
                let m = dec_mul(&self.base_amount, p);
                proof {
                    lemma_div_by_hundred_ok(m@);
                }
                let q = dec_div(&m, &hundred);
                proof {
                    lemma_rescale_after_div_by_hundred_ok(m@, q@);
                }
                let r = dec_rescale(&q, 2);
                proof {
                    lemma_percent_product_rounded(self.base_amount@, p@, m@, q@);
                }
                r
            },
            ReductionAndSurchargeValue::Amount(a) => *a,
            ReductionAndSurchargeValue::PercentageAndAmount(_, a) => *a,
        }
    }

    /// The entry's rendered body pieces, as elements.
    pub fn to_xml_elements(&self) -> (r: Vec<XmlElement>)
        requires
            base_xml_ok(*self),
        ensures
            elems_rendered(r@) == base_xml_elems_v(*self),
    {
        let mut es: Vec<XmlElement> = Vec::new();
        let base2 = dec_rescale(&self.base_amount, 2);
        es.push(text_element("BaseAmount", dec_to_string(&base2).as_str()));
        match &self.value {
            ReductionAndSurchargeValue::Percentage(p) => {
                let p2 = dec_rescale(p, 2);
                es.push(text_element("Percentage", dec_to_string(&p2).as_str()));
            },
            ReductionAndSurchargeValue::Amount(a) => {
                let a2 = dec_rescale(a, 2);
                es.push(text_element("Amount", dec_to_string(&a2).as_str()));
            },
            ReductionAndSurchargeValue::PercentageAndAmount(p, a) => {
                let p2 = dec_rescale(p, 2);
                es.push(text_element("Percentage", dec_to_string(&p2).as_str()));
                let a2 = dec_rescale(a, 2);
                es.push(text_element("Amount", dec_to_string(&a2).as_str()));
            },
        }
        match &self.comment {
            Some(c) => {
                es.push(text_element("Comment", c.as_str()));
            },
            None => {},
        }
        proof {
            assert(elems_rendered(es@) =~= base_xml_elems_v(*self));
        }
        es
    }

    /// One entry's element with the given name and this entry's body pieces.
    fn build_element(&self, name: &str) -> (e: XmlElement)
        requires
            base_xml_ok(*self),
        ensures
            xml_of(e) == elem_str_v(escape(name@), Seq::empty(), base_xml_elems_v(*self)),
    {
        let elems = self.to_xml_elements();
        let mut e = XmlElement::new(name);
        let mut i: usize = 0;
        while i < elems.len()
            invariant
                i <= elems@.len(),
                e.name@ == escape(name@),
                e.attrs@.len() == 0,
                strs_view(e.body@) == elems_rendered(elems@.take(i as int)),
                elems_rendered(elems@) == base_xml_elems_v(*self),
            decreases elems@.len() - i,
        {
            e = e.with_element(&elems[i]);
            proof {
                assert(strs_view(e.body@) =~= elems_rendered(elems@.take(i + 1)));
            }
            i = i + 1;
        }
        proof {
            assert(elems@.take(elems@.len() as int) =~= elems@);
            assert(strs_view(e.attrs@) =~= Seq::<Seq<char>>::empty());
        }
        e
    }
}

/// One reduction entry of a line item.
pub struct ReductionListLineItem {
    pub base: ReductionAndSurchargeListLineItemBase,
}

/// The rendered `ReductionListLineItem` element.
pub open spec fn reduction_xml_v(item: ReductionListLineItem) -> Seq<char> {
    elem_str_v(escape("ReductionListLineItem"@), Seq::empty(), base_xml_elems_v(item.base))
}

impl ReductionListLineItem {
    /// A reduction from a base amount and a value, with no comment.
    pub fn new(base_amount: Decimal, value: ReductionAndSurchargeValue) -> (r:
        ReductionListLineItem)
        ensures
            r.base.base_amount == base_amount,
            r.base.value == value,
            r.base.comment is None,
    {
        ReductionListLineItem {
            base: ReductionAndSurchargeListLineItemBase::new(base_amount, value),
        }
    }

    /// The reduction with its comment set.
    pub fn with_comment(self, comment: &str) -> (r: ReductionListLineItem)
        ensures
            r.base.base_amount == self.base.base_amount,
            r.base.value == self.base.value,
            r.base.comment matches Some(c) && c@ == comment@,
    {
        let mut r = self;
        r.base.comment = Some(comment.to_owned());
        r
    }

    /// The reduction's contribution to the reduction sum.
    pub fn sum(&self) -> (r: Decimal)
        requires
            contribution_ok(self.base.base_amount@, self.base.value),
        ensures
            r@ == contribution_v(self.base.base_amount@, self.base.value),
            r@.wf(),
    {
        self.base.sum()
    }

    /// This reduction as an element, ready to splice into a container.
    pub(crate) fn build_element(&self) -> (e: XmlElement)
        requires
            base_xml_ok(self.base),
        ensures
            xml_of(e) == reduction_xml_v(*self),
    {
        self.base.build_element("ReductionListLineItem")
    }

    /// The rendered `ReductionListLineItem` element.
    pub fn to_xml(&self) -> (r: String)
        requires
            base_xml_ok(self.base),
        ensures
            r@ == reduction_xml_v(*self),
    {
        self.build_element().to_xml()
    }
}

/// One surcharge entry of a line item.
pub struct SurchargeListLineItem {
    pub base: ReductionAndSurchargeListLineItemBase,
}

/// The rendered `SurchargeListLineItem` element.
pub open spec fn surcharge_xml_v(item: SurchargeListLineItem) -> Seq<char> {
    elem_str_v(escape("SurchargeListLineItem"@), Seq::empty(), base_xml_elems_v(item.base))
}

impl SurchargeListLineItem {
    /// A surcharge from a base amount and a value, with no comment.
    pub fn new(base_amount: Decimal, value: ReductionAndSurchargeValue) -> (r:
        SurchargeListLineItem)
        ensures
            r.base.base_amount == base_amount,
            r.base.value == value,
            r.base.comment is None,
    {
        SurchargeListLineItem {
            base: ReductionAndSurchargeListLineItemBase::new(base_amount, value),
        }
    }

    /// The surcharge with its comment set.
    pub fn with_comment(self, comment: &str) -> (r: SurchargeListLineItem)
        ensures
            r.base.base_amount == self.base.base_amount,
            r.base.value == self.base.value,
            r.base.comment matches Some(c) && c@ == comment@,
    {
        let mut r = self;
        r.base.comment = Some(comment.to_owned());
        r
    }

    /// The surcharge's contribution to the surcharge sum.
    pub fn sum(&self) -> (r: Decimal)
        requires
            contribution_ok(self.base.base_amount@, self.base.value),
        ensures
            r@ == contribution_v(self.base.base_amount@, self.base.value),
            r@.wf(),
    {
        self.base.sum()
    }

    /// This surcharge as an element, ready to splice into a container.
    pub(crate) fn build_element(&self) -> (e: XmlElement)
        requires
            base_xml_ok(self.base),
        ensures
            xml_of(e) == surcharge_xml_v(*self),
    {
        self.base.build_element("SurchargeListLineItem")
    }

    /// The rendered `SurchargeListLineItem` element.
    pub fn to_xml(&self) -> (r: String)
        requires
            base_xml_ok(self.base),
        ensures
            r@ == surcharge_xml_v(*self),
    {
        self.build_element().to_xml()
    }
}

/// The reductions of a sequence of reduction entries, summed left to right
/// from zero.
pub open spec fn reduction_sum_v(s: Seq<ReductionListLineItem>) -> DecV
    decreases s.len(),
{
    if s.len() == 0 {
        zero_v()
    } else {
        add_v(
            reduction_sum_v(s.drop_last()),
            contribution_v(s.last().base.base_amount@, s.last().base.value),
        )
    }
}

/// Every step of the reduction sum stays within exact range.
pub open spec fn reduction_sum_ok(s: Seq<ReductionListLineItem>) -> bool
    decreases s.len(),
{
    s.len() == 0 || {
        &&& reduction_sum_ok(s.drop_last())
        &&& contribution_ok(s.last().base.base_amount@, s.last().base.value)
        &&& add_ok(
            reduction_sum_v(s.drop_last()),
            contribution_v(s.last().base.base_amount@, s.last().base.value),
        )
    }
}

/// The surcharges of a sequence of surcharge entries, summed left to right
/// from zero.
pub open spec fn surcharge_sum_v(s: Seq<SurchargeListLineItem>) -> DecV
    decreases s.len(),
{
    if s.len() == 0 {
        zero_v()
    } else {
        add_v(
            surcharge_sum_v(s.drop_last()),
            contribution_v(s.last().base.base_amount@, s.last().base.value),
        )
    }
}

/// Every step of the surcharge sum stays within exact range.
pub open spec fn surcharge_sum_ok(s: Seq<SurchargeListLineItem>) -> bool
    decreases s.len(),
{
    s.len() == 0 || {
        &&& surcharge_sum_ok(s.drop_last())
        &&& contribution_ok(s.last().base.base_amount@, s.last().base.value)
        &&& add_ok(
            surcharge_sum_v(s.drop_last()),
            contribution_v(s.last().base.base_amount@, s.last().base.value),
        )
    }
}

/// All reductions and surcharges of one line item.
pub struct ReductionAndSurchargeListLineItemDetails {
    pub reduction_list_line_items: Option<Vec<ReductionListLineItem>>,
    pub surcharge_list_line_items: Option<Vec<SurchargeListLineItem>>,
}

/// The reduction entries, empty when none were attached.
pub open spec fn reductions_of(d: ReductionAndSurchargeListLineItemDetails) -> Seq<
    ReductionListLineItem,
> {
    match d.reduction_list_line_items {
        Some(v) => v@,
        None => Seq::empty(),
    }
}

/// The surcharge entries, empty when none were attached.
pub open spec fn surcharges_of(d: ReductionAndSurchargeListLineItemDetails) -> Seq<
    SurchargeListLineItem,
> {
    match d.surcharge_list_line_items {
        Some(v) => v@,
        None => Seq::empty(),
    }
}

/// The signed net adjustment: the surcharge sum minus the reduction sum, so
/// a positive net surcharge increases the line amount.
pub open spec fn rs_sum_v(d: ReductionAndSurchargeListLineItemDetails) -> DecV {
    sub_v(surcharge_sum_v(surcharges_of(d)), reduction_sum_v(reductions_of(d)))
}

/// The net adjustment's arithmetic stays within exact range.
pub open spec fn rs_sum_ok(d: ReductionAndSurchargeListLineItemDetails) -> bool {
    &&& reduction_sum_ok(reductions_of(d))
    &&& surcharge_sum_ok(surcharges_of(d))
    &&& add_ok(surcharge_sum_v(surcharges_of(d)), reduction_sum_v(reductions_of(d)))
}

/// The rendered `ReductionAndSurchargeListLineItemDetails` element: all
/// reduction entries, then all surcharge entries, in insertion order.
pub open spec fn rs_xml_v(d: ReductionAndSurchargeListLineItemDetails) -> Seq<char> {
    elem_str_v(
        escape("ReductionAndSurchargeListLineItemDetails"@),
        Seq::empty(),
        reductions_of(d).map_values(|r: ReductionListLineItem| reduction_xml_v(r)) + surcharges_of(
            d,
        ).map_values(|s: SurchargeListLineItem| surcharge_xml_v(s)),
    )
}

/// Every entry renders within exact range.
pub open spec fn rs_xml_ok(d: ReductionAndSurchargeListLineItemDetails) -> bool {
    &&& forall|i: int|
        0 <= i < reductions_of(d).len() ==> base_xml_ok(#[trigger] reductions_of(d)[i].base)
    &&& forall|i: int|
        0 <= i < surcharges_of(d).len() ==> base_xml_ok(#[trigger] surcharges_of(d)[i].base)
}

proof fn lemma_reduction_sum_ok_prefix(s: Seq<ReductionListLineItem>, i: int)
    requires
        reduction_sum_ok(s),
        0 <= i <= s.len(),
    ensures
        reduction_sum_ok(s.take(i)),
    decreases s.len() - i,
{
    if i == s.len() {
        assert(s.take(i) =~= s);
    } else {
        lemma_reduction_sum_ok_prefix(s, i + 1);
        assert(s.take(i + 1).drop_last() =~= s.take(i));
    }
}

proof fn lemma_surcharge_sum_ok_prefix(s: Seq<SurchargeListLineItem>, i: int)
    requires
        surcharge_sum_ok(s),
        0 <= i <= s.len(),
    ensures
        surcharge_sum_ok(s.take(i)),
    decreases s.len() - i,
{
    if i == s.len() {
        assert(s.take(i) =~= s);
    } else {
        lemma_surcharge_sum_ok_prefix(s, i + 1);
        assert(s.take(i + 1).drop_last() =~= s.take(i));
    }
}

impl ReductionAndSurchargeListLineItemDetails {
    /// An empty adjustment list.
    pub fn new() -> (r: ReductionAndSurchargeListLineItemDetails)
        ensures
            r.reduction_list_line_items is None,
            r.surcharge_list_line_items is None,
    {
        ReductionAndSurchargeListLineItemDetails {
            reduction_list_line_items: None,
            surcharge_list_line_items: None,
        }
    }

    /// The list with one reduction appended.
    pub fn with_reduction(self, reduction: ReductionListLineItem) -> (r:
        ReductionAndSurchargeListLineItemDetails)
        ensures
            reductions_of(r) == reductions_of(self).push(reduction),
            surcharges_of(r) == surcharges_of(self),
    {
        let ghost old_reds = reductions_of(self);
        let mut v = match self.reduction_list_line_items {
            Some(v) => v,
            None => Vec::new(),
        };
        proof {
            assert(v@ =~= old_reds);
        }
        v.push(reduction);
        ReductionAndSurchargeListLineItemDetails {
            reduction_list_line_items: Some(v),
            surcharge_list_line_items: self.surcharge_list_line_items,
        }
    }

    /// The list with one surcharge appended.
    pub fn with_surcharge(self, surcharge: SurchargeListLineItem) -> (r:
        ReductionAndSurchargeListLineItemDetails)
        ensures
            surcharges_of(r) == surcharges_of(self).push(surcharge),
            reductions_of(r) == reductions_of(self),
    {
        let ghost old_surs = surcharges_of(self);
        let mut v = match self.surcharge_list_line_items {
            Some(v) => v,
            None => Vec::new(),
        };
        proof {
            assert(v@ =~= old_surs);
        }
        v.push(surcharge);
        ReductionAndSurchargeListLineItemDetails {
            reduction_list_line_items: self.reduction_list_line_items,
            surcharge_list_line_items: Some(v),
        }
    }

    /// The signed net adjustment: surcharges minus reductions.
    pub fn sum(&self) -> (r: Decimal)
        requires
            rs_sum_ok(*self),
        ensures
            r@ == rs_sum_v(*self),
            r@.wf(),
    {
        let mut surcharge_sum = Decimal { num: 0, scale: 0 };
        match &self.surcharge_list_line_items {
            Some(items) => {
                let mut i: usize = 0;
                while i < items.len()
                    invariant
                        i <= items@.len(),
                        items@ == surcharges_of(*self),
                        surcharge_sum_ok(items@),
                        surcharge_sum@ == surcharge_sum_v(items@.take(i as int)),
                        surcharge_sum@.wf(),
                    decreases items@.len() - i,
                {
                    proof {
                        lemma_surcharge_sum_ok_prefix(items@, i + 1);
                        assert(items@.take(i + 1).drop_last() =~= items@.take(i as int));
                        assert(items@.take(i + 1).last() == items@[i as int]);
                    }
                    let c = items[i].sum();
                    surcharge_sum = dec_add(&surcharge_sum, &c);
                    i = i + 1;
                }
                proof {
                    assert(items@.take(items@.len() as int) =~= items@);
                }
            },
            None => {},
        }
        let mut reduction_sum = Decimal { num: 0, scale: 0 };
        match &self.reduction_list_line_items {
            Some(items) => {
                let mut i: usize = 0;
                while i < items.len()
                    invariant
                        i <= items@.len(),
                        items@ == reductions_of(*self),
                        reduction_sum_ok(items@),
                        reduction_sum@ == reduction_sum_v(items@.take(i as int)),
                        reduction_sum@.wf(),
                    decreases items@.len() - i,
                {
                    proof {
                        lemma_reduction_sum_ok_prefix(items@, i + 1);
                        assert(items@.take(i + 1).drop_last() =~= items@.take(i as int));
                        assert(items@.take(i + 1).last() == items@[i as int]);
                    }
                    let c = items[i].sum();
                    reduction_sum = dec_add(&reduction_sum, &c);
                    i = i + 1;
                }
                proof {
                    assert(items@.take(items@.len() as int) =~= items@);
                }
            },
            None => {},
        }
        dec_sub(&surcharge_sum, &reduction_sum)
    }

    /// This adjustment list as an element, ready to splice into a line item.
    pub(crate) fn build_element(&self) -> (e: XmlElement)
        requires
            rs_xml_ok(*self),
        ensures
            xml_of(e) == rs_xml_v(*self),
    {
        let ghost red_rendered = reductions_of(*self).map_values(
            |x: ReductionListLineItem| reduction_xml_v(x),
        );
        let ghost sur_rendered = surcharges_of(*self).map_values(
            |x: SurchargeListLineItem| surcharge_xml_v(x),
        );
        let mut e = XmlElement::new("ReductionAndSurchargeListLineItemDetails");
        match &self.reduction_list_line_items {
            Some(items) => {
                let mut i: usize = 0;
                while i < items.len()
                    invariant
                        i <= items@.len(),
                        items@ == reductions_of(*self),
                        rs_xml_ok(*self),
                        e.name@ == escape("ReductionAndSurchargeListLineItemDetails"@),
                        e.attrs@.len() == 0,
                        red_rendered == items@.map_values(
                            |x: ReductionListLineItem| reduction_xml_v(x),
                        ),
                        strs_view(e.body@) == red_rendered.take(i as int),
                    decreases items@.len() - i,
                {
                    let child = items[i].build_element();
                    e = e.with_element(&child);
                    proof {
                        assert(strs_view(e.body@) =~= red_rendered.take(i + 1));
                    }
                    i = i + 1;
                }
            },
            None => {},
        }
        proof {
            assert(red_rendered.take(red_rendered.len() as int) =~= red_rendered);
            assert(strs_view(e.body@) == red_rendered);
        }
        match &self.surcharge_list_line_items {
            Some(items) => {
                let mut j: usize = 0;
                while j < items.len()
                    invariant
                        j <= items@.len(),
                        items@ == surcharges_of(*self),
                        rs_xml_ok(*self),
                        e.name@ == escape("ReductionAndSurchargeListLineItemDetails"@),
                        e.attrs@.len() == 0,
                        sur_rendered == items@.map_values(
                            |x: SurchargeListLineItem| surcharge_xml_v(x),
                        ),
                        strs_view(e.body@) == red_rendered + sur_rendered.take(j as int),
                    decreases items@.len() - j,
                {
                    let child = items[j].build_element();
                    e = e.with_element(&child);
                    proof {
                        assert(strs_view(e.body@) =~= red_rendered + sur_rendered.take(j + 1));
                    }
                    j = j + 1;
                }
            },
            None => {},
        }
        proof {
            assert(sur_rendered.take(sur_rendered.len() as int) =~= sur_rendered);
            assert(red_rendered + Seq::<Seq<char>>::empty() =~= red_rendered);
            assert(strs_view(e.body@) == red_rendered + sur_rendered);
            assert(strs_view(e.attrs@) =~= Seq::<Seq<char>>::empty());
        }
        e
    }

    /// The rendered `ReductionAndSurchargeListLineItemDetails` element, with
    /// all reductions before all surcharges.
    pub fn to_xml(&self) -> (r: String)
        requires
            rs_xml_ok(*self),
        ensures
            r@ == rs_xml_v(*self),
    {
        self.build_element().to_xml()
    }
}

} // verus!
