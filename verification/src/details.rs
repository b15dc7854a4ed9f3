//! Line items: the taxable and line amounts computed from quantity, unit
//! price, base quantity and adjustments, and the rendering of each item with
//! its nested tax breakdown.

use vstd::prelude::*;

verus! {

use crate::decimal::{add_ok, add_v, dec_add, dec_div, dec_mul, dec_rescale, dec_round,
    dec_to_string, dec_str_v, div_ok, div_v, hundred_v, iabs, lemma_div_by_hundred_ok,
    lemma_mul_v_val, max_dec_scale, max_mantissa, mul_ok, mul_v, one_v, pow10, rescale_ok,
    rescale_v, round_v, zero_v, DecV, Decimal};
use crate::numtext::{nat_str, u64_to_string};
use crate::reduction_and_surcharge::{rs_sum_ok, rs_sum_v, rs_xml_ok, rs_xml_v,
    ReductionAndSurchargeListLineItemDetails, ReductionListLineItem, SurchargeListLineItem};
use crate::tax::{tax_item_xml_ok, tax_item_xml_v, TaxItem};
use crate::xml::{attr_str_v, elem_str_v, escape, strs_view, text_elem_v, xml_of, XmlElement};

/// One billable row of an invoice.
pub struct DetailsItem {
    pub position_number: Option<u64>,
    pub description: Vec<String>,
    pub quantity: Decimal,
    pub unit: String,
    pub unit_price: Decimal,
    pub base_quantity: Option<Decimal>,
    pub reduction_and_surcharge: Option<ReductionAndSurchargeListLineItemDetails>,
    pub tax_item: TaxItem,
}

/// The item's base quantity; one where none was given.
pub open spec fn bq_of(item: DetailsItem) -> DecV {
    match item.base_quantity {
        Some(b) => b@,
        None => one_v(),
    }
}

/// The item's net adjustment; zero where no adjustments were attached.
pub open spec fn adj_of(item: DetailsItem) -> DecV {
    match item.reduction_and_surcharge {
        Some(d) => rs_sum_v(d),
        None => zero_v(),
    }
}

/// The adjustment sum's arithmetic stays within exact range.
pub open spec fn adj_ok(item: DetailsItem) -> bool {
    match item.reduction_and_surcharge {
        Some(d) => rs_sum_ok(d),
        None => true,
    }
}

/// The exact product `quantity * unit_price`.
pub open spec fn prod_v(item: DetailsItem) -> DecV {
    mul_v(item.quantity@, item.unit_price@)
}

/// The line amount before rounding:
/// `quantity * unit_price / base_quantity + net adjustment`.
pub open spec fn pre_amount_v(item: DetailsItem) -> DecV {
    add_v(div_v(prod_v(item), bq_of(item)), adj_of(item))
}

/// The line item amount: the unrounded amount, rounded once, at the end, to
/// two fractional digits half away from zero.
pub open spec fn item_amount_v(item: DetailsItem) -> DecV {
    round_v(pre_amount_v(item), 2)
}

/// The taxable amount: the unrounded, unscaled product plus the net
/// adjustment — deliberately not the base-quantity-scaled, rounded line
/// amount.
pub open spec fn taxable_v(item: DetailsItem) -> DecV {
    add_v(prod_v(item), adj_of(item))
}

/// The item's gross amount: the line item amount times
/// `(tax_percent + 100) / 100`, unrounded.
pub open spec fn gross_v(item: DetailsItem) -> DecV {
    mul_v(item_amount_v(item), div_v(add_v(item.tax_item.tax_percent@, hundred_v()), hundred_v()))
}

/// The gross amount's denoted value, thirty digits up (two for the division
/// by one hundred and twenty-eight for the scale-28 product):
/// `gross_v(item).val() * 10^30` equals this product exactly.
pub open spec fn gross_scaled_val(item: DetailsItem) -> int {
    item_amount_v(item).val() * add_v(item.tax_item.tax_percent@, hundred_v()).val()
}

/// The line amount's arithmetic stays within exact range, and the base
/// quantity is nonzero with a quotient that cannot overflow.
pub open spec fn item_amount_ok(item: DetailsItem) -> bool {
    &&& item.quantity@.wf()
    &&& item.unit_price@.wf()
    &&& mul_ok(item.quantity@, item.unit_price@)
    &&& bq_of(item).wf()
    &&& div_ok(prod_v(item), bq_of(item))
    &&& adj_ok(item)
    &&& add_ok(div_v(prod_v(item), bq_of(item)), adj_of(item))
}

/// The taxable amount's arithmetic stays within exact range.
pub open spec fn taxable_ok(item: DetailsItem) -> bool {
    &&& item.quantity@.wf()
    &&& item.unit_price@.wf()
    &&& mul_ok(item.quantity@, item.unit_price@)
    &&& adj_ok(item)
    &&& add_ok(prod_v(item), adj_of(item))
}

/// The gross amount's arithmetic stays within exact range: the grossing
/// factor's numerator keeps two digits of scale headroom for the division by
/// one hundred, and the product two more.
pub open spec fn gross_ok(item: DetailsItem) -> bool {
    &&& item_amount_ok(item)
    &&& item.tax_item.tax_percent@.wf()
    &&& add_ok(item.tax_item.tax_percent@, hundred_v())
    &&& item_amount_v(item).scale + add_v(item.tax_item.tax_percent@, hundred_v()).scale + 4
        <= max_dec_scale()
    &&& iabs(item_amount_v(item).num) * iabs(add_v(item.tax_item.tax_percent@, hundred_v()).num)
        * 100 <= max_mantissa()
}

/// The rendered `ListLineItem` element: the optional position number, the
/// descriptions, the quantity at four fractional digits with its unit, the
/// unit price at four fractional digits with the optional base quantity, the
/// adjustments where any were attached, the tax breakdown over the taxable
/// amount, and the line item amount at two fractional digits.
pub open spec fn item_xml_v(item: DetailsItem) -> Seq<char> {
    elem_str_v(
        escape("ListLineItem"@),
        Seq::empty(),
        (match item.position_number {
            Some(n) => seq![text_elem_v("PositionNumber"@, nat_str(n as nat))],
            None => Seq::empty(),
        }) + item.description@.map_values(|d: String| text_elem_v("Description"@, d@)) + seq![
            elem_str_v(
                escape("Quantity"@),
                seq![attr_str_v("Unit"@, item.unit@)],
                seq![escape(dec_str_v(rescale_v(item.quantity@, 4)))],
            ),
            elem_str_v(
                escape("UnitPrice"@),
                match item.base_quantity {
                    Some(b) => seq![attr_str_v("BaseQuantity"@, dec_str_v(b@))],
                    None => Seq::empty(),
                },
                seq![escape(dec_str_v(rescale_v(item.unit_price@, 4)))],
            ),
        ] + (match item.reduction_and_surcharge {
            Some(d) => seq![rs_xml_v(d)],
            None => Seq::empty(),
        }) + seq![
            tax_item_xml_v(item.tax_item.tax_percent@, item.tax_item.tax_category, taxable_v(item)),
            text_elem_v("LineItemAmount"@, dec_str_v(item_amount_v(item))),
        ],
    )
}

/// The item renders within exact range.
pub open spec fn item_xml_ok(item: DetailsItem) -> bool {
    &&& item_amount_ok(item)
    &&& taxable_ok(item)
    &&& rescale_ok(item.quantity@, 4)
    &&& rescale_ok(item.unit_price@, 4)
    &&& (match item.base_quantity {
        Some(b) => b@.wf(),
        None => true,
    })
    &&& (match item.reduction_and_surcharge {
        Some(d) => rs_xml_ok(d),
        None => true,
    })
    &&& tax_item_xml_ok(item.tax_item.tax_percent@, taxable_v(item))
}

proof fn lemma_gross_factor_mul_ok(item: DetailsItem, sum2: DecV, q: DecV)
    requires
        gross_ok(item),
        sum2 == add_v(item.tax_item.tax_percent@, hundred_v()),
        q.wf(),
        iabs(q.num) <= iabs(sum2.num),
        q.scale <= sum2.scale + 2,
    ensures
        mul_ok(item_amount_v(item), q),
{
    let t = item_amount_v(item);
    assert(iabs(t.num * q.num) == iabs(t.num) * iabs(q.num)) by (nonlinear_arith);
    assert(iabs(t.num) * iabs(q.num) <= iabs(t.num) * iabs(sum2.num)) by (nonlinear_arith)
        requires
            0 <= iabs(q.num) <= iabs(sum2.num) && iabs(t.num) >= 0,
    ;
    assert(iabs(t.num) * iabs(sum2.num) <= iabs(t.num) * iabs(sum2.num) * 100)
        by (nonlinear_arith)
        requires
            iabs(t.num) >= 0 && iabs(sum2.num) >= 0,
    ;
}

impl DetailsItem {
    /// An item from its quantity, unit, unit price and tax classification;
    /// everything else starts empty.
    pub fn new(quantity: Decimal, unit: &str, unit_price: Decimal, tax_item: TaxItem) -> (r:
        DetailsItem)
        ensures
            r.position_number is None,
            r.description@.len() == 0,
            r.quantity == quantity,
            r.unit@ == unit@,
            r.unit_price == unit_price,
            r.base_quantity is None,
            r.reduction_and_surcharge is None,
            r.tax_item == tax_item,
    {
        DetailsItem {
            position_number: None,
            description: Vec::new(),
            quantity,
            unit: unit.to_owned(),
            unit_price,
            base_quantity: None,
            reduction_and_surcharge: None,
            tax_item,
        }
    }

    /// The item with its position number set.
    pub fn with_position_number(self, position_number: u64) -> (r: DetailsItem)
        ensures
            r == (DetailsItem { position_number: Some(position_number), ..self }),
    {
        DetailsItem { position_number: Some(position_number), ..self }
    }

    /// The item with one description line appended.
    pub fn with_description(self, description: &str) -> (r: DetailsItem)
        ensures
            r.description@.len() == self.description@.len() + 1,
            r.description@.last()@ == description@,
            forall|i: int|
                0 <= i < self.description@.len() ==> r.description@[i] == self.description@[i],
            r == (DetailsItem { description: r.description, ..self }),
    {
        let mut r = self;
        r.description.push(description.to_owned());
        r
    }

    /// The item with its base quantity set.
    pub fn with_base_quantity(self, base_quantity: Decimal) -> (r: DetailsItem)
        ensures
            r == (DetailsItem { base_quantity: Some(base_quantity), ..self }),
    {
        DetailsItem { base_quantity: Some(base_quantity), ..self }
    }

    /// The item with one reduction appended to its adjustments.
    pub fn with_reduction(self, reduction: ReductionListLineItem) -> (r: DetailsItem)
        ensures
            r.reduction_and_surcharge matches Some(d) && crate::reduction_and_surcharge::reductions_of(
                d,
            ) == crate::reduction_and_surcharge::reductions_of(rs_or_empty(self)).push(reduction)
                && crate::reduction_and_surcharge::surcharges_of(d)
                == crate::reduction_and_surcharge::surcharges_of(rs_or_empty(self)),
            r == (DetailsItem { reduction_and_surcharge: r.reduction_and_surcharge, ..self }),
    {
        let ras = match self.reduction_and_surcharge {
            Some(ras) => ras,
            None => ReductionAndSurchargeListLineItemDetails::new(),
        };
        let ghost ras0 = ras;
        let ras = ras.with_reduction(reduction);
        proof {
            assert(crate::reduction_and_surcharge::reductions_of(ras0)
                =~= crate::reduction_and_surcharge::reductions_of(rs_or_empty(self)));
            assert(crate::reduction_and_surcharge::surcharges_of(ras0)
                =~= crate::reduction_and_surcharge::surcharges_of(rs_or_empty(self)));
        }
        DetailsItem { reduction_and_surcharge: Some(ras), ..self }
    }

    /// The item with one surcharge appended to its adjustments.
    pub fn with_surcharge(self, surcharge: SurchargeListLineItem) -> (r: DetailsItem)
        ensures
            r.reduction_and_surcharge matches Some(d) && crate::reduction_and_surcharge::surcharges_of(
                d,
            ) == crate::reduction_and_surcharge::surcharges_of(rs_or_empty(self)).push(surcharge)
                && crate::reduction_and_surcharge::reductions_of(d)
                == crate::reduction_and_surcharge::reductions_of(rs_or_empty(self)),
            r == (DetailsItem { reduction_and_surcharge: r.reduction_and_surcharge, ..self }),
    {
        let ras = match self.reduction_and_surcharge {
            Some(ras) => ras,
            None => ReductionAndSurchargeListLineItemDetails::new(),
        };
        let ghost ras0 = ras;
        let ras = ras.with_surcharge(surcharge);
        proof {
            assert(crate::reduction_and_surcharge::reductions_of(ras0)
                =~= crate::reduction_and_surcharge::reductions_of(rs_or_empty(self)));
            assert(crate::reduction_and_surcharge::surcharges_of(ras0)
                =~= crate::reduction_and_surcharge::surcharges_of(rs_or_empty(self)));
        }
        DetailsItem { reduction_and_surcharge: Some(ras), ..self }
    }

    /// The line item amount: `quantity * unit_price / base_quantity` plus
    /// the net adjustment, rounded once, at the end, to two fractional
    /// digits half away from zero.
    pub fn line_item_amount(&self) -> (r: Decimal)
        requires
            item_amount_ok(*self),
        ensures
            r@ == item_amount_v(*self),
            r@.wf(),
    {
        let base_quantity = match &self.base_quantity {
            Some(b) => *b,
            None => Decimal { num: 1, scale: 0 },
        };
        let reduction_and_surcharge_sum = match &self.reduction_and_surcharge {
            Some(rs) => rs.sum(),
            None => Decimal { num: 0, scale: 0 },
        };
        let prod = dec_mul(&self.quantity, &self.unit_price);
        let quot = dec_div(&prod, &base_quantity);
        let pre = dec_add(&quot, &reduction_and_surcharge_sum);
        dec_round(&pre, 2)
    }

    /// The item's gross amount: the line item amount times
    /// `(tax_percent + 100) / 100`, unrounded; summed over all items for the
    /// invoice-level total. Its denoted value is pinned exactly:
    /// `r.val() * 10^30 == line item amount value * (rate + 100) value`.
    pub fn line_item_total_gross_amount(&self) -> (r: Decimal)
        requires
            gross_ok(*self),
        ensures
            r@ == gross_v(*self),
            r@.val() * pow10(30) == gross_scaled_val(*self),
            r@.scale <= item_amount_v(*self).scale + add_v(
                self.tax_item.tax_percent@,
                hundred_v(),
            ).scale + 2,
            r@.wf(),
    {
        let amount = self.line_item_amount();
        let hundred = Decimal { num: 100, scale: 0 };
        let sum = dec_add(&self.tax_item.tax_percent, &hundred);
        proof {
            lemma_div_by_hundred_ok(sum@);
        }
        let factor = dec_div(&sum, &hundred);
        proof {
            lemma_gross_factor_mul_ok(*self, sum@, factor@);
        }
        let r = dec_mul(&amount, &factor);
        proof {
            lemma_mul_v_val(amount@, factor@);
            crate::decimal::lemma_pow10_adds(28, 2);
            assert(pow10(0) == 1);
            assert(pow10(1) == 10 * pow10(0));
            assert(pow10(2) == 10 * pow10(1));
            assert(r@.val() * pow10(30) == amount@.val() * sum@.val()) by (nonlinear_arith)
                requires
                    r@.val() * pow10(max_dec_scale()) == amount@.val() * factor@.val()
                        && factor@.val() * 100 == sum@.val() && pow10(30) == pow10(
                        max_dec_scale(),
                    ) * pow10(2) && pow10(2) == 100 && pow10(max_dec_scale()) == pow10(28),
            ;
        }
        r
    }

    /// This item as an element, ready to splice into the item list.
    #[verifier::rlimit(30)]
    pub(crate) fn build_element(&self) -> (e: XmlElement)
        requires
            item_xml_ok(*self),
        ensures
            xml_of(e) == item_xml_v(*self),
    {
        let ghost seg_pn: Seq<Seq<char>> = match self.position_number {
            Some(n) => seq![text_elem_v("PositionNumber"@, nat_str(n as nat))],
            None => Seq::empty(),
        };
        let ghost seg_desc: Seq<Seq<char>> = self.description@.map_values(
            |d: String| text_elem_v("Description"@, d@),
        );
        let mut e = XmlElement::new("ListLineItem");
        match &self.position_number {
            Some(pn) => {
                let pn_str = u64_to_string(*pn);
                e = e.with_text_element("PositionNumber", pn_str.as_str());
            },
            None => {},
        }
        proof {
            assert(strs_view(e.body@) =~= seg_pn);
        }
        let mut i: usize = 0;
        while i < self.description.len()
            invariant
                i <= self.description@.len(),
                e.name@ == escape("ListLineItem"@),
                e.attrs@.len() == 0,
                seg_desc == self.description@.map_values(
                    |d: String| text_elem_v("Description"@, d@),
                ),
                seg_desc.len() == self.description@.len(),
                strs_view(e.body@) == seg_pn + seg_desc.take(i as int),
            decreases self.description@.len() - i,
        {
            e = e.with_text_element("Description", self.description[i].as_str());
            proof {
                assert(strs_view(e.body@) =~= seg_pn + seg_desc.take(i + 1));
            }
            i = i + 1;
        }
        proof {
            assert(seg_desc.take(seg_desc.len() as int) =~= seg_desc);
        }
        let q4 = dec_rescale(&self.quantity, 4);
        let qe = XmlElement::new("Quantity").with_attr("Unit", self.unit.as_str()).with_text(
            dec_to_string(&q4).as_str(),
        );
        proof {
            assert(strs_view(qe.attrs@) =~= seq![attr_str_v("Unit"@, self.unit@)]);
            assert(strs_view(qe.body@) =~= seq![escape(dec_str_v(rescale_v(self.quantity@, 4)))]);
            assert(xml_of(qe) == elem_str_v(
                escape("Quantity"@),
                seq![attr_str_v("Unit"@, self.unit@)],
                seq![escape(dec_str_v(rescale_v(self.quantity@, 4)))],
            ));
        }
        e = e.with_element(&qe);
        let up4 = dec_rescale(&self.unit_price, 4);
        let mut upe = XmlElement::new("UnitPrice").with_text(dec_to_string(&up4).as_str());
        match &self.base_quantity {
            Some(bq) => {
                upe = upe.with_attr("BaseQuantity", dec_to_string(bq).as_str());
                proof {
                    assert(strs_view(upe.attrs@) =~= seq![
                        attr_str_v("BaseQuantity"@, dec_str_v(bq@)),
                    ]);
                }
            },
            None => {
                proof {
                    assert(strs_view(upe.attrs@) =~= Seq::<Seq<char>>::empty());
                }
            },
        }
        proof {
            assert(strs_view(upe.body@) =~= seq![
                escape(dec_str_v(rescale_v(self.unit_price@, 4))),
            ]);
            assert(xml_of(upe) == elem_str_v(
                escape("UnitPrice"@),
                match self.base_quantity {
                    Some(b) => seq![attr_str_v("BaseQuantity"@, dec_str_v(b@))],
                    None => Seq::empty(),
                },
                seq![escape(dec_str_v(rescale_v(self.unit_price@, 4)))],
            ));
        }
        e = e.with_element(&upe);
        let ghost seg_fixed: Seq<Seq<char>> = seq![xml_of(qe), xml_of(upe)];
        proof {
            assert(strs_view(e.body@) =~= seg_pn + seg_desc + seg_fixed);
        }
        let mut reduction_and_surcharge_sum = Decimal { num: 0, scale: 0 };
        match &self.reduction_and_surcharge {
            Some(rs) => {
                reduction_and_surcharge_sum = rs.sum();
                let rse = rs.build_element();
                e = e.with_element(&rse);
            },
            None => {},
        }
        let ghost seg_rs: Seq<Seq<char>> = if self.reduction_and_surcharge is Some {
            seq![rs_xml_v(self.reduction_and_surcharge->0)]
        } else {
            Seq::empty()
        };
        proof {
            assert(strs_view(e.body@) =~= seg_pn + seg_desc + seg_fixed + seg_rs);
            assert(reduction_and_surcharge_sum@ == adj_of(*self));
        }
        let prod = dec_mul(&self.quantity, &self.unit_price);
        let taxable = dec_add(&prod, &reduction_and_surcharge_sum);
        let with_amount = self.tax_item.taxable_amount(taxable);
        let te = with_amount.build_element();
        e = e.with_element(&te);
        let amount = self.line_item_amount();
        e = e.with_text_element("LineItemAmount", dec_to_string(&amount).as_str());
        proof {
            let ghost tax_term = tax_item_xml_v(
                self.tax_item.tax_percent@,
                self.tax_item.tax_category,
                taxable_v(*self),
            );
            let ghost amount_term = text_elem_v("LineItemAmount"@, dec_str_v(item_amount_v(*self)));
            assert(strs_view(e.body@) =~= seg_pn + seg_desc + seg_fixed + seg_rs + seq![
                tax_term,
                amount_term,
            ]);
            assert(seg_rs =~= (match self.reduction_and_surcharge {
                Some(d) => seq![rs_xml_v(d)],
                None => Seq::<Seq<char>>::empty(),
            }));
            assert(seg_pn + seg_desc + seg_fixed + seg_rs + seq![tax_term, amount_term] =~= (
            match self.position_number {
                Some(n) => seq![text_elem_v("PositionNumber"@, nat_str(n as nat))],
                None => Seq::empty(),
            }) + self.description@.map_values(|d: String| text_elem_v("Description"@, d@)) + seq![
                elem_str_v(
                    escape("Quantity"@),
                    seq![attr_str_v("Unit"@, self.unit@)],
                    seq![escape(dec_str_v(rescale_v(self.quantity@, 4)))],
                ),
                elem_str_v(
                    escape("UnitPrice"@),
                    match self.base_quantity {
                        Some(b) => seq![attr_str_v("BaseQuantity"@, dec_str_v(b@))],
                        None => Seq::empty(),
                    },
                    seq![escape(dec_str_v(rescale_v(self.unit_price@, 4)))],
                ),
            ] + (match self.reduction_and_surcharge {
                Some(d) => seq![rs_xml_v(d)],
                None => Seq::empty(),
            }) + seq![tax_term, amount_term]);
            assert(strs_view(e.attrs@) =~= Seq::<Seq<char>>::empty());
            assert(xml_of(e) == item_xml_v(*self));
        }
        e
    }

    /// The rendered `ListLineItem` element.
    pub fn to_xml(&self) -> (r: String)
        requires
            item_xml_ok(*self),
        ensures
            r@ == item_xml_v(*self),
    {
        self.build_element().to_xml()
    }
}

/// The empty adjustment list where the item has none.
pub open spec fn rs_or_empty(item: DetailsItem) -> ReductionAndSurchargeListLineItemDetails {
    match item.reduction_and_surcharge {
        Some(d) => d,
        None => ReductionAndSurchargeListLineItemDetails {
            reduction_list_line_items: None,
            surcharge_list_line_items: None,
        },
    }
}

/// The collection that owns all line items of one invoice.
pub struct Details {
    pub items: Vec<DetailsItem>,
}

/// The rendered `Details` element: all items, in order, inside one
/// `ItemList`.
pub open spec fn details_xml_v(d: Details) -> Seq<char> {
    elem_str_v(
        escape("Details"@),
        Seq::empty(),
        seq![
            elem_str_v(
                escape("ItemList"@),
                Seq::empty(),
                d.items@.map_values(|it: DetailsItem| item_xml_v(it)),
            ),
        ],
    )
}

/// Every item renders within exact range.
pub open spec fn details_xml_ok(d: Details) -> bool {
    forall|i: int| 0 <= i < d.items@.len() ==> item_xml_ok(#[trigger] d.items@[i])
}

impl Details {
    /// This collection as an element, ready to splice into the document.
    #[verifier::rlimit(30)]
    pub(crate) fn build_element(&self) -> (e: XmlElement)
        requires
            details_xml_ok(*self),
        ensures
            xml_of(e) == details_xml_v(*self),
    {
        let ghost rendered = self.items@.map_values(|it: DetailsItem| item_xml_v(it));
        let mut ie = XmlElement::new("ItemList");
        let mut i: usize = 0;
        while i < self.items.len()
            invariant
                i <= self.items@.len(),
                details_xml_ok(*self),
                ie.name@ == escape("ItemList"@),
                ie.attrs@.len() == 0,
                rendered == self.items@.map_values(|it: DetailsItem| item_xml_v(it)),
                strs_view(ie.body@) == rendered.take(i as int),
            decreases self.items@.len() - i,
        {
            let child = self.items[i].build_element();
            ie = ie.with_element(&child);
            proof {
                assert(strs_view(ie.body@) =~= rendered.take(i + 1));
            }
            i = i + 1;
        }
        proof {
            assert(rendered.take(rendered.len() as int) =~= rendered);
        }
        let e = XmlElement::new("Details").with_element(&ie);
        proof {
            assert(strs_view(e.attrs@) =~= Seq::<Seq<char>>::empty());
            assert(strs_view(e.body@) =~= seq![xml_of(ie)]);
            assert(strs_view(ie.attrs@) =~= Seq::<Seq<char>>::empty());
        }
        e
    }

    /// The rendered `Details` element.
    pub fn to_xml(&self) -> (r: String)
        requires
            details_xml_ok(*self),
        ensures
            r@ == details_xml_v(*self),
    {
        self.build_element().to_xml()
    }
}

} // verus!
