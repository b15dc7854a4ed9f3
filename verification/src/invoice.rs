//! The invoice itself: header attributes, the two parties, the line items,
//! the aggregated tax summary grouped by (rate, category) and sorted by
//! rate then category order, the payable totals, and the serialized
//! document with its fixed XML declaration.

use vstd::prelude::*;

verus! {

use vstd::string::StringExecFns;
use vstd::multiset::Multiset;

use crate::biller::{biller_xml_v, Biller};
use crate::decimal::{add_ok, add_v, dec_add, dec_eq_val, dec_lt, dec_rescale, dec_to_string,
    dec_str_v, half_away, hundred_v, iabs, lemma_add_v_val, lemma_half_away_shift,
    lemma_rescale2_val, pow10, rescale_ok, rescale_v, zero_v, DecV, Decimal};
use crate::details::{details_xml_ok, details_xml_v, gross_ok, gross_scaled_val, gross_v,
    item_amount_ok, item_amount_v, Details, DetailsItem};
use crate::document::{doc_type_str_v, DocumentType};
use crate::invoice_recipient::{recipient_xml_v, InvoiceRecipient};
use crate::payment_method::{pm_err_v, pm_ok, pm_xml_v, PaymentMethod};
use crate::tax::{cat_rank, tax_item_xml_ok, tax_item_xml_v, TaxCategory, TaxItem};
use crate::xml::{attr_str_v, escape, elem_str_v, strs_view, text_elem_v, xml_of, XmlElement};

/// One aggregated tax group: the (rate, category) key and the summed
/// line item amounts of its members.
pub type TaxGroup = ((Decimal, TaxCategory), Decimal);

/// Whether a group's key stands for the given rate and category: rates
/// compare by numeric value, categories by variant.
pub open spec fn key_matches(key: (Decimal, TaxCategory), pct: Decimal, cat: TaxCategory) -> bool {
    key.0@.val() == pct@.val() && key.1 == cat
}

/// The index of the first group with the given key, or -1 when none has it.
pub open spec fn find_group(gs: Seq<TaxGroup>, pct: Decimal, cat: TaxCategory) -> int
    decreases gs.len(),
{
    if gs.len() == 0 {
        -1
    } else if key_matches(gs[0].0, pct, cat) {
        0
    } else {
        let r = find_group(gs.drop_first(), pct, cat);
        if r == -1 {
            -1
        } else {
            r + 1
        }
    }
}

/// The exec decimal carrying a well-formed model value.
pub open spec fn dec_of(v: DecV) -> Decimal {
    Decimal { num: v.num as i128, scale: v.scale as u32 }
}

/// One item folded into the groups: added to the first group with its key
/// (which keeps the key it was created with), or appended as a new group.
pub open spec fn groups_insert(gs: Seq<TaxGroup>, pct: Decimal, cat: TaxCategory, amount: Decimal)
    -> Seq<TaxGroup> {
    let i = find_group(gs, pct, cat);
    if i == -1 {
        gs.push(((pct, cat), amount))
    } else {
        gs.update(i, (gs[i].0, dec_of(add_v(gs[i].1@, amount@))))
    }
}

/// The groups of a sequence of items, folded left to right: keyed by
/// (rate value, category), keeping the first occurrence's rate
/// representation, summing the rounded line item amounts.
pub open spec fn tax_groups_of(items: Seq<DetailsItem>) -> Seq<TaxGroup>
    decreases items.len(),
{
    if items.len() == 0 {
        Seq::empty()
    } else {
        groups_insert(
            tax_groups_of(items.drop_last()),
            items.last().tax_item.tax_percent,
            items.last().tax_item.tax_category,
            dec_of(item_amount_v(items.last())),
        )
    }
}

/// Every amount and every running group sum stays within exact range.
pub open spec fn tax_groups_ok(items: Seq<DetailsItem>) -> bool
    decreases items.len(),
{
    if items.len() == 0 {
        true
    } else {
        let gs = tax_groups_of(items.drop_last());
        let it = items.last();
        let i = find_group(gs, it.tax_item.tax_percent, it.tax_item.tax_category);
        &&& tax_groups_ok(items.drop_last())
        &&& item_amount_ok(it)
        &&& it.tax_item.tax_percent@.wf()
        &&& (i != -1 ==> add_ok(gs[i].1@, item_amount_v(it)))
    }
}

/// The sort order of the tax summary: ascending by rate value, ties broken
/// by the category's declared order.
pub open spec fn group_lt(a: TaxGroup, b: TaxGroup) -> bool {
    a.0.0@.val() < b.0.0@.val() || (a.0.0@.val() == b.0.0@.val() && cat_rank(a.0.1) < cat_rank(
        b.0.1,
    ))
}

/// One group placed into an already built sequence, before the first entry
/// it sorts below.
pub open spec fn sorted_insert(g: TaxGroup, gs: Seq<TaxGroup>) -> Seq<TaxGroup>
    decreases gs.len(),
{
    if gs.len() == 0 {
        seq![g]
    } else if group_lt(g, gs[0]) {
        seq![g] + gs
    } else {
        seq![gs[0]] + sorted_insert(g, gs.drop_first())
    }
}

/// The groups sorted by [`group_lt`], built by inserting left to right.
pub open spec fn sort_groups(gs: Seq<TaxGroup>) -> Seq<TaxGroup>
    decreases gs.len(),
{
    if gs.len() == 0 {
        Seq::empty()
    } else {
        sorted_insert(gs.last(), sort_groups(gs.drop_last()))
    }
}

/// The sorted tax groups of a sequence of items.
pub open spec fn tax_items_of(items: Seq<DetailsItem>) -> Seq<TaxGroup> {
    sort_groups(tax_groups_of(items))
}

/// Every stored rate and sum in the groups is well formed.
pub open spec fn groups_wf(gs: Seq<TaxGroup>) -> bool {
    forall|i: int|
        0 <= i < gs.len() ==> (#[trigger] gs[i]).0.0@.wf() && gs[i].1@.wf()
}

proof fn lemma_dec_of(d: Decimal, v: DecV)
    requires
        d@ == v,
        v.wf(),
    ensures
        d == dec_of(v),
{
    assert(d.num as int == v.num);
    assert(d.num == v.num as i128);
    assert(d.scale as nat == v.scale);
    assert(d.scale == v.scale as u32);
}

proof fn lemma_find_group_at(gs: Seq<TaxGroup>, pct: Decimal, cat: TaxCategory, j: int)
    requires
        0 <= j < gs.len(),
        key_matches(gs[j].0, pct, cat),
        forall|k: int| 0 <= k < j ==> !key_matches((#[trigger] gs[k]).0, pct, cat),
    ensures
        find_group(gs, pct, cat) == j,
    decreases gs.len(),
{
    if j == 0 {
    } else {
        assert(!key_matches(gs[0].0, pct, cat));
        lemma_find_group_at(gs.drop_first(), pct, cat, j - 1);
        assert(gs.drop_first()[j - 1] == gs[j]);
    }
}

proof fn lemma_find_group_none(gs: Seq<TaxGroup>, pct: Decimal, cat: TaxCategory)
    requires
        forall|k: int| 0 <= k < gs.len() ==> !key_matches((#[trigger] gs[k]).0, pct, cat),
    ensures
        find_group(gs, pct, cat) == -1,
    decreases gs.len(),
{
    if gs.len() == 0 {
    } else {
        lemma_find_group_none(gs.drop_first(), pct, cat);
    }
}

proof fn lemma_sorted_insert_at(g: TaxGroup, gs: Seq<TaxGroup>, pos: int)
    requires
        0 <= pos <= gs.len(),
        forall|k: int| 0 <= k < pos ==> !group_lt(g, #[trigger] gs[k]),
        pos < gs.len() ==> group_lt(g, gs[pos]),
    ensures
        sorted_insert(g, gs) == gs.take(pos) + seq![g] + gs.skip(pos),
    decreases pos,
{
    if pos == 0 {
        if gs.len() == 0 {
            assert(sorted_insert(g, gs) =~= gs.take(0) + seq![g] + gs.skip(0));
        } else {
            assert(sorted_insert(g, gs) =~= gs.take(0) + seq![g] + gs.skip(0));
        }
    } else {
        lemma_sorted_insert_at(g, gs.drop_first(), pos - 1);
        assert(gs.drop_first().take(pos - 1) =~= gs.take(pos).drop_first());
        assert(sorted_insert(g, gs) == seq![gs[0]] + sorted_insert(g, gs.drop_first()));
        assert(seq![gs[0]] + (gs.drop_first().take(pos - 1) + seq![g] + gs.drop_first().skip(
            pos - 1,
        )) =~= gs.take(pos) + seq![g] + gs.skip(pos));
    }
}

/// The rendered `Tax` element: one `TaxItem` per sorted group, over the
/// group's summed amount.
pub open spec fn tax_summary_xml_v(items: Seq<DetailsItem>) -> Seq<char> {
    elem_str_v(
        escape("Tax"@),
        Seq::empty(),
        tax_items_of(items).map_values(|g: TaxGroup| tax_item_xml_v(g.0.0@, g.0.1, g.1@)),
    )
}

/// The total of every item's gross value, thirty digits up (see
/// [`gross_scaled_val`]): the rendered `TotalGrossAmount` and
/// `PayableAmount` are this total rounded half away from zero to two
/// fractional digits.
pub open spec fn gross_total_scaled(items: Seq<DetailsItem>) -> int
    decreases items.len(),
{
    if items.len() == 0 {
        0int
    } else {
        gross_total_scaled(items.drop_last()) + gross_scaled_val(items.last())
    }
}

/// The per-item bound on the gross amount's scale: the line amount's scale
/// plus the grossing numerator's scale, plus two for the division by one
/// hundred.
pub open spec fn gross_bound_scale(item: DetailsItem) -> nat {
    item_amount_v(item).scale + add_v(item.tax_item.tax_percent@, hundred_v()).scale + 2
}

/// The largest per-item gross scale bound, never below two.
pub open spec fn gross_scale_cap(items: Seq<DetailsItem>) -> nat
    decreases items.len(),
{
    if items.len() == 0 {
        2nat
    } else {
        crate::decimal::nmax(gross_scale_cap(items.drop_last()), gross_bound_scale(items.last()))
    }
}

/// The total of the absolute per-item gross values, thirty digits up.
pub open spec fn abs_gross_total(items: Seq<DetailsItem>) -> int
    decreases items.len(),
{
    if items.len() == 0 {
        0int
    } else {
        abs_gross_total(items.drop_last()) + crate::decimal::iabs(
            gross_scaled_val(items.last()),
        )
    }
}

proof fn lemma_gross_total_zero(t: DecV)
    requires
        t == zero_v(),
    ensures
        t.val() * pow10(30) == 0,
        iabs(t.val()) * pow10(30) == 0,
{
    assert(t.val() == 0) by (nonlinear_arith)
        requires
            t.num == 0 && t.val() == t.num * pow10((crate::decimal::max_dec_scale()
                - t.scale) as nat),
    ;
    assert(t.val() * pow10(30) == 0 && iabs(t.val()) * pow10(30) == 0) by (nonlinear_arith)
        requires
            t.val() == 0 && iabs(t.val()) == 0,
    ;
}

proof fn lemma_total_rendered(total: DecV, gts: int)
    requires
        total.wf(),
        total.val() * pow10(30) == gts,
    ensures
        rescale_v(total, 2) == (DecV { num: half_away(gts, 56), scale: 2 }),
{
    lemma_rescale2_val(total);
    lemma_half_away_shift(total.val(), 26, 30);
}

proof fn lemma_cap_ge_two(items: Seq<DetailsItem>)
    ensures
        gross_scale_cap(items) >= 2,
    decreases items.len(),
{
    if items.len() == 0 {
    } else {
        lemma_cap_ge_two(items.drop_last());
    }
}

proof fn lemma_cap_member(items: Seq<DetailsItem>, j: int)
    requires
        0 <= j < items.len(),
    ensures
        gross_bound_scale(items[j]) <= gross_scale_cap(items),
    decreases items.len(),
{
    if j == items.len() - 1 {
    } else {
        lemma_cap_member(items.drop_last(), j);
        assert(items.drop_last()[j] == items[j]);
    }
}

proof fn lemma_abs_total_prefix(items: Seq<DetailsItem>, k: int)
    requires
        0 <= k <= items.len(),
    ensures
        abs_gross_total(items.take(k)) <= abs_gross_total(items),
    decreases items.len() - k,
{
    if k == items.len() {
        assert(items.take(k) =~= items);
    } else {
        lemma_abs_total_prefix(items, k + 1);
        assert(items.take(k + 1).drop_last() =~= items.take(k));
        assert(items.take(k + 1).last() == items[k]);
    }
}

#[verifier::rlimit(30)]
proof fn lemma_gross_add_ok(
    acc: DecV,
    g: DecV,
    pre_total: int,
    pre_abs: int,
    gsv: int,
    all_abs: int,
    cap: nat,
)
    requires
        acc.wf(),
        g.wf(),
        acc.scale <= cap,
        g.scale <= cap,
        2 <= cap <= crate::decimal::max_dec_scale(),
        acc.val() * pow10(30) == pre_total,
        iabs(acc.val()) * pow10(30) <= pre_abs,
        g.val() * pow10(30) == gsv,
        pre_abs + iabs(gsv) <= all_abs,
        all_abs <= crate::decimal::max_mantissa() * pow10((58 - cap) as nat),
    ensures
        add_ok(acc, g),
        add_v(acc, g).scale <= cap,
        add_v(acc, g).val() * pow10(30) == pre_total + gsv,
        iabs(add_v(acc, g).val()) * pow10(30) <= pre_abs + iabs(gsv),
{
    let m = crate::decimal::nmax(acc.scale, g.scale);
    let pa = pow10((m - acc.scale) as nat);
    let pg = pow10((m - g.scale) as nat);
    let pm28 = pow10((28 - m) as nat);
    let p30 = pow10(30);
    crate::decimal::lemma_pow10_pos((m - acc.scale) as nat);
    crate::decimal::lemma_pow10_pos((m - g.scale) as nat);
    crate::decimal::lemma_pow10_pos((28 - m) as nat);
    crate::decimal::lemma_pow10_pos(30);
    crate::decimal::lemma_pow10_adds((m - acc.scale) as nat, (28 - m) as nat);
    crate::decimal::lemma_pow10_adds((m - g.scale) as nat, (28 - m) as nat);
    lemma_add_v_val(acc, g);
    assert(add_v(acc, g).val() * p30 == acc.val() * p30 + g.val() * p30) by (nonlinear_arith)
        requires
            add_v(acc, g).val() == acc.val() + g.val(),
    ;
    assert(iabs(g.val()) * p30 == iabs(gsv)) by (nonlinear_arith)
        requires
            g.val() * p30 == gsv && p30 >= 1,
    ;
    assert(iabs(add_v(acc, g).val()) * p30 <= iabs(acc.val()) * p30 + iabs(g.val()) * p30)
        by (nonlinear_arith)
        requires
            add_v(acc, g).val() == acc.val() + g.val() && p30 >= 1,
    ;
    // The aligned mantissas, scaled back up, are the absolute values.
    let xa = iabs(acc.num) * pa;
    let xg = iabs(g.num) * pg;
    assert(xa * pm28 == iabs(acc.val())) by (nonlinear_arith)
        requires
            pa >= 1 && pm28 >= 1 && pa * pm28 == pow10((28 - acc.scale) as nat) && acc.val()
                == acc.num * pow10((28 - acc.scale) as nat) && xa == iabs(acc.num) * pa,
    ;
    assert(xg * pm28 == iabs(g.val())) by (nonlinear_arith)
        requires
            pg >= 1 && pm28 >= 1 && pg * pm28 == pow10((28 - g.scale) as nat) && g.val() == g.num
                * pow10((28 - g.scale) as nat) && xg == iabs(g.num) * pg,
    ;
    crate::decimal::lemma_pow10_adds((28 - m) as nat, 30);
    crate::decimal::lemma_pow10_le((58 - cap) as nat, (58 - m) as nat);
    assert(pm28 * p30 >= 1) by (nonlinear_arith)
        requires
            pm28 >= 1 && p30 >= 1,
    ;
    assert((xa + xg) * (pm28 * p30) <= crate::decimal::max_mantissa() * (pm28 * p30))
        by (nonlinear_arith)
        requires
            xa * pm28 == iabs(acc.val()) && xg * pm28 == iabs(g.val()) && iabs(acc.val()) * p30
                <= pre_abs && iabs(g.val()) * p30 == iabs(gsv) && pre_abs + iabs(gsv) <= all_abs
                && all_abs <= crate::decimal::max_mantissa() * pow10((58 - cap) as nat) && pow10(
                (58 - cap) as nat,
            ) <= pm28 * p30 && pm28 * p30 == pow10((58 - m) as nat) && pm28 >= 1 && p30 >= 1,
    ;
    assert(xa + xg <= crate::decimal::max_mantissa()) by (nonlinear_arith)
        requires
            (xa + xg) * (pm28 * p30) <= crate::decimal::max_mantissa() * (pm28 * p30) && pm28 * p30
                >= 1,
    ;
}

proof fn lemma_gross_rescale_ok(total: DecV, all_abs: int, cap: nat)
    requires
        total.wf(),
        2 <= cap <= crate::decimal::max_dec_scale(),
        iabs(total.val()) * pow10(30) <= all_abs,
        all_abs <= crate::decimal::max_mantissa() * pow10((58 - cap) as nat),
    ensures
        rescale_ok(total, 2),
{
    if total.scale < 2 {
        let x = iabs(total.num) * pow10((2 - total.scale) as nat);
        let p26 = pow10(26);
        let p30 = pow10(30);
        crate::decimal::lemma_pow10_pos((2 - total.scale) as nat);
        crate::decimal::lemma_pow10_pos(26);
        crate::decimal::lemma_pow10_pos(30);
        crate::decimal::lemma_pow10_adds((2 - total.scale) as nat, 26);
        crate::decimal::lemma_pow10_adds(26, 30);
        crate::decimal::lemma_pow10_le((58 - cap) as nat, 56);
        assert(p26 * p30 >= 1) by (nonlinear_arith)
            requires
                p26 >= 1 && p30 >= 1,
        ;
        assert(x * p26 == iabs(total.val())) by (nonlinear_arith)
            requires
                pow10((2 - total.scale) as nat) >= 1 && p26 >= 1 && pow10(
                    (2 - total.scale) as nat,
                ) * p26 == pow10((28 - total.scale) as nat) && total.val() == total.num * pow10(
                    (28 - total.scale) as nat,
                ) && x == iabs(total.num) * pow10((2 - total.scale) as nat),
        ;
        assert(x * (p26 * p30) <= crate::decimal::max_mantissa() * (p26 * p30))
            by (nonlinear_arith)
            requires
                x * p26 == iabs(total.val()) && iabs(total.val()) * p30 <= all_abs && all_abs
                    <= crate::decimal::max_mantissa() * pow10((58 - cap) as nat) && pow10(
                    (58 - cap) as nat,
                ) <= pow10(56) && pow10(56) == p26 * p30 && p26 >= 1 && p30 >= 1,
        ;
        assert(x <= crate::decimal::max_mantissa()) by (nonlinear_arith)
            requires
                x * (p26 * p30) <= crate::decimal::max_mantissa() * (p26 * p30) && p26 * p30 >= 1,
        ;
    }
}

/// The invoice aggregate root.
pub struct Invoice {
    pub generating_system: String,
    pub invoice_currency: String,
    pub document_title: Option<String>,
    pub language: Option<String>,
    pub invoice_number: String,
    pub invoice_date: String,
    pub biller: Biller,
    pub invoice_recipient: InvoiceRecipient,
    pub details: Details,
    pub payment_method: Option<PaymentMethod>,
}

/// Every amount in the document computes and renders within exact range.
pub open spec fn invoice_render_ok(inv: Invoice) -> bool {
    &&& details_xml_ok(inv.details)
    &&& tax_groups_ok(inv.details.items@)
    &&& (forall|i: int|
        0 <= i < tax_items_of(inv.details.items@).len() ==> tax_item_xml_ok(
            (#[trigger] tax_items_of(inv.details.items@)[i]).0.0@,
            tax_items_of(inv.details.items@)[i].1@,
        ))
    &&& (forall|i: int| 0 <= i < inv.details.items@.len() ==> gross_ok(#[trigger] inv.details.items@[i]))
    &&& gross_scale_cap(inv.details.items@) <= crate::decimal::max_dec_scale()
    &&& abs_gross_total(inv.details.items@) <= crate::decimal::max_mantissa() * pow10(
        (58 - gross_scale_cap(inv.details.items@)) as nat,
    )
}

/// The root element's attributes: the fixed namespace, the generating
/// system, the document type, the currency, and the optional title and
/// language.
pub open spec fn invoice_attrs_v(inv: Invoice) -> Seq<Seq<char>> {
    seq![
        attr_str_v("xmlns"@, "http://www.ebinterface.at/schema/6p1/"@),
        attr_str_v("GeneratingSystem"@, inv.generating_system@),
        attr_str_v("DocumentType"@, doc_type_str_v(DocumentType::Invoice)),
        attr_str_v("InvoiceCurrency"@, inv.invoice_currency@),
    ] + (if inv.document_title is Some {
        seq![attr_str_v("DocumentTitle"@, inv.document_title->0@)]
    } else {
        Seq::empty()
    }) + (if inv.language is Some {
        seq![attr_str_v("Language"@, inv.language->0@)]
    } else {
        Seq::empty()
    })
}

/// The root element's body: the invoice number and date, the two parties,
/// the line items, the sorted tax summary, the total gross and payable
/// amounts (equal by construction), and the payment method where one was
/// attached.
pub open spec fn invoice_body_v(inv: Invoice) -> Seq<Seq<char>> {
    seq![
        text_elem_v("InvoiceNumber"@, inv.invoice_number@),
        text_elem_v("InvoiceDate"@, inv.invoice_date@),
        biller_xml_v(inv.biller),
        recipient_xml_v(inv.invoice_recipient),
        details_xml_v(inv.details),
        tax_summary_xml_v(inv.details.items@),
        text_elem_v(
            "TotalGrossAmount"@,
            dec_str_v(DecV { num: half_away(gross_total_scaled(inv.details.items@), 56), scale: 2 }),
        ),
        text_elem_v(
            "PayableAmount"@,
            dec_str_v(DecV { num: half_away(gross_total_scaled(inv.details.items@), 56), scale: 2 }),
        ),
    ] + (if inv.payment_method is Some {
        seq![pm_xml_v(inv.payment_method->0)]
    } else {
        Seq::empty()
    })
}

/// The serialized document: the fixed XML declaration, then the root
/// `Invoice` element with [`invoice_attrs_v`] and [`invoice_body_v`].
pub open spec fn invoice_xml_v(inv: Invoice) -> Seq<char> {
    "<?xml version=\"1.0\" encoding=\"UTF-8\"?>"@ + elem_str_v(
        escape(doc_type_str_v(DocumentType::Invoice)),
        invoice_attrs_v(inv),
        invoice_body_v(inv),
    )
}

impl Invoice {
    /// An invoice from its header fields and the two parties; items,
    /// optional header fields and payment method start empty.
    pub fn new(
        generating_system: &str,
        invoice_currency: &str,
        invoice_number: &str,
        invoice_date: &str,
        biller: Biller,
        invoice_recipient: InvoiceRecipient,
    ) -> (r: Invoice)
        ensures
            r.generating_system@ == generating_system@,
            r.invoice_currency@ == invoice_currency@,
            r.document_title is None,
            r.language is None,
            r.invoice_number@ == invoice_number@,
            r.invoice_date@ == invoice_date@,
            r.biller == biller,
            r.invoice_recipient == invoice_recipient,
            r.details.items@.len() == 0,
            r.payment_method is None,
    {
        Invoice {
            generating_system: generating_system.to_owned(),
            invoice_currency: invoice_currency.to_owned(),
            document_title: None,
            language: None,
            invoice_number: invoice_number.to_owned(),
            invoice_date: invoice_date.to_owned(),
            biller,
            invoice_recipient,
            details: Details { items: Vec::new() },
            payment_method: None,
        }
    }

    /// The invoice with its document title set.
    pub fn with_document_title(self, document_title: &str) -> (r: Invoice)
        ensures
            r.document_title matches Some(t) && t@ == document_title@,
            r == (Invoice { document_title: r.document_title, ..self }),
    {
        Invoice { document_title: Some(document_title.to_owned()), ..self }
    }

    /// The invoice with its language set.
    pub fn with_language(self, language: &str) -> (r: Invoice)
        ensures
            r.language matches Some(l) && l@ == language@,
            r == (Invoice { language: r.language, ..self }),
    {
        Invoice { language: Some(language.to_owned()), ..self }
    }

    /// The invoice with its item list replaced.
    pub fn with_items(self, items: Vec<DetailsItem>) -> (r: Invoice)
        ensures
            r.details.items == items,
            r == (Invoice { details: r.details, ..self }),
    {
        let mut r = self;
        r.details.items = items;
        r
    }

    /// The invoice with one item appended.
    pub fn with_item(self, item: DetailsItem) -> (r: Invoice)
        ensures
            r.details.items@ == self.details.items@.push(item),
            r == (Invoice { details: r.details, ..self }),
    {
        let mut r = self;
        r.details.items.push(item);
        r
    }

    /// The invoice with its payment method set.
    pub fn with_payment_method(self, payment_method: PaymentMethod) -> (r: Invoice)
        ensures
            r.payment_method matches Some(p) && p == payment_method,
            r == (Invoice { payment_method: r.payment_method, ..self }),
    {
        Invoice { payment_method: Some(payment_method), ..self }
    }

    /// All line items grouped by (rate value, category) — each group keeping
    /// the rate representation it was created with and summing its members'
    /// line item amounts — sorted ascending by rate, ties broken by the
    /// category's declared order.
    pub fn invoice_tax_items(&self) -> (r: Vec<((Decimal, TaxCategory), Decimal)>)
        requires
            tax_groups_ok(self.details.items@),
        ensures
            r@ == tax_items_of(self.details.items@),
    {
        let items = &self.details.items;
        let mut groups: Vec<TaxGroup> = Vec::new();
        let mut i: usize = 0;
        while i < items.len()
            invariant
                i <= items@.len(),
                tax_groups_ok(items@),
                groups@ == tax_groups_of(items@.take(i as int)),
                groups_wf(groups@),
            decreases items@.len() - i,
        {
            proof {
                lemma_tax_groups_ok_prefix(items@, i + 1);
                assert(items@.take(i + 1).drop_last() =~= items@.take(i as int));
                assert(items@.take(i + 1).last() == items@[i as int]);
            }
            let amount = items[i].line_item_amount();
            let pct = items[i].tax_item.tax_percent;
            let cat = items[i].tax_item.tax_category;
            let mut j: usize = 0;
            let mut found: bool = false;
            while j < groups.len() && !found
                invariant
                    j <= groups@.len(),
                    groups_wf(groups@),
                    pct@.wf(),
                    !found ==> forall|k: int|
                        0 <= k < j ==> !key_matches((#[trigger] groups@[k]).0, pct, cat),
                    found ==> j < groups@.len() && key_matches(groups@[j as int].0, pct, cat)
                        && (forall|k: int|
                        0 <= k < j ==> !key_matches((#[trigger] groups@[k]).0, pct, cat)),
                decreases groups@.len() - j, (if found { 0int } else { 1int }),
            {
                if dec_eq_val(&groups[j].0.0, &pct) && groups[j].0.1 == cat {
                    found = true;
                } else {
                    j = j + 1;
                }
            }
            if found {
                proof {
                    lemma_find_group_at(groups@, pct, cat, j as int);
                }
                let entry = groups.remove(j);
                let newsum = dec_add(&entry.1, &amount);
                groups.insert(j, (entry.0, newsum));
                proof {
                    let gs = tax_groups_of(items@.take(i as int));
                    lemma_dec_of(newsum, add_v(gs[j as int].1@, amount@));
                    assert(groups@ =~= gs.update(
                        j as int,
                        (gs[j as int].0, dec_of(add_v(gs[j as int].1@, amount@))),
                    ));
                    assert(groups@ =~= tax_groups_of(items@.take(i + 1)));
                }
            } else {
                proof {
                    lemma_find_group_none(groups@, pct, cat);
                }
                groups.push(((pct, cat), amount));
                proof {
                    lemma_dec_of(amount, item_amount_v(items@[i as int]));
                    assert(groups@ =~= tax_groups_of(items@.take(i + 1)));
                }
            }
            i = i + 1;
        }
        proof {
            assert(items@.take(items@.len() as int) =~= items@);
        }
        let mut sorted: Vec<TaxGroup> = Vec::new();
        let mut i: usize = 0;
        while i < groups.len()
            invariant
                i <= groups@.len(),
                groups@ == tax_groups_of(items@),
                groups_wf(groups@),
                groups_wf(sorted@),
                sorted@ == sort_groups(groups@.take(i as int)),
            decreases groups@.len() - i,
        {
            let g = (groups[i].0, groups[i].1);
            let mut pos: usize = 0;
            while pos < sorted.len() && !entry_lt(&g, &sorted[pos])
                invariant
                    pos <= sorted@.len(),
                    groups_wf(sorted@),
                    g.0.0@.wf(),
                    g.1@.wf(),
                    forall|k: int| 0 <= k < pos ==> !group_lt(g, #[trigger] sorted@[k]),
                decreases sorted@.len() - pos,
            {
                pos = pos + 1;
            }
            proof {
                lemma_sorted_insert_at(g, sorted@, pos as int);
                assert(groups@.take(i + 1).drop_last() =~= groups@.take(i as int));
                assert(groups@.take(i + 1).last() == g);
            }
            sorted.insert(pos, g);
            proof {
                assert(sorted@ =~= sort_groups(groups@.take(i as int)).take(pos as int) + seq![g]
                    + sort_groups(groups@.take(i as int)).skip(pos as int));
                assert(sorted@ =~= sort_groups(groups@.take(i + 1)));
            }
            i = i + 1;
        }
        proof {
            assert(groups@.take(groups@.len() as int) =~= groups@);
        }
        sorted
    }

    /// The rendered `Tax` element: one `TaxItem` per sorted group.
    fn build_tax_element(&self) -> (tax: XmlElement)
        requires
            invoice_render_ok(*self),
        ensures
            xml_of(tax) == tax_summary_xml_v(self.details.items@),
    {
        let tax_items = self.invoice_tax_items();
        let ghost tax_rendered = tax_items_of(self.details.items@).map_values(
            |g: TaxGroup| tax_item_xml_v(g.0.0@, g.0.1, g.1@),
        );
        let mut tax = XmlElement::new("Tax");
        let mut i: usize = 0;
        while i < tax_items.len()
            invariant
                i <= tax_items@.len(),
                tax_items@ == tax_items_of(self.details.items@),
                invoice_render_ok(*self),
                tax_rendered == tax_items_of(self.details.items@).map_values(
                    |g: TaxGroup| tax_item_xml_v(g.0.0@, g.0.1, g.1@),
                ),
                tax.name@ == escape("Tax"@),
                tax.attrs@.len() == 0,
                strs_view(tax.body@) == tax_rendered.take(i as int),
            decreases tax_items@.len() - i,
        {
            let entry = &tax_items[i];
            let with_amount = TaxItem::new(entry.0.0, entry.0.1).taxable_amount(entry.1);
            let child = with_amount.build_element();
            tax = tax.with_element(&child);
            proof {
                assert(strs_view(tax.body@) =~= tax_rendered.take(i + 1));
            }
            i = i + 1;
        }
        proof {
            assert(tax_rendered.take(tax_rendered.len() as int) =~= tax_rendered);
            assert(strs_view(tax.attrs@) =~= Seq::<Seq<char>>::empty());
        }
        tax
    }

    /// The sum of every item's gross amount, unrounded; its denoted value
    /// is exactly the items' gross total, and it can be rescaled to two
    /// fractional digits.
    fn total_gross(&self) -> (r: Decimal)
        requires
            invoice_render_ok(*self),
        ensures
            r@.val() * pow10(30) == gross_total_scaled(self.details.items@),
            r@.wf(),
            rescale_ok(r@, 2),
    {
        let mut total_gross_amount = Decimal { num: 0, scale: 0 };
        let items = &self.details.items;
        let ghost cap = gross_scale_cap(items@);
        let mut i: usize = 0;
        proof {
            lemma_gross_total_zero(total_gross_amount@);
            lemma_cap_ge_two(items@);
        }
        while i < items.len()
            invariant
                i <= items@.len(),
                items@ == self.details.items@,
                invoice_render_ok(*self),
                cap == gross_scale_cap(items@),
                2 <= cap <= crate::decimal::max_dec_scale(),
                total_gross_amount@.wf(),
                total_gross_amount@.scale <= cap,
                total_gross_amount@.val() * pow10(30) == gross_total_scaled(items@.take(i as int)),
                iabs(total_gross_amount@.val()) * pow10(30) <= abs_gross_total(
                    items@.take(i as int),
                ),
            decreases items@.len() - i,
        {
            proof {
                assert(items@.take(i + 1).drop_last() =~= items@.take(i as int));
                assert(items@.take(i + 1).last() == items@[i as int]);
                lemma_cap_member(items@, i as int);
                lemma_abs_total_prefix(items@, i + 1);
            }
            let g = items[i].line_item_total_gross_amount();
            let ghost old_total = total_gross_amount@;
            proof {
                lemma_gross_add_ok(
                    old_total,
                    g@,
                    gross_total_scaled(items@.take(i as int)),
                    abs_gross_total(items@.take(i as int)),
                    gross_scaled_val(items@[i as int]),
                    abs_gross_total(items@),
                    cap,
                );
            }
            total_gross_amount = dec_add(&total_gross_amount, &g);
            i = i + 1;
        }
        proof {
            assert(items@.take(items@.len() as int) =~= items@);
            lemma_gross_rescale_ok(total_gross_amount@, abs_gross_total(items@), cap);
        }
        total_gross_amount
    }

    /// The root element with its attributes and the invoice number and
    /// date, before the remaining body pieces.
    fn build_root_start(&self) -> (e: XmlElement)
        ensures
            e.name@ == escape(doc_type_str_v(DocumentType::Invoice)),
            strs_view(e.attrs@) == invoice_attrs_v(*self),
            strs_view(e.body@) == seq![
                text_elem_v("InvoiceNumber"@, self.invoice_number@),
                text_elem_v("InvoiceDate"@, self.invoice_date@),
            ],
    {
        let doc_type = DocumentType::Invoice;
        let mut invoice = XmlElement::new(doc_type.as_str()).with_attr(
            "xmlns",
            "http://www.ebinterface.at/schema/6p1/",
        ).with_attr("GeneratingSystem", self.generating_system.as_str()).with_attr(
            "DocumentType",
            doc_type.as_str(),
        ).with_attr("InvoiceCurrency", self.invoice_currency.as_str());
        match &self.document_title {
            Some(t) => {
                invoice = invoice.with_attr("DocumentTitle", t.as_str());
            },
            None => {},
        }
        match &self.language {
            Some(l) => {
                invoice = invoice.with_attr("Language", l.as_str());
            },
            None => {},
        }
        proof {
            assert(strs_view(invoice.attrs@) =~= invoice_attrs_v(*self));
        }
        let invoice = invoice.with_text_element("InvoiceNumber", self.invoice_number.as_str())
            .with_text_element("InvoiceDate", self.invoice_date.as_str());
        proof {
            assert(strs_view(invoice.body@) =~= seq![
                text_elem_v("InvoiceNumber"@, self.invoice_number@),
                text_elem_v("InvoiceDate"@, self.invoice_date@),
            ]);
        }
        invoice
    }

    /// The serialized document, or — where the payment method breaks one of
    /// its rules — that rule's message, with no partial document returned.
    /// Success is owed exactly when the payment method is absent or meets
    /// its rules.
    #[verifier::rlimit(100)]
    #[verifier::spinoff_prover]
    pub fn to_xml(&self) -> (r: Result<String, String>)
        requires
            invoice_render_ok(*self),
        ensures
            match r {
                Ok(s) => (self.payment_method is Some ==> pm_ok(self.payment_method->0)) && s@
                    == invoice_xml_v(*self),
                Err(m) => self.payment_method is Some && !pm_ok(self.payment_method->0) && m@
                    == pm_err_v(self.payment_method->0),
            },
    {
        let tax = self.build_tax_element();
        let total_gross_amount = self.total_gross();
        let payable_amount = total_gross_amount;
        let mut invoice = self.build_root_start();
        let biller_elem = self.biller.build_element();
        invoice = invoice.with_element(&biller_elem);
        let recipient_elem = self.invoice_recipient.build_element();
        invoice = invoice.with_element(&recipient_elem);
        let details_elem = self.details.build_element();
        invoice = invoice.with_element(&details_elem);
        invoice = invoice.with_element(&tax);
        proof {
            lemma_total_rendered(total_gross_amount@, gross_total_scaled(self.details.items@));
        }
        let total2 = dec_rescale(&total_gross_amount, 2);
        invoice = invoice.with_text_element("TotalGrossAmount", dec_to_string(&total2).as_str());
        let payable2 = dec_rescale(&payable_amount, 2);
        invoice = invoice.with_text_element("PayableAmount", dec_to_string(&payable2).as_str());
        let ghost head_body: Seq<Seq<char>> = invoice_body_v(*self).take(8);
        proof {
            assert(invoice_body_v(*self).take(8) =~= seq![
                text_elem_v("InvoiceNumber"@, self.invoice_number@),
                text_elem_v("InvoiceDate"@, self.invoice_date@),
                biller_xml_v(self.biller),
                recipient_xml_v(self.invoice_recipient),
                details_xml_v(self.details),
                tax_summary_xml_v(self.details.items@),
                text_elem_v(
                    "TotalGrossAmount"@,
                    dec_str_v(
                        DecV {
                            num: half_away(gross_total_scaled(self.details.items@), 56),
                            scale: 2,
                        },
                    ),
                ),
                text_elem_v(
                    "PayableAmount"@,
                    dec_str_v(
                        DecV {
                            num: half_away(gross_total_scaled(self.details.items@), 56),
                            scale: 2,
                        },
                    ),
                ),
            ]);
            assert(strs_view(invoice.body@) =~= head_body);
        }
        match &self.payment_method {
            Some(pm) => {
                match pm.as_xml() {
                    Ok(pm_elem) => {
                        invoice = invoice.with_element(&pm_elem);
                        proof {
                            assert(strs_view(invoice.body@) =~= invoice_body_v(*self));
                        }
                    },
                    Err(m) => {
                        return Err(m);
                    },
                }
            },
            None => {
                proof {
                    assert(strs_view(invoice.body@) =~= invoice_body_v(*self));
                }
            },
        }
        let rendered = invoice.to_xml();
        let mut out = String::from_str("<?xml version=\"1.0\" encoding=\"UTF-8\"?>");
        out.append(rendered.as_str());
        proof {
            assert(out@ =~= invoice_xml_v(*self));
        }
        Ok(out)
    }
}

/// Whether an item is taxed at exactly this rate value and category.
pub open spec fn item_has_key(it: DetailsItem, rate_val: int, cat: TaxCategory) -> bool {
    it.tax_item.tax_percent@.val() == rate_val && it.tax_item.tax_category == cat
}

/// The total of the rounded line item amounts of every item taxed at this
/// rate value and category, taken in item order.
pub open spec fn key_sum(items: Seq<DetailsItem>, rate_val: int, cat: TaxCategory) -> int
    decreases items.len(),
{
    if items.len() == 0 {
        0int
    } else {
        key_sum(items.drop_last(), rate_val, cat) + (if item_has_key(
            items.last(),
            rate_val,
            cat,
        ) {
            item_amount_v(items.last()).val()
        } else {
            0int
        })
    }
}

/// Whether any item is taxed at this rate value and category.
pub open spec fn has_key(items: Seq<DetailsItem>, rate_val: int, cat: TaxCategory) -> bool {
    exists|i: int| 0 <= i < items.len() && item_has_key(#[trigger] items[i], rate_val, cat)
}

proof fn lemma_key_sum_remove(items: Seq<DetailsItem>, j: int, rate_val: int, cat: TaxCategory)
    requires
        0 <= j < items.len(),
    ensures
        key_sum(items.remove(j), rate_val, cat) == key_sum(items, rate_val, cat) - (
        if item_has_key(items[j], rate_val, cat) {
            item_amount_v(items[j]).val()
        } else {
            0int
        }),
    decreases items.len(),
{
    if j == items.len() - 1 {
        assert(items.remove(j) =~= items.drop_last());
    } else {
        lemma_key_sum_remove(items.drop_last(), j, rate_val, cat);
        assert(items.remove(j).drop_last() =~= items.drop_last().remove(j));
        assert(items.remove(j).last() == items.last());
        assert(items.drop_last()[j] == items[j]);
    }
}

/// Grouping is order-independent on input: feeding the same multiset of
/// line items in any order gives, for every (rate value, category) key, the
/// same total of rounded line item amounts and the same presence of the
/// key.
pub proof fn lemma_key_sum_order_independent(
    items1: Seq<DetailsItem>,
    items2: Seq<DetailsItem>,
    rate_val: int,
    cat: TaxCategory,
)
    requires
        items1.to_multiset() == items2.to_multiset(),
    ensures
        key_sum(items1, rate_val, cat) == key_sum(items2, rate_val, cat),
        has_key(items1, rate_val, cat) == has_key(items2, rate_val, cat),
    decreases items1.len(),
{
    items1.to_multiset_ensures();
    items2.to_multiset_ensures();
    if items1.len() == 0 {
        assert(items2.len() == 0);
        if has_key(items2, rate_val, cat) {
            let i = choose|i: int| 0 <= i < items2.len() && item_has_key(items2[i], rate_val, cat);
            assert(false);
        }
    } else {
        let x = items1.last();
        assert(items1.contains(x));
        assert(items1.to_multiset().count(x) > 0);
        assert(items2.contains(x));
        let j = choose|j: int| 0 <= j < items2.len() && items2[j] == x;
        assert(items1.drop_last() =~= items1.remove(items1.len() - 1));
        assert(items1.drop_last().to_multiset() == items1.to_multiset().remove(x));
        assert(items2.remove(j).to_multiset() == items2.to_multiset().remove(x));
        lemma_key_sum_order_independent(items1.drop_last(), items2.remove(j), rate_val, cat);
        lemma_key_sum_remove(items2, j, rate_val, cat);
        if has_key(items1, rate_val, cat) {
            let i = choose|i: int|
                0 <= i < items1.len() && item_has_key(#[trigger] items1[i], rate_val, cat);
            if i < items1.len() - 1 {
                assert(item_has_key(items1.drop_last()[i], rate_val, cat));
                assert(has_key(items1.drop_last(), rate_val, cat));
                let k = choose|k: int|
                    0 <= k < items2.remove(j).len() && item_has_key(
                        #[trigger] items2.remove(j)[k],
                        rate_val,
                        cat,
                    );
                let k2: int = if k < j {
                    k
                } else {
                    k + 1
                };
                assert(items2[k2] == items2.remove(j)[k]);
                assert(has_key(items2, rate_val, cat));
            } else {
                assert(item_has_key(items2[j], rate_val, cat));
                assert(has_key(items2, rate_val, cat));
            }
        }
        if has_key(items2, rate_val, cat) {
            let i = choose|i: int|
                0 <= i < items2.len() && item_has_key(#[trigger] items2[i], rate_val, cat);
            if i == j {
                assert(item_has_key(items1.last(), rate_val, cat));
                assert(item_has_key(items1[items1.len() - 1], rate_val, cat));
                assert(has_key(items1, rate_val, cat));
            } else {
                let k: int = if i < j {
                    i
                } else {
                    i - 1
                };
                assert(items2.remove(j)[k] == items2[i]);
                assert(has_key(items2.remove(j), rate_val, cat));
                let m = choose|m: int|
                    0 <= m < items1.drop_last().len() && item_has_key(
                        #[trigger] items1.drop_last()[m],
                        rate_val,
                        cat,
                    );
                assert(items1[m] == items1.drop_last()[m]);
                assert(has_key(items1, rate_val, cat));
            }
        }
    }
}

/// Whether `a` sorts no later than `b` in the tax summary.
pub open spec fn group_le(a: TaxGroup, b: TaxGroup) -> bool {
    !group_lt(b, a)
}

/// Whether the groups stand in the summary's output order: ascending by
/// rate value, ties broken by the category's declared order.
pub open spec fn groups_sorted(gs: Seq<TaxGroup>) -> bool {
    forall|i: int, j: int| 0 <= i < j < gs.len() ==> group_le(#[trigger] gs[i], #[trigger] gs[j])
}

proof fn lemma_sorted_insert_props(g: TaxGroup, gs: Seq<TaxGroup>)
    requires
        groups_sorted(gs),
    ensures
        groups_sorted(sorted_insert(g, gs)),
        sorted_insert(g, gs).to_multiset() == gs.to_multiset().insert(g),
    decreases gs.len(),
{
    gs.to_multiset_ensures();
    sorted_insert(g, gs).to_multiset_ensures();
    if gs.len() == 0 {
        assert(sorted_insert(g, gs) =~= seq![g]);
        assert(seq![g] =~= Seq::<TaxGroup>::empty().push(g));
        Seq::<TaxGroup>::empty().to_multiset_ensures();
        assert(Seq::<TaxGroup>::empty().to_multiset() =~= Multiset::<TaxGroup>::empty());
        assert(sorted_insert(g, gs).to_multiset() =~= gs.to_multiset().insert(g));
    } else if group_lt(g, gs[0]) {
        let r = seq![g] + gs;
        assert(r.drop_first() =~= gs);
        assert(r =~= gs.insert(0, g));
        lemma_insert_multiset(gs, 0, g);
        assert forall|i: int, j: int| 0 <= i < j < r.len() implies group_le(r[i], r[j]) by {
            if i == 0 {
                assert(group_le(g, gs[0]));
                assert(r[j] == gs[j - 1]);
                if j > 1 {
                    assert(group_le(gs[0], gs[j - 1]));
                }
            } else {
                assert(r[i] == gs[i - 1] && r[j] == gs[j - 1]);
            }
        }
    } else {
        let tail = gs.drop_first();
        assert(groups_sorted(tail)) by {
            assert(forall|i: int, j: int|
                0 <= i < j < tail.len() ==> tail[i] == gs[i + 1] && tail[j] == gs[j + 1]);
        }
        lemma_sorted_insert_props(g, tail);
        let ri = sorted_insert(g, tail);
        let r = seq![gs[0]] + ri;
        ri.to_multiset_ensures();
        tail.to_multiset_ensures();
        assert(r =~= ri.insert(0, gs[0]));
        lemma_insert_multiset(ri, 0, gs[0]);
        assert(tail =~= gs.remove(0));
        assert(tail.to_multiset() == gs.to_multiset().remove(gs[0]));
        assert(gs.to_multiset().count(gs[0]) > 0);
        assert(r.to_multiset() =~= gs.to_multiset().insert(g));
        assert forall|i: int, j: int| 0 <= i < j < r.len() implies group_le(r[i], r[j]) by {
            if i == 0 {
                assert(r[j] == ri[j - 1]);
                assert(ri.to_multiset().count(ri[j - 1]) > 0);
                assert(ri.contains(ri[j - 1]));
                if ri[j - 1] == g {
                    assert(group_le(gs[0], g));
                } else {
                    assert(tail.to_multiset().count(ri[j - 1]) > 0);
                    assert(tail.contains(ri[j - 1]));
                    let k = choose|k: int| 0 <= k < tail.len() && tail[k] == ri[j - 1];
                    assert(group_le(gs[0], gs[k + 1]));
                }
            } else {
                assert(r[i] == ri[i - 1] && r[j] == ri[j - 1]);
            }
        }
    }
}

proof fn lemma_insert_multiset(s: Seq<TaxGroup>, i: int, g: TaxGroup)
    requires
        0 <= i <= s.len(),
    ensures
        s.insert(i, g).to_multiset() == s.to_multiset().insert(g),
    decreases s.len() - i,
{
    s.to_multiset_ensures();
    s.insert(i, g).to_multiset_ensures();
    if i == s.len() {
        assert(s.insert(i, g) =~= s.push(g));
    } else {
        let r = s.insert(i, g);
        assert(r.remove(i) =~= s);
        assert(r[i] == g);
        assert(r.to_multiset().remove(g) == s.to_multiset());
        assert(r.to_multiset().count(g) > 0) by {
            assert(r.contains(g));
        }
        assert(r.to_multiset() =~= s.to_multiset().insert(g));
    }
}

/// The tax summary's output order is deterministic: whatever the input
/// order, the rendered groups stand sorted ascending by rate value, ties
/// broken by the category's declared order, and they are exactly the
/// grouped entries.
pub proof fn lemma_tax_items_sorted(items: Seq<DetailsItem>)
    ensures
        groups_sorted(tax_items_of(items)),
        tax_items_of(items).to_multiset() == tax_groups_of(items).to_multiset(),
{
    lemma_sort_groups_props(tax_groups_of(items));
}

proof fn lemma_sort_groups_props(gs: Seq<TaxGroup>)
    ensures
        groups_sorted(sort_groups(gs)),
        sort_groups(gs).to_multiset() == gs.to_multiset(),
    decreases gs.len(),
{
    broadcast use vstd::multiset::group_multiset_axioms;

    gs.to_multiset_ensures();
    if gs.len() == 0 {
        assert(gs =~= Seq::<TaxGroup>::empty());
        assert(sort_groups(gs) =~= gs);
    } else {
        lemma_sort_groups_props(gs.drop_last());
        lemma_sorted_insert_props(gs.last(), sort_groups(gs.drop_last()));
        assert(gs.drop_last() =~= gs.remove(gs.len() - 1));
        gs.drop_last().to_multiset_ensures();
        assert(gs.drop_last().to_multiset() == gs.to_multiset().remove(gs.last()));
        assert(gs.to_multiset().count(gs.last()) > 0) by {
            assert(gs.contains(gs.last()));
        }
        assert(sort_groups(gs).to_multiset() =~= gs.to_multiset());
    }
}


/// Whether some group carries exactly this item's (rate value, category).
pub open spec fn has_group_key(gs: Seq<TaxGroup>, it: DetailsItem) -> bool {
    exists|g: int|
        0 <= g < gs.len() && key_matches(
            (#[trigger] gs[g]).0,
            it.tax_item.tax_percent,
            it.tax_item.tax_category,
        )
}

proof fn lemma_find_group_props(gs: Seq<TaxGroup>, pct: Decimal, cat: TaxCategory)
    ensures
        ({
            let r = find_group(gs, pct, cat);
            &&& (r == -1 ==> forall|k: int|
                0 <= k < gs.len() ==> !key_matches((#[trigger] gs[k]).0, pct, cat))
            &&& (r != -1 ==> 0 <= r < gs.len() && key_matches(gs[r].0, pct, cat) && forall|k: int|
                0 <= k < r ==> !key_matches((#[trigger] gs[k]).0, pct, cat))
        }),
    decreases gs.len(),
{
    if gs.len() == 0 {
    } else if key_matches(gs[0].0, pct, cat) {
    } else {
        lemma_find_group_props(gs.drop_first(), pct, cat);
        assert(forall|k: int| 1 <= k < gs.len() ==> (#[trigger] gs[k]) == gs.drop_first()[k - 1]);
    }
}

proof fn lemma_key_sum_zero(items: Seq<DetailsItem>, rate_val: int, cat: TaxCategory)
    requires
        forall|i: int| 0 <= i < items.len() ==> !item_has_key(#[trigger] items[i], rate_val, cat),
    ensures
        key_sum(items, rate_val, cat) == 0,
    decreases items.len(),
{
    if items.len() == 0 {
    } else {
        lemma_key_sum_zero(items.drop_last(), rate_val, cat);
    }
}

proof fn lemma_dec_of_view(v: DecV)
    requires
        v.wf(),
    ensures
        dec_of(v)@ == v,
{
    assert(dec_of(v).num as int == v.num);
    assert(dec_of(v).scale as nat == v.scale);
}

/// The grouping facts the summary guarantees: each group's sum denotes
/// exactly its key's total of rounded line item amounts, each group's rate
/// is some item's own rate representation, every item's key has a group,
/// no key appears twice, and every stored rate and sum is well formed.
pub open spec fn groups_faithful(items: Seq<DetailsItem>, gs: Seq<TaxGroup>) -> bool {
    &&& forall|g: int|
        0 <= g < gs.len() ==> (#[trigger] gs[g]).1@.val() == key_sum(
            items,
            gs[g].0.0@.val(),
            gs[g].0.1,
        )
    &&& forall|g: int|
        0 <= g < gs.len() ==> exists|i: int|
            0 <= i < items.len() && (#[trigger] items[i]).tax_item.tax_percent == (
            #[trigger] gs[g]).0.0 && items[i].tax_item.tax_category == gs[g].0.1
    &&& forall|i: int| 0 <= i < items.len() ==> has_group_key(gs, #[trigger] items[i])
    &&& forall|g1: int, g2: int|
        0 <= g1 < g2 < gs.len() ==> !key_matches(
            (#[trigger] gs[g1]).0,
            (#[trigger] gs[g2]).0.0,
            gs[g2].0.1,
        )
    &&& groups_wf(gs)
}

spec fn cu_pre(items: Seq<DetailsItem>) -> bool {
    &&& items.len() > 0
    &&& tax_groups_ok(items)
    &&& (forall|i: int| 0 <= i < items.len() ==> item_amount_v(#[trigger] items[i]).wf())
    &&& groups_faithful(items.drop_last(), tax_groups_of(items.drop_last()))
    &&& find_group(
        tax_groups_of(items.drop_last()),
        items.last().tax_item.tax_percent,
        items.last().tax_item.tax_category,
    ) != -1
}

#[verifier::rlimit(30)]
proof fn lemma_cu_shape(items: Seq<DetailsItem>)
    requires
        cu_pre(items),
    ensures
        ({
            let gsp = tax_groups_of(items.drop_last());
            let r = find_group(
                gsp,
                items.last().tax_item.tax_percent,
                items.last().tax_item.tax_category,
            );
            &&& 0 <= r < gsp.len()
            &&& key_matches(
                gsp[r].0,
                items.last().tax_item.tax_percent,
                items.last().tax_item.tax_category,
            )
            &&& tax_groups_of(items) == gsp.update(
                r,
                (gsp[r].0, dec_of(add_v(gsp[r].1@, dec_of(item_amount_v(items.last()))@))),
            )
            &&& dec_of(item_amount_v(items.last()))@ == item_amount_v(items.last())
            &&& add_v(gsp[r].1@, item_amount_v(items.last())).wf()
            &&& dec_of(add_v(gsp[r].1@, item_amount_v(items.last())))@ == add_v(
                gsp[r].1@,
                item_amount_v(items.last()),
            )
            &&& add_v(gsp[r].1@, item_amount_v(items.last())).val() == gsp[r].1@.val()
                + item_amount_v(items.last()).val()
        }),
{
    let s = items.drop_last();
    let it = items.last();
    let gsp = tax_groups_of(s);
    let r = find_group(gsp, it.tax_item.tax_percent, it.tax_item.tax_category);
    lemma_find_group_props(gsp, it.tax_item.tax_percent, it.tax_item.tax_category);
    lemma_dec_of_view(item_amount_v(it));
    crate::decimal::lemma_add_v_wf(gsp[r].1@, item_amount_v(it));
    lemma_add_v_val(gsp[r].1@, item_amount_v(it));
    lemma_dec_of_view(add_v(gsp[r].1@, item_amount_v(it)));
    assert(tax_groups_of(items) == groups_insert(
        gsp,
        it.tax_item.tax_percent,
        it.tax_item.tax_category,
        dec_of(item_amount_v(it)),
    ));
}

#[verifier::rlimit(30)]
proof fn lemma_cu_sums(items: Seq<DetailsItem>)
    requires
        cu_pre(items),
    ensures
        ({
            let gs = tax_groups_of(items);
            forall|g: int|
                0 <= g < gs.len() ==> (#[trigger] gs[g]).1@.val() == key_sum(
                    items,
                    gs[g].0.0@.val(),
                    gs[g].0.1,
                )
        }),
{
    let s = items.drop_last();
    let it = items.last();
    let pct = it.tax_item.tax_percent;
    let cat = it.tax_item.tax_category;
    let gsp = tax_groups_of(s);
    let gs = tax_groups_of(items);
    let r = find_group(gsp, pct, cat);
    lemma_cu_shape(items);
    assert(forall|i: int| 0 <= i < s.len() ==> s[i] == items[i]);
    assert(item_has_key(it, pct@.val(), cat));
    let key = gsp[r].0;
    assert(key.0@.val() == pct@.val() && key.1 == cat);
    assert forall|g: int| 0 <= g < gs.len() implies (#[trigger] gs[g]).1@.val() == key_sum(
        items,
        gs[g].0.0@.val(),
        gs[g].0.1,
    ) by {
        if g == r {
            assert(item_has_key(it, key.0@.val(), key.1));
            assert(key_sum(items, key.0@.val(), key.1) == key_sum(s, key.0@.val(), key.1)
                + item_amount_v(it).val());
        } else {
            assert(gs[g] == gsp[g]);
            // Distinct keys: the last item's key is the updated group's
            // key, not this one's.
            if g < r {
                assert(!key_matches(gsp[g].0, gsp[r].0.0, gsp[r].0.1));
            } else {
                assert(!key_matches(gsp[r].0, gsp[g].0.0, gsp[g].0.1));
            }
            assert(!item_has_key(it, gs[g].0.0@.val(), gs[g].0.1));
        }
    }
}

#[verifier::rlimit(30)]
proof fn lemma_cu_repr(items: Seq<DetailsItem>)
    requires
        cu_pre(items),
    ensures
        ({
            let gs = tax_groups_of(items);
            forall|g: int|
                0 <= g < gs.len() ==> exists|i: int|
                    0 <= i < items.len() && (#[trigger] items[i]).tax_item.tax_percent == (
                    #[trigger] gs[g]).0.0 && items[i].tax_item.tax_category == gs[g].0.1
        }),
{
    let s = items.drop_last();
    let gsp = tax_groups_of(s);
    let gs = tax_groups_of(items);
    lemma_cu_shape(items);
    assert(forall|i: int| 0 <= i < s.len() ==> s[i] == items[i]);
    assert(forall|g: int| 0 <= g < gs.len() ==> (#[trigger] gs[g]).0 == gsp[g].0);
    assert forall|g: int| 0 <= g < gs.len() implies exists|i: int|
        0 <= i < items.len() && (#[trigger] items[i]).tax_item.tax_percent == (
        #[trigger] gs[g]).0.0 && items[i].tax_item.tax_category == gs[g].0.1 by {
        let i = choose|i: int|
            0 <= i < s.len() && (#[trigger] s[i]).tax_item.tax_percent == gsp[g].0.0
                && s[i].tax_item.tax_category == gsp[g].0.1;
        assert(items[i].tax_item.tax_percent == gs[g].0.0);
    }
}

#[verifier::rlimit(30)]
proof fn lemma_cu_coverage(items: Seq<DetailsItem>)
    requires
        cu_pre(items),
    ensures
        ({
            let gs = tax_groups_of(items);
            forall|i: int| 0 <= i < items.len() ==> has_group_key(gs, #[trigger] items[i])
        }),
{
    let s = items.drop_last();
    let it = items.last();
    let pct = it.tax_item.tax_percent;
    let cat = it.tax_item.tax_category;
    let gsp = tax_groups_of(s);
    let gs = tax_groups_of(items);
    let r = find_group(gsp, pct, cat);
    lemma_cu_shape(items);
    assert(forall|i: int| 0 <= i < s.len() ==> s[i] == items[i]);
    assert(forall|g: int| 0 <= g < gs.len() ==> (#[trigger] gs[g]).0 == gsp[g].0);
    assert forall|i: int| 0 <= i < items.len() implies has_group_key(
        gs,
        #[trigger] items[i],
    ) by {
        if i < items.len() - 1 {
            assert(has_group_key(gsp, items[i]));
            let g = choose|g: int|
                0 <= g < gsp.len() && key_matches(
                    (#[trigger] gsp[g]).0,
                    items[i].tax_item.tax_percent,
                    items[i].tax_item.tax_category,
                );
            assert(key_matches(
                gs[g].0,
                items[i].tax_item.tax_percent,
                items[i].tax_item.tax_category,
            ));
        } else {
            assert(key_matches(gs[r].0, pct, cat));
        }
    }
}

#[verifier::rlimit(30)]
proof fn lemma_cu_distinct(items: Seq<DetailsItem>)
    requires
        cu_pre(items),
    ensures
        ({
            let gs = tax_groups_of(items);
            &&& forall|g1: int, g2: int|
                0 <= g1 < g2 < gs.len() ==> !key_matches(
                    (#[trigger] gs[g1]).0,
                    (#[trigger] gs[g2]).0.0,
                    gs[g2].0.1,
                )
            &&& groups_wf(gs)
        }),
{
    let s = items.drop_last();
    let gsp = tax_groups_of(s);
    let gs = tax_groups_of(items);
    lemma_cu_shape(items);
    assert(forall|g: int| 0 <= g < gs.len() ==> (#[trigger] gs[g]).0 == gsp[g].0);
}

#[verifier::rlimit(60)]
proof fn lemma_characterize_push(items: Seq<DetailsItem>)
    requires
        items.len() > 0,
        tax_groups_ok(items),
        forall|i: int| 0 <= i < items.len() ==> item_amount_v(#[trigger] items[i]).wf(),
        groups_faithful(items.drop_last(), tax_groups_of(items.drop_last())),
        find_group(
            tax_groups_of(items.drop_last()),
            items.last().tax_item.tax_percent,
            items.last().tax_item.tax_category,
        ) == -1,
    ensures
        groups_faithful(items, tax_groups_of(items)),
{
    let s = items.drop_last();
    let it = items.last();
    let pct = it.tax_item.tax_percent;
    let cat = it.tax_item.tax_category;
    let amt = dec_of(item_amount_v(it));
    let gsp = tax_groups_of(s);
    let gs = tax_groups_of(items);
    lemma_find_group_props(gsp, pct, cat);
    lemma_dec_of_view(item_amount_v(it));
    assert(forall|i: int| 0 <= i < s.len() ==> s[i] == items[i]);
    assert(item_has_key(it, pct@.val(), cat));
    assert(gs =~= gsp.push(((pct, cat), amt)));
    // No earlier item carries the new key, so its sum so far is zero.
    assert forall|i: int| 0 <= i < s.len() implies !item_has_key(
        #[trigger] s[i],
        pct@.val(),
        cat,
    ) by {
        if item_has_key(s[i], pct@.val(), cat) {
            assert(has_group_key(gsp, s[i]));
            let g = choose|g: int|
                0 <= g < gsp.len() && key_matches(
                    (#[trigger] gsp[g]).0,
                    s[i].tax_item.tax_percent,
                    s[i].tax_item.tax_category,
                );
            assert(key_matches(gsp[g].0, pct, cat));
        }
    }
    lemma_key_sum_zero(s, pct@.val(), cat);
    // Sums of the untouched groups are unchanged by the new item.
    assert forall|g: int| 0 <= g < gs.len() implies (#[trigger] gs[g]).1@.val() == key_sum(
        items,
        gs[g].0.0@.val(),
        gs[g].0.1,
    ) by {
        if g < gsp.len() {
            assert(gs[g] == gsp[g]);
            assert(!key_matches(gsp[g].0, pct, cat));
            assert(!item_has_key(it, gs[g].0.0@.val(), gs[g].0.1));
        } else {
            assert(gs[g] == ((pct, cat), amt));
            assert(key_sum(items, pct@.val(), cat) == key_sum(s, pct@.val(), cat)
                + item_amount_v(it).val());
        }
    }
    assert forall|i: int| 0 <= i < items.len() implies has_group_key(
        gs,
        #[trigger] items[i],
    ) by {
        if i < items.len() - 1 {
            assert(has_group_key(gsp, items[i]));
            let g = choose|g: int|
                0 <= g < gsp.len() && key_matches(
                    (#[trigger] gsp[g]).0,
                    items[i].tax_item.tax_percent,
                    items[i].tax_item.tax_category,
                );
            assert(key_matches(
                gs[g].0,
                items[i].tax_item.tax_percent,
                items[i].tax_item.tax_category,
            ));
        } else {
            assert(key_matches(gs[gs.len() - 1].0, pct, cat));
        }
    }
}

/// The grouped summary is faithful to the items: see [`groups_faithful`].
#[verifier::rlimit(60)]
pub proof fn lemma_tax_groups_characterize(items: Seq<DetailsItem>)
    requires
        tax_groups_ok(items),
        forall|i: int| 0 <= i < items.len() ==> item_amount_v(#[trigger] items[i]).wf(),
    ensures
        groups_faithful(items, tax_groups_of(items)),
    decreases items.len(),
{
    if items.len() == 0 {
    } else {
        let s = items.drop_last();
        assert(forall|i: int| 0 <= i < s.len() ==> s[i] == items[i]);
        lemma_tax_groups_characterize(s);
        if find_group(
            tax_groups_of(s),
            items.last().tax_item.tax_percent,
            items.last().tax_item.tax_category,
        ) == -1 {
            lemma_characterize_push(items);
        } else {
            lemma_cu_sums(items);
            lemma_cu_repr(items);
            lemma_cu_coverage(items);
            lemma_cu_distinct(items);
        }
    }
}


proof fn lemma_rank_injective(c1: TaxCategory, c2: TaxCategory)
    requires
        cat_rank(c1) == cat_rank(c2),
    ensures
        c1 == c2,
{
}

proof fn lemma_two_positions_count(s: Seq<TaxGroup>, i: int, j: int)
    requires
        0 <= i < j < s.len(),
        s[i] == s[j],
    ensures
        s.to_multiset().count(s[i]) >= 2,
{
    broadcast use vstd::multiset::group_multiset_axioms;

    s.to_multiset_ensures();
    s.remove(i).to_multiset_ensures();
    assert(s.remove(i).to_multiset() == s.to_multiset().remove(s[i]));
    assert(s.remove(i)[j - 1] == s[j]);
    assert(s.remove(i).contains(s[j]));
    assert(s.remove(i).to_multiset().count(s[j]) > 0);
}

proof fn lemma_count_two_positions(s: Seq<TaxGroup>, x: TaxGroup)
    requires
        s.to_multiset().count(x) >= 2,
    ensures
        exists|a: int, b: int| 0 <= a < b < s.len() && #[trigger] s[a] == x && #[trigger] s[b] == x,
{
    broadcast use vstd::multiset::group_multiset_axioms;

    s.to_multiset_ensures();
    assert(s.contains(x));
    let a = choose|a: int| 0 <= a < s.len() && s[a] == x;
    s.remove(a).to_multiset_ensures();
    assert(s.remove(a).to_multiset() == s.to_multiset().remove(x));
    assert(s.remove(a).to_multiset().count(x) >= 1);
    assert(s.remove(a).contains(x));
    let b0 = choose|b0: int| 0 <= b0 < s.remove(a).len() && s.remove(a)[b0] == x;
    let b = if b0 < a {
        b0
    } else {
        b0 + 1
    };
    assert(s[b] == x);
    assert(b != a);
    if a < b {
        assert(s[a] == x && s[b] == x);
    } else {
        assert(s[b] == x && s[a] == x);
    }
}

#[verifier::rlimit(30)]
proof fn lemma_repeated_key_positions(gs: Seq<TaxGroup>, ss: Seq<TaxGroup>, i: int, j: int)
    requires
        ss.to_multiset() == gs.to_multiset(),
        0 <= i < j < ss.len(),
        ss[i].0.0@.val() == ss[j].0.0@.val(),
        ss[i].0.1 == ss[j].0.1,
    ensures
        exists|a: int, b: int|
            0 <= a < b < gs.len() && key_matches(
                (#[trigger] gs[a]).0,
                (#[trigger] gs[b]).0.0,
                gs[b].0.1,
            ),
{
    broadcast use vstd::multiset::group_multiset_axioms;

    ss.to_multiset_ensures();
    gs.to_multiset_ensures();
    if ss[i] == ss[j] {
        lemma_two_positions_count(ss, i, j);
        lemma_count_two_positions(gs, ss[i]);
        let (a, b) = choose|a: int, b: int|
            0 <= a < b < gs.len() && #[trigger] gs[a] == ss[i] && #[trigger] gs[b] == ss[i];
        assert(key_matches(gs[a].0, gs[b].0.0, gs[b].0.1));
    } else {
        assert(ss.contains(ss[i]) && ss.contains(ss[j]));
        assert(gs.to_multiset().count(ss[i]) > 0 && gs.to_multiset().count(ss[j]) > 0);
        assert(gs.contains(ss[i]) && gs.contains(ss[j]));
        let a = choose|a: int| 0 <= a < gs.len() && gs[a] == ss[i];
        let b = choose|b: int| 0 <= b < gs.len() && gs[b] == ss[j];
        assert(a != b);
        if a < b {
            assert(key_matches(gs[a].0, gs[b].0.0, gs[b].0.1));
        } else {
            assert(key_matches(gs[b].0, gs[a].0.0, gs[a].0.1));
        }
    }
}

/// The tax summary's order is strict: every later group has a strictly
/// larger rate value, or the same rate value and a strictly later category
/// in the declared order — so no (rate value, category) key appears twice,
/// and the output order is fully determined.
#[verifier::rlimit(30)]
pub proof fn lemma_tax_items_strictly_sorted(items: Seq<DetailsItem>)
    requires
        tax_groups_ok(items),
        forall|i: int| 0 <= i < items.len() ==> item_amount_v(#[trigger] items[i]).wf(),
    ensures
        forall|i: int, j: int|
            0 <= i < j < tax_items_of(items).len() ==> group_lt(
                #[trigger] tax_items_of(items)[i],
                #[trigger] tax_items_of(items)[j],
            ),
{
    lemma_tax_groups_characterize(items);
    lemma_tax_items_sorted(items);
    let gs = tax_groups_of(items);
    let ss = tax_items_of(items);
    assert forall|i: int, j: int| 0 <= i < j < ss.len() implies group_lt(
        #[trigger] ss[i],
        #[trigger] ss[j],
    ) by {
        assert(group_le(ss[i], ss[j]));
        if !group_lt(ss[i], ss[j]) {
            assert(ss[i].0.0@.val() == ss[j].0.0@.val());
            assert(cat_rank(ss[i].0.1) == cat_rank(ss[j].0.1));
            lemma_rank_injective(ss[i].0.1, ss[j].0.1);
            lemma_repeated_key_positions(gs, ss, i, j);
        }
    }
}

/// Serialization is deterministic: the document text is a function of the
/// invoice value alone, so serializing the same constructed invoice twice
/// yields byte-identical strings.
pub proof fn lemma_serialization_deterministic(inv: Invoice, r1: Seq<char>, r2: Seq<char>)
    requires
        r1 == invoice_xml_v(inv),
        r2 == invoice_xml_v(inv),
    ensures
        r1 == r2,
{
}

/// The exec comparison realizing [`group_lt`].
fn entry_lt(a: &TaxGroup, b: &TaxGroup) -> (r: bool)
    requires
        a.0.0@.wf(),
        b.0.0@.wf(),
    ensures
        r == group_lt(*a, *b),
{
    if dec_lt(&a.0.0, &b.0.0) {
        true
    } else if dec_eq_val(&a.0.0, &b.0.0) {
        a.0.1.rank() < b.0.1.rank()
    } else {
        false
    }
}

proof fn lemma_tax_groups_ok_prefix(items: Seq<DetailsItem>, i: int)
    requires
        tax_groups_ok(items),
        0 <= i <= items.len(),
    ensures
        tax_groups_ok(items.take(i)),
    decreases items.len() - i,
{
    if i == items.len() {
        assert(items.take(i) =~= items);
    } else {
        lemma_tax_groups_ok_prefix(items, i + 1);
        assert(items.take(i + 1).drop_last() =~= items.take(i));
    }
}

} // verus!
