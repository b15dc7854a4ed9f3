use ebinterface::decimal::Decimal;
use ebinterface::details::DetailsItem;
use ebinterface::reduction_and_surcharge::{
    ReductionAndSurchargeListLineItemDetails, ReductionAndSurchargeValue, ReductionListLineItem,
    SurchargeListLineItem,
};
use ebinterface::tax::{TaxCategory, TaxItem};

#[test]
fn rounds_line_item_amount_result_after_calculation() {
    let quantity = Decimal::new(5, 3);
    let unit_price = Decimal::new(5, 3);

    let result = DetailsItem::new(
        quantity,
        "KGM",
        unit_price,
        TaxItem::new(Decimal::from(20), TaxCategory::S),
    )
    .with_description("Sand")
    .to_xml();

    assert_eq!(
        result,
        "<ListLineItem><Description>Sand</Description><Quantity Unit=\"KGM\">0.0050</Quantity><UnitPrice>0.0050</UnitPrice><TaxItem><TaxableAmount>0.00</TaxableAmount><TaxPercent TaxCategoryCode=\"S\">20</TaxPercent><TaxAmount>0.00</TaxAmount></TaxItem><LineItemAmount>0.00</LineItemAmount></ListLineItem>"
    );
}

#[test]
fn rounds_correctly_up() {
    let quantity = Decimal::new(100123456, 6);
    let unit_price = Decimal::new(1020005, 5);

    let result = DetailsItem::new(
        quantity,
        "KGM",
        unit_price,
        TaxItem::new(Decimal::from(20), TaxCategory::S),
    )
    .with_description("Sand")
    .to_xml();

    assert_eq!(
        result,
        "<ListLineItem><Description>Sand</Description><Quantity Unit=\"KGM\">100.1235</Quantity><UnitPrice>10.2001</UnitPrice><TaxItem><TaxableAmount>1021.26</TaxableAmount><TaxPercent TaxCategoryCode=\"S\">20</TaxPercent><TaxAmount>204.25</TaxAmount></TaxItem><LineItemAmount>1021.26</LineItemAmount></ListLineItem>"
    );
}

#[test]
fn calculates_reduction_correctly() {
    let result = DetailsItem::new(
        Decimal::from(1),
        "STK",
        Decimal::new(500, 2),
        TaxItem::new(Decimal::from(10), TaxCategory::AA),
    )
    .with_description("Handbuch zur Schraube")
    .with_reduction(ReductionListLineItem::new(
        Decimal::from(5),
        ReductionAndSurchargeValue::Amount(Decimal::new(23399, 4)),
    ))
    .to_xml();

    assert_eq!(
        result,
        "<ListLineItem><Description>Handbuch zur Schraube</Description><Quantity Unit=\"STK\">1.0000</Quantity><UnitPrice>5.0000</UnitPrice><ReductionAndSurchargeListLineItemDetails><ReductionListLineItem><BaseAmount>5.00</BaseAmount><Amount>2.34</Amount></ReductionListLineItem></ReductionAndSurchargeListLineItemDetails><TaxItem><TaxableAmount>2.66</TaxableAmount><TaxPercent TaxCategoryCode=\"AA\">10</TaxPercent><TaxAmount>0.27</TaxAmount></TaxItem><LineItemAmount>2.66</LineItemAmount></ListLineItem>"
    );
}

#[test]
fn calculates_surcharge_correctly() {
    let result = DetailsItem::new(
        Decimal::from(1),
        "STK",
        Decimal::new(500, 2),
        TaxItem::new(Decimal::from(10), TaxCategory::AA),
    )
    .with_description("Handbuch zur Schraube")
    .with_surcharge(SurchargeListLineItem::new(
        Decimal::from(5),
        ReductionAndSurchargeValue::Amount(Decimal::from(2)),
    ))
    .to_xml();

    assert_eq!(
        result,
        "<ListLineItem><Description>Handbuch zur Schraube</Description><Quantity Unit=\"STK\">1.0000</Quantity><UnitPrice>5.0000</UnitPrice><ReductionAndSurchargeListLineItemDetails><SurchargeListLineItem><BaseAmount>5.00</BaseAmount><Amount>2.00</Amount></SurchargeListLineItem></ReductionAndSurchargeListLineItemDetails><TaxItem><TaxableAmount>7.00</TaxableAmount><TaxPercent TaxCategoryCode=\"AA\">10</TaxPercent><TaxAmount>0.70</TaxAmount></TaxItem><LineItemAmount>7.00</LineItemAmount></ListLineItem>"
    );
}

#[test]
fn rounds_correctly_down() {
    let quantity = Decimal::new(10012344, 5);
    let unit_price = Decimal::new(1020001, 5);

    let result = DetailsItem::new(
        quantity,
        "KGM",
        unit_price,
        TaxItem::new(Decimal::from(20), TaxCategory::S),
    )
    .with_description("Sand")
    .to_xml();

    assert_eq!(
        result.as_str(),
        "<ListLineItem><Description>Sand</Description><Quantity Unit=\"KGM\">100.1234</Quantity><UnitPrice>10.2000</UnitPrice><TaxItem><TaxableAmount>1021.26</TaxableAmount><TaxPercent TaxCategoryCode=\"S\">20</TaxPercent><TaxAmount>204.25</TaxAmount></TaxItem><LineItemAmount>1021.26</LineItemAmount></ListLineItem>"
    );
}

#[test]
fn generates_reduction_and_surcharge_list_line_item() {
    let result = ReductionAndSurchargeListLineItemDetails::new()
        .with_reduction(
            ReductionListLineItem::new(
                Decimal::from(100),
                ReductionAndSurchargeValue::Percentage(Decimal::from(2)),
            )
            .with_comment("reduction"),
        )
        .with_surcharge(
            SurchargeListLineItem::new(
                Decimal::from(200),
                ReductionAndSurchargeValue::Amount(Decimal::from(3)),
            )
            .with_comment("surcharge"),
        )
        .to_xml();

    assert_eq!(
        result,
        "<ReductionAndSurchargeListLineItemDetails><ReductionListLineItem><BaseAmount>100.00</BaseAmount><Percentage>2.00</Percentage><Comment>reduction</Comment></ReductionListLineItem><SurchargeListLineItem><BaseAmount>200.00</BaseAmount><Amount>3.00</Amount><Comment>surcharge</Comment></SurchargeListLineItem></ReductionAndSurchargeListLineItemDetails>"
    );

    let result = ReductionAndSurchargeListLineItemDetails::new()
        .with_reduction(
            ReductionListLineItem::new(
                Decimal::from(100),
                ReductionAndSurchargeValue::Amount(Decimal::from(2)),
            )
            .with_comment("reduction"),
        )
        .with_surcharge(
            SurchargeListLineItem::new(
                Decimal::from(200),
                ReductionAndSurchargeValue::Percentage(Decimal::from(3)),
            )
            .with_comment("surcharge"),
        )
        .to_xml();

    assert_eq!(
        result,
        "<ReductionAndSurchargeListLineItemDetails><ReductionListLineItem><BaseAmount>100.00</BaseAmount><Amount>2.00</Amount><Comment>reduction</Comment></ReductionListLineItem><SurchargeListLineItem><BaseAmount>200.00</BaseAmount><Percentage>3.00</Percentage><Comment>surcharge</Comment></SurchargeListLineItem></ReductionAndSurchargeListLineItemDetails>"
    );

    let result = ReductionAndSurchargeListLineItemDetails::new()
        .with_reduction(
            ReductionListLineItem::new(
                Decimal::from(100),
                ReductionAndSurchargeValue::PercentageAndAmount(
                    Decimal::from(2),
                    Decimal::new(34599, 4),
                ),
            )
            .with_comment("reduction"),
        )
        .to_xml();

    assert_eq!(
        result,
        "<ReductionAndSurchargeListLineItemDetails><ReductionListLineItem><BaseAmount>100.00</BaseAmount><Percentage>2.00</Percentage><Amount>3.46</Amount><Comment>reduction</Comment></ReductionListLineItem></ReductionAndSurchargeListLineItemDetails>"
    );
}

#[test]
fn scenario_fixed_reduction_of_base_five() {
    let item = DetailsItem::new(
        Decimal::from(1),
        "STK",
        Decimal::new(500, 2),
        TaxItem::new(Decimal::from(10), TaxCategory::S),
    )
    .with_reduction(ReductionListLineItem::new(
        Decimal::from(5),
        ReductionAndSurchargeValue::Amount(Decimal::from(2)),
    ));
    let xml = item.to_xml();
    assert!(xml.contains("<LineItemAmount>3.00</LineItemAmount>"));
    assert!(xml.contains("<TaxableAmount>3.00</TaxableAmount>"));
    assert!(xml.contains("<TaxAmount>0.30</TaxAmount>"));
}

#[test]
fn scenario_small_quantities_round_independently() {
    let xml = DetailsItem::new(
        Decimal::new(5, 3),
        "KGM",
        Decimal::new(5, 3),
        TaxItem::new(Decimal::from(20), TaxCategory::S),
    )
    .to_xml();
    assert!(xml.contains("<Quantity Unit=\"KGM\">0.0050</Quantity>"));
    assert!(xml.contains("<UnitPrice>0.0050</UnitPrice>"));
    assert!(xml.contains("<TaxableAmount>0.00</TaxableAmount>"));
}
