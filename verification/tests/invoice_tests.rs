use ebinterface::address::Address;
use ebinterface::biller::Biller;
use ebinterface::contact::Contact;
use ebinterface::decimal::Decimal;
use ebinterface::details::DetailsItem;
use ebinterface::identification::{FurtherIdentification, FurtherIdentificationType};
use ebinterface::invoice::Invoice;
use ebinterface::invoice_recipient::InvoiceRecipient;
use ebinterface::order_reference::OrderReference;
use ebinterface::payment_method::{PaymentMethod, PaymentMethodPaymentCard};
use ebinterface::reduction_and_surcharge::{ReductionAndSurchargeValue, ReductionListLineItem};
use ebinterface::tax::{TaxCategory, TaxItem};

#[test]
fn readme_example() {
    let invoice = Invoice::new(
        "test",
        "EUR",
        "993433000298",
        "2020-01-01",
        Biller::new("ATU51507409"),
        InvoiceRecipient::new("ATU18708634"),
    )
    .with_item(
        DetailsItem::new(
            Decimal::from(100),
            "STK",
            Decimal::new(1020, 2),
            TaxItem::new(Decimal::from(20), TaxCategory::S),
        )
        .with_description("Schraubenzieher"),
    )
    .with_document_title("An invoice")
    .with_language("de")
    .with_payment_method(
        PaymentMethod::payment_card(
            PaymentMethodPaymentCard::new("123456*4321").with_card_holder_name("Name"),
        )
        .with_comment("Comment"),
    )
    .to_xml()
    .unwrap();

    assert_eq!(
        invoice,
        "<?xml version=\"1.0\" encoding=\"UTF-8\"?><Invoice xmlns=\"http://www.ebinterface.at/schema/6p1/\" GeneratingSystem=\"test\" DocumentType=\"Invoice\" InvoiceCurrency=\"EUR\" DocumentTitle=\"An invoice\" Language=\"de\"><InvoiceNumber>993433000298</InvoiceNumber><InvoiceDate>2020-01-01</InvoiceDate><Biller><VATIdentificationNumber>ATU51507409</VATIdentificationNumber></Biller><InvoiceRecipient><VATIdentificationNumber>ATU18708634</VATIdentificationNumber></InvoiceRecipient><Details><ItemList><ListLineItem><Description>Schraubenzieher</Description><Quantity Unit=\"STK\">100.0000</Quantity><UnitPrice>10.2000</UnitPrice><TaxItem><TaxableAmount>1020.00</TaxableAmount><TaxPercent TaxCategoryCode=\"S\">20</TaxPercent><TaxAmount>204.00</TaxAmount></TaxItem><LineItemAmount>1020.00</LineItemAmount></ListLineItem></ItemList></Details><Tax><TaxItem><TaxableAmount>1020.00</TaxableAmount><TaxPercent TaxCategoryCode=\"S\">20</TaxPercent><TaxAmount>204.00</TaxAmount></TaxItem></Tax><TotalGrossAmount>1224.00</TotalGrossAmount><PayableAmount>1224.00</PayableAmount><PaymentMethod><Comment>Comment</Comment><PaymentCard><PrimaryAccountNumber>123456*4321</PrimaryAccountNumber><CardHolderName>Name</CardHolderName></PaymentCard></PaymentMethod></Invoice>",
    )
}

#[test]
fn correctly_calculates_tax() {
    let invoice = Invoice::new(
        "test",
        "EUR",
        "0000",
        "2024-06-02",
        Biller::new("ATU00000000"),
        InvoiceRecipient::new("ATU000000000"),
    )
    .with_items(vec![
        DetailsItem::new(
            Decimal::new(519, 2),
            "h",
            Decimal::new(10623, 2),
            TaxItem::new(Decimal::from(20), TaxCategory::S),
        ),
        DetailsItem::new(
            Decimal::new(32, 1),
            "h",
            Decimal::new(10623, 2),
            TaxItem::new(Decimal::from(20), TaxCategory::S),
        ),
        DetailsItem::new(
            Decimal::from(3),
            "h",
            Decimal::new(10623, 2),
            TaxItem::new(Decimal::from(20), TaxCategory::S),
        ),
        DetailsItem::new(
            Decimal::new(84, 2),
            "h",
            Decimal::new(10623, 2),
            TaxItem::new(Decimal::from(20), TaxCategory::S),
        ),
        DetailsItem::new(
            Decimal::new(1462, 2),
            "h",
            Decimal::new(10623, 2),
            TaxItem::new(Decimal::from(20), TaxCategory::S),
        ),
    ]);

    let tax_items = invoice.invoice_tax_items();

    assert_eq!(
        tax_items.first().map_or(Decimal::from(0), |i| i.1),
        Decimal::new(285227, 2)
    )
}

#[test]
fn it_works() {
    let result = Invoice::new(
        "test",
        "EUR",
        "993433000298",
        "2020-01-01",
        Biller::new("ATU51507409")
            .with_further_identification(FurtherIdentification::new(
                "0012345",
                FurtherIdentificationType::DVR,
            ))
            .with_address(
                Address::new("Schrauben Mustermann", "Wien", "1020", "Österreich")
                    .with_street("Lassallenstraße 5")
                    .with_country_code("AT")
                    .with_phone("+43 / 1 / 78 56 789")
                    .with_email("schrauben@mustermann.at"),
            ),
        InvoiceRecipient::new("ATU18708634")
            .with_order_reference(OrderReference::new("test"))
            .with_address(
                Address::new("Mustermann GmbH", "Graz", "8010", "Österreich")
                    .with_street("Hauptstraße 10")
                    .with_country_code("AT"),
            )
            .with_contact(Contact::new("Max Mustermann").with_email("schrauben@mustermann.at")),
    )
    .with_item(
        DetailsItem::new(
            Decimal::from(100),
            "STK",
            Decimal::new(1020, 2),
            TaxItem::new(Decimal::from(20), TaxCategory::S),
        )
        .with_position_number(1)
        .with_description("Schraubenzieher")
        .with_base_quantity(Decimal::from(1)),
    )
    .with_item(
        DetailsItem::new(
            Decimal::from(1),
            "STK",
            Decimal::new(500, 2),
            TaxItem::new(Decimal::from(10), TaxCategory::AA),
        )
        .with_position_number(2)
        .with_description("Handbuch zur Schraube")
        .with_base_quantity(Decimal::from(1))
        .with_reduction(
            ReductionListLineItem::new(
                Decimal::from(5),
                ReductionAndSurchargeValue::Amount(Decimal::from(2)),
            )
            .with_comment("reduction"),
        ),
    )
    .with_document_title("An invoice")
    .with_language("de")
    .with_payment_method(
        PaymentMethod::payment_card(
            PaymentMethodPaymentCard::new("123456*4321").with_card_holder_name("Name"),
        )
        .with_comment("Comment"),
    )
    .to_xml()
    .unwrap();

    assert_eq!(
        result,
        "<?xml version=\"1.0\" encoding=\"UTF-8\"?><Invoice xmlns=\"http://www.ebinterface.at/schema/6p1/\" GeneratingSystem=\"test\" DocumentType=\"Invoice\" InvoiceCurrency=\"EUR\" DocumentTitle=\"An invoice\" Language=\"de\"><InvoiceNumber>993433000298</InvoiceNumber><InvoiceDate>2020-01-01</InvoiceDate><Biller><VATIdentificationNumber>ATU51507409</VATIdentificationNumber><FurtherIdentification IdentificationType=\"DVR\">0012345</FurtherIdentification><Address><Name>Schrauben Mustermann</Name><Street>Lassallenstraße 5</Street><Town>Wien</Town><ZIP>1020</ZIP><Country CountryCode=\"AT\">Österreich</Country><Phone>+43 / 1 / 78 56 789</Phone><Email>schrauben@mustermann.at</Email></Address></Biller><InvoiceRecipient><VATIdentificationNumber>ATU18708634</VATIdentificationNumber><OrderReference><OrderID>test</OrderID></OrderReference><Address><Name>Mustermann GmbH</Name><Street>Hauptstraße 10</Street><Town>Graz</Town><ZIP>8010</ZIP><Country CountryCode=\"AT\">Österreich</Country></Address><Contact><Name>Max Mustermann</Name><Email>schrauben@mustermann.at</Email></Contact></InvoiceRecipient><Details><ItemList><ListLineItem><PositionNumber>1</PositionNumber><Description>Schraubenzieher</Description><Quantity Unit=\"STK\">100.0000</Quantity><UnitPrice BaseQuantity=\"1\">10.2000</UnitPrice><TaxItem><TaxableAmount>1020.00</TaxableAmount><TaxPercent TaxCategoryCode=\"S\">20</TaxPercent><TaxAmount>204.00</TaxAmount></TaxItem><LineItemAmount>1020.00</LineItemAmount></ListLineItem><ListLineItem><PositionNumber>2</PositionNumber><Description>Handbuch zur Schraube</Description><Quantity Unit=\"STK\">1.0000</Quantity><UnitPrice BaseQuantity=\"1\">5.0000</UnitPrice><ReductionAndSurchargeListLineItemDetails><ReductionListLineItem><BaseAmount>5.00</BaseAmount><Amount>2.00</Amount><Comment>reduction</Comment></ReductionListLineItem></ReductionAndSurchargeListLineItemDetails><TaxItem><TaxableAmount>3.00</TaxableAmount><TaxPercent TaxCategoryCode=\"AA\">10</TaxPercent><TaxAmount>0.30</TaxAmount></TaxItem><LineItemAmount>3.00</LineItemAmount></ListLineItem></ItemList></Details><Tax><TaxItem><TaxableAmount>3.00</TaxableAmount><TaxPercent TaxCategoryCode=\"AA\">10</TaxPercent><TaxAmount>0.30</TaxAmount></TaxItem><TaxItem><TaxableAmount>1020.00</TaxableAmount><TaxPercent TaxCategoryCode=\"S\">20</TaxPercent><TaxAmount>204.00</TaxAmount></TaxItem></Tax><TotalGrossAmount>1227.30</TotalGrossAmount><PayableAmount>1227.30</PayableAmount><PaymentMethod><Comment>Comment</Comment><PaymentCard><PrimaryAccountNumber>123456*4321</PrimaryAccountNumber><CardHolderName>Name</CardHolderName></PaymentCard></PaymentMethod></Invoice>"
    );
}

#[test]
fn scenario_single_item_totals() {
    let xml = Invoice::new(
        "sys",
        "EUR",
        "1",
        "2024-01-01",
        Biller::new("ATU00000000"),
        InvoiceRecipient::new("ATU11111111"),
    )
    .with_item(DetailsItem::new(
        Decimal::from(100),
        "STK",
        Decimal::new(1020, 2),
        TaxItem::new(Decimal::from(20), TaxCategory::S),
    ))
    .to_xml()
    .unwrap();
    assert!(xml.contains("<LineItemAmount>1020.00</LineItemAmount>"));
    assert!(xml.contains("<TaxableAmount>1020.00</TaxableAmount>"));
    assert!(xml.contains("<TaxAmount>204.00</TaxAmount>"));
    assert!(xml.contains("<TotalGrossAmount>1224.00</TotalGrossAmount>"));
    assert!(xml.contains("<PayableAmount>1224.00</PayableAmount>"));
}

#[test]
fn serializing_twice_is_byte_identical() {
    let invoice = Invoice::new(
        "sys",
        "EUR",
        "42",
        "2024-05-05",
        Biller::new("ATU00000000"),
        InvoiceRecipient::new("ATU11111111"),
    )
    .with_item(DetailsItem::new(
        Decimal::new(32, 1),
        "h",
        Decimal::new(10623, 2),
        TaxItem::new(Decimal::from(20), TaxCategory::S),
    ));
    let first = invoice.to_xml().unwrap();
    let second = invoice.to_xml().unwrap();
    assert_eq!(first, second);
}

#[test]
fn tax_grouping_is_input_order_independent() {
    let make_items = || {
        vec![
            DetailsItem::new(
                Decimal::from(1),
                "STK",
                Decimal::from(10),
                TaxItem::new(Decimal::from(20), TaxCategory::S),
            ),
            DetailsItem::new(
                Decimal::from(2),
                "STK",
                Decimal::from(30),
                TaxItem::new(Decimal::from(10), TaxCategory::AA),
            ),
            DetailsItem::new(
                Decimal::from(3),
                "STK",
                Decimal::from(7),
                TaxItem::new(Decimal::from(20), TaxCategory::S),
            ),
        ]
    };
    let mut reversed = make_items();
    reversed.reverse();

    let base = Invoice::new(
        "sys",
        "EUR",
        "1",
        "2024-01-01",
        Biller::new("ATU00000000"),
        InvoiceRecipient::new("ATU11111111"),
    );
    let forward = base.with_items(make_items()).invoice_tax_items();
    let base = Invoice::new(
        "sys",
        "EUR",
        "1",
        "2024-01-01",
        Biller::new("ATU00000000"),
        InvoiceRecipient::new("ATU11111111"),
    );
    let backward = base.with_items(reversed).invoice_tax_items();
    assert_eq!(forward, backward);

    // The output order itself is fixed: ascending by rate, then category.
    assert_eq!(forward[0].0 .0, Decimal::from(10));
    assert_eq!(forward[0].0 .1, TaxCategory::AA);
    assert_eq!(forward[1].0 .0, Decimal::from(20));
    assert_eq!(forward[1].0 .1, TaxCategory::S);
}

#[test]
fn tax_groups_break_rate_ties_by_category_order() {
    let invoice = Invoice::new(
        "sys",
        "EUR",
        "1",
        "2024-01-01",
        Biller::new("ATU00000000"),
        InvoiceRecipient::new("ATU11111111"),
    )
    .with_items(vec![
        DetailsItem::new(
            Decimal::from(1),
            "STK",
            Decimal::from(10),
            TaxItem::new(Decimal::from(20), TaxCategory::AA),
        ),
        DetailsItem::new(
            Decimal::from(1),
            "STK",
            Decimal::from(10),
            TaxItem::new(Decimal::from(20), TaxCategory::S),
        ),
    ]);
    let groups = invoice.invoice_tax_items();
    assert_eq!(groups.len(), 2);
    assert_eq!(groups[0].0 .1, TaxCategory::S);
    assert_eq!(groups[1].0 .1, TaxCategory::AA);
}

#[test]
fn empty_invoice_renders_zero_totals() {
    let xml = Invoice::new(
        "sys",
        "EUR",
        "1",
        "2024-01-01",
        Biller::new("ATU00000000"),
        InvoiceRecipient::new("ATU11111111"),
    )
    .to_xml()
    .unwrap();
    assert!(xml.contains("<Tax></Tax>"));
    assert!(xml.contains("<TotalGrossAmount>0.00</TotalGrossAmount>"));
    assert!(xml.contains("<PayableAmount>0.00</PayableAmount>"));
}

#[test]
fn invalid_payment_method_aborts_serialization() {
    let r = Invoice::new(
        "sys",
        "EUR",
        "1",
        "2024-01-01",
        Biller::new("ATU00000000"),
        InvoiceRecipient::new("ATU11111111"),
    )
    .with_payment_method(PaymentMethod::payment_card(PaymentMethodPaymentCard::new("no-mask")))
    .to_xml();
    assert_eq!(
        r.unwrap_err(),
        "Invalid primary account number \"no-mask\". Only provide at most the first 6 and last 4 digits, separated with a \"*\"."
    );
}
