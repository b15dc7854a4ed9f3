use ebinterface::payment_method::{
    PaymentMethod, PaymentMethodPaymentCard, PaymentMethodSEPADirectDebit,
    PaymentMethodUniversalBankTransaction,
    PaymentMethodUniversalBankTransactionBeneficiaryAccount,
    PaymentMethodUniversalBankTransactionBeneficiaryAccountBankCode,
};

#[test]
fn default() {
    assert_eq!(
        PaymentMethod { ..Default::default() }.as_xml().unwrap().to_xml(),
        "<PaymentMethod><NoPayment></NoPayment></PaymentMethod>"
    )
}

#[test]
fn no_payment() {
    assert_eq!(
        PaymentMethod::no_payment().as_xml().unwrap().to_xml(),
        "<PaymentMethod><NoPayment></NoPayment></PaymentMethod>"
    )
}

#[test]
fn sepa_direct_debit() {
    assert_eq!(
        PaymentMethod::sepa_direct_debit(PaymentMethodSEPADirectDebit {
            direct_debit_type: Some("B2B".to_string()),
            bic: Some("BKAUATWW".to_string()),
            iban: Some("AT491200011111111111".to_string()),
            bank_account_owner: Some("Test".to_string()),
            creditor_id: Some("AT12ZZZ00000000001".to_string()),
            mandate_reference: Some("123".to_string()),
            debit_collection_date: Some("2020-01-01".to_string()),
        })
        .as_xml()
        .unwrap()
        .to_xml(),
        "<PaymentMethod><SEPADirectDebit><Type>B2B</Type><BIC>BKAUATWW</BIC><IBAN>AT491200011111111111</IBAN><BankAccountOwner>Test</BankAccountOwner><CreditorID>AT12ZZZ00000000001</CreditorID><MandateReference>123</MandateReference><DebitCollectionDate>2020-01-01</DebitCollectionDate></SEPADirectDebit></PaymentMethod>"
    )
}

#[test]
fn universal_bank_transaction() {
    assert_eq!(
        PaymentMethod::universal_bank_transaction(PaymentMethodUniversalBankTransaction {
            consolidator_payable: Some(true),
            beneficiary_account: Some(vec![
                PaymentMethodUniversalBankTransactionBeneficiaryAccount {
                    bank_name: Some("Bank".to_string()),
                    bank_code: Some(
                        PaymentMethodUniversalBankTransactionBeneficiaryAccountBankCode {
                            bank_code: 12000,
                            bank_code_type: "AT".to_string(),
                        }
                    ),
                    bic: Some("BKAUATWW".to_string()),
                    bank_account_number: Some("11111111111".to_string()),
                    iban: Some("AT491200011111111111".to_string()),
                    bank_account_owner: Some("Name".to_string()),
                }
            ]),
            payment_reference: Some("123456789012".to_string()),
            payment_reference_checksum: Some("X".to_string()),
        })
        .as_xml()
        .unwrap()
        .to_xml(),
        "<PaymentMethod><UniversalBankTransaction ConsolidatorPayable=\"true\"><BeneficiaryAccount><BankName>Bank</BankName><BankCode BankCodeType=\"AT\">12000</BankCode><BIC>BKAUATWW</BIC><BankAccountNr>11111111111</BankAccountNr><IBAN>AT491200011111111111</IBAN><BankAccountOwner>Name</BankAccountOwner></BeneficiaryAccount><PaymentReference CheckSum=\"X\">123456789012</PaymentReference></UniversalBankTransaction></PaymentMethod>"
    )
}

#[test]
fn payment_card() {
    assert_eq!(
        PaymentMethod::payment_card(PaymentMethodPaymentCard {
            primary_account_number: "123456*4321".to_string(),
            card_holder_name: Some("Name".to_string()),
        })
        .as_xml()
        .unwrap()
        .to_xml(),
        "<PaymentMethod><PaymentCard><PrimaryAccountNumber>123456*4321</PrimaryAccountNumber><CardHolderName>Name</CardHolderName></PaymentCard></PaymentMethod>"
    )
}

#[test]
fn other_payment() {
    assert_eq!(
        PaymentMethod::other_payment().as_xml().unwrap().to_xml(),
        "<PaymentMethod><OtherPayment></OtherPayment></PaymentMethod>"
    )
}

#[test]
fn sepa_rejects_malformed_bic() {
    let err = PaymentMethod::sepa_direct_debit(
        PaymentMethodSEPADirectDebit::new().with_bic("NOT!"),
    )
    .as_xml()
    .unwrap_err();
    assert_eq!(
        err,
        "BIC NOT! doesn't match regex ^[0-9A-Za-z]{8}([0-9A-Za-z]{3})?$!"
    );
}

#[test]
fn sepa_rejects_long_iban() {
    let iban = "AT123456789012345678901234567890123";
    let err = PaymentMethod::sepa_direct_debit(PaymentMethodSEPADirectDebit::new().with_iban(iban))
        .as_xml()
        .unwrap_err();
    assert_eq!(err, format!("IBAN {} is too long!", iban));
}

#[test]
fn sepa_rejects_long_bank_account_owner() {
    let owner = "o".repeat(71);
    let err = PaymentMethod::sepa_direct_debit(
        PaymentMethodSEPADirectDebit::new().with_bank_account_owner(owner.as_str()),
    )
    .as_xml()
    .unwrap_err();
    assert_eq!(err, format!("BankAccountOwner {} is too long!", owner));
}

#[test]
fn sepa_rejects_long_creditor_id() {
    let creditor = "c".repeat(36);
    let err = PaymentMethod::sepa_direct_debit(
        PaymentMethodSEPADirectDebit::new().with_creditor_id(creditor.as_str()),
    )
    .as_xml()
    .unwrap_err();
    assert_eq!(err, format!("CreditorID {} is too long!", creditor));
}

#[test]
fn sepa_rejects_long_mandate_reference() {
    let mandate = "m".repeat(36);
    let err = PaymentMethod::sepa_direct_debit(
        PaymentMethodSEPADirectDebit::new().with_mandate_reference(mandate.as_str()),
    )
    .as_xml()
    .unwrap_err();
    assert_eq!(err, format!("MandateReference {} is too long!", mandate));
}

#[test]
fn sepa_rejects_malformed_collection_date() {
    let err = PaymentMethod::sepa_direct_debit(
        PaymentMethodSEPADirectDebit::new().with_debit_collection_date("01.02.2020"),
    )
    .as_xml()
    .unwrap_err();
    assert_eq!(
        err,
        "DebitCollectionDate 01.02.2020 doesn't match regex ^[0-9]{4}-[0-9]{2}-[0-9]{2}$!"
    );
}

#[test]
fn sepa_defaults_type_to_b2c() {
    assert_eq!(
        PaymentMethod::sepa_direct_debit(PaymentMethodSEPADirectDebit::new())
            .as_xml()
            .unwrap()
            .to_xml(),
        "<PaymentMethod><SEPADirectDebit><Type>B2C</Type></SEPADirectDebit></PaymentMethod>"
    );
}

#[test]
fn account_rejects_long_bank_name() {
    let name = "b".repeat(256);
    let err = PaymentMethod::universal_bank_transaction_beneficiary_account(
        PaymentMethodUniversalBankTransactionBeneficiaryAccount::new()
            .with_bank_name(name.as_str()),
    )
    .as_xml()
    .unwrap_err();
    assert_eq!(err, format!("BankName {} is too long!", name));
}

#[test]
fn account_rejects_bank_code_type_of_wrong_length() {
    let err = PaymentMethod::universal_bank_transaction_beneficiary_account(
        PaymentMethodUniversalBankTransactionBeneficiaryAccount::new().with_bank_code(
            PaymentMethodUniversalBankTransactionBeneficiaryAccountBankCode::new(12000, "AUT"),
        ),
    )
    .as_xml()
    .unwrap_err();
    assert_eq!(err, "BankCodeType AUT is not 2 characters long!");
}

#[test]
fn transaction_rejects_long_payment_reference() {
    let reference = "1".repeat(36);
    let err = PaymentMethod::universal_bank_transaction(PaymentMethodUniversalBankTransaction {
        consolidator_payable: None,
        beneficiary_account: None,
        payment_reference: Some(reference.clone()),
        payment_reference_checksum: None,
    })
    .as_xml()
    .unwrap_err();
    assert_eq!(err, format!("PaymentReference {} is too long!", reference));
}

#[test]
fn card_rejects_malformed_primary_account_number() {
    let err = PaymentMethod::payment_card(PaymentMethodPaymentCard::new("1234567890"))
        .as_xml()
        .unwrap_err();
    assert_eq!(
        err,
        "Invalid primary account number \"1234567890\". Only provide at most the first 6 and last 4 digits, separated with a \"*\"."
    );
}

#[test]
fn negative_bank_code_renders_with_sign() {
    let xml = PaymentMethod::universal_bank_transaction_beneficiary_account(
        PaymentMethodUniversalBankTransactionBeneficiaryAccount::new().with_bank_code(
            PaymentMethodUniversalBankTransactionBeneficiaryAccountBankCode::new(-7, "AT"),
        ),
    )
    .as_xml()
    .unwrap()
    .to_xml();
    assert_eq!(
        xml,
        "<PaymentMethod><BeneficiaryAccount><BankCode BankCodeType=\"AT\">-7</BankCode></BeneficiaryAccount></PaymentMethod>"
    );
}
