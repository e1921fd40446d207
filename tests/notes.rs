use pdftext::account_notes::{
    AccountNote, Amount, BalanceNote, BrokerInformation, BrokerOperation, CompanyInfo, Date,
    FinancialInformation,
};

#[test]
fn broker_operation_from_first_letter() {
    assert_eq!(BrokerOperation::from_text("Venta"), Some(BrokerOperation::Sell));
    assert_eq!(BrokerOperation::from_text("v"), Some(BrokerOperation::Sell));
    assert_eq!(BrokerOperation::from_text("Compra"), Some(BrokerOperation::Buy));
    assert_eq!(BrokerOperation::from_text("c"), Some(BrokerOperation::Buy));
    assert_eq!(BrokerOperation::from_text("Dividend"), None);
    assert_eq!(BrokerOperation::from_text(""), None);
}

#[test]
fn broker_information_keeps_fields() {
    let b = BrokerInformation::new("Degiro".to_string(), "NL".to_string());
    assert_eq!(b.name, "Degiro");
    assert_eq!(b.country_code, "NL");
}

#[test]
fn financial_information_starts_empty() {
    let f = FinancialInformation::new();
    assert!(f.brokers.is_empty());
    assert!(f.account_notes.is_empty());
    assert!(f.balance_notes.is_empty());
    assert_eq!(f.name, "");
    assert_eq!(f.surname, "");
    assert_eq!(f.nif, "0");
    assert_eq!(f.year, 0);
}

#[test]
fn notes_keep_their_fields() {
    let company = CompanyInfo { name: "ACME".to_string(), isin: "US0000000001".to_string() };
    let date = Date { year: 2020, month: 3, day: 14 };
    let amount = Amount { mantissa: 12345, scale: 2 };
    let a = AccountNote::new(
        date,
        company.clone(),
        BrokerOperation::Buy,
        amount,
        amount,
        amount,
        Amount { mantissa: 2, scale: 0 },
        1,
    );
    assert_eq!(a.date, date);
    assert_eq!(a.company.isin, "US0000000001");
    assert_eq!(a.operation, BrokerOperation::Buy);
    assert_eq!(a.commision, Amount { mantissa: 2, scale: 0 });
    assert_eq!(a.broker, 1);
    let b = BalanceNote::new(company, "NASDAQ".to_string(), amount, "USD".to_string(), amount, amount, 0);
    assert_eq!(b.market, "NASDAQ");
    assert_eq!(b.currency, "USD");
    assert_eq!(b.value_in_euro, amount);
    assert_eq!(b.broker, 0);
}

#[test]
fn date_new_accepts_only_existing_days() {
    assert_eq!(Date::new(2020, 2, 29), Some(Date { year: 2020, month: 2, day: 29 }));
    assert_eq!(Date::new(2019, 2, 29), None);
    assert_eq!(Date::new(1900, 2, 29), None);
    assert_eq!(Date::new(2000, 2, 29), Some(Date { year: 2000, month: 2, day: 29 }));
    assert_eq!(Date::new(2021, 4, 31), None);
    assert_eq!(Date::new(2021, 12, 31), Some(Date { year: 2021, month: 12, day: 31 }));
    assert_eq!(Date::new(2021, 13, 1), None);
    assert_eq!(Date::new(2021, 1, 0), None);
    assert_eq!(Date::new(-4, 2, 29), Some(Date { year: -4, month: 2, day: 29 }));
}

#[test]
fn amount_new_bounds_mantissa_and_scale() {
    assert_eq!(Amount::new(12345, 2), Some(Amount { mantissa: 12345, scale: 2 }));
    assert_eq!(Amount::new(1, 29), None);
    assert_eq!(Amount::new(79228162514264337593543950335, 28).is_some(), true);
    assert_eq!(Amount::new(79228162514264337593543950336, 0), None);
    assert_eq!(Amount::new(-79228162514264337593543950336, 0), None);
}
