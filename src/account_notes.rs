use vstd::prelude::*;

verus! {

/// The side of a broker operation.
#[derive(Clone, Copy, Debug, PartialEq, Eq)]
pub enum BrokerOperation {
    Buy,
    Sell,
}

/// The operation that a broker's text names by its first letter: `V` (venta)
/// for a sale, `C` (compra) for a purchase, in either case.
pub open spec fn operation_of(s: Seq<char>) -> Option<BrokerOperation> {
    if s.len() > 0 && (s[0] == 'V' || s[0] == 'v') {
        Some(BrokerOperation::Sell)
    } else if s.len() > 0 && (s[0] == 'C' || s[0] == 'c') {
        Some(BrokerOperation::Buy)
    } else {
        None
    }
}

impl BrokerOperation {
    /// Reads an operation from its first letter; `None` for any other text.
    pub fn from_text(item: &str) -> (r: Option<BrokerOperation>)
        ensures
            r == operation_of(item@),
    {
        if item.unicode_len() == 0 {
            return None;
        }
        let c = item.get_char(0);
        if c == 'V' || c == 'v' {
            Some(BrokerOperation::Sell)
        } else if c == 'C' || c == 'c' {
            Some(BrokerOperation::Buy)
        } else {
            None
        }
    }
}

/// A calendar date.
#[derive(Clone, Copy, Debug, PartialEq, Eq)]
pub struct Date {
    pub year: i32,
    pub month: u32,
    pub day: u32,
}

pub open spec fn is_leap_year(y: int) -> bool {
    (y % 4 == 0 && y % 100 != 0) || y % 400 == 0
}

pub open spec fn days_in_month(y: int, m: int) -> int {
    if m == 2 {
        if is_leap_year(y) {
            29
        } else {
            28
        }
    } else if m == 4 || m == 6 || m == 9 || m == 11 {
        30
    } else {
        31
    }
}

impl Date {
    /// A day that exists in the Gregorian calendar.
    pub open spec fn wf(&self) -> bool {
        1 <= self.month <= 12 && 1 <= self.day <= days_in_month(self.year as int, self.month as int)
    }

    /// The date of that year, month and day, if it exists.
    pub fn new(year: i32, month: u32, day: u32) -> (r: Option<Date>)
        ensures
            r is Some <==> (Date { year, month, day }).wf(),
            r is Some ==> r->Some_0 == (Date { year, month, day }),
    {
        if month < 1 || month > 12 || day < 1 {
            return None;
        }
        // A multiple of 400 keeps the year positive and its leap-year tests.
        let y: i64 = year as i64 + 4_000_000_000;
        let leap = (y % 4 == 0 && y % 100 != 0) || y % 400 == 0;
        assert(leap == is_leap_year(year as int));
        let last: u32 = if month == 2 {
            if leap {
                29
            } else {
                28
            }
        } else if month == 4 || month == 6 || month == 9 || month == 11 {
            30
        } else {
            31
        };
        if day > last {
            None
        } else {
            Some(Date { year, month, day })
        }
    }
}

/// The largest mantissa a decimal holds: 96 bits.
pub const MAX_MANTISSA: i128 = 79228162514264337593543950335;

/// The largest number of decimal places.
pub const MAX_SCALE: u32 = 28;

/// A decimal number: `mantissa / 10^scale`.
#[derive(Clone, Copy, Debug, PartialEq, Eq)]
pub struct Amount {
    pub mantissa: i128,
    pub scale: u32,
}

impl Amount {
    /// A 96-bit mantissa and at most 28 decimal places.
    pub open spec fn wf(&self) -> bool {
        -MAX_MANTISSA <= self.mantissa <= MAX_MANTISSA && self.scale <= MAX_SCALE
    }

    /// The decimal `mantissa / 10^scale`, if it can be held.
    pub fn new(mantissa: i128, scale: u32) -> (r: Option<Amount>)
        ensures
            r is Some <==> (Amount { mantissa, scale }).wf(),
            r is Some ==> r->Some_0 == (Amount { mantissa, scale }),
    {
        if -MAX_MANTISSA <= mantissa && mantissa <= MAX_MANTISSA && scale <= MAX_SCALE {
            Some(Amount { mantissa, scale })
        } else {
            None
        }
    }
}

#[derive(Clone, Debug)]
pub struct CompanyInfo {
    pub name: String,
    pub isin: String,
}

/// A broker, as the notes refer to it by its index in
/// `FinancialInformation::brokers`.
#[derive(Clone, Debug)]
pub struct BrokerInformation {
    pub name: String,
    pub country_code: String,
}

impl BrokerInformation {
    pub fn new(name: String, cc: String) -> (r: Self)
        ensures
            r.name == name,
            r.country_code == cc,
    {
        Self { name, country_code: cc }
    }
}

/// One operation of an account statement.
pub struct AccountNote {
    pub date: Date,
    pub company: CompanyInfo,
    pub operation: BrokerOperation,
    pub quantity: Amount,
    pub price: Amount,
    pub value: Amount,
    pub commision: Amount,
    /// Index of the broker in `FinancialInformation::brokers`.
    pub broker: usize,
}

impl AccountNote {
    pub open spec fn wf(&self) -> bool {
        self.date.wf() && self.quantity.wf() && self.price.wf() && self.value.wf()
            && self.commision.wf()
    }

    pub fn new(
        date: Date,
        company: CompanyInfo,
        operation: BrokerOperation,
        quantity: Amount,
        price: Amount,
        value: Amount,
        commision: Amount,
        broker: usize,
    ) -> (r: AccountNote)
        requires
            date.wf(),
            quantity.wf(),
            price.wf(),
            value.wf(),
            commision.wf(),
        ensures
            r.wf(),
            r.date == date,
            r.company == company,
            r.operation == operation,
            r.quantity == quantity,
            r.price == price,
            r.value == value,
            r.commision == commision,
            r.broker == broker,
    {
        AccountNote { date, company, operation, quantity, price, value, commision, broker }
    }
}

/// One position of a balance statement.
pub struct BalanceNote {
    pub company: CompanyInfo,
    pub market: String,
    pub quantity: Amount,
    pub currency: String,
    pub price: Amount,
    pub value_in_euro: Amount,
    /// Index of the broker in `FinancialInformation::brokers`.
    pub broker: usize,
}

impl BalanceNote {
    pub open spec fn wf(&self) -> bool {
        self.quantity.wf() && self.price.wf() && self.value_in_euro.wf()
    }

    pub fn new(
        company: CompanyInfo,
        market: String,
        quantity: Amount,
        currency: String,
        price: Amount,
        value_in_euro: Amount,
        broker: usize,
    ) -> (r: BalanceNote)
        requires
            quantity.wf(),
            price.wf(),
            value_in_euro.wf(),
        ensures
            r.wf(),
            r.company == company,
            r.market == market,
            r.quantity == quantity,
            r.currency == currency,
            r.price == price,
            r.value_in_euro == value_in_euro,
            r.broker == broker,
    {
        BalanceNote { company, market, quantity, currency, price, value_in_euro, broker }
    }
}

/// Everything known of one taxpayer's statements.
pub struct FinancialInformation {
    pub brokers: Vec<BrokerInformation>,
    pub account_notes: Vec<AccountNote>,
    pub balance_notes: Vec<BalanceNote>,
    pub name: String,
    pub surname: String,
    pub nif: String,
    pub year: usize,
}

impl FinancialInformation {
    /// Every note is well formed and names a broker of `brokers`.
    pub open spec fn wf(&self) -> bool {
        &&& forall|i: int|
            0 <= i < self.account_notes@.len() ==> #[trigger] self.account_notes@[i].wf()
                && self.account_notes@[i].broker < self.brokers@.len()
        &&& forall|i: int|
            0 <= i < self.balance_notes@.len() ==> #[trigger] self.balance_notes@[i].wf()
                && self.balance_notes@[i].broker < self.brokers@.len()
    }

    /// No notes, empty names, a tax number of `"0"` and year 0.
    pub fn new() -> (r: Self)
        ensures
            r.wf(),
            r.brokers@.len() == 0,
            r.account_notes@.len() == 0,
            r.balance_notes@.len() == 0,
            r.name@ == ""@,
            r.surname@ == ""@,
            r.nif@ == "0"@,
            r.year == 0,
    {
        Self {
            brokers: Vec::new(),
            account_notes: Vec::new(),
            balance_notes: Vec::new(),
            name: "".to_owned(),
            surname: "".to_owned(),
            nif: "0".to_owned(),
            year: 0,
        }
    }
}

} // verus!
