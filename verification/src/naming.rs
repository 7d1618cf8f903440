//! Names of the yearly schemas and monthly tables that hold the archive.
//!
//! The ledger and the debt ledger are cut into one schema per year and one
//! table per month. Which schema and table a row belongs to follows from
//! its date alone.

use crate::calendar::Date;
use crate::decimal::{decimal, digit_char, digit_str, lemma_decimal_injective, push_decimal};
use crate::provider::GameProvider;
use vstd::prelude::*;
use vstd::string::*;

verus! {

/// The table family of the daily balance ledger.
pub const OPENING_BALANCE_TABLE_NAME: &'static str = "opening_balance";

/// The table family of the commission debt ledger.
pub const CREDIT_DEBT_TABLE_NAME: &'static str = "credit_debt";

/// The staging table of replay and detail data.
pub const BET_DETAIL_REPORT_TABLE_NAME: &'static str = "bet_archive_details";

/// The name of the schema of a year: `archive_` and the year.
pub open spec fn archive_schema_name(date: Date) -> Seq<char> {
    "archive_"@ + decimal(date.year())
}

/// The two digits of a month, with a leading zero before October.
pub open spec fn double_digit_month(date: Date) -> Seq<char> {
    seq![digit_char(date.month() / 10), digit_char(date.month() % 10)]
}

/// The name of the table of a month: the family's name, the year and the
/// two digits of the month, joined by underscores.
pub open spec fn dynamic_table_name(table_name: Seq<char>, date: Date) -> Seq<char> {
    table_name + seq!['_'] + decimal(date.year()) + seq!['_'] + double_digit_month(date)
}

/// The schema that holds the tables of the year of `date`.
pub fn get_archive_schema_name(date: Date) -> (name: String)
    ensures
        name@ == archive_schema_name(date),
{
    let mut name = String::from_str("archive_");
    push_decimal(date.get_year() as i64, &mut name);
    name
}

/// The month of `date` in two digits.
pub fn get_double_digit_month(date: Date) -> (text: String)
    ensures
        text@ == double_digit_month(date),
        text@.len() == 2,
{
    let month: u8 = date.get_month();
    let mut text = String::from_str(digit_str(month / 10));
    text.append(digit_str(month % 10));
    assert(text@ =~= double_digit_month(date));
    text
}

/// The table of the family `table_name` that holds the month of `date`.
pub fn get_dynamic_table_name(table_name: &str, date: Date) -> (name: String)
    ensures
        name@ == dynamic_table_name(table_name@, date),
{
    proof {
        reveal_strlit("_");
    }
    let mut name = String::from_str(table_name);
    name.append("_");
    push_decimal(date.get_year() as i64, &mut name);
    name.append("_");
    let month = get_double_digit_month(date);
    name.append(month.as_str());
    assert(name@ =~= dynamic_table_name(table_name@, date));
    name
}

/// The name of the table of a provider's live bets: one table for all
/// lotteries, and for every other provider `bet_` and its stored name.
pub open spec fn bet_table_name(provider: GameProvider) -> Seq<char> {
    match provider {
        GameProvider::Lottery(_) => "bet_lottery"@,
        _ => "bet_"@ + provider.name(),
    }
}

/// The table that holds the live bets of `provider`.
pub fn get_bet_table_name(provider: GameProvider) -> (name: String)
    ensures
        name@ == bet_table_name(provider),
{
    match provider {
        GameProvider::Lottery(_) => String::from_str("bet_lottery"),
        _ => {
            let mut name = String::from_str("bet_");
            name.append(provider.as_ref());
            name
        },
    }
}

/// Where the rows of one month of one table family are kept.
#[derive(Debug)]
pub struct Partition {
    pub schema: String,
    pub table: String,
}

impl Partition {
    /// Whether this is where the family `table_name` keeps the month of
    /// `date`.
    pub open spec fn holds(self, table_name: Seq<char>, date: Date) -> bool {
        self.schema@ == archive_schema_name(date) && self.table@ == dynamic_table_name(
            table_name,
            date,
        )
    }

    /// The partition of the family `table_name` for the month of `date`.
    pub fn locate(table_name: &str, date: Date) -> (partition: Partition)
        ensures
            partition.holds(table_name@, date),
    {
        Partition {
            schema: get_archive_schema_name(date),
            table: get_dynamic_table_name(table_name, date),
        }
    }
}

/// Two dates have the same schema exactly when they lie in the same year.
pub proof fn lemma_schema_per_year(d1: Date, d2: Date)
    ensures
        archive_schema_name(d1) == archive_schema_name(d2) <==> d1.year() == d2.year(),
{
    if archive_schema_name(d1) == archive_schema_name(d2) {
        let prefix = "archive_"@;
        let n = prefix.len() as int;
        let s1 = archive_schema_name(d1);
        let s2 = archive_schema_name(d2);
        assert(s1.subrange(n, s1.len() as int) =~= decimal(d1.year()));
        assert(s2.subrange(n, s2.len() as int) =~= decimal(d2.year()));
        lemma_decimal_injective(d1.year(), d2.year());
    }
}

/// The two digits of a month tell the month.
pub proof fn lemma_double_digit_month_injective(d1: Date, d2: Date)
    requires
        1 <= d1.month() <= 12,
        1 <= d2.month() <= 12,
        double_digit_month(d1) == double_digit_month(d2),
    ensures
        d1.month() == d2.month(),
{
    let a = double_digit_month(d1);
    let b = double_digit_month(d2);
    assert(a[0] == b[0]);
    assert(a[1] == b[1]);
}

/// One table per month: two dates of the same month and year map to the
/// same table of a family, and two dates of different months, or of the
/// same month in different years, map to different tables.
pub proof fn lemma_table_per_month(table_name: Seq<char>, d1: Date, d2: Date)
    requires
        d1.is_valid(),
        d2.is_valid(),
    ensures
        dynamic_table_name(table_name, d1) == dynamic_table_name(table_name, d2)
            <==> d1.same_month(d2),
{
    let t1 = dynamic_table_name(table_name, d1);
    let t2 = dynamic_table_name(table_name, d2);
    if t1 == t2 {
        let y1 = decimal(d1.year());
        let y2 = decimal(d2.year());
        let m1 = double_digit_month(d1);
        let m2 = double_digit_month(d2);
        let n = table_name.len() as int;
        assert(t1.len() == n + 1 + y1.len() + 1 + 2);
        assert(t2.len() == n + 1 + y2.len() + 1 + 2);
        let l = y1.len() as int;
        assert(t1.subrange(n + 1, n + 1 + l) =~= y1);
        assert(t2.subrange(n + 1, n + 1 + l) =~= y2);
        lemma_decimal_injective(d1.year(), d2.year());
        assert(t1.subrange(n + 2 + l, n + 4 + l) =~= m1);
        assert(t2.subrange(n + 2 + l, n + 4 + l) =~= m2);
        lemma_double_digit_month_injective(d1, d2);
    }
}

/// Partition naming is a function of the month: the tables of two dates
/// are the same table exactly when the dates share month and year, whatever
/// the family.
pub proof fn lemma_partition_per_month(table_name: Seq<char>, d1: Date, d2: Date)
    requires
        d1.is_valid(),
        d2.is_valid(),
    ensures
        d1.same_month(d2) ==> archive_schema_name(d1) == archive_schema_name(d2)
            && dynamic_table_name(table_name, d1) == dynamic_table_name(table_name, d2),
        !d1.same_month(d2) ==> dynamic_table_name(table_name, d1) != dynamic_table_name(
            table_name,
            d2,
        ),
{
    lemma_table_per_month(table_name, d1, d2);
}

} // verus!
