use bet_archiver::calendar::Date;
use bet_archiver::naming::{
    get_archive_schema_name, get_bet_table_name, get_double_digit_month, get_dynamic_table_name,
    Partition, BET_DETAIL_REPORT_TABLE_NAME, CREDIT_DEBT_TABLE_NAME, OPENING_BALANCE_TABLE_NAME,
};
use bet_archiver::provider::{GameProvider, LiveCasinoProvider, Lottery, SlotProvider};

fn date(year: i32, month: u8, day: u8) -> Date {
    Date::from_calendar_date(year, month, day).unwrap()
}

#[test]
fn names_of_a_march_date() {
    let day = date(2024, 3, 5);
    assert_eq!(get_archive_schema_name(day), "archive_2024");
    assert_eq!(get_double_digit_month(day), "03");
    assert_eq!(get_dynamic_table_name("opening_balance", day), "opening_balance_2024_03");
    assert_eq!(get_dynamic_table_name("credit_debt", day), "credit_debt_2024_03");
}

#[test]
fn months_from_october_have_no_leading_zero() {
    assert_eq!(get_double_digit_month(date(2024, 9, 30)), "09");
    assert_eq!(get_double_digit_month(date(2024, 10, 1)), "10");
    assert_eq!(get_double_digit_month(date(2024, 12, 31)), "12");
    assert_eq!(get_dynamic_table_name("opening_balance", date(2023, 11, 9)), "opening_balance_2023_11");
}

#[test]
fn years_are_written_as_numbers() {
    assert_eq!(get_archive_schema_name(date(987, 1, 1)), "archive_987");
    assert_eq!(get_archive_schema_name(date(0, 1, 1)), "archive_0");
    assert_eq!(get_archive_schema_name(date(-44, 3, 15)), "archive_-44");
    assert_eq!(get_archive_schema_name(date(9999, 12, 31)), "archive_9999");
    assert_eq!(get_dynamic_table_name("t", date(-9999, 1, 1)), "t_-9999_01");
}

#[test]
fn one_table_per_month() {
    let a = get_dynamic_table_name("opening_balance", date(2024, 3, 1));
    let b = get_dynamic_table_name("opening_balance", date(2024, 3, 31));
    let c = get_dynamic_table_name("opening_balance", date(2024, 4, 1));
    let d = get_dynamic_table_name("opening_balance", date(2025, 3, 1));
    assert_eq!(a, b);
    assert_ne!(a, c);
    assert_ne!(a, d);
    assert_ne!(c, d);
}

#[test]
fn partition_holds_schema_and_table() {
    let partition = Partition::locate(CREDIT_DEBT_TABLE_NAME, date(2024, 12, 24));
    assert_eq!(partition.schema, "archive_2024");
    assert_eq!(partition.table, "credit_debt_2024_12");
    assert_eq!(OPENING_BALANCE_TABLE_NAME, "opening_balance");
    assert_eq!(BET_DETAIL_REPORT_TABLE_NAME, "bet_archive_details");
}

#[test]
fn bet_tables_by_provider() {
    assert_eq!(get_bet_table_name(GameProvider::Lottery(Lottery::Thai)), "bet_lottery");
    assert_eq!(get_bet_table_name(GameProvider::Lottery(Lottery::LaoTvSet)), "bet_lottery");
    assert_eq!(get_bet_table_name(GameProvider::Slot(SlotProvider::Ameba)), "bet_ameba");
    assert_eq!(
        get_bet_table_name(GameProvider::LiveCasino(LiveCasinoProvider::Pragmatic)),
        "bet_pragmatic_live_casino"
    );
}
