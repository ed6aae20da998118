use owl_tracker::date::{date_is_readable, format_date, format_day, get_month};

#[test]
fn format_date_test() {
    let valid_time_stamp = format_date("2019-02-15T00:00:00.000Z".to_string());
    let invald_time_stamp = format_date("Invalid TimeStamp".to_string());
    assert_eq!(valid_time_stamp, "February 15th, 2019");
    assert_eq!(invald_time_stamp, "Unknown month Error imeStampth, Invalid");
}

#[test]
fn format_day_test() {
    let first = format_day("01".to_string());
    let second = format_day("02".to_string());
    let third = format_day("03".to_string());
    let seventh = format_day("07".to_string());
    let thirtyth = format_day("30".to_string());
    assert_eq!(first, "1st".to_string());
    assert_eq!(second, "2nd".to_string());
    assert_eq!(third, "3rd".to_string());
    assert_eq!(seventh, "7th".to_string());
    assert_eq!(thirtyth, "30th".to_string());
}

#[test]
fn test_get_month() {
    let jan = get_month("01".to_string());
    let july = get_month("07".to_string());
    let invalid_month = get_month("123210".to_string());
    assert_eq!(jan, "January".to_string());
    assert_eq!(july, "July".to_string());
    assert_eq!(invalid_month, "Unknown month Error".to_string());
}

#[test]
fn every_month_has_its_name() {
    let names = [
        ("01", "January"),
        ("02", "February"),
        ("03", "March"),
        ("04", "April"),
        ("05", "May"),
        ("06", "June"),
        ("07", "July"),
        ("08", "August"),
        ("09", "September"),
        ("10", "October"),
        ("11", "November"),
        ("12", "December"),
        ("1", "Unknown month Error"),
        ("", "Unknown month Error"),
        ("13", "Unknown month Error"),
    ];
    for (number, name) in names {
        assert_eq!(get_month(number.to_string()), name);
    }
}

#[test]
fn day_ordinals_follow_the_table() {
    assert_eq!(format_day("04".to_string()), "4th");
    assert_eq!(format_day("05".to_string()), "5th");
    assert_eq!(format_day("06".to_string()), "6th");
    assert_eq!(format_day("08".to_string()), "8th");
    assert_eq!(format_day("09".to_string()), "9th");
    assert_eq!(format_day("9".to_string()), "9th");
    assert_eq!(format_day("21".to_string()), "21th");
    assert_eq!(format_day("".to_string()), "th");
}

#[test]
fn timestamps_read_as_dates() {
    assert_eq!(format_date("2021-12-01T10:00:00Z".to_string()), "December 1st, 2021");
    assert_eq!(format_date("2019-08-09T23:59:59-07:00".to_string()), "August 9th, 2019");
    assert_eq!(format_date("2020-07-30T".to_string()), "July 30th, 2020");
    assert_eq!(format_date("1999-1-2".to_string()), "Unknown month Error 2th, 1999");
    assert_eq!(format_date("a b c d".to_string()), "Unknown month Error cth, a");
}

#[test]
fn readable_dates_need_three_parts() {
    assert!(date_is_readable("2019-02-15T00:00:00.000Z"));
    assert!(date_is_readable("Invalid TimeStamp"));
    assert!(date_is_readable("a b c"));
    assert!(!date_is_readable("a b"));
    assert!(!date_is_readable("2019"));
    assert!(!date_is_readable("2019-02"));
    assert!(!date_is_readable("null"));
    assert!(!date_is_readable(""));
}
