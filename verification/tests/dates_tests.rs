use bday_bot::dates::{date_from_runs, parse, Date};
use bday_bot::errors::ErrorKind;

fn runs(items: &[&str]) -> Vec<String> {
    items.iter().map(|s| s.to_string()).collect()
}

#[test]
fn parse_reads_month_day_year() {
    let date = parse("set 04/15/1990").unwrap();
    assert_eq!(date.year(), 1990);
    assert_eq!(date.month(), 4);
    assert_eq!(date.day(), 15);
    assert_eq!(date.to_string(), "1990-04-15");
    assert_eq!(Some(date), Date::from_ymd_opt(1990, 4, 15));
}

#[test]
fn parse_passes_over_what_stands_between() {
    let date = parse("born on 12, the 31st of 1999!").unwrap();
    assert_eq!(date.to_string(), "1999-12-31");
    let date = parse(" set 4/5/2001").unwrap();
    assert_eq!(date.to_string(), "2001-04-05");
}

#[test]
fn parse_with_fewer_than_three_runs_fails() {
    let err = parse("04/15").unwrap_err();
    assert_eq!(err.kind, ErrorKind::ParseError);
    assert_eq!(err.message, "Could not parse a date from 04/15");
    assert_eq!(err.to_string(), "Could not parse a date from 04/15");
    assert_eq!(parse("1990").unwrap_err().kind, ErrorKind::ParseError);
}

#[test]
fn parse_with_more_than_three_runs_fails() {
    let err = parse("04/15/1990/7").unwrap_err();
    assert_eq!(err.kind, ErrorKind::ParseError);
    assert_eq!(err.message, "Could not parse a date from 04/15/1990/7");
}

#[test]
fn parse_without_digits_fails() {
    let err = parse("no date here").unwrap_err();
    assert_eq!(err.kind, ErrorKind::ParseError);
    assert_eq!(err.message, "Could not parse a date from no date here");
    assert_eq!(parse("").unwrap_err().message, "Could not parse a date from ");
}

#[test]
fn parse_of_a_day_that_does_not_exist_fails() {
    assert_eq!(parse("13/01/2000").unwrap_err().kind, ErrorKind::ParseError);
    assert_eq!(parse("02/30/2000").unwrap_err().kind, ErrorKind::ParseError);
    assert_eq!(parse("0/10/2000").unwrap_err().kind, ErrorKind::ParseError);
    assert_eq!(parse("1/0/2000").unwrap_err().kind, ErrorKind::ParseError);
    assert_eq!(parse("1/1/999999").unwrap_err().kind, ErrorKind::ParseError);
}

#[test]
fn parse_of_a_run_too_long_for_a_number_fails() {
    assert_eq!(parse("1/2/99999999999").unwrap_err().kind, ErrorKind::ParseError);
    assert_eq!(parse("1/99999999999/2/1990").unwrap_err().kind, ErrorKind::ParseError);
    assert_eq!(parse("1/2/4294967295").unwrap_err().kind, ErrorKind::ParseError);
}

#[test]
fn parse_takes_only_the_ten_plain_digits() {
    assert_eq!(parse("\u{664}/\u{661}\u{665}/\u{661}\u{669}\u{669}\u{660}").unwrap_err().kind, ErrorKind::ParseError);
    assert_eq!(parse("\u{664} 4/15/1990").unwrap().to_string(), "1990-04-15");
}

#[test]
fn date_from_runs_wants_three_numbers() {
    assert_eq!(date_from_runs(&runs(&["04", "15", "1990"])), Date::from_ymd_opt(1990, 4, 15));
    assert_eq!(date_from_runs(&runs(&["04", "15"])), None);
    assert_eq!(date_from_runs(&runs(&[])), None);
    assert_eq!(date_from_runs(&runs(&["1", "2", "3", "4"])), None);
    assert_eq!(date_from_runs(&runs(&["x", "15", "1990"])), None);
    assert_eq!(date_from_runs(&runs(&["4", "", "1990"])), None);
    assert_eq!(date_from_runs(&runs(&["4", "15", "2147483648"])), None);
    assert_eq!(date_from_runs(&runs(&["2", "29", "1900"])), None);
    assert_eq!(date_from_runs(&runs(&["2", "29", "2000"])), Date::from_ymd_opt(2000, 2, 29));
}

#[test]
fn dates_exist_as_the_calendar_says() {
    assert!(Date::from_ymd_opt(2015, 3, 14).is_some());
    assert!(Date::from_ymd_opt(2015, 0, 14).is_none());
    assert!(Date::from_ymd_opt(2015, 13, 14).is_none());
    assert!(Date::from_ymd_opt(2015, 3, 0).is_none());
    assert!(Date::from_ymd_opt(2015, 3, 32).is_none());
    assert!(Date::from_ymd_opt(2015, 2, 29).is_none());
    assert!(Date::from_ymd_opt(2016, 2, 29).is_some());
    assert!(Date::from_ymd_opt(1900, 2, 29).is_none());
    assert!(Date::from_ymd_opt(2000, 2, 29).is_some());
    assert!(Date::from_ymd_opt(2023, 4, 31).is_none());
    assert!(Date::from_ymd_opt(2023, 4, 30).is_some());
    assert!(Date::from_ymd_opt(2023, 12, 31).is_some());
    assert!(Date::from_ymd_opt(-4, 2, 29).is_some());
    assert!(Date::from_ymd_opt(-1, 2, 29).is_none());
    assert!(Date::from_ymd_opt(0, 2, 29).is_some());
}

#[test]
fn dates_exist_in_the_years_that_can_be_held() {
    assert!(Date::from_ymd_opt(262142, 12, 31).is_some());
    assert!(Date::from_ymd_opt(262143, 1, 1).is_none());
    assert!(Date::from_ymd_opt(-262143, 1, 1).is_some());
    assert!(Date::from_ymd_opt(-262144, 12, 31).is_none());
    assert!(Date::from_ymd_opt(400000, 1, 1).is_none());
    assert!(Date::from_ymd_opt(i32::MAX, 1, 1).is_none());
    assert!(Date::from_ymd_opt(i32::MIN, 1, 1).is_none());
}

fn days_in(year: i32, month: u32) -> u32 {
    let leap = year.rem_euclid(4) == 0 && (year.rem_euclid(100) != 0 || year.rem_euclid(400) == 0);
    match month {
        2 => {
            if leap {
                29
            } else {
                28
            }
        }
        4 | 6 | 9 | 11 => 30,
        _ => 31,
    }
}

#[test]
fn dates_exist_by_the_rule_of_leap_years() {
    for year in [-401, -400, -100, -5, -4, -1, 0, 1, 4, 100, 1600, 1700, 1900, 1999, 2000, 2024, 2100] {
        for month in 0..=13u32 {
            for day in 0..=32u32 {
                let wanted = (1..=12).contains(&month) && day >= 1 && day <= days_in(year, month);
                assert_eq!(
                    Date::from_ymd_opt(year, month, day).is_some(),
                    wanted,
                    "{}-{}-{}",
                    year,
                    month,
                    day
                );
            }
        }
    }
}

#[test]
fn dates_are_written_with_four_and_two_digits() {
    assert_eq!(Date::from_ymd_opt(2015, 9, 5).unwrap().to_string(), "2015-09-05");
    assert_eq!(Date::from_ymd_opt(0, 1, 1).unwrap().to_string(), "0000-01-01");
    assert_eq!(Date::from_ymd_opt(7, 10, 31).unwrap().to_string(), "0007-10-31");
    assert_eq!(Date::from_ymd_opt(987, 12, 1).unwrap().to_string(), "0987-12-01");
    assert_eq!(Date::from_ymd_opt(9999, 12, 31).unwrap().to_string(), "9999-12-31");
}

#[test]
fn dates_beyond_four_digits_are_written_with_a_sign() {
    assert_eq!(Date::from_ymd_opt(10000, 12, 31).unwrap().to_string(), "+10000-12-31");
    assert_eq!(Date::from_ymd_opt(262142, 1, 2).unwrap().to_string(), "+262142-01-02");
    assert_eq!(Date::from_ymd_opt(-1, 1, 1).unwrap().to_string(), "-0001-01-01");
    assert_eq!(Date::from_ymd_opt(-999, 3, 4).unwrap().to_string(), "-0999-03-04");
    assert_eq!(Date::from_ymd_opt(-9999, 3, 4).unwrap().to_string(), "-9999-03-04");
    assert_eq!(Date::from_ymd_opt(-10000, 3, 4).unwrap().to_string(), "-10000-03-04");
    assert_eq!(Date::from_ymd_opt(-262143, 11, 30).unwrap().to_string(), "-262143-11-30");
}

#[test]
fn date_gives_back_its_parts() {
    let date = Date::from_ymd_opt(-44, 3, 15).unwrap();
    assert_eq!((date.year(), date.month(), date.day()), (-44, 3, 15));
}

#[test]
fn dates_are_written_alike_in_every_year() {
    let mut year: i32 = -262143;
    while year <= 262142 {
        for (month, day) in [(1u32, 1u32), (2, 28), (10, 9), (12, 31)] {
            let written_year = if (0..=9999).contains(&year) {
                format!("{:04}", year)
            } else if year > 9999 {
                format!("+{}", year)
            } else {
                format!("-{:04}", -year)
            };
            let wanted = format!("{}-{:02}-{:02}", written_year, month, day);
            assert_eq!(Date::from_ymd_opt(year, month, day).unwrap().to_string(), wanted);
        }
        year += 389;
    }
}

fn digit_runs(text: &str) -> Vec<String> {
    let mut found: Vec<String> = Vec::new();
    let mut run = String::new();
    for c in text.chars() {
        if c.is_ascii_digit() {
            run.push(c);
        } else if !run.is_empty() {
            found.push(run.clone());
            run.clear();
        }
    }
    if !run.is_empty() {
        found.push(run);
    }
    found
}

#[test]
fn parse_reads_what_a_scan_for_digit_runs_finds() {
    let samples = [
        "",
        "4/15/1990",
        " set 04/15/1990",
        "4-15-1990",
        "4 15 1990 ",
        "a4b15c1990d",
        "04151990",
        "4/15",
        "4/15/1990/1",
        "2/29/2000",
        "2/29/1900",
        "12/31/262142",
        "12/31/262143",
        "0/0/0",
        "1/1/0",
        "1.5/2/2000",
        "+1/+2/+2000",
        "-1/-2/-2000",
        "1/2/\u{661}990",
        "1/2/4294967296",
        "007/0009/002001",
    ];
    for text in samples {
        let wanted = date_from_runs(&digit_runs(text));
        assert_eq!(parse(text).ok(), wanted, "{:?}", text);
    }
    assert_eq!(parse("007/0009/002001").unwrap().to_string(), "2001-07-09");
    assert_eq!(parse("1/1/0").unwrap().to_string(), "0000-01-01");
    assert_eq!(parse("-1/-2/-2000").unwrap().to_string(), "2000-01-02");
}
