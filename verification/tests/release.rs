use music_player::library::{ParseError, Release};
use std::cmp::Ordering;

#[test]
fn year() {
    assert_eq!(Release::Year { year: 2012 }, "  2012".parse().unwrap());
    assert_eq!(Release::Year { year: 2012 }, "2012 ".parse().unwrap());
    assert_eq!(Release::Year { year: 2012 }, " 2012 ".parse().unwrap());
    assert_eq!(Release::Year { year: 0 }, "0000".parse().unwrap());
    assert_eq!(Release::Year { year: 12 }, "0012".parse().unwrap());
    assert_eq!(Release::Year { year: 1984 }, "1984".parse().unwrap());
    assert_eq!(Release::Year { year: 2017 }, "2017".parse().unwrap());
    assert_eq!(Release::Year { year: 9999 }, "9999".parse().unwrap());
    assert_eq!(Release::Year { year: 2017 }, "2017-00-00".parse().unwrap());
}

#[test]
fn year_bad() {
    assert!("-0000".parse::<Release>().is_err());
    assert!("0".parse::<Release>().is_err());
    assert!("-0".parse::<Release>().is_err());
    assert!("1".parse::<Release>().is_err());
    assert!("24".parse::<Release>().is_err());
    assert!("666".parse::<Release>().is_err());
    assert!("foo".parse::<Release>().is_err());
    assert!("".parse::<Release>().is_err());
    assert!("yyyy".parse::<Release>().is_err());
    assert!(" ".parse::<Release>().is_err());
}

#[test]
fn month_and_day_year_first() {
    assert_eq!(Ok(Release::Month { year: 2012, month: 12 }), "2012-12".parse());
    assert_eq!(Ok(Release::Day { year: 2012, month: 11, day: 30 }), "2012/11/30".parse());
    assert_eq!(Ok(Release::Day { year: 1999, month: 10, day: 31 }), "on 1999.10.31".parse());
    // A day beyond 31 and a month beyond 12 do not count.
    assert_eq!(Ok(Release::Month { year: 2012, month: 11 }), "2012-11-32".parse());
    assert_eq!(Ok(Release::Year { year: 2012 }), "2012-13-10".parse());
}

#[test]
fn day_and_month_year_last() {
    assert_eq!(Ok(Release::Day { year: 2012, month: 11, day: 30 }), "30-11-2012".parse());
    assert_eq!(Ok(Release::Month { year: 2012, month: 12 }), "12.2012".parse());
}

#[test]
fn unmatched_is_the_error() {
    assert_eq!(Err(ParseError::Unmatched), "soon".parse::<Release>());
    assert_eq!(Err(ParseError::Unmatched), Release::parse("12345x".trim_end_matches("2345x")));
}

#[test]
fn digits_of_other_scripts_match_but_are_no_number() {
    // Four Arabic-Indic digits match the pattern and do not parse.
    assert_eq!(Err(ParseError::Unmatched), "\u{0662}\u{0660}\u{0661}\u{0662}".parse::<Release>());
}

#[test]
fn new_takes_the_most_precise_form() {
    assert_eq!(Release::Day { year: 1, month: 2, day: 3 }, Release::new(1, Some(2), Some(3)));
    assert_eq!(Release::Month { year: 1, month: 2 }, Release::new(1, Some(2), None));
    assert_eq!(Release::Year { year: 1 }, Release::new(1, None, Some(3)));
    assert_eq!(Release::Year { year: 1 }, Release::new(1, None, None));
}

#[test]
fn most_precise_prefers_self_on_a_tie() {
    let y = Release::Year { year: 2000 };
    let m = Release::Month { year: 2001, month: 5 };
    let d = Release::Day { year: 2002, month: 6, day: 7 };
    assert_eq!(m, y.most_precise(m));
    assert_eq!(m, m.most_precise(y));
    assert_eq!(d, m.most_precise(d));
    assert_eq!(d, d.most_precise(m));
    assert_eq!(y, y.most_precise(Release::Year { year: 1 }));
    assert_eq!(d, d.most_precise(Release::Day { year: 1, month: 1, day: 1 }));
}

#[test]
fn parts_of_a_release() {
    let d = Release::Day { year: 2002, month: 6, day: 7 };
    assert_eq!(2002, d.year());
    assert_eq!(Some(6), d.month());
    assert_eq!(Some(7), d.day());
    let m = Release::Month { year: 2001, month: 5 };
    assert_eq!(Some(5), m.month());
    assert_eq!(None, m.day());
    assert_eq!(None, Release::Year { year: 3 }.month());
}

#[test]
fn ordering_by_date() {
    let y = Release::Year { year: 2000 };
    let m = Release::Month { year: 2000, month: 5 };
    let d = Release::Day { year: 2000, month: 5, day: 7 };
    assert_eq!(Ordering::Less, y.ordering(&m));
    assert_eq!(Ordering::Less, m.ordering(&d));
    assert_eq!(Ordering::Greater, d.ordering(&y));
    assert_eq!(Ordering::Equal, d.ordering(&d));
    assert_eq!(Ordering::Greater, Release::Year { year: 2001 }.ordering(&d));
}
