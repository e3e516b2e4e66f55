//! Tests of the calendar parser and its matchers.

use pud::{
    parse_calendar, parse_date, parse_day_of_week, parse_hms, Day, DayOfWeek, Hour, Minute, Moment,
    Month, Realtime, Second, Year,
};

const HOURS_PER_DAY: u8 = 24;
const MINUTES_PER_HOUR: u8 = 60;
const SECONDS_PER_MINUTE: u8 = 60;
const MONTHS_PER_YEAR: u8 = 12;
const DAYS_PER_MONTH: u8 = 31;

fn all_realtime() -> Realtime {
    Realtime::new(
        DayOfWeek::All,
        Year::All,
        Month::All,
        Day::All,
        Hour::All,
        Minute::All,
        Second::All,
    )
}

// --- day of week ---

#[test]
fn dow_simple() {
    assert_eq!(DayOfWeek::Days(vec![0]), parse_day_of_week("Sun").unwrap());
    assert_eq!(DayOfWeek::Days(vec![0]), parse_day_of_week("Sunday").unwrap());
}

#[test]
fn dow_range() {
    assert_eq!(
        DayOfWeek::Days(vec![1, 2, 3, 4, 5]),
        parse_day_of_week("Mon..Fri").unwrap()
    );
    assert_eq!(
        DayOfWeek::Days(vec![1, 2, 3, 4, 5]),
        parse_day_of_week("Monday..Friday").unwrap()
    );
}

#[test]
fn all() {
    assert_eq!(DayOfWeek::All, parse_day_of_week("*").unwrap());
}

#[test]
fn multiple() {
    assert_eq!(
        DayOfWeek::Days(vec![0, 2, 4, 6]),
        parse_day_of_week("Sun,Tue,Thu,Sat").unwrap()
    );
    assert_eq!(
        DayOfWeek::Days(vec![0, 2, 4, 6]),
        parse_day_of_week("Sunday,Tuesday,Thursday,Saturday").unwrap()
    );
}

#[test]
fn day_already_in_range() {
    assert_eq!(
        DayOfWeek::Days(vec![1, 2, 3, 4, 5]),
        parse_day_of_week("Mon..Fri,Tue").unwrap()
    );
    assert_eq!(
        DayOfWeek::Days(vec![1, 2, 3, 4, 5]),
        parse_day_of_week("Monday..Friday,Tuesday").unwrap()
    );
}

#[test]
fn one_day_range() {
    assert_eq!(
        DayOfWeek::Days(vec![1, 5]),
        parse_day_of_week("Mon..Mon,Fri..Fri").unwrap()
    );
    assert_eq!(
        DayOfWeek::Days(vec![1, 5]),
        parse_day_of_week("Monday..Monday,Friday..Friday").unwrap()
    );
}

#[test]
fn dow_funky() {
    assert_eq!(
        DayOfWeek::Days(vec![0, 1, 2, 3, 4, 6]),
        parse_day_of_week("Mon..Thu,Sat,Sun").unwrap()
    );
    assert_eq!(
        DayOfWeek::Days(vec![0, 1, 2, 3, 4, 6]),
        parse_day_of_week("Monday..Thursday,Saturday,Sunday").unwrap()
    );
    assert_eq!(
        DayOfWeek::Days(vec![0, 1, 2, 3, 4, 6]),
        parse_day_of_week("Mon..Thursday,SAt,SuNdaY").unwrap()
    );
}

#[test]
fn invalid() {
    match parse_day_of_week("Hogwash,Wed") {
        Ok(_) => panic!("this day of week should be invalid"),
        Err(e) => assert_eq!(e.message(), "invalid day of week: Hogwash"),
    }
}

#[test]
fn invalid_range() {
    match parse_day_of_week("Mon..Hogwash,Wed") {
        Ok(_) => panic!("this day of week should be invalid"),
        Err(e) => assert_eq!(e.message(), "invalid day of week: Hogwash"),
    }
}

#[test]
fn invalid_range_order() {
    match parse_day_of_week("Fri..Mon") {
        Ok(_) => panic!("this day of week should be invalid"),
        Err(e) => assert_eq!(e.message(), "invalid range: 'Fri..Mon'"),
    }
}

// --- hours, minutes, seconds ---

#[test]
fn hms_simple() {
    let (hour, minute, second) = parse_hms("10:00:00").unwrap();
    assert_eq!(hour, Hour::Hours(vec![10]));
    assert_eq!(minute, Minute::Minutes(vec![0]));
    assert_eq!(second, Second::Seconds(vec![0]));
}

#[test]
fn hms_range() {
    let (hour, minute, second) = parse_hms("9..17:15..45:20..50").unwrap();
    assert_eq!(hour, Hour::Hours((9..=17).collect()));
    assert_eq!(minute, Minute::Minutes((15..=45).collect()));
    assert_eq!(second, Second::Seconds((20..=50).collect()));
}

#[test]
fn hms_simple_repetition() {
    let (hour, minute, second) = parse_hms("0/2:0/3:0/4").unwrap();
    assert_eq!(hour, Hour::Hours((0..HOURS_PER_DAY).step_by(2).collect()));
    assert_eq!(
        minute,
        Minute::Minutes((0..MINUTES_PER_HOUR).step_by(3).collect())
    );
    assert_eq!(
        second,
        Second::Seconds((0..SECONDS_PER_MINUTE).step_by(4).collect())
    );
}

#[test]
fn hms_range_repetition() {
    let (hour, minute, second) = parse_hms("9..17/2:12..44/4:20..50/4").unwrap();
    assert_eq!(hour, Hour::Hours((9..=17).step_by(2).collect()));
    assert_eq!(minute, Minute::Minutes((12..=44).step_by(4).collect()));
    assert_eq!(second, Second::Seconds((20..=50).step_by(4).collect()));
}

#[test]
fn random() {
    let (hour, minute, second) = parse_hms("R:R:R").unwrap();

    if let Hour::Hours(vals) = hour {
        assert_eq!(vals.len(), 1);
        assert!(vals[0] < 24);
    } else {
        panic!("This isn't the correct kind of hour");
    }
    if let Minute::Minutes(vals) = minute {
        assert_eq!(vals.len(), 1);
        assert!(vals[0] < 60);
    } else {
        panic!("This isn't the correct kind of minute");
    }
    if let Second::Seconds(vals) = second {
        assert_eq!(vals.len(), 1);
        assert!(vals[0] < 60);
    } else {
        panic!("This isn't the correct kind of second");
    }
}

#[test]
fn invalid_hour_range() {
    match parse_hms("17..9:00:00") {
        Ok(_) => panic!("this time should be invalid"),
        Err(e) => assert_eq!(e.message(), "invalid range: '17..9'"),
    }
}

// --- year, month, day ---

#[test]
fn ymd_simple() {
    let (year, month, day) = parse_date("1976-03-22").unwrap();
    assert_eq!(year, Year::Year(1976));
    assert_eq!(month, Month::Months(vec![3]));
    assert_eq!(day, Day::Days(vec![22]));
}

#[test]
fn ymd_range() {
    let (year, month, day) = parse_date("1976-03..07-10..20").unwrap();
    assert_eq!(year, Year::Year(1976));
    assert_eq!(month, Month::Months((3..=7).collect()));
    assert_eq!(day, Day::Days((10..=20).collect()));
}

#[test]
fn ymd_simple_repetition() {
    let (year, month, day) = parse_date("1976-01/2-01/3").unwrap();
    assert_eq!(year, Year::Year(1976));
    assert_eq!(
        month,
        Month::Months((1..MONTHS_PER_YEAR).step_by(2).collect())
    );
    assert_eq!(day, Day::Days((1..DAYS_PER_MONTH).step_by(3).collect()));
}

#[test]
fn ymd_range_repetition() {
    let (year, month, day) = parse_date("1976-03..09/2-10..20/3").unwrap();
    assert_eq!(year, Year::Year(1976));
    assert_eq!(month, Month::Months((3..=9).step_by(2).collect()));
    assert_eq!(day, Day::Days((10..=20).step_by(3).collect()));
}

#[test]
fn ymd_funky() {
    let (year, month, day) = parse_date("1976-01,03..09/2,10..12-10..20/3").unwrap();
    assert_eq!(year, Year::Year(1976));
    assert_eq!(month, Month::Months(vec![1, 3, 5, 7, 9, 10, 11, 12]));
    assert_eq!(day, Day::Days((10..=20).step_by(3).collect()));
}

#[test]
fn year_matching_works() {
    let years = Year::Range(2022, 2024);
    assert!(!years.matches(2021));
    assert!(years.matches(2022));
    assert!(years.matches(2023));
    assert!(years.matches(2024));
    assert!(!years.matches(2025));
}

#[test]
fn month_matching_works() {
    let months = Month::Months(vec![1, 3, 7]);
    assert!(months.matches(1));
    assert!(!months.matches(2));
    assert!(months.matches(3));
    assert!(!months.matches(4));
    assert!(!months.matches(5));
    assert!(!months.matches(6));
    assert!(months.matches(7));
    assert!(!months.matches(8));
    assert!(!months.matches(9));
    assert!(!months.matches(10));
    assert!(!months.matches(11));
    assert!(!months.matches(12));
}

#[test]
fn day_matching_works() {
    let days = Day::Days(vec![10, 11, 12]);
    assert!(!days.matches(9));
    assert!(days.matches(10));
    assert!(days.matches(11));
    assert!(days.matches(12));
    assert!(!days.matches(13));
}

// --- whole calendar strings ---

#[test]
fn invalid_calendar() {
    match parse_calendar("this is a bad calendar") {
        Ok(_) => panic!("this should be a bad calendar"),
        Err(e) => assert_eq!(
            e.message(),
            "invalid calendar string: 'this is a bad calendar'"
        ),
    }
}

#[test]
fn minutely() {
    let res = parse_calendar("minutely").unwrap();
    let expected = Realtime::new(
        DayOfWeek::All,
        Year::All,
        Month::All,
        Day::All,
        Hour::All,
        Minute::All,
        Second::Seconds(vec![0]),
    );
    assert_eq!(res, expected);
}

#[test]
fn hourly() {
    let res = parse_calendar("hourly").unwrap();
    let expected = Realtime::new(
        DayOfWeek::All,
        Year::All,
        Month::All,
        Day::All,
        Hour::All,
        Minute::Minutes(vec![0]),
        Second::Seconds(vec![0]),
    );
    assert_eq!(res, expected);
}

#[test]
fn daily() {
    let res = parse_calendar("daily").unwrap();
    let expected = Realtime::new(
        DayOfWeek::All,
        Year::All,
        Month::All,
        Day::All,
        Hour::Hours(vec![0]),
        Minute::Minutes(vec![0]),
        Second::Seconds(vec![0]),
    );
    assert_eq!(res, expected);
}

#[test]
fn weekly() {
    let res = parse_calendar("weekly").unwrap();
    let expected = Realtime::new(
        DayOfWeek::Days(vec![1]),
        Year::All,
        Month::All,
        Day::All,
        Hour::Hours(vec![0]),
        Minute::Minutes(vec![0]),
        Second::Seconds(vec![0]),
    );
    assert_eq!(res, expected);
}

#[test]
fn monthly() {
    let res = parse_calendar("monthly").unwrap();
    let expected = Realtime::new(
        DayOfWeek::All,
        Year::All,
        Month::All,
        Day::Days(vec![1]),
        Hour::Hours(vec![0]),
        Minute::Minutes(vec![0]),
        Second::Seconds(vec![0]),
    );
    assert_eq!(res, expected);
}

#[test]
fn quarterly() {
    let res = parse_calendar("quarterly").unwrap();
    let expected = Realtime::new(
        DayOfWeek::All,
        Year::All,
        Month::Months(vec![1, 4, 7, 10]),
        Day::Days(vec![1]),
        Hour::Hours(vec![0]),
        Minute::Minutes(vec![0]),
        Second::Seconds(vec![0]),
    );
    assert_eq!(res, expected);
}

#[test]
fn semiannually() {
    let res = parse_calendar("semiannually").unwrap();
    let expected = Realtime::new(
        DayOfWeek::All,
        Year::All,
        Month::Months(vec![1, 7]),
        Day::Days(vec![1]),
        Hour::Hours(vec![0]),
        Minute::Minutes(vec![0]),
        Second::Seconds(vec![0]),
    );
    assert_eq!(res, expected);
}

#[test]
fn yearly() {
    let res = parse_calendar("yearly").unwrap();
    let expected = Realtime::new(
        DayOfWeek::All,
        Year::All,
        Month::Months(vec![1]),
        Day::Days(vec![1]),
        Hour::Hours(vec![0]),
        Minute::Minutes(vec![0]),
        Second::Seconds(vec![0]),
    );
    assert_eq!(res, expected);
}

#[test]
fn no_day_of_week() {
    let res = parse_calendar("*-*-* 3:00:00").unwrap();
    let expected = Realtime::new(
        DayOfWeek::All,
        Year::All,
        Month::All,
        Day::All,
        Hour::Hours(vec![3]),
        Minute::Minutes(vec![0]),
        Second::Seconds(vec![0]),
    );
    assert_eq!(res, expected);
}

#[test]
fn full_calendar() {
    let res = parse_calendar("Mon..Fri *-*-* 3:22:17").unwrap();
    let expected = Realtime::new(
        DayOfWeek::Days((1..=5).collect()),
        Year::All,
        Month::All,
        Day::All,
        Hour::Hours(vec![3]),
        Minute::Minutes(vec![22]),
        Second::Seconds(vec![17]),
    );
    assert_eq!(res, expected);
}

#[test]
fn mod_funky() {
    let res = parse_calendar("Mon..Thu,Sun,Sat *-*-* 3..7,10,0,14..18/2:22:17").unwrap();
    let expected = Realtime::new(
        DayOfWeek::Days(vec![0, 1, 2, 3, 4, 6]),
        Year::All,
        Month::All,
        Day::All,
        Hour::Hours(vec![0, 3, 4, 5, 6, 7, 10, 14, 16, 18]),
        Minute::Minutes(vec![22]),
        Second::Seconds(vec![17]),
    );
    assert_eq!(res, expected);
}

#[test]
fn invalid_date() {
    match parse_calendar("*-* 3:11:17") {
        Ok(_) => panic!("this should be a bad calendar"),
        Err(e) => assert_eq!(e.message(), "invalid date string: '*-*'"),
    }
}

#[test]
fn invalid_time() {
    match parse_calendar("*-*-* 12:00") {
        Ok(_) => panic!("this should be a bad calendar"),
        Err(e) => assert_eq!(e.message(), "invalid time string: '12:00'"),
    }
}

#[test]
fn should_run() {
    let rt = Realtime::new(
        DayOfWeek::All,
        Year::All,
        Month::All,
        Day::All,
        Hour::Hours(vec![4]),
        Minute::Minutes(vec![37]),
        Second::Seconds(vec![0]),
    );
    let moment = Moment {
        year: 2023,
        month: 2,
        day: 15,
        hour: 4,
        minute: 37,
        second: 0,
        day_of_week: 3,
    };
    assert!(rt.should_run(&moment));
}

#[test]
fn wildcard_calendar_matches_everything() {
    let rt = parse_calendar("*-*-* *:*:*").unwrap();
    assert_eq!(rt, all_realtime());
    let moments = [
        Moment {
            year: 1999,
            month: 12,
            day: 31,
            hour: 23,
            minute: 59,
            second: 59,
            day_of_week: 5,
        },
        Moment {
            year: 2024,
            month: 2,
            day: 29,
            hour: 0,
            minute: 0,
            second: 0,
            day_of_week: 4,
        },
    ];
    for m in moments {
        assert!(rt.should_run(&m));
    }
}

#[test]
fn workday_morning_calendar() {
    let rt = parse_calendar("Mon..Fri *-*-* 09:00:00").unwrap();
    let mut at_nine = Moment {
        year: 2023,
        month: 6,
        day: 12,
        hour: 9,
        minute: 0,
        second: 0,
        day_of_week: 1,
    };
    assert!(rt.should_run(&at_nine));
    at_nine.day_of_week = 5;
    assert!(rt.should_run(&at_nine));
    at_nine.day_of_week = 0;
    assert!(!rt.should_run(&at_nine));
    at_nine.day_of_week = 6;
    assert!(!rt.should_run(&at_nine));
    at_nine.day_of_week = 2;
    at_nine.second = 1;
    assert!(!rt.should_run(&at_nine));
}

#[test]
fn random_calendar_runs_once_a_day() {
    let rt = parse_calendar("R:R:R").unwrap();
    let mut count = 0u32;
    for hour in 0..24u8 {
        for minute in 0..60u8 {
            for second in 0..60u8 {
                let m = Moment {
                    year: 2023,
                    month: 3,
                    day: 4,
                    hour,
                    minute,
                    second,
                    day_of_week: 6,
                };
                if rt.should_run(&m) {
                    count += 1;
                }
            }
        }
    }
    assert_eq!(count, 1);
}
