use scrollcal::calendar::{
    day_title_string, dedup_adjacent_events, format_end, format_start, info_line_text, succ,
    timestamp_lt, weekday, weekday_sigil, CalendarEvent, CivilDate, NowInfo, Timestamp, Weekday,
};

fn d(year: i32, month: u8, day: u8) -> CivilDate {
    CivilDate { year, month, day }
}

fn ts(year: i32, month: u8, day: u8, hour: u8, minute: u8) -> Timestamp {
    Timestamp { date: d(year, month, day), hour, minute }
}

fn ev(start: Timestamp, end: Option<Timestamp>, body: &str) -> CalendarEvent {
    CalendarEvent { start_time: start, end_time: end, body: body.to_owned() }
}

#[test]
fn weekday_known_dates() {
    assert_eq!(weekday(&d(2020, 5, 30)), Weekday::Sat);
    assert_eq!(weekday(&d(1970, 1, 1)), Weekday::Thu);
    assert_eq!(weekday(&d(2000, 3, 1)), Weekday::Wed);
    assert_eq!(weekday(&d(2026, 10, 11)), Weekday::Sun);
}

#[test]
fn weekday_sigils() {
    assert_eq!(weekday_sigil(Weekday::Mon), "月");
    assert_eq!(weekday_sigil(Weekday::Sat), "土");
    assert_eq!(weekday_sigil(Weekday::Sun), "日");
}

#[test]
fn successor_dates() {
    assert_eq!(succ(&d(2020, 2, 28)), d(2020, 2, 29));
    assert_eq!(succ(&d(2021, 2, 28)), d(2021, 3, 1));
    assert_eq!(succ(&d(2020, 12, 31)), d(2021, 1, 1));
    assert_eq!(succ(&d(2020, 5, 30)), d(2020, 5, 31));
}

#[test]
fn start_label() {
    let e = ev(ts(2020, 5, 30, 9, 5), None, "x");
    assert_eq!(format_start(&e), "09:05");
}

#[test]
fn end_label_same_day() {
    let e = ev(ts(2020, 5, 30, 9, 0), Some(ts(2020, 5, 30, 12, 34)), "x");
    assert_eq!(format_end(&e).unwrap(), "~12:34");
}

#[test]
fn end_label_next_day_early_hours() {
    // Ending at 02:00 the next calendar day reads as hour 26 of today.
    let e = ev(ts(2020, 5, 30, 23, 0), Some(ts(2020, 5, 31, 2, 0)), "x");
    assert_eq!(format_end(&e).unwrap(), "~26:00");
}

#[test]
fn end_label_next_day_late_hours() {
    // Past the 03:00 cutoff the next day carries the tomorrow marker.
    let e = ev(ts(2020, 5, 30, 23, 0), Some(ts(2020, 5, 31, 9, 0)), "x");
    assert_eq!(format_end(&e).unwrap(), "~翌09:00");
}

#[test]
fn end_label_cutoff_boundary() {
    // 03:xx still counts as a continuation of today; 04:00 does not.
    let e = ev(ts(2020, 5, 30, 23, 0), Some(ts(2020, 5, 31, 3, 59)), "x");
    assert_eq!(format_end(&e).unwrap(), "~27:59");
    let e = ev(ts(2020, 5, 30, 23, 0), Some(ts(2020, 5, 31, 4, 0)), "x");
    assert_eq!(format_end(&e).unwrap(), "~翌04:00");
}

#[test]
fn end_label_generic_span() {
    // 2020-06-02 was a Tuesday.
    let e = ev(ts(2020, 5, 30, 23, 0), Some(ts(2020, 6, 2, 9, 0)), "x");
    assert_eq!(format_end(&e).unwrap(), "~06/02 (火) 09:00");
}

#[test]
fn end_label_absent() {
    let e = ev(ts(2020, 5, 30, 9, 0), None, "x");
    assert!(format_end(&e).is_none());
}

#[test]
fn timestamp_order() {
    assert!(timestamp_lt(&ts(2020, 5, 30, 9, 0), &ts(2020, 5, 30, 9, 1)));
    assert!(timestamp_lt(&ts(2020, 5, 30, 23, 59), &ts(2020, 5, 31, 0, 0)));
    assert!(!timestamp_lt(&ts(2020, 5, 30, 9, 0), &ts(2020, 5, 30, 9, 0)));
    assert!(!timestamp_lt(&ts(2021, 1, 1, 0, 0), &ts(2020, 12, 31, 23, 59)));
}

#[test]
fn day_title() {
    assert_eq!(day_title_string(&d(2020, 5, 30)), "05/30 (土)");
}

#[test]
fn info_line() {
    let n = NowInfo { ts: ts(2020, 5, 30, 12, 34), second: 56, tz_offset_seconds: 9 * 3600 };
    assert_eq!(info_line_text(&n, "TEST"), "2020-05-30T12:34:56+09:00 TEST");
    let n = NowInfo { ts: ts(2020, 5, 30, 12, 34), second: 6, tz_offset_seconds: -5 * 3600 };
    assert_eq!(info_line_text(&n, "DEVEL"), "2020-05-30T12:34:06-05:00 DEVEL");
}

#[test]
fn adjacent_duplicates_collapse() {
    let a = ev(ts(2020, 5, 30, 9, 0), Some(ts(2020, 5, 30, 10, 0)), "meeting");
    let a2 = ev(ts(2020, 5, 30, 9, 0), Some(ts(2020, 5, 30, 10, 0)), "meeting");
    let b = ev(ts(2020, 5, 30, 11, 0), None, "other");
    let out = dedup_adjacent_events(vec![a.clone(), a2, b.clone()]);
    assert_eq!(out.len(), 2);
    assert_eq!(out[0].body, "meeting");
    assert_eq!(out[1].body, "other");
}

#[test]
fn dedup_keeps_non_adjacent_repeats() {
    let a = ev(ts(2020, 5, 30, 9, 0), None, "m");
    let b = ev(ts(2020, 5, 30, 11, 0), None, "o");
    let a2 = ev(ts(2020, 5, 30, 9, 0), None, "m");
    let out = dedup_adjacent_events(vec![a, b, a2]);
    assert_eq!(out.len(), 3);
}

#[test]
fn dedup_collapses_runs() {
    let a = ev(ts(2020, 5, 30, 9, 0), None, "m");
    let out = dedup_adjacent_events(vec![a.clone(), a.clone(), a.clone()]);
    assert_eq!(out.len(), 1);
}

#[test]
fn current_info_line_reflects_the_clock() {
    let (now, line) = scrollcal::pipeline::current_info_line("TEST");
    assert!(line.ends_with(" TEST"));
    assert!((1..=12).contains(&now.ts.date.month));
    assert!((1..=31).contains(&now.ts.date.day));
    assert!(now.ts.hour < 24);
    assert!(now.ts.minute < 60);
    assert!(now.second < 60);
    assert!(now.tz_offset_seconds.abs() < 86400);
    // With a four-digit year the date-time separator sits at a fixed spot.
    assert_eq!(line.chars().nth(10), Some('T'));
}

#[test]
fn weekday_cycles_with_successor() {
    // Forty days starting just before a leap day, crossing two month
    // boundaries.
    let mut date = d(2024, 2, 27);
    let mut wd = weekday(&date);
    for _ in 0..40 {
        let next = succ(&date);
        let nwd = weekday(&next);
        let expect = match wd {
            Weekday::Mon => Weekday::Tue,
            Weekday::Tue => Weekday::Wed,
            Weekday::Wed => Weekday::Thu,
            Weekday::Thu => Weekday::Fri,
            Weekday::Fri => Weekday::Sat,
            Weekday::Sat => Weekday::Sun,
            Weekday::Sun => Weekday::Mon,
        };
        assert_eq!(nwd, expect);
        date = next;
        wd = nwd;
    }
    assert_eq!(date, d(2024, 4, 7));
}
