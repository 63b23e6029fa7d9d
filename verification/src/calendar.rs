use vstd::prelude::*;

use crate::error::spec_decimal;
use crate::error::spec_digit_char;
use crate::error::digit_str;
use crate::error::u64_to_string;

verus! {

/// A calendar date as plain values, the library's own stand-in for the
/// timezone-carrying date of the feed.
#[derive(Clone, Copy, Debug, PartialEq, Eq, Structural)]
pub struct CivilDate {
    pub year: i32,
    pub month: u8,
    pub day: u8,
}

/// A wall-clock instant in the display's local time, to minute precision.
#[derive(Clone, Copy, Debug, PartialEq, Eq, Structural)]
pub struct Timestamp {
    pub date: CivilDate,
    pub hour: u8,
    pub minute: u8,
}

#[derive(Clone, Copy, Debug, PartialEq, Eq, Structural)]
pub enum Weekday {
    Mon,
    Tue,
    Wed,
    Thu,
    Fri,
    Sat,
    Sun,
}

/// One entry of the feed: when it starts, when it ends if known, and the
/// text shown for it.  Equality of all three is what deduplicates
/// adjacent identical events on the same day.
#[derive(Clone, Debug, PartialEq)]
pub struct CalendarEvent {
    pub start_time: Timestamp,
    pub end_time: Option<Timestamp>,
    pub body: String,
}

/// A day of the feed with its events in chronological order.
#[derive(Clone, Debug)]
pub struct CalendarDay {
    pub date: CivilDate,
    pub events: Vec<CalendarEvent>,
}

pub open spec fn spec_is_leap_year(y: int) -> bool {
    y % 4 == 0 && (y % 100 != 0 || y % 400 == 0)
}

pub open spec fn spec_days_in_month(y: int, m: int) -> int {
    if m == 2 {
        if spec_is_leap_year(y) {
            29
        } else {
            28
        }
    } else if m == 4 || m == 6 || m == 9 || m == 11 {
        30
    } else {
        31
    }
}

pub open spec fn spec_date_valid(d: CivilDate) -> bool {
    &&& 1 <= d.year <= 9999
    &&& 1 <= d.month <= 12
    &&& 1 <= d.day <= spec_days_in_month(d.year as int, d.month as int)
}

pub open spec fn spec_timestamp_valid(t: Timestamp) -> bool {
    spec_date_valid(t.date) && t.hour < 24 && t.minute < 60
}

pub open spec fn spec_event_valid(e: CalendarEvent) -> bool {
    spec_timestamp_valid(e.start_time) && match e.end_time {
        Some(t) => spec_timestamp_valid(t),
        None => true,
    }
}

pub fn is_leap_year(y: i32) -> (r: bool)
    ensures
        r == spec_is_leap_year(y as int),
{
    y % 4 == 0 && (y % 100 != 0 || y % 400 == 0)
}

pub fn days_in_month(y: i32, m: u8) -> (r: u8)
    ensures
        r == spec_days_in_month(y as int, m as int),
{
    if m == 2 {
        if is_leap_year(y) {
            29
        } else {
            28
        }
    } else if m == 4 || m == 6 || m == 9 || m == 11 {
        30
    } else {
        31
    }
}

pub fn date_valid(d: &CivilDate) -> (r: bool)
    ensures
        r == spec_date_valid(*d),
{
    1 <= d.year && d.year <= 9999 && 1 <= d.month && d.month <= 12 && 1 <= d.day && d.day
        <= days_in_month(d.year, d.month)
}

pub fn timestamp_valid(t: &Timestamp) -> (r: bool)
    ensures
        r == spec_timestamp_valid(*t),
{
    date_valid(&t.date) && t.hour < 24 && t.minute < 60
}

pub fn event_valid(e: &CalendarEvent) -> (r: bool)
    ensures
        r == spec_event_valid(*e),
{
    if !timestamp_valid(&e.start_time) {
        return false;
    }
    match &e.end_time {
        Some(t) => timestamp_valid(t),
        None => true,
    }
}

/// Days elapsed since the civil epoch 0000-03-01, counting the date
/// itself; March is taken as the first month of the shifted year so that
/// the leap day falls at the year's end.
pub open spec fn spec_day_number(d: CivilDate) -> int {
    let y = if d.month <= 2 {
        d.year - 1
    } else {
        d.year as int
    };
    let era = y / 400;
    let yoe = y - era * 400;
    let mp = if d.month > 2 {
        d.month - 3
    } else {
        d.month + 9
    };
    let doy = (153 * mp + 2) / 5 + d.day - 1;
    let doe = yoe * 365 + yoe / 4 - yoe / 100 + doy;
    era * 146097 + doe
}

/// The weekday of a date, from its day number; the civil epoch
/// 0000-03-01 was a Wednesday.
pub open spec fn spec_weekday_index(d: CivilDate) -> int {
    (spec_day_number(d) + 2) % 7
}

pub open spec fn spec_weekday(d: CivilDate) -> Weekday {
    let i = spec_weekday_index(d);
    if i == 0 {
        Weekday::Mon
    } else if i == 1 {
        Weekday::Tue
    } else if i == 2 {
        Weekday::Wed
    } else if i == 3 {
        Weekday::Thu
    } else if i == 4 {
        Weekday::Fri
    } else if i == 5 {
        Weekday::Sat
    } else {
        Weekday::Sun
    }
}

pub fn day_number(d: &CivilDate) -> (r: u32)
    requires
        spec_date_valid(*d),
    ensures
        r == spec_day_number(*d),
{
    let y: i32 = if d.month <= 2 {
        d.year - 1
    } else {
        d.year
    };
    let era: i32 = y / 400;
    let yoe: u32 = (y - era * 400) as u32;
    let mp: u32 = if d.month > 2 {
        (d.month - 3) as u32
    } else {
        (d.month + 9) as u32
    };
    let doy: u32 = (153 * mp + 2) / 5 + (d.day as u32) - 1;
    let doe: u32 = yoe * 365 + yoe / 4 - yoe / 100 + doy;
    (era as u32) * 146097 + doe
}

pub fn weekday(d: &CivilDate) -> (r: Weekday)
    requires
        spec_date_valid(*d),
    ensures
        r == spec_weekday(*d),
{
    let n = day_number(d);
    let i = (n + 2) % 7;
    if i == 0 {
        Weekday::Mon
    } else if i == 1 {
        Weekday::Tue
    } else if i == 2 {
        Weekday::Wed
    } else if i == 3 {
        Weekday::Thu
    } else if i == 4 {
        Weekday::Fri
    } else if i == 5 {
        Weekday::Sat
    } else {
        Weekday::Sun
    }
}

/// The next calendar day.
pub open spec fn spec_succ(d: CivilDate) -> CivilDate {
    if d.day < spec_days_in_month(d.year as int, d.month as int) {
        CivilDate { year: d.year, month: d.month, day: (d.day + 1) as u8 }
    } else if d.month < 12 {
        CivilDate { year: d.year, month: (d.month + 1) as u8, day: 1 }
    } else {
        CivilDate { year: (d.year + 1) as i32, month: 1, day: 1 }
    }
}

pub fn succ(d: &CivilDate) -> (r: CivilDate)
    requires
        spec_date_valid(*d),
    ensures
        r == spec_succ(*d),
{
    if d.day < days_in_month(d.year, d.month) {
        CivilDate { year: d.year, month: d.month, day: d.day + 1 }
    } else if d.month < 12 {
        CivilDate { year: d.year, month: d.month + 1, day: 1 }
    } else {
        CivilDate { year: d.year + 1, month: 1, day: 1 }
    }
}

/// Stepping from the last of February into March advances the civil day
/// number by exactly one: the leap rules of the month table and of the
/// era arithmetic agree.
proof fn lemma_feb_to_mar(y: int)
    requires
        1 <= y <= 9999,
    ensures
        spec_day_number(CivilDate { year: y as i32, month: 3, day: 1 }) == spec_day_number(
            CivilDate {
                year: y as i32,
                month: 2,
                day: spec_days_in_month(y, 2) as u8,
            },
        ) + 1,
{
    let y1 = y - 1;
    vstd::arithmetic::div_mod::lemma_fundamental_div_mod(y1, 400);
    vstd::arithmetic::div_mod::lemma_mod_bound(y1, 400);
    let era1 = y1 / 400;
    let yoe1 = y1 - era1 * 400;
    assert(yoe1 == y1 % 400);
    vstd::arithmetic::div_mod::lemma_fundamental_div_mod(yoe1, 4);
    vstd::arithmetic::div_mod::lemma_mod_bound(yoe1, 4);
    vstd::arithmetic::div_mod::lemma_fundamental_div_mod(yoe1, 100);
    vstd::arithmetic::div_mod::lemma_mod_bound(yoe1, 100);
    let q4 = yoe1 / 4;
    let r4 = yoe1 % 4;
    let q100 = yoe1 / 100;
    let r100 = yoe1 % 100;
    if yoe1 < 399 {
        vstd::arithmetic::div_mod::lemma_fundamental_div_mod_converse(y, 400, era1, yoe1 + 1);
        assert(y == 4 * (100 * era1) + (yoe1 + 1));
        vstd::arithmetic::div_mod::lemma_mod_multiples_vanish(100 * era1, yoe1 + 1, 4);
        assert(y == 100 * (4 * era1) + (yoe1 + 1));
        vstd::arithmetic::div_mod::lemma_mod_multiples_vanish(4 * era1, yoe1 + 1, 100);
        assert(y % 4 == (yoe1 + 1) % 4);
        assert(y % 100 == (yoe1 + 1) % 100);
        if r4 == 3 {
            vstd::arithmetic::div_mod::lemma_fundamental_div_mod_converse(yoe1 + 1, 4, q4 + 1, 0);
        } else {
            vstd::arithmetic::div_mod::lemma_fundamental_div_mod_converse(yoe1 + 1, 4, q4, r4 + 1);
        }
        if r100 == 99 {
            vstd::arithmetic::div_mod::lemma_fundamental_div_mod_converse(
                yoe1 + 1,
                100,
                q100 + 1,
                0,
            );
        } else {
            vstd::arithmetic::div_mod::lemma_fundamental_div_mod_converse(
                yoe1 + 1,
                100,
                q100,
                r100 + 1,
            );
        }
    } else {
        vstd::arithmetic::div_mod::lemma_fundamental_div_mod_converse(y, 400, era1 + 1, 0);
        assert(y == 4 * (100 * (era1 + 1)) + 0);
        vstd::arithmetic::div_mod::lemma_mod_multiples_vanish(100 * (era1 + 1), 0, 4);
        assert(y == 100 * (4 * (era1 + 1)) + 0);
        vstd::arithmetic::div_mod::lemma_mod_multiples_vanish(4 * (era1 + 1), 0, 100);
        vstd::arithmetic::div_mod::lemma_mod_multiples_vanish(era1 + 1, 0, 400);
        assert(y % 400 == 0);
    }
}

/// The next calendar day is the next day number: the month-table and
/// day-number views of the calendar agree, so in particular weekdays
/// advance cyclically.
pub proof fn lemma_succ_day_number(d: CivilDate)
    requires
        spec_date_valid(d),
    ensures
        spec_day_number(spec_succ(d)) == spec_day_number(d) + 1,
{
    let dim = spec_days_in_month(d.year as int, d.month as int);
    if d.day < dim {
    } else if d.month == 2 {
        lemma_feb_to_mar(d.year as int);
    } else {
    }
}

/// Weekdays advance cyclically with the calendar: the next day's
/// weekday index is one step around the seven-day wheel.
pub proof fn lemma_weekday_advances(d: CivilDate)
    requires
        spec_date_valid(d),
    ensures
        spec_weekday_index(spec_succ(d)) == (spec_weekday_index(d) + 1) % 7,
{
    lemma_succ_day_number(d);
    let n = spec_day_number(d);
    vstd::arithmetic::div_mod::lemma_add_mod_noop(n + 2, 1, 7);
    vstd::arithmetic::div_mod::lemma_mod_bound(n + 2, 7);
    vstd::arithmetic::div_mod::lemma_small_mod(1, 7);
    vstd::arithmetic::div_mod::lemma_mod_twice(n + 2, 7);
}

/// Strict instant order on timestamps: by date, then hour, then minute.
pub open spec fn spec_ts_lt(a: Timestamp, b: Timestamp) -> bool {
    let da = (a.date.year, a.date.month, a.date.day, a.hour, a.minute);
    let db = (b.date.year, b.date.month, b.date.day, b.hour, b.minute);
    if a.date.year != b.date.year {
        a.date.year < b.date.year
    } else if a.date.month != b.date.month {
        a.date.month < b.date.month
    } else if a.date.day != b.date.day {
        a.date.day < b.date.day
    } else if a.hour != b.hour {
        a.hour < b.hour
    } else {
        a.minute < b.minute
    }
}

pub fn timestamp_lt(a: &Timestamp, b: &Timestamp) -> (r: bool)
    ensures
        r == spec_ts_lt(*a, *b),
{
    if a.date.year != b.date.year {
        a.date.year < b.date.year
    } else if a.date.month != b.date.month {
        a.date.month < b.date.month
    } else if a.date.day != b.date.day {
        a.date.day < b.date.day
    } else if a.hour != b.hour {
        a.hour < b.hour
    } else {
        a.minute < b.minute
    }
}

/// Two decimal digits, zero padded.
pub open spec fn spec_two_digits(n: nat) -> Seq<char> {
    seq![spec_digit_char(n / 10), spec_digit_char(n % 10)]
}

pub fn two_digits(n: u8) -> (r: String)
    requires
        n < 100,
    ensures
        r@ == spec_two_digits(n as nat),
{
    let mut s = digit_str((n / 10) as u64).to_owned();
    s.append(digit_str((n % 10) as u64));
    proof {
        assert(s@ =~= spec_two_digits(n as nat));
    }
    s
}

/// The "HH:MM" form of a time of day.
pub open spec fn spec_hm(h: nat, m: nat) -> Seq<char> {
    spec_two_digits(h) + seq![':'] + spec_two_digits(m)
}

pub fn format_hm(h: u8, m: u8) -> (r: String)
    requires
        h < 100,
        m < 100,
    ensures
        r@ == spec_hm(h as nat, m as nat),
{
    proof {
        reveal_strlit(":");
    }
    let mut s = two_digits(h);
    s.append(":");
    s.append(two_digits(m).as_str());
    proof {
        assert(s@ =~= spec_hm(h as nat, m as nat));
    }
    s
}

/// The single-character weekday sigil shown beside dates.
pub open spec fn spec_sigil(wd: Weekday) -> char {
    match wd {
        Weekday::Mon => '月',
        Weekday::Tue => '火',
        Weekday::Wed => '水',
        Weekday::Thu => '木',
        Weekday::Fri => '金',
        Weekday::Sat => '土',
        Weekday::Sun => '日',
    }
}

pub fn weekday_sigil(wd: Weekday) -> (r: &'static str)
    ensures
        r@ == seq![spec_sigil(wd)],
{
    proof {
        reveal_strlit("月");
        reveal_strlit("火");
        reveal_strlit("水");
        reveal_strlit("木");
        reveal_strlit("金");
        reveal_strlit("土");
        reveal_strlit("日");
    }
    let r: &'static str = match wd {
        Weekday::Mon => "月",
        Weekday::Tue => "火",
        Weekday::Wed => "水",
        Weekday::Thu => "木",
        Weekday::Fri => "金",
        Weekday::Sat => "土",
        Weekday::Sun => "日",
    };
    proof {
        assert(r@ =~= seq![spec_sigil(wd)]);
    }
    r
}

/// A wall-clock reading: the instant to minute precision, plus the
/// seconds and the local timezone offset needed for the info line.
#[derive(Clone, Copy, Debug, PartialEq, Eq, Structural)]
pub struct NowInfo {
    pub ts: Timestamp,
    pub second: u8,
    pub tz_offset_seconds: i32,
}

pub open spec fn spec_now_valid(n: NowInfo) -> bool {
    &&& 1 <= n.ts.date.month <= 12
    &&& 1 <= n.ts.date.day <= 31
    &&& n.ts.hour < 24
    &&& n.ts.minute < 60
    &&& n.second < 60
    &&& -86400 < n.tz_offset_seconds < 86400
}

/// The ISO-8601 rendering of a wall-clock reading followed by the
/// build/branch label: "YYYY-MM-DDTHH:MM:SS+HH:MM LABEL".
pub open spec fn spec_info_line(n: NowInfo, branch: Seq<char>) -> Seq<char> {
    let y = n.ts.date.year;
    let year_part = if y < 0 {
        seq!['-'] + spec_decimal((-y) as nat)
    } else {
        spec_decimal(y as nat)
    };
    let off = n.tz_offset_seconds;
    let sign = if off < 0 {
        seq!['-']
    } else {
        seq!['+']
    };
    let mins = if off < 0 {
        (-off) / 60
    } else {
        off as int / 60
    };
    year_part + seq!['-'] + spec_two_digits(n.ts.date.month as nat) + seq!['-'] + spec_two_digits(
        n.ts.date.day as nat,
    ) + seq!['T'] + spec_two_digits(n.ts.hour as nat) + seq![':'] + spec_two_digits(
        n.ts.minute as nat,
    ) + seq![':'] + spec_two_digits(n.second as nat) + sign + spec_two_digits((mins / 60) as nat)
        + seq![':'] + spec_two_digits((mins % 60) as nat) + seq![' '] + branch
}

/// Renders the info line shown in the footer.
pub fn info_line_text(n: &NowInfo, branch: &str) -> (r: String)
    requires
        spec_now_valid(*n),
    ensures
        r@ == spec_info_line(*n, branch@),
{
    proof {
        reveal_strlit("-");
        reveal_strlit("+");
        reveal_strlit("T");
        reveal_strlit(":");
        reveal_strlit(" ");
    }
    let y = n.ts.date.year;
    let mut out: String = if y < 0 {
        let mut o = "-".to_owned();
        let pos: u64 = (-(y as i64)) as u64;
        o.append(u64_to_string(pos).as_str());
        o
    } else {
        u64_to_string(y as u64)
    };
    out.append("-");
    out.append(two_digits(n.ts.date.month).as_str());
    out.append("-");
    out.append(two_digits(n.ts.date.day).as_str());
    out.append("T");
    out.append(two_digits(n.ts.hour).as_str());
    out.append(":");
    out.append(two_digits(n.ts.minute).as_str());
    out.append(":");
    out.append(two_digits(n.second).as_str());
    let off = n.tz_offset_seconds;
    let mins: i32 = if off < 0 {
        out.append("-");
        (-off) / 60
    } else {
        out.append("+");
        off / 60
    };
    out.append(two_digits((mins / 60) as u8).as_str());
    out.append(":");
    out.append(two_digits((mins % 60) as u8).as_str());
    out.append(" ");
    out.append(branch);
    proof {
        assert(out@ =~= spec_info_line(*n, branch@));
    }
    out
}

/// The day-header title: "MM/DD (sigil)".
pub open spec fn spec_day_title(d: CivilDate) -> Seq<char> {
    spec_two_digits(d.month as nat) + seq!['/'] + spec_two_digits(d.day as nat) + seq![' ', '(']
        + seq![spec_sigil(spec_weekday(d))] + seq![')']
}

pub fn day_title_string(d: &CivilDate) -> (r: String)
    requires
        spec_date_valid(*d),
    ensures
        r@ == spec_day_title(*d),
{
    proof {
        reveal_strlit("/");
        reveal_strlit(" (");
        reveal_strlit(")");
    }
    let mut out = two_digits(d.month);
    out.append("/");
    out.append(two_digits(d.day).as_str());
    out.append(" (");
    out.append(weekday_sigil(weekday(d)));
    out.append(")");
    proof {
        assert(out@ =~= spec_day_title(*d));
    }
    out
}

/// The start-time label of an event: its "HH:MM".
pub open spec fn spec_format_start(e: CalendarEvent) -> Seq<char> {
    spec_hm(e.start_time.hour as nat, e.start_time.minute as nat)
}

pub fn format_start(event: &CalendarEvent) -> (r: String)
    requires
        spec_timestamp_valid(event.start_time),
    ensures
        r@ == spec_format_start(*event),
{
    format_hm(event.start_time.hour, event.start_time.minute)
}

/// The end-time label: same day gives "~HH:MM"; ending the next day by
/// 03:00 treats the hour as a continuation of today, "~(HH+24):MM"; any
/// later hour of the next day is marked with the "tomorrow" character;
/// any longer span spells the date out as "~MM/DD (sigil) HH:MM".
pub open spec fn spec_format_end(e: CalendarEvent) -> Option<Seq<char>> {
    match e.end_time {
        None => None,
        Some(end) => {
            let s = e.start_time;
            if s.date == end.date {
                Some(seq!['~'] + spec_hm(end.hour as nat, end.minute as nat))
            } else if spec_succ(s.date) == end.date && end.hour <= 3 {
                Some(
                    seq!['~'] + spec_two_digits((end.hour + 24) as nat) + seq![':']
                        + spec_two_digits(end.minute as nat),
                )
            } else if spec_succ(s.date) == end.date {
                Some(seq!['~', '翌'] + spec_hm(end.hour as nat, end.minute as nat))
            } else {
                Some(
                    seq!['~'] + spec_two_digits(end.date.month as nat) + seq!['/']
                        + spec_two_digits(end.date.day as nat) + seq![' ', '('] + seq![
                        spec_sigil(spec_weekday(end.date)),
                    ] + seq![')', ' '] + spec_hm(end.hour as nat, end.minute as nat),
                )
            }
        },
    }
}

pub fn format_end(event: &CalendarEvent) -> (r: Option<String>)
    requires
        spec_event_valid(*event),
    ensures
        r.is_some() == spec_format_end(*event).is_some(),
        r.is_some() ==> r.unwrap()@ == spec_format_end(*event).unwrap(),
{
    proof {
        reveal_strlit("~");
        reveal_strlit(":");
        reveal_strlit("~翌");
        reveal_strlit("/");
        reveal_strlit(" (");
        reveal_strlit(") ");
    }
    let end = match &event.end_time {
        None => {
            return None;
        },
        Some(end) => *end,
    };
    let s = event.start_time;
    let same_date = s.date.year == end.date.year && s.date.month == end.date.month && s.date.day
        == end.date.day;
    if same_date {
        let mut out = "~".to_owned();
        out.append(format_hm(end.hour, end.minute).as_str());
        proof {
            assert(out@ =~= spec_format_end(*event).unwrap());
        }
        return Some(out);
    }
    let nxt = succ(&s.date);
    let next_date = nxt.year == end.date.year && nxt.month == end.date.month && nxt.day
        == end.date.day;
    if next_date && end.hour <= 3 {
        let mut out = "~".to_owned();
        out.append(two_digits(end.hour + 24).as_str());
        out.append(":");
        out.append(two_digits(end.minute).as_str());
        proof {
            assert(out@ =~= spec_format_end(*event).unwrap());
        }
        Some(out)
    } else if next_date {
        let mut out = "~翌".to_owned();
        out.append(format_hm(end.hour, end.minute).as_str());
        proof {
            assert(out@ =~= spec_format_end(*event).unwrap());
        }
        Some(out)
    } else {
        let mut out = "~".to_owned();
        out.append(two_digits(end.date.month).as_str());
        out.append("/");
        out.append(two_digits(end.date.day).as_str());
        out.append(" (");
        out.append(weekday_sigil(weekday(&end.date)));
        out.append(") ");
        out.append(format_hm(end.hour, end.minute).as_str());
        proof {
            assert(out@ =~= spec_format_end(*event).unwrap());
        }
        Some(out)
    }
}

/// Identity of events as the feed sees it: same start, same end, same
/// text.
pub open spec fn spec_event_eq(a: CalendarEvent, b: CalendarEvent) -> bool {
    a.start_time == b.start_time && a.end_time == b.end_time && a.body@ == b.body@
}

pub fn event_eq(a: &CalendarEvent, b: &CalendarEvent) -> (r: bool)
    ensures
        r == spec_event_eq(*a, *b),
{
    let starts = a.start_time.date.year == b.start_time.date.year && a.start_time.date.month
        == b.start_time.date.month && a.start_time.date.day == b.start_time.date.day
        && a.start_time.hour == b.start_time.hour && a.start_time.minute == b.start_time.minute;
    if !starts {
        return false;
    }
    let ends = match (&a.end_time, &b.end_time) {
        (None, None) => true,
        (Some(ea), Some(eb)) => {
            ea.date.year == eb.date.year && ea.date.month == eb.date.month && ea.date.day
                == eb.date.day && ea.hour == eb.hour && ea.minute == eb.minute
        },
        _ => false,
    };
    if !ends {
        return false;
    }
    a.body == b.body
}

/// The event list with every run of adjacent identical events collapsed
/// to its first element.
pub open spec fn spec_dedup(s: Seq<CalendarEvent>) -> Seq<CalendarEvent>
    decreases s.len(),
{
    if s.len() == 0 {
        Seq::empty()
    } else if s.len() == 1 {
        s
    } else {
        let r = spec_dedup(s.drop_last());
        if spec_event_eq(s[s.len() - 2], s.last()) {
            r
        } else {
            r.push(s.last())
        }
    }
}

/// The deduplicated list ends with an event identical to the input's
/// last.
pub proof fn lemma_dedup_last(s: Seq<CalendarEvent>)
    requires
        s.len() > 0,
    ensures
        spec_dedup(s).len() > 0,
        spec_event_eq(spec_dedup(s).last(), s.last()),
    decreases s.len(),
{
    if s.len() > 1 {
        lemma_dedup_last(s.drop_last());
    }
}

/// Adjacent duplicate suppression: after deduplication no two
/// neighbouring events are identical, so each run of equal adjacent
/// events contributes exactly one entry to what is laid out.
pub proof fn lemma_dedup_no_adjacent_duplicates(s: Seq<CalendarEvent>)
    ensures
        forall|i: int|
            0 <= i && i + 1 < spec_dedup(s).len() ==> !spec_event_eq(
                #[trigger] spec_dedup(s)[i],
                spec_dedup(s)[i + 1],
            ),
    decreases s.len(),
{
    if s.len() > 1 {
        lemma_dedup_no_adjacent_duplicates(s.drop_last());
        lemma_dedup_last(s.drop_last());
        let r = spec_dedup(s.drop_last());
        if !spec_event_eq(s[s.len() - 2], s.last()) {
            assert(spec_dedup(s) == r.push(s.last()));
            assert(forall|i: int|
                0 <= i && i + 1 < r.len() ==> !spec_event_eq(
                    #[trigger] r.push(s.last())[i],
                    r.push(s.last())[i + 1],
                ));
            assert(!spec_event_eq(r.push(s.last())[r.len() - 1], r.push(s.last())[r.len() as int]));
        }
    }
}

/// Collapses every run of adjacent identical events to one.
pub fn dedup_adjacent_events(events: Vec<CalendarEvent>) -> (r: Vec<CalendarEvent>)
    ensures
        r@ == spec_dedup(events@),
{
    let ghost orig = events@;
    let mut rest = events;
    let n = rest.len();
    let mut r: Vec<CalendarEvent> = Vec::new();
    let mut i: usize = 0;
    while rest.len() > 0
        invariant
            orig.len() == n,
            i + rest@.len() == orig.len(),
            rest@ == orig.skip(i as int),
            r@ == spec_dedup(orig.take(i as int)),
        decreases rest@.len(),
    {
        let e = rest.remove(0);
        proof {
            assert(e == orig[i as int]);
            assert(orig.take(i + 1).drop_last() =~= orig.take(i as int));
            assert(orig.take(i + 1).last() == orig[i as int]);
            if i > 0 {
                assert(orig.take(i + 1)[orig.take(i + 1).len() - 2] == orig[i - 1]);
                lemma_dedup_last(orig.take(i as int));
                assert(orig.take(i as int).last() == orig[i - 1]);
            }
            assert(rest@ =~= orig.skip(i + 1));
        }
        if r.len() == 0 {
            r.push(e);
        } else {
            let keep = !event_eq(&r[r.len() - 1], &e);
            if keep {
                r.push(e);
            }
        }
        i = i + 1;
    }
    proof {
        assert(orig.take(orig.len() as int) =~= orig);
    }
    r
}

} // verus!
