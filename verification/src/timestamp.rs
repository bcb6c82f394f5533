//! Calendar timestamps as plain values: validity of the fields, a total
//! order through a seconds count from a fixed origin, and the epoch
//! sentinel used when a log file offers no usable time at all.
use vstd::prelude::*;

verus! {

/// A wall-clock timestamp, second precision, proleptic Gregorian calendar.
/// Years are restricted to four digits, which covers everything a log line
/// can spell.
#[derive(Clone, Copy, PartialEq, Eq, Structural, Debug)]
pub struct Timestamp {
    pub year: u32,
    pub month: u32,
    pub day: u32,
    pub hour: u32,
    pub minute: u32,
    pub second: u32,
}

pub open spec fn is_leap_year(y: int) -> bool {
    (y % 4 == 0 && y % 100 != 0) || y % 400 == 0
}

pub open spec fn days_in_month(y: int, m: int) -> int {
    if m == 2 {
        if is_leap_year(y) {
            29
        } else {
            28
        }
    } else if m == 4 || m == 6 || m == 9 || m == 11 {
        30
    } else {
        31
    }
}

/// Days in the months strictly before `m` of a year with the given leap flag.
pub open spec fn days_before_month(m: int, leap: bool) -> int {
    let feb: int = if leap {
        29
    } else {
        28
    };
    if m == 1 {
        0
    } else if m == 2 {
        31
    } else if m == 3 {
        31 + feb
    } else if m == 4 {
        62 + feb
    } else if m == 5 {
        92 + feb
    } else if m == 6 {
        123 + feb
    } else if m == 7 {
        153 + feb
    } else if m == 8 {
        184 + feb
    } else if m == 9 {
        215 + feb
    } else if m == 10 {
        245 + feb
    } else if m == 11 {
        276 + feb
    } else {
        306 + feb
    }
}

/// Leap years in `[0, y)`; year 0 itself is a leap year.
pub open spec fn leap_years_before(y: int) -> int {
    (y + 3) / 4 - (y + 99) / 100 + (y + 399) / 400
}

/// Days from 0000-01-01 to the first day of year `y`.
pub open spec fn days_before_year(y: int) -> int {
    365 * y + leap_years_before(y)
}

/// Days from 0000-01-01 to the given calendar day.
pub open spec fn civil_days(y: int, m: int, d: int) -> int {
    days_before_year(y) + days_before_month(m, is_leap_year(y)) + (d - 1)
}

/// Seconds from 0000-01-01 00:00:00 to the given moment.  Differences of
/// this count are elapsed seconds, which is all the ranking and the expiry
/// rule ever look at.
pub open spec fn civil_secs(y: int, m: int, d: int, h: int, mi: int, s: int) -> int {
    civil_days(y, m, d) * 86400 + h * 3600 + mi * 60 + s
}

/// `civil_secs` of the Unix epoch, 1970-01-01 00:00:00.
pub open spec fn unix_epoch_civil_secs() -> int {
    719528int * 86400
}

/// `a` names an earlier calendar moment than `b`: the fields compare
/// lexicographically, most significant first.
pub open spec fn lex_before(a: Timestamp, b: Timestamp) -> bool {
    if a.year != b.year {
        a.year < b.year
    } else if a.month != b.month {
        a.month < b.month
    } else if a.day != b.day {
        a.day < b.day
    } else if a.hour != b.hour {
        a.hour < b.hour
    } else if a.minute != b.minute {
        a.minute < b.minute
    } else {
        a.second < b.second
    }
}

proof fn lemma_days_before_year_step(y: int)
    requires
        0 <= y,
    ensures
        days_before_year(y + 1) >= days_before_year(y) + 365 + (if is_leap_year(y) {
            1int
        } else {
            0int
        }),
{
    assert((y + 4) / 4 == y / 4 + 1);
    assert((y + 100) / 100 == y / 100 + 1);
    assert((y + 400) / 400 == y / 400 + 1);
}

proof fn lemma_days_before_year_mono(y1: int, y2: int)
    requires
        0 <= y1 <= y2,
    ensures
        days_before_year(y1) + 365 * (y2 - y1) <= days_before_year(y2),
    decreases y2 - y1,
{
    if y1 < y2 {
        lemma_days_before_year_mono(y1, y2 - 1);
        lemma_days_before_year_step(y2 - 1);
    }
}

/// Law: the seconds count orders timestamps exactly as the calendar does;
/// a lexicographically earlier valid timestamp has a strictly smaller count.
pub proof fn lemma_secs_orders_calendar(a: Timestamp, b: Timestamp)
    requires
        a.valid(),
        b.valid(),
        lex_before(a, b),
    ensures
        a.secs_spec() < b.secs_spec(),
{
    let ya = a.year as int;
    let yb = b.year as int;
    let la = is_leap_year(ya);
    if ya == yb {
        if a.month < b.month {
            assert(days_before_month(a.month as int, la) + days_in_month(ya, a.month as int)
                <= days_before_month(b.month as int, la));
        }
    } else {
        // Day of year stays below the year's length, so the next year's
        // first day already lies past `a`.
        assert(days_before_month(a.month as int, la) + (a.day as int - 1) <= 364 + (if la {
            1int
        } else {
            0int
        }));
        lemma_days_before_year_step(ya);
        lemma_days_before_year_mono(ya + 1, yb);
        assert(civil_days(ya, a.month as int, a.day as int) < days_before_year(ya + 1));
        assert(days_before_year(yb) <= civil_days(yb, b.month as int, b.day as int));
    }
}

pub open spec fn valid_fields(y: int, m: int, d: int, h: int, mi: int, s: int) -> bool {
    0 <= y <= 9999 && 1 <= m <= 12 && 1 <= d <= days_in_month(y, m) && 0 <= h < 24 && 0 <= mi
        < 60 && 0 <= s < 60
}

impl Timestamp {
    pub open spec fn valid(self) -> bool {
        valid_fields(
            self.year as int,
            self.month as int,
            self.day as int,
            self.hour as int,
            self.minute as int,
            self.second as int,
        )
    }

    pub open spec fn secs_spec(self) -> int {
        civil_secs(
            self.year as int,
            self.month as int,
            self.day as int,
            self.hour as int,
            self.minute as int,
            self.second as int,
        )
    }

    /// Builds a timestamp when and only when the fields name a real calendar
    /// moment within the supported year range.
    pub fn new(year: i64, month: u32, day: u32, hour: u32, minute: u32, second: u32) -> (r: Option<
        Timestamp,
    >)
        ensures
            r is Some <==> valid_fields(
                year as int,
                month as int,
                day as int,
                hour as int,
                minute as int,
                second as int,
            ),
            r matches Some(t) ==> t.valid() && t == (Timestamp {
                year: year as u32,
                month: month as u32,
                day,
                hour,
                minute,
                second,
            }),
    {
        if 0 <= year && year <= 9999 && 1 <= month && month <= 12 && hour < 24 && minute < 60
            && second < 60 {
            let y = year as u32;
            if 1 <= day && day <= days_in_month_exec(y, month) {
                return Some(Timestamp { year: y, month, day, hour, minute, second });
            }
        }
        None
    }

    /// The value of the Unix-epoch sentinel.
    pub open spec fn epoch_spec() -> Timestamp {
        Timestamp { year: 1970u32, month: 1u32, day: 1u32, hour: 0u32, minute: 0u32, second: 0u32 }
    }

    /// The Unix epoch, used as the oldest-possible sentinel.
    pub fn epoch() -> (r: Timestamp)
        ensures
            r == Self::epoch_spec(),
            r.valid(),
            r.secs_spec() == unix_epoch_civil_secs(),
    {
        let r = Timestamp { year: 1970, month: 1, day: 1, hour: 0, minute: 0, second: 0 };
        assert(leap_years_before(1970) == 478);
        assert(r.secs_spec() == unix_epoch_civil_secs());
        r
    }

    /// The seconds count that orders timestamps.
    pub fn secs(&self) -> (r: u64)
        requires
            self.valid(),
        ensures
            r == self.secs_spec(),
    {
        let y = self.year as u64;
        let days: u64 = 365 * y + (y + 3) / 4 - (y + 99) / 100 + (y + 399) / 400
            + days_before_month_exec(self.month, is_leap_year_exec(self.year)) as u64
            + (self.day as u64 - 1);
        assert(days == civil_days(self.year as int, self.month as int, self.day as int));
        days * 86400 + self.hour as u64 * 3600 + self.minute as u64 * 60 + self.second as u64
    }
}

/// The decimal digit character of `d`.
pub open spec fn digit_char(d: int) -> char {
    ((48 + d) as u8) as char
}

/// The `YYYY-MM-DD HH:MM` rendering of a timestamp, as the expiry advisory
/// displays it.
pub open spec fn minute_render(t: Timestamp) -> Seq<char> {
    seq![
        digit_char(t.year as int / 1000),
        digit_char((t.year as int / 100) % 10),
        digit_char((t.year as int / 10) % 10),
        digit_char(t.year as int % 10),
        '-',
        digit_char(t.month as int / 10),
        digit_char(t.month as int % 10),
        '-',
        digit_char(t.day as int / 10),
        digit_char(t.day as int % 10),
        ' ',
        digit_char(t.hour as int / 10),
        digit_char(t.hour as int % 10),
        ':',
        digit_char(t.minute as int / 10),
        digit_char(t.minute as int % 10),
    ]
}

fn digit_char_exec(d: u32) -> (c: char)
    requires
        d < 10,
    ensures
        c == digit_char(d as int),
{
    (48 + d as u8) as char
}

/// Renders a timestamp as `YYYY-MM-DD HH:MM`, minute precision.
pub fn render_minutes(t: &Timestamp) -> (r: Vec<char>)
    requires
        t.valid(),
    ensures
        r@ == minute_render(*t),
{
    let mut r: Vec<char> = Vec::new();
    r.push(digit_char_exec(t.year / 1000));
    r.push(digit_char_exec((t.year / 100) % 10));
    r.push(digit_char_exec((t.year / 10) % 10));
    r.push(digit_char_exec(t.year % 10));
    r.push('-');
    r.push(digit_char_exec(t.month / 10));
    r.push(digit_char_exec(t.month % 10));
    r.push('-');
    r.push(digit_char_exec(t.day / 10));
    r.push(digit_char_exec(t.day % 10));
    r.push(' ');
    r.push(digit_char_exec(t.hour / 10));
    r.push(digit_char_exec(t.hour % 10));
    r.push(':');
    r.push(digit_char_exec(t.minute / 10));
    r.push(digit_char_exec(t.minute % 10));
    assert(r@ =~= minute_render(*t));
    r
}

pub fn is_leap_year_exec(y: u32) -> (r: bool)
    ensures
        r == is_leap_year(y as int),
{
    (y % 4 == 0 && y % 100 != 0) || y % 400 == 0
}

pub fn days_in_month_exec(y: u32, m: u32) -> (r: u32)
    requires
        1 <= m <= 12,
    ensures
        r == days_in_month(y as int, m as int),
{
    if m == 2 {
        if is_leap_year_exec(y) {
            29
        } else {
            28
        }
    } else if m == 4 || m == 6 || m == 9 || m == 11 {
        30
    } else {
        31
    }
}

fn days_before_month_exec(m: u32, leap: bool) -> (r: u32)
    requires
        1 <= m <= 12,
    ensures
        r == days_before_month(m as int, leap),
{
    let feb: u32 = if leap {
        29
    } else {
        28
    };
    if m == 1 {
        0
    } else if m == 2 {
        31
    } else if m == 3 {
        31 + feb
    } else if m == 4 {
        62 + feb
    } else if m == 5 {
        92 + feb
    } else if m == 6 {
        123 + feb
    } else if m == 7 {
        153 + feb
    } else if m == 8 {
        184 + feb
    } else if m == 9 {
        215 + feb
    } else if m == 10 {
        245 + feb
    } else if m == 11 {
        276 + feb
    } else {
        306 + feb
    }
}

} // verus!
