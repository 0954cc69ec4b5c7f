use vstd::prelude::*;
use chrono::{Datelike, Timelike};
use crate::text::{digit_char, digit_value, is_digit, push_char, push_digit, char_code};

verus! {

/// A local date and time, held as its calendar fields.
#[derive(Clone, Copy, Debug, PartialEq, Eq, Structural)]
pub struct Timestamp {
    pub year: i32,
    pub month: u32,
    pub day: u32,
    pub hour: u32,
    pub minute: u32,
    pub second: u32,
    /// Nanoseconds past the second; from 1_000_000_000 on it marks a leap second.
    pub nanosecond: u32,
}

pub open spec fn is_leap_year(y: int) -> bool {
    (y % 4 == 0 && y % 100 != 0) || y % 400 == 0
}

pub open spec fn days_in_month(y: int, m: int) -> int {
    if m == 2 {
        if is_leap_year(y) { 29 } else { 28 }
    } else if m == 4 || m == 6 || m == 9 || m == 11 {
        30
    } else {
        31
    }
}

impl Timestamp {
    /// The fields name an existing calendar date and a time of day.
    pub open spec fn wf(self) -> bool {
        &&& 1 <= self.month <= 12
        &&& 1 <= self.day <= days_in_month(self.year as int, self.month as int)
        &&& self.hour < 24
        &&& self.minute < 60
        &&& self.second < 60
        &&& self.nanosecond < 2_000_000_000
    }

    /// Whether the fields name an existing calendar date and a time of day.
    pub fn is_valid(&self) -> (r: bool)
        ensures
            r == self.wf(),
    {
        1 <= self.month && self.month <= 12 && 1 <= self.day
            && self.day <= month_length(self.year, self.month) && self.hour < 24
            && self.minute < 60 && self.second < 60 && self.nanosecond < 2_000_000_000
    }

    /// The same point with the fraction of its second dropped.
    pub open spec fn truncate_spec(self) -> Timestamp {
        Timestamp { nanosecond: 0, ..self }
    }

    /// The same point at whole-second granularity.
    pub fn truncated(&self) -> (r: Timestamp)
        ensures
            r == self.truncate_spec(),
    {
        Timestamp { nanosecond: 0, ..*self }
    }

    /// Whether `self` lies strictly before `other`.
    pub fn is_before(&self, other: &Timestamp) -> (r: bool)
        ensures
            r == before(*self, *other),
    {
        if self.year != other.year {
            self.year < other.year
        } else if self.month != other.month {
            self.month < other.month
        } else if self.day != other.day {
            self.day < other.day
        } else if self.hour != other.hour {
            self.hour < other.hour
        } else if self.minute != other.minute {
            self.minute < other.minute
        } else if self.second != other.second {
            self.second < other.second
        } else {
            self.nanosecond < other.nanosecond
        }
    }
}

/// Chronological order of two timestamps: field by field, largest unit first.
pub open spec fn before(a: Timestamp, b: Timestamp) -> bool {
    if a.year != b.year {
        a.year < b.year
    } else if a.month != b.month {
        a.month < b.month
    } else if a.day != b.day {
        a.day < b.day
    } else if a.hour != b.hour {
        a.hour < b.hour
    } else if a.minute != b.minute {
        a.minute < b.minute
    } else if a.second != b.second {
        a.second < b.second
    } else {
        a.nanosecond < b.nanosecond
    }
}

pub proof fn lemma_before_transitive(a: Timestamp, b: Timestamp, c: Timestamp)
    requires
        before(a, b),
        before(b, c),
    ensures
        before(a, c),
{
}

pub proof fn lemma_before_total(a: Timestamp, b: Timestamp)
    ensures
        a == b || before(a, b) || before(b, a),
        !(before(a, b) && before(b, a)),
{
}

/// Two decimal digits of `n`.
pub open spec fn two_digits(n: int) -> Seq<char> {
    seq![digit_char(n / 10), digit_char(n % 10)]
}

/// Four decimal digits of `n`.
pub open spec fn four_digits(n: int) -> Seq<char> {
    seq![digit_char(n / 1000), digit_char((n / 100) % 10), digit_char((n / 10) % 10), digit_char(n % 10)]
}

/// The years that the stored text layout can hold.
pub open spec fn storable_year(y: int) -> bool {
    0 <= y <= 9999
}

/// The stored text of a timestamp: `YYYY-MM-DD HH:MM:SS`.
pub open spec fn db_text(t: Timestamp) -> Seq<char> {
    four_digits(t.year as int) + seq!['-'] + two_digits(t.month as int) + seq!['-']
        + two_digits(t.day as int) + seq![' '] + two_digits(t.hour as int) + seq![':']
        + two_digits(t.minute as int) + seq![':'] + two_digits(t.second as int)
}

fn push_two_digits(s: &mut String, n: u32)
    requires
        n < 100,
    ensures
        final(s)@ == old(s)@ + two_digits(n as int),
{
    push_digit(s, n / 10);
    push_digit(s, n % 10);
    assert(final(s)@ =~= old(s)@ + two_digits(n as int));
}

/// Writes a timestamp in the stored layout, at whole-second granularity.
pub fn to_db_text(t: &Timestamp) -> (r: String)
    requires
        t.wf(),
        storable_year(t.year as int),
    ensures
        r@ == db_text(*t),
{
    let mut s = String::new();
    let y = t.year as u32;
    push_digit(&mut s, y / 1000);
    push_digit(&mut s, (y / 100) % 10);
    push_digit(&mut s, (y / 10) % 10);
    push_digit(&mut s, y % 10);
    push_char(&mut s, '-');
    push_two_digits(&mut s, t.month);
    push_char(&mut s, '-');
    push_two_digits(&mut s, t.day);
    push_char(&mut s, ' ');
    push_two_digits(&mut s, t.hour);
    push_char(&mut s, ':');
    push_two_digits(&mut s, t.minute);
    push_char(&mut s, ':');
    push_two_digits(&mut s, t.second);
    assert(s@ =~= db_text(*t));
    s
}

/// The number that `n` digits of `s` from position `i` on spell.
pub open spec fn digits_at(s: Seq<char>, i: int, n: nat) -> int
    decreases n,
{
    if n == 0 {
        0
    } else {
        digits_at(s, i, (n - 1) as nat) * 10 + digit_value(s[i + n - 1])
    }
}

/// Whether positions `i .. i + n` of `s` all hold digits.
pub open spec fn all_digits(s: Seq<char>, i: int, n: int) -> bool {
    forall|k: int| i <= k < i + n ==> is_digit(#[trigger] s[k])
}

/// The timestamp that a stored text spells, its fraction of a second zero.
pub open spec fn parse_db_text(s: Seq<char>) -> Option<Timestamp> {
    if s.len() == 19 && s[4] == '-' && s[7] == '-' && s[10] == ' ' && s[13] == ':' && s[16] == ':'
        && all_digits(s, 0, 4) && all_digits(s, 5, 2) && all_digits(s, 8, 2)
        && all_digits(s, 11, 2) && all_digits(s, 14, 2) && all_digits(s, 17, 2) {
        let t = Timestamp {
            year: digits_at(s, 0, 4) as i32,
            month: digits_at(s, 5, 2) as u32,
            day: digits_at(s, 8, 2) as u32,
            hour: digits_at(s, 11, 2) as u32,
            minute: digits_at(s, 14, 2) as u32,
            second: digits_at(s, 17, 2) as u32,
            nanosecond: 0,
        };
        if t.wf() { Some(t) } else { None }
    } else {
        None
    }
}


pub open spec fn pow10(n: nat) -> int
    decreases n,
{
    if n == 0 { 1 } else { 10 * pow10((n - 1) as nat) }
}

proof fn lemma_digits_bound(s: Seq<char>, i: int, n: nat)
    requires
        all_digits(s, i, n as int),
    ensures
        0 <= digits_at(s, i, n) < pow10(n),
    decreases n,
{
    if n > 0 {
        lemma_digits_bound(s, i, (n - 1) as nat);
        assert(is_digit(s[i + n - 1]));
        let v = digits_at(s, i, (n - 1) as nat);
        let p = pow10((n - 1) as nat);
        let d = digit_value(s[i + n - 1]);
        assert(v * 10 + d < 10 * p) by (nonlinear_arith)
            requires 0 <= v < p, 0 <= d < 10;
    }
}

/// Reads `n` digits of `s` from position `i` on, if they are all digits.
fn read_digits(s: &str, i: usize, n: usize) -> (r: Option<u32>)
    requires
        i + n <= s@.len(),
        i + n <= 19,
        n <= 4,
    ensures
        r == (if all_digits(s@, i as int, n as int) {
            Some(digits_at(s@, i as int, n as nat) as u32)
        } else {
            None
        }),
{
    let mut v: u32 = 0;
    let mut k: usize = 0;
    while k < n
        invariant
            k <= n,
            n <= 4,
            i + n <= s@.len(),
            i + n <= 19,
            all_digits(s@, i as int, k as int),
            v as int == digits_at(s@, i as int, k as nat),
            0 <= v < pow10(k as nat),
        decreases n - k,
    {
        let c = s.get_char(i + k);
        let code = char_code(c);
        if code < 48 || code > 57 {
            assert(!is_digit(s@[i + k]));
            return None;
        }
        let d = code - 48;
        assert(d as int == digit_value(s@[(i + k) as int]));
        proof {
            let p = pow10(k as nat);
            assert(pow10((k + 1) as nat) == 10 * p);
            assert(v * 10 + d < 10 * p) by (nonlinear_arith)
                requires v < p, d < 10;
            reveal_with_fuel(pow10, 5);
            assert(10 * p <= 10000);
        }
        v = v * 10 + d;
        k = k + 1;
    }
    Some(v)
}

/// The number of days in month `m` of year `y`.
pub fn month_length(y: i32, m: u32) -> (r: u32)
    ensures
        r == days_in_month(y as int, m as int),
{
    if m == 2 {
        if (y % 4 == 0 && y % 100 != 0) || y % 400 == 0 { 29 } else { 28 }
    } else if m == 4 || m == 6 || m == 9 || m == 11 {
        30
    } else {
        31
    }
}

/// Reads a timestamp written in the stored layout `YYYY-MM-DD HH:MM:SS`.
pub fn from_db_text(s: &str) -> (r: Option<Timestamp>)
    ensures
        r == parse_db_text(s@),
{
    let len = s.unicode_len();
    if len != 19 {
        return None;
    }
    if s.get_char(4) != '-' || s.get_char(7) != '-' || s.get_char(10) != ' '
        || s.get_char(13) != ':' || s.get_char(16) != ':' {
        return None;
    }
    let year = match read_digits(s, 0, 4) { Some(v) => v, None => return None };
    let month = match read_digits(s, 5, 2) { Some(v) => v, None => return None };
    let day = match read_digits(s, 8, 2) { Some(v) => v, None => return None };
    let hour = match read_digits(s, 11, 2) { Some(v) => v, None => return None };
    let minute = match read_digits(s, 14, 2) { Some(v) => v, None => return None };
    let second = match read_digits(s, 17, 2) { Some(v) => v, None => return None };
    proof {
        reveal_with_fuel(pow10, 5);
        lemma_digits_bound(s@, 0, 4);
    }
    let t = Timestamp {
        year: year as i32,
        month,
        day,
        hour,
        minute,
        second,
        nanosecond: 0,
    };
    if 1 <= month && month <= 12 && 1 <= day && day <= month_length(t.year, month) && hour < 24
        && minute < 60 && second < 60 {
        Some(t)
    } else {
        None
    }
}

proof fn lemma_two_digits(s: Seq<char>, i: int, n: int)
    requires
        0 <= n < 100,
        0 <= i,
        i + 2 <= s.len(),
        s.subrange(i, i + 2) == two_digits(n),
    ensures
        all_digits(s, i, 2),
        digits_at(s, i, 2) == n,
{
    assert(s[i] == two_digits(n)[0]);
    assert(s[i + 1] == two_digits(n)[1]);
    assert(digits_at(s, i, 2) == digit_value(s[i]) * 10 + digit_value(s[i + 1])) by {
        reveal_with_fuel(digits_at, 3);
    }
}

/// Writing a timestamp in the stored layout and reading it back gives the
/// timestamp truncated to whole seconds.
pub proof fn lemma_db_text_round_trip(t: Timestamp)
    requires
        t.wf(),
        storable_year(t.year as int),
    ensures
        parse_db_text(db_text(t)) == Some(t.truncate_spec()),
{
    let s = db_text(t);
    assert(s.len() == 19);
    let y = t.year as int;
    assert(s.subrange(0, 4) =~= four_digits(y));
    assert(s.subrange(5, 7) =~= two_digits(t.month as int));
    assert(s.subrange(8, 10) =~= two_digits(t.day as int));
    assert(s.subrange(11, 13) =~= two_digits(t.hour as int));
    assert(s.subrange(14, 16) =~= two_digits(t.minute as int));
    assert(s.subrange(17, 19) =~= two_digits(t.second as int));
    lemma_two_digits(s, 5, t.month as int);
    lemma_two_digits(s, 8, t.day as int);
    lemma_two_digits(s, 11, t.hour as int);
    lemma_two_digits(s, 14, t.minute as int);
    lemma_two_digits(s, 17, t.second as int);
    assert(s[0] == four_digits(y)[0]);
    assert(s[1] == four_digits(y)[1]);
    assert(s[2] == four_digits(y)[2]);
    assert(s[3] == four_digits(y)[3]);
    assert(all_digits(s, 0, 4));
    assert(digits_at(s, 0, 4) == ((digit_value(s[0]) * 10 + digit_value(s[1])) * 10
        + digit_value(s[2])) * 10 + digit_value(s[3])) by {
        reveal_with_fuel(digits_at, 5);
    }
    assert(((y / 1000 * 10 + (y / 100) % 10) * 10 + (y / 10) % 10) * 10 + y % 10 == y)
        by (nonlinear_arith)
        requires 0 <= y <= 9999;
    assert(s[4] == '-' && s[7] == '-' && s[10] == ' ' && s[13] == ':' && s[16] == ':');
}

/// Relies on chrono's `Local::now` and the calendar accessors of `Datelike`
/// and `Timelike`, whose documented ranges make the fields a valid timestamp.
#[verifier::external_body]
pub(crate) fn local_now() -> (t: Timestamp)
    ensures
        t.wf(),
{
    let n = chrono::Local::now();
    Timestamp {
        year: n.year(),
        month: n.month(),
        day: n.day(),
        hour: n.hour(),
        minute: n.minute(),
        second: n.second(),
        nanosecond: n.nanosecond(),
    }
}
} // verus!
