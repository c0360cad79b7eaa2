use vstd::prelude::*;
use vstd::string::*;
use crate::error::WMIError;

verus! {

/// A point in time as the data source writes it: a calendar date-time with
/// microsecond precision, read as local time at the offset from UTC (in
/// minutes) that the text carried. The offset is kept so that rendering
/// preserves the originally-specified `+HH:MM`/`-HH:MM` suffix instead of
/// normalizing to UTC.
#[derive(Clone, Copy, Debug, PartialEq, Eq, Structural)]
pub struct WMIDateTime {
    pub year: u32,
    pub month: u8,
    pub day: u8,
    pub hour: u8,
    pub minute: u8,
    pub second: u8,
    pub micros: u32,
    pub offset_minutes: i32,
}

/// Whether `y` is a leap year of the proleptic Gregorian calendar.
pub open spec fn spec_is_leap_year(y: int) -> bool {
    y % 4 == 0 && (y % 100 != 0 || y % 400 == 0)
}

/// Days in month `m` of year `y`.
pub open spec fn spec_days_in_month(y: int, m: int) -> int {
    if m == 2 {
        if spec_is_leap_year(y) {
            29
        } else {
            28
        }
    } else if m == 4 || m == 6 || m == 9 || m == 11 {
        30
    } else {
        31
    }
}

/// `c` is an ASCII decimal digit.
pub open spec fn is_digit(c: char) -> bool {
    ||| c == '0'
    ||| c == '1'
    ||| c == '2'
    ||| c == '3'
    ||| c == '4'
    ||| c == '5'
    ||| c == '6'
    ||| c == '7'
    ||| c == '8'
    ||| c == '9'
}

/// The value of the digit `c`.
pub open spec fn digit_val(c: char) -> int {
    if c == '0' {
        0
    } else if c == '1' {
        1
    } else if c == '2' {
        2
    } else if c == '3' {
        3
    } else if c == '4' {
        4
    } else if c == '5' {
        5
    } else if c == '6' {
        6
    } else if c == '7' {
        7
    } else if c == '8' {
        8
    } else {
        9
    }
}

/// Every character of `s` is a decimal digit.
pub open spec fn all_digits(s: Seq<char>) -> bool {
    forall|i: int| 0 <= i < s.len() ==> is_digit(#[trigger] s[i])
}

/// The number the digit string `s` writes in base ten.
pub open spec fn num_val(s: Seq<char>) -> int
    decreases s.len(),
{
    if s.len() == 0 {
        0
    } else {
        num_val(s.drop_last()) * 10 + digit_val(s.last())
    }
}

/// Ten to the `n`-th power.
pub open spec fn pow10(n: nat) -> int
    decreases n,
{
    if n == 0 {
        1
    } else {
        10 * pow10((n - 1) as nat)
    }
}

proof fn lemma_pow10_small_values()
    ensures
        pow10(0) == 1,
        pow10(1) == 10,
        pow10(2) == 100,
        pow10(3) == 1000,
        pow10(4) == 10000,
        pow10(5) == 100000,
        pow10(6) == 1000000,
{
    assert(pow10(0) == 1);
    assert(pow10(1) == 10);
    assert(pow10(2) == 100);
    assert(pow10(3) == 1000);
    assert(pow10(4) == 10000);
    assert(pow10(5) == 100000);
    assert(pow10(6) == 1000000);
}

proof fn lemma_pow10_monotone(a: nat, b: nat)
    requires
        a <= b,
    ensures
        0 < pow10(a) <= pow10(b),
    decreases b,
{
    if a < b {
        lemma_pow10_monotone(a, (b - 1) as nat);
    } else if b > 0 {
        lemma_pow10_monotone((a - 1) as nat, (b - 1) as nat);
    }
}

/// A string of digits writes a number below ten to its length.
proof fn lemma_num_val_bound(s: Seq<char>)
    requires
        all_digits(s),
    ensures
        0 <= num_val(s) < pow10(s.len()),
    decreases s.len(),
{
    if s.len() > 0 {
        assert(all_digits(s.drop_last())) by {
            assert(forall|i: int|
                0 <= i < s.len() - 1 ==> s.drop_last()[i] == #[trigger] s[i]);
        }
        lemma_num_val_bound(s.drop_last());
        assert(is_digit(s.last()));
    }
}

/// The fixed-width text format: a 14-digit date-and-time, a literal dot, a
/// 6-digit microsecond count, then a sign and a 3-digit offset-from-UTC in
/// minutes. Exactly 25 characters, no other separators.
pub open spec fn timestamp_format_ok(s: Seq<char>) -> bool {
    &&& s.len() == 25
    &&& all_digits(s.subrange(0, 14))
    &&& s[14] == '.'
    &&& all_digits(s.subrange(15, 21))
    &&& (s[21] == '+' || s[21] == '-')
    &&& all_digits(s.subrange(22, 25))
}

/// The date-time the digits write is a real calendar date and time of day.
pub open spec fn timestamp_fields_ok(s: Seq<char>) -> bool {
    &&& 1 <= num_val(s.subrange(4, 6)) <= 12
    &&& 1 <= num_val(s.subrange(6, 8)) <= spec_days_in_month(
        num_val(s.subrange(0, 4)),
        num_val(s.subrange(4, 6)),
    )
    &&& num_val(s.subrange(8, 10)) <= 23
    &&& num_val(s.subrange(10, 12)) <= 59
    &&& num_val(s.subrange(12, 14)) <= 59
}

/// `s` is a well-formed timestamp text.
pub open spec fn timestamp_valid(s: Seq<char>) -> bool {
    timestamp_format_ok(s) && timestamp_fields_ok(s)
}

/// The offset the text carries, in signed minutes.
pub open spec fn spec_offset_minutes(s: Seq<char>) -> int {
    if s[21] == '-' {
        -num_val(s.subrange(22, 25))
    } else {
        num_val(s.subrange(22, 25))
    }
}

/// The date-time a valid timestamp text writes.
pub open spec fn spec_parse(s: Seq<char>) -> WMIDateTime {
    WMIDateTime {
        year: num_val(s.subrange(0, 4)) as u32,
        month: num_val(s.subrange(4, 6)) as u8,
        day: num_val(s.subrange(6, 8)) as u8,
        hour: num_val(s.subrange(8, 10)) as u8,
        minute: num_val(s.subrange(10, 12)) as u8,
        second: num_val(s.subrange(12, 14)) as u8,
        micros: num_val(s.subrange(15, 21)) as u32,
        offset_minutes: spec_offset_minutes(s) as i32,
    }
}

/// The value of the digit `c`, or `None` when `c` is no digit.
fn digit_value(c: char) -> (r: Option<u8>)
    ensures
        (r is Some <==> is_digit(c)),
        (r matches Some(d) ==> d == digit_val(c) && d <= 9),
{
    match c {
        '0' => Some(0),
        '1' => Some(1),
        '2' => Some(2),
        '3' => Some(3),
        '4' => Some(4),
        '5' => Some(5),
        '6' => Some(6),
        '7' => Some(7),
        '8' => Some(8),
        '9' => Some(9),
        _ => None,
    }
}

/// Reads `s[from..to]` as an unsigned base-ten number, or reports that some
/// character in that range is no digit.
fn read_number(s: &str, from: usize, to: usize) -> (r: Option<u32>)
    requires
        from <= to <= s@.len(),
        to - from <= 6,
    ensures
        (r is Some <==> all_digits(s@.subrange(from as int, to as int))),
        (r matches Some(v) ==> v == num_val(s@.subrange(from as int, to as int))
            && v < pow10((to - from) as nat)),
{
    let mut i = from;
    let mut acc: u32 = 0;
    proof {
        assert(s@.subrange(from as int, from as int) =~= Seq::<char>::empty());
    }
    while i < to
        invariant
            from <= i <= to,
            to <= s@.len(),
            to - from <= 6,
            all_digits(s@.subrange(from as int, i as int)),
            acc == num_val(s@.subrange(from as int, i as int)),
            acc < pow10((i - from) as nat),
        decreases to - i,
    {
        let c = s.get_char(i);
        let d = match digit_value(c) {
            Some(d) => d,
            None => {
                proof {
                    assert(s@.subrange(from as int, to as int)[i - from] == s@[i as int]);
                }
                return None;
            },
        };
        proof {
            lemma_pow10_small_values();
            lemma_pow10_monotone((i - from) as nat, 5);
            assert(pow10((i + 1 - from) as nat) == 10 * pow10((i - from) as nat));
            let sub1 = s@.subrange(from as int, i + 1);
            assert(sub1.drop_last() =~= s@.subrange(from as int, i as int));
            assert(sub1.last() == s@[i as int]);
            assert(all_digits(sub1)) by {
                assert(forall|j: int|
                    0 <= j < sub1.len() - 1
                        ==> #[trigger] sub1[j] == s@.subrange(from as int, i as int)[j]);
            }
        }
        acc = acc * 10 + (d as u32);
        i += 1;
    }
    Some(acc)
}

/// Whether `year` is a leap year.
pub fn is_leap_year(year: u32) -> (r: bool)
    ensures
        r == spec_is_leap_year(year as int),
{
    year % 4 == 0 && (year % 100 != 0 || year % 400 == 0)
}

/// Days in month `m` of year `y`.
pub fn days_in_month(year: u32, month: u8) -> (r: u8)
    requires
        1 <= month <= 12,
    ensures
        r == spec_days_in_month(year as int, month as int),
{
    if month == 2 {
        if is_leap_year(year) {
            29
        } else {
            28
        }
    } else if month == 4 || month == 6 || month == 9 || month == 11 {
        30
    } else {
        31
    }
}

/// Length in days of year `y`.
pub open spec fn spec_year_len(y: int) -> int {
    if spec_is_leap_year(y) {
        366
    } else {
        365
    }
}

/// Days from the epoch date to the first day of year `y`; negative for
/// years before it.
pub open spec fn spec_days_before_year(y: int) -> int
    decreases (if y >= 1970 { y - 1970 } else { 1970 - y }),
{
    if y == 1970 {
        0
    } else if y > 1970 {
        spec_days_before_year(y - 1) + spec_year_len(y - 1)
    } else {
        spec_days_before_year(y + 1) - spec_year_len(y)
    }
}

/// Days from the first of the year to the first of month `m` of year `y`.
pub open spec fn spec_days_before_month(y: int, m: int) -> int
    decreases m,
{
    if m <= 1 {
        0
    } else {
        spec_days_before_month(y, m - 1) + spec_days_in_month(y, m - 1)
    }
}

/// Days from the epoch date to the given calendar date.
pub open spec fn spec_epoch_days(y: int, m: int, d: int) -> int {
    spec_days_before_year(y) + spec_days_before_month(y, m) + (d - 1)
}

/// Length in days of year `y`.
fn year_len(year: u32) -> (r: i64)
    ensures
        r == spec_year_len(year as int),
        365 <= r <= 366,
{
    if is_leap_year(year) {
        366
    } else {
        365
    }
}

/// Days from the epoch date to the given calendar date.
fn epoch_days(year: u32, month: u8, day: u8) -> (r: i64)
    requires
        year <= 9999,
        1 <= month <= 12,
        1 <= day <= 31,
    ensures
        r == spec_epoch_days(year as int, month as int, day as int),
        -1000000 <= r <= 4000000,
{
    let mut acc: i64 = 0;
    if year >= 1970 {
        let mut y: u32 = 1970;
        while y < year
            invariant
                1970 <= y <= year,
                year <= 9999,
                acc == spec_days_before_year(y as int),
                0 <= acc <= 366 * (y - 1970),
            decreases year - y,
        {
            acc = acc + year_len(y);
            y = y + 1;
        }
    } else {
        let mut y: u32 = 1970;
        while y > year
            invariant
                year <= y <= 1970,
                acc == spec_days_before_year(y as int),
                -366 * (1970 - y) <= acc <= 0,
            decreases y,
        {
            y = y - 1;
            acc = acc - year_len(y);
        }
    }
    let ghost base = acc as int;
    let mut m: u8 = 1;
    while m < month
        invariant
            1 <= m <= month,
            month <= 12,
            year <= 9999,
            base == spec_days_before_year(year as int),
            -750000 <= base <= 2950000,
            acc == base + spec_days_before_month(year as int, m as int),
            0 <= acc - base <= 31 * (m - 1),
        decreases month - m,
    {
        acc = acc + days_in_month(year, m) as i64;
        m = m + 1;
    }
    acc + (day as i64) - 1
}

impl WMIDateTime {
    /// The absolute instant these fields denote, as signed microseconds from
    /// the epoch instant: the calendar date-time is read as local time at
    /// the carried offset, so two texts naming the same moment under
    /// different offsets yield the same value here.
    pub open spec fn spec_instant_micros(self) -> int {
        (spec_epoch_days(self.year as int, self.month as int, self.day as int) * 86400
            + self.hour as int * 3600 + self.minute as int * 60 + self.second as int
            - self.offset_minutes as int * 60) * 1000000 + self.micros as int
    }

    /// The absolute instant, in microseconds since the epoch instant, with
    /// the carried offset applied.
    pub fn instant_micros(&self) -> (r: i64)
        requires
            self.wf(),
        ensures
            r == self.spec_instant_micros(),
    {
        let days = epoch_days(self.year, self.month, self.day);
        let secs: i64 = days * 86400 + (self.hour as i64) * 3600 + (self.minute as i64) * 60
            + (self.second as i64) - (self.offset_minutes as i64) * 60;
        secs * 1000000 + (self.micros as i64)
    }
}

impl WMIDateTime {
    /// The fields denote a calendar date-time: the date exists, the time of
    /// day is real, the fraction is below one second, and the offset is the
    /// signed three-digit minute count the text format can carry.
    pub open spec fn wf(self) -> bool {
        &&& self.year <= 9999
        &&& 1 <= self.month <= 12
        &&& 1 <= self.day <= spec_days_in_month(self.year as int, self.month as int)
        &&& self.hour <= 23
        &&& self.minute <= 59
        &&& self.second <= 59
        &&& self.micros <= 999_999
        &&& -999 <= self.offset_minutes <= 999
    }

    /// Parses the fixed-width timestamp text. Returns the date-time the text
    /// writes exactly when the text is well-formed, and `TimestampParseError`
    /// otherwise — for any input whatsoever, this neither panics nor returns
    /// an undefined value. Pure and stateless.
    pub fn from_str(s: &str) -> (r: Result<WMIDateTime, WMIError>)
        ensures
            (r is Ok <==> timestamp_valid(s@)),
            (r matches Ok(dt) ==> dt == spec_parse(s@) && dt.wf()),
            (r matches Err(e) ==> e == WMIError::TimestampParseError),
    {
        proof {
            lemma_pow10_small_values();
        }
        let n = s.unicode_len();
        if n != 25 {
            return Err(WMIError::TimestampParseError);
        }
        let year = match read_number(s, 0, 4) {
            Some(v) => v,
            None => {
                proof {
                    lemma_digits_fail(s@, 0, 4, 0, 14);
                }
                return Err(WMIError::TimestampParseError);
            },
        };
        let month = match read_number(s, 4, 6) {
            Some(v) => v,
            None => {
                proof {
                    lemma_digits_fail(s@, 4, 6, 0, 14);
                }
                return Err(WMIError::TimestampParseError);
            },
        };
        let day = match read_number(s, 6, 8) {
            Some(v) => v,
            None => {
                proof {
                    lemma_digits_fail(s@, 6, 8, 0, 14);
                }
                return Err(WMIError::TimestampParseError);
            },
        };
        let hour = match read_number(s, 8, 10) {
            Some(v) => v,
            None => {
                proof {
                    lemma_digits_fail(s@, 8, 10, 0, 14);
                }
                return Err(WMIError::TimestampParseError);
            },
        };
        let minute = match read_number(s, 10, 12) {
            Some(v) => v,
            None => {
                proof {
                    lemma_digits_fail(s@, 10, 12, 0, 14);
                }
                return Err(WMIError::TimestampParseError);
            },
        };
        let second = match read_number(s, 12, 14) {
            Some(v) => v,
            None => {
                proof {
                    lemma_digits_fail(s@, 12, 14, 0, 14);
                }
                return Err(WMIError::TimestampParseError);
            },
        };
        if s.get_char(14) != '.' {
            return Err(WMIError::TimestampParseError);
        }
        let micros = match read_number(s, 15, 21) {
            Some(v) => v,
            None => {
                return Err(WMIError::TimestampParseError);
            },
        };
        let sign = s.get_char(21);
        if sign != '+' && sign != '-' {
            return Err(WMIError::TimestampParseError);
        }
        let off_mag = match read_number(s, 22, 25) {
            Some(v) => v,
            None => {
                return Err(WMIError::TimestampParseError);
            },
        };
        if month < 1 || month > 12 {
            return Err(WMIError::TimestampParseError);
        }
        let dim = days_in_month(year, month as u8);
        if day < 1 || day > dim as u32 {
            return Err(WMIError::TimestampParseError);
        }
        if hour > 23 || minute > 59 || second > 59 {
            return Err(WMIError::TimestampParseError);
        }
        let offset_minutes: i32 = if sign == '-' {
            -(off_mag as i32)
        } else {
            off_mag as i32
        };
        proof {
            lemma_digits_join(s@);
        }
        Ok(WMIDateTime {
            year,
            month: month as u8,
            day: day as u8,
            hour: hour as u8,
            minute: minute as u8,
            second: second as u8,
            micros,
            offset_minutes,
        })
    }
}

/// The digit writing `d`.
pub open spec fn digit_char(d: int) -> char {
    if d == 0 {
        '0'
    } else if d == 1 {
        '1'
    } else if d == 2 {
        '2'
    } else if d == 3 {
        '3'
    } else if d == 4 {
        '4'
    } else if d == 5 {
        '5'
    } else if d == 6 {
        '6'
    } else if d == 7 {
        '7'
    } else if d == 8 {
        '8'
    } else {
        '9'
    }
}

/// `n` written with exactly two digits.
pub open spec fn spec_two_digits(n: int) -> Seq<char> {
    seq![digit_char(n / 10 % 10), digit_char(n % 10)]
}

/// `n` written with exactly four digits.
pub open spec fn spec_four_digits(n: int) -> Seq<char> {
    seq![
        digit_char(n / 1000 % 10),
        digit_char(n / 100 % 10),
        digit_char(n / 10 % 10),
        digit_char(n % 10),
    ]
}

/// `n` written with exactly six digits.
pub open spec fn spec_six_digits(n: int) -> Seq<char> {
    seq![
        digit_char(n / 100000 % 10),
        digit_char(n / 10000 % 10),
        digit_char(n / 1000 % 10),
        digit_char(n / 100 % 10),
        digit_char(n / 10 % 10),
        digit_char(n % 10),
    ]
}

/// The magnitude of an offset in minutes.
pub open spec fn spec_abs_minutes(m: int) -> int {
    if m < 0 {
        -m
    } else {
        m
    }
}

/// The ISO-8601 rendering this type produces: date, time of day to the
/// microsecond, and the originally-specified offset as `+HH:MM`/`-HH:MM`.
pub open spec fn spec_rfc3339(dt: WMIDateTime) -> Seq<char> {
    spec_four_digits(dt.year as int) + seq!['-'] + spec_two_digits(dt.month as int)
        + seq!['-'] + spec_two_digits(dt.day as int) + seq!['T']
        + spec_two_digits(dt.hour as int) + seq![':'] + spec_two_digits(dt.minute as int)
        + seq![':'] + spec_two_digits(dt.second as int) + seq!['.']
        + spec_six_digits(dt.micros as int)
        + seq![if dt.offset_minutes < 0 { '-' } else { '+' }]
        + spec_two_digits(spec_abs_minutes(dt.offset_minutes as int) / 60) + seq![':']
        + spec_two_digits(spec_abs_minutes(dt.offset_minutes as int) % 60)
}

/// The one-character text writing the digit `d`.
fn digit_str(d: u8) -> (r: &'static str)
    requires
        d <= 9,
    ensures
        r@ =~= seq![digit_char(d as int)],
{
    if d == 0 {
        proof {
            reveal_strlit("0");
        }
        "0"
    } else if d == 1 {
        proof {
            reveal_strlit("1");
        }
        "1"
    } else if d == 2 {
        proof {
            reveal_strlit("2");
        }
        "2"
    } else if d == 3 {
        proof {
            reveal_strlit("3");
        }
        "3"
    } else if d == 4 {
        proof {
            reveal_strlit("4");
        }
        "4"
    } else if d == 5 {
        proof {
            reveal_strlit("5");
        }
        "5"
    } else if d == 6 {
        proof {
            reveal_strlit("6");
        }
        "6"
    } else if d == 7 {
        proof {
            reveal_strlit("7");
        }
        "7"
    } else if d == 8 {
        proof {
            reveal_strlit("8");
        }
        "8"
    } else {
        proof {
            reveal_strlit("9");
        }
        "9"
    }
}

/// Appends `n` written with exactly two digits.
fn push_two_digits(out: &mut String, n: u8)
    requires
        n <= 99,
    ensures
        final(out)@ == old(out)@ + spec_two_digits(n as int),
{
    out.append(digit_str(n / 10));
    out.append(digit_str(n % 10));
    proof {
        assert(n as int / 10 % 10 == n as int / 10);
        assert(final(out)@ =~= old(out)@ + spec_two_digits(n as int));
    }
}

/// Appends `n` written with exactly four digits.
fn push_four_digits(out: &mut String, n: u32)
    requires
        n <= 9999,
    ensures
        final(out)@ == old(out)@ + spec_four_digits(n as int),
{
    out.append(digit_str((n / 1000) as u8));
    out.append(digit_str((n / 100 % 10) as u8));
    out.append(digit_str((n / 10 % 10) as u8));
    out.append(digit_str((n % 10) as u8));
    proof {
        assert(n as int / 1000 % 10 == n as int / 1000);
        assert(final(out)@ =~= old(out)@ + spec_four_digits(n as int));
    }
}

/// Appends `n` written with exactly six digits.
fn push_six_digits(out: &mut String, n: u32)
    requires
        n <= 999_999,
    ensures
        final(out)@ == old(out)@ + spec_six_digits(n as int),
{
    out.append(digit_str((n / 100000) as u8));
    out.append(digit_str((n / 10000 % 10) as u8));
    out.append(digit_str((n / 1000 % 10) as u8));
    out.append(digit_str((n / 100 % 10) as u8));
    out.append(digit_str((n / 10 % 10) as u8));
    out.append(digit_str((n % 10) as u8));
    proof {
        assert(n as int / 100000 % 10 == n as int / 100000);
        assert(final(out)@ =~= old(out)@ + spec_six_digits(n as int));
    }
}

impl WMIDateTime {
    /// Renders this point in time in ISO-8601 shape with the
    /// originally-specified offset suffix, e.g.
    /// `2019-01-13T20:05:17.500000+01:00`.
    pub fn to_rfc3339(&self) -> (r: String)
        requires
            self.wf(),
        ensures
            r@ == spec_rfc3339(*self),
    {
        let mut out = String::new();
        push_four_digits(&mut out, self.year);
        out.append("-");
        push_two_digits(&mut out, self.month);
        out.append("-");
        push_two_digits(&mut out, self.day);
        out.append("T");
        push_two_digits(&mut out, self.hour);
        out.append(":");
        push_two_digits(&mut out, self.minute);
        out.append(":");
        push_two_digits(&mut out, self.second);
        out.append(".");
        push_six_digits(&mut out, self.micros);
        let mag: i32 = if self.offset_minutes < 0 {
            out.append("-");
            -self.offset_minutes
        } else {
            out.append("+");
            self.offset_minutes
        };
        push_two_digits(&mut out, (mag / 60) as u8);
        out.append(":");
        push_two_digits(&mut out, (mag % 60) as u8);
        proof {
            reveal_strlit("-");
            reveal_strlit("+");
            reveal_strlit("T");
            reveal_strlit(":");
            reveal_strlit(".");
            assert(out@ =~= spec_rfc3339(*self));
        }
        out
    }
}

/// Writing a digit and reading it back is the identity.
proof fn lemma_digit_round_trip(d: int)
    requires
        0 <= d <= 9,
    ensures
        is_digit(digit_char(d)),
        digit_val(digit_char(d)) == d,
{
}

/// Writing a number below one hundred with two digits and reading the two
/// digits back is the identity.
pub proof fn lemma_two_digits_round_trip(n: int)
    requires
        0 <= n < 100,
    ensures
        all_digits(spec_two_digits(n)),
        num_val(spec_two_digits(n)) == n,
{
    lemma_digit_round_trip(n / 10);
    lemma_digit_round_trip(n % 10);
    assert(n / 10 % 10 == n / 10);
    let s = spec_two_digits(n);
    assert(s.drop_last() =~= seq![digit_char(n / 10)]);
    assert(s.drop_last().drop_last() =~= Seq::<char>::empty());
    assert(num_val(Seq::<char>::empty()) == 0);
    assert(s.drop_last().len() == 1);
    assert(s.drop_last().last() == digit_char(n / 10));
    assert(num_val(s.drop_last()) == num_val(s.drop_last().drop_last()) * 10
        + digit_val(s.drop_last().last()));
    assert(num_val(s.drop_last()) == digit_val(digit_char(n / 10)));
    assert(forall|i: int| 0 <= i < s.len() ==> is_digit(#[trigger] s[i]));
}

/// Round-trip law: parsing carries the originally-specified offset into the
/// date-time unchanged, and rendering writes that same offset back — the
/// hour and minute digit pairs the rendering appends read back, as numbers,
/// to exactly the carried magnitude, under the carried sign.
pub proof fn lemma_offset_round_trip(s: Seq<char>)
    requires
        timestamp_valid(s),
    ensures
        spec_parse(s).offset_minutes == spec_offset_minutes(s),
        num_val(spec_two_digits(spec_abs_minutes(spec_offset_minutes(s)) / 60)) * 60
            + num_val(spec_two_digits(spec_abs_minutes(spec_offset_minutes(s)) % 60))
            == spec_abs_minutes(spec_offset_minutes(s)),
        spec_offset_minutes(s) < 0 ==> s[21] == '-',
{
    lemma_num_val_bound(s.subrange(22, 25));
    lemma_pow10_small_values();
    let mag = spec_abs_minutes(spec_offset_minutes(s));
    assert(0 <= mag <= 999);
    lemma_two_digits_round_trip(mag / 60);
    lemma_two_digits_round_trip(mag % 60);
}

/// A digit run covers every stretch inside it.
proof fn lemma_digits_sub(s: Seq<char>, from: int, to: int, lo: int, hi: int)
    requires
        0 <= lo <= from <= to <= hi <= s.len(),
        all_digits(s.subrange(lo, hi)),
    ensures
        all_digits(s.subrange(from, to)),
{
    assert forall|i: int| 0 <= i < to - from implies is_digit(
        #[trigger] s.subrange(from, to)[i],
    ) by {
        assert(s.subrange(from, to)[i] == s[from + i]);
        assert(s.subrange(lo, hi)[from - lo + i] == s[from + i]);
    }
}

/// A stretch of non-digit-holding text spoils the digit run that contains it.
proof fn lemma_digits_fail(s: Seq<char>, from: int, to: int, lo: int, hi: int)
    requires
        0 <= lo <= from <= to <= hi <= s.len(),
        !all_digits(s.subrange(from, to)),
    ensures
        !all_digits(s.subrange(lo, hi)),
{
    if all_digits(s.subrange(lo, hi)) {
        lemma_digits_sub(s, from, to, lo, hi);
    }
}

/// Digit runs over the six date-time fields join into the one 14-digit run.
proof fn lemma_digits_join(s: Seq<char>)
    requires
        s.len() == 25,
        all_digits(s.subrange(0, 4)),
        all_digits(s.subrange(4, 6)),
        all_digits(s.subrange(6, 8)),
        all_digits(s.subrange(8, 10)),
        all_digits(s.subrange(10, 12)),
        all_digits(s.subrange(12, 14)),
    ensures
        all_digits(s.subrange(0, 14)),
{
    let outer = s.subrange(0, 14);
    assert forall|i: int| 0 <= i < 14 implies is_digit(#[trigger] outer[i]) by {
        assert(outer[i] == s[i]);
        if i < 4 {
            assert(s.subrange(0, 4)[i] == s[i]);
        } else if i < 6 {
            assert(s.subrange(4, 6)[i - 4] == s[i]);
        } else if i < 8 {
            assert(s.subrange(6, 8)[i - 6] == s[i]);
        } else if i < 10 {
            assert(s.subrange(8, 10)[i - 8] == s[i]);
        } else if i < 12 {
            assert(s.subrange(10, 12)[i - 10] == s[i]);
        } else {
            assert(s.subrange(12, 14)[i - 12] == s[i]);
        }
    }
}

} // verus!
