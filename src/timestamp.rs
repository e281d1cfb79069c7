use vstd::prelude::*;

use chrono::{Datelike, Timelike};

verus! {

/// A local wall-clock time to the second, as the calendar fields that the
/// tracker stores and prints.
#[derive(Clone, Copy, Debug, PartialEq, Eq, Structural)]
pub struct Timestamp {
    pub year: i32,
    pub month: u32,
    pub day: u32,
    pub hour: u32,
    pub minute: u32,
    pub second: u32,
}

pub open spec fn is_leap_year(y: int) -> bool {
    y % 4 == 0 && (y % 100 != 0 || y % 400 == 0)
}

pub open spec fn days_in_month(y: int, m: int) -> int {
    if m == 2 {
        if is_leap_year(y) { 29 } else { 28 }
    } else if m == 4 || m == 6 || m == 9 || m == 11 {
        30
    } else {
        31
    }
}

/// The decimal digit character of `d` (0 to 9).
pub open spec fn digit_char(d: nat) -> char {
    ((d + 48) as u8) as char
}

pub open spec fn is_digit(c: char) -> bool {
    '0' <= c && c <= '9'
}

pub open spec fn all_digits(s: Seq<char>) -> bool {
    forall|i: int| 0 <= i < s.len() ==> is_digit(#[trigger] s[i])
}

/// The number that a string of decimal digits denotes.
pub open spec fn decimal_value(s: Seq<char>) -> nat
    decreases s.len(),
{
    if s.len() == 0 {
        0
    } else {
        10 * decimal_value(s.drop_last()) + ((s.last() as int - 48) as nat)
    }
}

/// `n` in decimal, with leading zeros up to `width` digits.
pub open spec fn padded(n: nat, width: nat) -> Seq<char>
    decreases n + width,
{
    if n < 10 && width <= 1 {
        seq![digit_char(n)]
    } else {
        padded(n / 10, if width == 0 { 0 } else { (width - 1) as nat }).push(digit_char(n % 10))
    }
}

/// The year as `%Y` writes it: four digits from 0 to 9999, otherwise a sign
/// and at least four digits.
pub open spec fn year_text(y: int) -> Seq<char> {
    if 0 <= y <= 9999 {
        padded(y as nat, 4)
    } else if y < 0 {
        seq!['-'] + padded((-y) as nat, 4)
    } else {
        seq!['+'] + padded(y as nat, 4)
    }
}

/// `YYYY-MM-DD HH:MM:SS`
pub open spec fn timestamp_text(t: Timestamp) -> Seq<char> {
    year_text(t.year as int) + seq!['-'] + padded(t.month as nat, 2) + seq!['-'] + padded(
        t.day as nat,
        2,
    ) + seq![' '] + padded(t.hour as nat, 2) + seq![':'] + padded(t.minute as nat, 2) + seq![':']
        + padded(t.second as nat, 2)
}

/// The timestamp that a 19-character text `YYYY-MM-DD HH:MM:SS` denotes, if it
/// has that shape and names a real date and time.
pub open spec fn parse_timestamp_text(s: Seq<char>) -> Option<Timestamp> {
    if s.len() == 19 && s[4] == '-' && s[7] == '-' && s[10] == ' ' && s[13] == ':' && s[16]
        == ':' && all_digits(s.subrange(0, 4)) && all_digits(s.subrange(5, 7)) && all_digits(
        s.subrange(8, 10),
    ) && all_digits(s.subrange(11, 13)) && all_digits(s.subrange(14, 16)) && all_digits(
        s.subrange(17, 19),
    ) {
        let t = Timestamp {
            year: decimal_value(s.subrange(0, 4)) as i32,
            month: decimal_value(s.subrange(5, 7)) as u32,
            day: decimal_value(s.subrange(8, 10)) as u32,
            hour: decimal_value(s.subrange(11, 13)) as u32,
            minute: decimal_value(s.subrange(14, 16)) as u32,
            second: decimal_value(s.subrange(17, 19)) as u32,
        };
        if t.wf() {
            Some(t)
        } else {
            None
        }
    } else {
        None
    }
}

impl Timestamp {
    /// A real calendar date and a time of day without leap second.
    pub open spec fn wf(self) -> bool {
        &&& 1 <= self.month <= 12
        &&& 1 <= self.day <= days_in_month(self.year as int, self.month as int)
        &&& self.hour < 24
        &&& self.minute < 60
        &&& self.second < 60
    }

    /// The current local time.
    pub fn now() -> (r: Timestamp)
        ensures
            r.wf(),
    {
        local_now()
    }

    /// The text form `YYYY-MM-DD HH:MM:SS`.
    pub fn to_text(&self) -> (r: String)
        ensures
            r@ == timestamp_text(*self),
    {
        let y = self.year as i64;
        let mut s = if 0 <= y && y <= 9999 {
            padded_decimal(y as u64, 4)
        } else if y < 0 {
            let mut s = String::from_str("-");
            let digits = padded_decimal((-y) as u64, 4);
            s.append(digits.as_str());
            proof {
                reveal_strlit("-");
            }
            s
        } else {
            let mut s = String::from_str("+");
            let digits = padded_decimal(y as u64, 4);
            s.append(digits.as_str());
            proof {
                reveal_strlit("+");
            }
            s
        };
        assert(s@ == year_text(self.year as int));
        append_field(&mut s, "-", self.month);
        append_field(&mut s, "-", self.day);
        append_field(&mut s, " ", self.hour);
        append_field(&mut s, ":", self.minute);
        append_field(&mut s, ":", self.second);
        proof {
            reveal_strlit("-");
            reveal_strlit(" ");
            reveal_strlit(":");
        }
        assert(s@ =~= timestamp_text(*self));
        s
    }

    /// Reads the text form `YYYY-MM-DD HH:MM:SS`; `None` when the text has
    /// another shape or names no real date and time.
    pub fn parse(s: &str) -> (r: Option<Timestamp>)
        ensures
            r == parse_timestamp_text(s@),
    {
        let n = s.unicode_len();
        if n != 19 {
            return None;
        }
        if s.get_char(4) != '-' || s.get_char(7) != '-' || s.get_char(10) != ' ' || s.get_char(13)
            != ':' || s.get_char(16) != ':' {
            return None;
        }
        let year = match read_number(s, 0, 4) {
            Some(v) => v,
            None => return None,
        };
        let month = match read_number(s, 5, 7) {
            Some(v) => v,
            None => return None,
        };
        let day = match read_number(s, 8, 10) {
            Some(v) => v,
            None => return None,
        };
        let hour = match read_number(s, 11, 13) {
            Some(v) => v,
            None => return None,
        };
        let minute = match read_number(s, 14, 16) {
            Some(v) => v,
            None => return None,
        };
        let second = match read_number(s, 17, 19) {
            Some(v) => v,
            None => return None,
        };
        let t = Timestamp { year: year as i32, month, day, hour, minute, second };
        if t.is_valid() {
            Some(t)
        } else {
            None
        }
    }

    /// Whether the fields name a real date and time of day.
    pub fn is_valid(&self) -> (r: bool)
        ensures
            r == self.wf(),
    {
        if self.month < 1 || self.month > 12 || self.day < 1 {
            return false;
        }
        let y = self.year as i64;
        let leap = y % 4 == 0 && (y % 100 != 0 || y % 400 == 0);
        let dim: u32 = if self.month == 2 {
            if leap {
                29
            } else {
                28
            }
        } else if self.month == 4 || self.month == 6 || self.month == 9 || self.month == 11 {
            30
        } else {
            31
        };
        self.day <= dim && self.hour < 24 && self.minute < 60 && self.second < 60
    }
}

/// Relies on chrono's `Local::now().naive_local()`: the current local date and
/// time, whose month, day, hour, minute and second chrono keeps in their
/// calendar ranges (a leap second shows as second 59).
#[verifier::external_body]
fn local_now() -> (r: Timestamp)
    ensures
        r.wf(),
{
    let t = chrono::Local::now().naive_local();
    Timestamp {
        year: t.year(),
        month: t.month(),
        day: t.day(),
        hour: t.hour(),
        minute: t.minute(),
        second: t.second(),
    }
}

/// The character of a single decimal digit, as a one-character literal.
pub fn digit_str(d: u64) -> (r: &'static str)
    requires
        d < 10,
    ensures
        r@ == seq![digit_char(d as nat)],
{
    proof {
        reveal_strlit("0");
        reveal_strlit("1");
        reveal_strlit("2");
        reveal_strlit("3");
        reveal_strlit("4");
        reveal_strlit("5");
        reveal_strlit("6");
        reveal_strlit("7");
        reveal_strlit("8");
        reveal_strlit("9");
    }
    let r = if d == 0 {
        "0"
    } else if d == 1 {
        "1"
    } else if d == 2 {
        "2"
    } else if d == 3 {
        "3"
    } else if d == 4 {
        "4"
    } else if d == 5 {
        "5"
    } else if d == 6 {
        "6"
    } else if d == 7 {
        "7"
    } else if d == 8 {
        "8"
    } else {
        "9"
    };
    assert(r@ =~= seq![digit_char(d as nat)]);
    r
}

/// `n` in decimal, with leading zeros up to `width` digits.
pub fn padded_decimal(n: u64, width: u64) -> (r: String)
    requires
        width <= 20,
    ensures
        r@ == padded(n as nat, width as nat),
    decreases n + width,
{
    if n < 10 && width <= 1 {
        String::from_str(digit_str(n))
    } else {
        let w = if width == 0 {
            0
        } else {
            width - 1
        };
        let mut s = padded_decimal(n / 10, w);
        s.append(digit_str(n % 10));
        s
    }
}

fn append_field(s: &mut String, sep: &str, v: u32)
    ensures
        final(s)@ == old(s)@ + sep@ + padded(v as nat, 2),
{
    s.append(sep);
    let digits = padded_decimal(v as u64, 2);
    s.append(digits.as_str());
}

/// The value of the decimal digits at positions `a` to `b` of `s`, if all of
/// them are digits.
fn read_number(s: &str, a: usize, b: usize) -> (r: Option<u32>)
    requires
        a <= b <= s@.len(),
        b - a <= 4,
    ensures
        r is Some <==> all_digits(s@.subrange(a as int, b as int)),
        r matches Some(v) ==> v as nat == decimal_value(s@.subrange(a as int, b as int)),
{
    let mut v: u32 = 0;
    let mut i: usize = a;
    while i < b
        invariant
            a <= i <= b <= s@.len(),
            b - a <= 4,
            all_digits(s@.subrange(a as int, i as int)),
            v as nat == decimal_value(s@.subrange(a as int, i as int)),
            v < pow10((i - a) as nat),
        decreases b - i,
    {
        let c = s.get_char(i);
        if c < '0' || c > '9' {
            assert(s@.subrange(a as int, b as int)[i - a] == c);
            return None;
        }
        let ghost prev = s@.subrange(a as int, i as int);
        let ghost next = s@.subrange(a as int, i + 1);
        assert(next.drop_last() =~= prev);
        assert(next.last() == c);
        proof {
            lemma_pow10_small((i - a) as nat);
        }
        v = v * 10 + (c as u32 - 48);
        i = i + 1;
        assert(all_digits(next)) by {
            assert forall|j: int| 0 <= j < next.len() implies is_digit(#[trigger] next[j]) by {
                if j < prev.len() {
                    assert(next[j] == prev[j]);
                }
            }
        }
    }
    Some(v)
}

pub open spec fn pow10(n: nat) -> nat
    decreases n,
{
    if n == 0 {
        1
    } else {
        10 * pow10((n - 1) as nat)
    }
}

proof fn lemma_pow10_small(n: nat)
    requires
        n < 4,
    ensures
        pow10(n) <= 1000,
        pow10(n + 1) == 10 * pow10(n),
{
    reveal_with_fuel(pow10, 5);
}

/// The padded decimal form of a number below `10^width` is exactly `width`
/// digits long and reads back as the number.
pub proof fn lemma_padded_reads_back(n: nat, width: nat)
    requires
        width >= 1,
        n < pow10(width),
    ensures
        padded(n, width).len() == width,
        all_digits(padded(n, width)),
        decimal_value(padded(n, width)) == n,
    decreases width,
{
    let s = padded(n, width);
    assert(digit_char(n % 10) as int - 48 == n % 10);
    if n < 10 && width <= 1 {
        assert(s.drop_last() =~= Seq::<char>::empty());
        assert(decimal_value(Seq::<char>::empty()) == 0);
    } else {
        let w = (width - 1) as nat;
        assert(n / 10 < pow10(w)) by (nonlinear_arith)
            requires
                n < pow10(width),
                pow10(width) == 10 * pow10(w),
        ;
        if w == 0 {
            assert(n / 10 < 1);
            assert(false);
        } else {
            lemma_padded_reads_back(n / 10, w);
        }
        let p = padded(n / 10, w);
        assert(s == p.push(digit_char(n % 10)));
        assert(s.drop_last() =~= p);
        assert(10 * (n / 10) + n % 10 == n);
        assert(all_digits(s)) by {
            assert forall|j: int| 0 <= j < s.len() implies is_digit(#[trigger] s[j]) by {
                if j < p.len() {
                    assert(s[j] == p[j]);
                }
            }
        }
    }
}

/// Reading back the text of a timestamp with a four-digit year gives the
/// timestamp itself: the stored form keeps every field to the second.
pub proof fn lemma_timestamp_text_round_trip(t: Timestamp)
    requires
        t.wf(),
        0 <= t.year <= 9999,
    ensures
        parse_timestamp_text(timestamp_text(t)) == Some(t),
{
    reveal_with_fuel(pow10, 5);
    lemma_padded_reads_back(t.year as nat, 4);
    lemma_padded_reads_back(t.month as nat, 2);
    lemma_padded_reads_back(t.day as nat, 2);
    lemma_padded_reads_back(t.hour as nat, 2);
    lemma_padded_reads_back(t.minute as nat, 2);
    lemma_padded_reads_back(t.second as nat, 2);
    let s = timestamp_text(t);
    assert(s.len() == 19);
    assert(s.subrange(0, 4) =~= padded(t.year as nat, 4));
    assert(s.subrange(5, 7) =~= padded(t.month as nat, 2));
    assert(s.subrange(8, 10) =~= padded(t.day as nat, 2));
    assert(s.subrange(11, 13) =~= padded(t.hour as nat, 2));
    assert(s.subrange(14, 16) =~= padded(t.minute as nat, 2));
    assert(s.subrange(17, 19) =~= padded(t.second as nat, 2));
    assert(s[4] == '-' && s[7] == '-' && s[10] == ' ' && s[13] == ':' && s[16] == ':');
}

} // verus!
