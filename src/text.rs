//! Text forms of dates and times: `YYYY-MM-DD`, `HH:MM:SS[.fff[fff]]`,
//! and the two joined by a space.

use vstd::prelude::*;
use crate::temporal::{NaiveDate, NaiveDateTime, NaiveTime};

verus! {

pub open spec fn digit_char(d: int) -> char {
    if d == 0 {
        '0'
    } else if d == 1 {
        '1'
    } else if d == 2 {
        '2'
    } else if d == 3 {
        '3'
    } else if d == 4 {
        '4'
    } else if d == 5 {
        '5'
    } else if d == 6 {
        '6'
    } else if d == 7 {
        '7'
    } else if d == 8 {
        '8'
    } else {
        '9'
    }
}

/// Decimal digits of `n`, without leading zeros.
pub open spec fn decimal(n: nat) -> Seq<char>
    decreases n,
{
    if n < 10 {
        seq![digit_char(n as int)]
    } else {
        decimal(n / 10).push(digit_char((n % 10) as int))
    }
}

/// Decimal digits of `n`, with zeros in front up to `width` characters.
pub open spec fn padded(n: nat, width: nat) -> Seq<char> {
    let digits = decimal(n);
    if digits.len() < width {
        Seq::new((width - digits.len()) as nat, |i: int| '0') + digits
    } else {
        digits
    }
}

/// A year as four digits when it lies in 0 to 9999, else signed and at
/// least four digits long.
pub open spec fn year_text(y: int) -> Seq<char> {
    if 0 <= y <= 9999 {
        padded(y as nat, 4)
    } else if y > 9999 {
        seq!['+'] + padded(y as nat, 4)
    } else {
        seq!['-'] + padded((-y) as nat, 4)
    }
}

pub open spec fn date_text(y: int, m: int, d: int) -> Seq<char> {
    year_text(y) + seq!['-'] + padded(m as nat, 2) + seq!['-'] + padded(d as nat, 2)
}

/// `HH:MM:SS`, then the fraction of the second in milliseconds or
/// microseconds, whichever is exact, when it is not zero.
pub open spec fn time_text(micros: nat) -> Seq<char> {
    let us = micros % 1_000_000;
    let fraction = if us == 0 {
        Seq::empty()
    } else if us % 1000 == 0 {
        seq!['.'] + padded(us / 1000, 3)
    } else {
        seq!['.'] + padded(us, 6)
    };
    padded(micros / 3_600_000_000, 2) + seq![':'] + padded((micros / 60_000_000) % 60, 2) + seq![
        ':',
    ] + padded((micros / 1_000_000) % 60, 2) + fraction
}

/// Relies on String::push: appends one character to the string.
#[verifier::external_body]
fn push_char(s: &mut String, c: char)
    ensures
        final(s)@ == old(s)@.push(c),
{
    s.push(c);
}

fn digit(d: u64) -> (r: char)
    ensures
        r == digit_char(d as int),
{
    if d == 0 {
        '0'
    } else if d == 1 {
        '1'
    } else if d == 2 {
        '2'
    } else if d == 3 {
        '3'
    } else if d == 4 {
        '4'
    } else if d == 5 {
        '5'
    } else if d == 6 {
        '6'
    } else if d == 7 {
        '7'
    } else if d == 8 {
        '8'
    } else {
        '9'
    }
}

fn decimal_len(n: u64) -> (r: usize)
    ensures
        r == decimal(n as nat).len(),
    decreases n,
{
    if n < 10 {
        1
    } else {
        proof {
            assert(pow10(20) == 100_000_000_000_000_000_000) by {
                reveal_with_fuel(pow10, 21);
            }
            lemma_decimal_len_pow(n as nat, 20);
        }
        decimal_len(n / 10) + 1
    }
}

/// A number below `10^k` has at most `k` digits.
proof fn lemma_decimal_len_pow(n: nat, k: nat)
    requires
        k >= 1,
        n < pow10(k),
    ensures
        decimal(n).len() <= k,
    decreases k,
{
    if n >= 10 {
        if k == 1 {
            assert(pow10(1) == 10) by {
                reveal_with_fuel(pow10, 2);
            }
        } else {
            assert(n / 10 < pow10((k - 1) as nat));
            lemma_decimal_len_pow(n / 10, (k - 1) as nat);
        }
    }
}

pub open spec fn pow10(k: nat) -> nat
    decreases k,
{
    if k == 0 {
        1
    } else {
        10 * pow10((k - 1) as nat)
    }
}

fn push_decimal(s: &mut String, n: u64)
    ensures
        final(s)@ == old(s)@ + decimal(n as nat),
    decreases n,
{
    if n >= 10 {
        push_decimal(s, n / 10);
    }
    push_char(s, digit(n % 10));
    assert(final(s)@ =~= old(s)@ + decimal(n as nat));
}

fn push_padded(s: &mut String, n: u64, width: usize)
    ensures
        final(s)@ == old(s)@ + padded(n as nat, width as nat),
{
    let len = decimal_len(n);
    let mut i: usize = len;
    let ghost start = s@;
    while i < width
        invariant
            len <= i <= width || (len > width && i == len),
            s@ == start + Seq::new((i - len) as nat, |j: int| '0'),
        decreases width - i,
    {
        push_char(s, '0');
        i = i + 1;
        assert(s@ =~= start + Seq::new((i - len) as nat, |j: int| '0'));
    }
    push_decimal(s, n);
    assert(s@ =~= start + padded(n as nat, width as nat));
}

fn push_char_seq(s: &mut String, c: char)
    ensures
        final(s)@ == old(s)@ + seq![c],
{
    push_char(s, c);
    assert(final(s)@ =~= old(s)@ + seq![c]);
}

fn push_date(s: &mut String, date: &NaiveDate)
    requires
        date.wf(),
    ensures
        final(s)@ == old(s)@ + date_text(
            date.spec_ymd().0,
            date.spec_ymd().1,
            date.spec_ymd().2,
        ),
{
    let (y, m, d) = date.ymd();
    let ghost start = s@;
    if 0 <= y && y <= 9999 {
        push_padded(s, y as u64, 4);
    } else if y > 9999 {
        push_char_seq(s, '+');
        push_padded(s, y as u64, 4);
    } else {
        push_char_seq(s, '-');
        push_padded(s, (-(y as i64)) as u64, 4);
    }
    assert(s@ =~= start + year_text(y as int));
    push_char_seq(s, '-');
    push_padded(s, m as u64, 2);
    push_char_seq(s, '-');
    push_padded(s, d as u64, 2);
    assert(s@ =~= start + date_text(y as int, m as int, d as int));
}

fn push_time(s: &mut String, time: &NaiveTime)
    ensures
        final(s)@ == old(s)@ + time_text(time.micros as nat),
{
    let ghost start = s@;
    let micros = time.micros;
    push_padded(s, micros / 3_600_000_000, 2);
    push_char_seq(s, ':');
    push_padded(s, (micros / 60_000_000) % 60, 2);
    push_char_seq(s, ':');
    push_padded(s, (micros / 1_000_000) % 60, 2);
    let us = micros % 1_000_000;
    if us == 0 {
    } else if us % 1000 == 0 {
        push_char_seq(s, '.');
        push_padded(s, us / 1000, 3);
    } else {
        push_char_seq(s, '.');
        push_padded(s, us, 6);
    }
    assert(s@ =~= start + time_text(time.micros as nat));
}

impl NaiveDate {
    /// `YYYY-MM-DD`.
    pub fn to_string(&self) -> (r: String)
        requires
            self.wf(),
        ensures
            r@ == date_text(self.spec_ymd().0, self.spec_ymd().1, self.spec_ymd().2),
    {
        let mut s = String::new();
        push_date(&mut s, self);
        assert(s@ =~= date_text(self.spec_ymd().0, self.spec_ymd().1, self.spec_ymd().2));
        s
    }
}

impl NaiveTime {
    /// `HH:MM:SS`, with the fraction of the second when it is not zero.
    pub fn to_string(&self) -> (r: String)
        ensures
            r@ == time_text(self.micros as nat),
    {
        let mut s = String::new();
        push_time(&mut s, self);
        assert(s@ =~= time_text(self.micros as nat));
        s
    }
}

impl NaiveDateTime {
    /// The date and the time, joined by a space.
    pub fn to_string(&self) -> (r: String)
        requires
            self.date.wf(),
        ensures
            r@ == date_text(
                self.date.spec_ymd().0,
                self.date.spec_ymd().1,
                self.date.spec_ymd().2,
            ) + seq![' '] + time_text(self.time.micros as nat),
    {
        let mut s = String::new();
        push_date(&mut s, &self.date);
        push_char_seq(&mut s, ' ');
        push_time(&mut s, &self.time);
        s
    }
}

} // verus!
