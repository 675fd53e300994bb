//! Plain calendar values. Document metadata carries a date (with an
//! optional time of day) as integer fields; the index orders documents by
//! their calendar date, newest first.

use vstd::prelude::*;
use crate::text::{dec_str, push_dec, push_char};

verus! {

/// A calendar date as plain fields.
#[derive(Clone, Copy, PartialEq, Eq, Structural, Debug)]
pub struct DateVal {
    pub year: i32,
    pub month: u8,
    pub day: u8,
}

/// A calendar date with a time of day, as plain fields.
#[derive(Clone, Copy, PartialEq, Eq, Structural, Debug)]
pub struct DateTimeVal {
    pub year: i32,
    pub month: u8,
    pub day: u8,
    pub hour: u8,
    pub minute: u8,
    pub second: u8,
}

impl DateTimeVal {
    /// Midnight at the start of the given date.
    pub fn from_date(d: DateVal) -> (r: DateTimeVal)
        ensures
            r == (DateTimeVal {
                year: d.year,
                month: d.month,
                day: d.day,
                hour: 0,
                minute: 0,
                second: 0,
            }),
    {
        DateTimeVal { year: d.year, month: d.month, day: d.day, hour: 0, minute: 0, second: 0 }
    }

    /// The calendar-date part, the time of day dropped.
    pub fn date(&self) -> (r: DateVal)
        ensures
            r == (DateVal { year: self.year, month: self.month, day: self.day }),
    {
        DateVal { year: self.year, month: self.month, day: self.day }
    }
}

/// Dates ordered by year, then month, then day.
pub open spec fn date_le(a: DateVal, b: DateVal) -> bool {
    a.year < b.year || (a.year == b.year && (a.month < b.month || (a.month == b.month
        && a.day <= b.day)))
}

/// `date_le` decided executably.
pub fn date_le_exec(a: &DateVal, b: &DateVal) -> (r: bool)
    ensures
        r == date_le(*a, *b),
{
    a.year < b.year || (a.year == b.year && (a.month < b.month || (a.month == b.month
        && a.day <= b.day)))
}

/// A number rendered in decimal and padded with leading zeros to at least
/// `width` digits.
pub open spec fn zero_padded(n: int, width: int) -> Seq<char>
    recommends
        n >= 0,
    decreases width,
{
    let d = dec_str(n);
    if d.len() >= width {
        d
    } else {
        zero_padded(n, width - 1).insert(0, '0')
    }
}

proof fn lemma_dec_str_len_bounds(n: int)
    requires
        n >= 0,
    ensures
        dec_str(n).len() >= 1,
        n < 10 ==> dec_str(n).len() == 1,
        10 <= n < 100 ==> dec_str(n).len() == 2,
        100 <= n < 1000 ==> dec_str(n).len() == 3,
        1000 <= n < 10000 ==> dec_str(n).len() == 4,
        n >= 1000 ==> dec_str(n).len() >= 4,
    decreases n,
{
    if n >= 10 {
        lemma_dec_str_len_bounds(n / 10);
    }
}

/// Appends `n` zero-padded to `width` digits; `width` at most 4.
fn push_padded(s: &mut String, n: usize, width: usize)
    requires
        width <= 4,
    ensures
        final(s)@ == old(s)@ + zero_padded(n as int, width as int),
{
    proof {
        lemma_dec_str_len_bounds(n as int);
        lemma_zero_padded_unfold(n as int, width as int);
    }
    if width >= 4 && n < 1000 {
        push_char(s, '0');
    }
    if width >= 3 && n < 100 {
        push_char(s, '0');
    }
    if width >= 2 && n < 10 {
        push_char(s, '0');
    }
    push_dec(s, n);
    assert(final(s)@ =~= old(s)@ + zero_padded(n as int, width as int));
}

/// A run of `k` zero characters (none for `k` at most zero).
pub open spec fn zeros(k: int) -> Seq<char> {
    Seq::new(if k < 0 { 0 } else { k as nat }, |i: int| '0')
}

proof fn lemma_zero_padded_unfold(n: int, width: int)
    requires
        n >= 0,
    ensures
        zero_padded(n, width) =~= zeros(width - dec_str(n).len()) + dec_str(n),
    decreases width,
{
    lemma_dec_str_len_bounds(n);
    if width > dec_str(n).len() {
        lemma_zero_padded_unfold(n, width - 1);
        assert(zero_padded(n, width) =~= zeros(width - 1 - dec_str(n).len()).insert(0, '0')
            + dec_str(n));
        assert(zeros(width - 1 - dec_str(n).len()).insert(0, '0') =~= zeros(
            width - dec_str(n).len(),
        ));
    }
}

/// The rendering of a date: the year zero-padded to four digits (a leading
/// `-` for years before zero), then `-MM-DD`.
pub open spec fn date_str(d: DateVal) -> Seq<char> {
    let y = if d.year < 0 {
        seq!['-'] + zero_padded(-d.year as int, 4)
    } else {
        zero_padded(d.year as int, 4)
    };
    y + seq!['-'] + zero_padded(d.month as int, 2) + seq!['-'] + zero_padded(d.day as int, 2)
}

/// Appends the `YYYY-MM-DD` rendering of `d` to `s`.
pub fn push_date(s: &mut String, d: &DateVal)
    ensures
        final(s)@ == old(s)@ + date_str(*d),
{
    let y: usize = if d.year < 0 {
        push_char(s, '-');
        if d.year == i32::MIN {
            // -(i32::MIN) does not fit in i32; widen first.
            let wide: i64 = -(i32::MIN as i64);
            wide as usize
        } else {
            (-d.year) as usize
        }
    } else {
        d.year as usize
    };
    if y < 10000 {
        push_padded(s, y, 4);
    } else {
        push_dec(s, y);
        proof {
            lemma_dec_str_len_bounds(y as int);
            lemma_zero_padded_unfold(y as int, 4);
        }
    }
    push_char(s, '-');
    push_padded(s, d.month as usize, 2);
    push_char(s, '-');
    push_padded(s, d.day as usize, 2);
    assert(final(s)@ =~= old(s)@ + date_str(*d));
}

/// The `YYYY-MM-DD` rendering of `d` as a fresh string.
pub fn date_string(d: &DateVal) -> (r: String)
    ensures
        r@ == date_str(*d),
{
    let mut s = String::new();
    push_date(&mut s, d);
    assert(s@ =~= date_str(*d));
    s
}

} // verus!
