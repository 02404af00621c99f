//! Calendar dates in the RFC 5545 `YYYYMMDD` form, validated against the
//! proleptic Gregorian calendar.

use vstd::prelude::*;

verus! {

use crate::strutil::{
    all_digits,
    digits_val,
    digit_char,
    digit_val,
    is_digit,
    digit_of,
    str_to_chars,
    chars_to_string,
    lemma_digit_char_val,
};
use crate::ical::values::base::{CodecError, ICalValueType, ICalParameterMap};

/// A calendar date with a four-digit year.
#[derive(Clone, Copy, Debug, PartialEq, Eq, Structural)]
pub struct ICalDate {
    pub year: u32,
    pub month: u32,
    pub day: u32,
}

impl View for ICalDate {
    type V = ICalDate;

    open spec fn view(&self) -> ICalDate {
        *self
    }
}

pub open spec fn is_leap_year(y: int) -> bool {
    y % 4 == 0 && (y % 100 != 0 || y % 400 == 0)
}

pub open spec fn days_in_month(y: int, m: int) -> int {
    if m == 2 {
        if is_leap_year(y) {
            29
        } else {
            28
        }
    } else if m == 4 || m == 6 || m == 9 || m == 11 {
        30
    } else {
        31
    }
}

pub open spec fn date_valid(y: int, m: int, d: int) -> bool {
    0 <= y <= 9999 && 1 <= m <= 12 && 1 <= d <= days_in_month(y, m)
}

pub open spec fn date_wf(date: ICalDate) -> bool {
    date_valid(date.year as int, date.month as int, date.day as int)
}

/// Ten to the given power.
pub open spec fn pow10(w: int) -> int
    decreases w,
{
    if w <= 0 {
        1
    } else {
        10 * pow10(w - 1)
    }
}

/// Zero-padded, fixed-width decimal rendering of the low `w` digits of a
/// non-negative number.
pub open spec fn pad_canon(n: int, w: int) -> Seq<char>
    decreases w,
{
    if w <= 0 {
        Seq::empty()
    } else {
        pad_canon(n / 10, w - 1).push(digit_char(n % 10))
    }
}

pub proof fn lemma_pad_canon(n: int, w: int)
    requires
        0 <= n < pow10(w),
        w >= 0,
    ensures
        pad_canon(n, w).len() == w,
        all_digits(pad_canon(n, w)),
        digits_val(pad_canon(n, w)) == n,
    decreases w,
{
    if w == 0 {
    } else {
        assert(n / 10 < pow10(w - 1)) by {
            assert(n < 10 * pow10(w - 1));
            assert(n / 10 <= (10 * pow10(w - 1) - 1) / 10) by {
                vstd::arithmetic::div_mod::lemma_div_is_ordered(n, 10 * pow10(w - 1) - 1, 10);
            }
            assert((10 * pow10(w - 1) - 1) / 10 == pow10(w - 1) - 1) by {
                vstd::arithmetic::div_mod::lemma_fundamental_div_mod_converse(
                    10 * pow10(w - 1) - 1,
                    10,
                    pow10(w - 1) - 1,
                    9,
                );
            }
        }
        lemma_pad_canon(n / 10, w - 1);
        lemma_digit_char_val(n % 10);
        let s = pad_canon(n, w);
        assert(s.drop_last() =~= pad_canon(n / 10, w - 1));
        assert(s.last() == digit_char(n % 10));
        assert(digits_val(s) == digits_val(pad_canon(n / 10, w - 1)) * 10 + digit_val(
            digit_char(n % 10),
        ));
        assert((n / 10) * 10 + n % 10 == n) by {
            vstd::arithmetic::div_mod::lemma_fundamental_div_mod(n, 10);
        }
        assert(forall|i: int| 0 <= i < s.len() ==> is_digit(#[trigger] s[i])) by {
            assert(forall|i: int|
                0 <= i < s.len() - 1 ==> s[i] == #[trigger] pad_canon(n / 10, w - 1)[i]);
        }
    }
}

/// Renders the low `w` decimal digits of a number, zero padded.
pub fn pad_u32(n: u32, w: usize) -> (r: Vec<char>)
    ensures
        r@ == pad_canon(n as int, w as int),
{
    let mut rev: Vec<char> = Vec::new();
    let mut cur: u32 = n;
    let mut left: usize = w;
    proof {
        assert(pad_canon(n as int, w as int) =~= pad_canon(cur as int, left as int)
            + rev@.reverse());
    }
    while left > 0
        invariant
            pad_canon(n as int, w as int) =~= pad_canon(cur as int, left as int) + rev@.reverse(),
        decreases left,
    {
        let d = cur % 10;
        let dc = digit_of(d as u64);
        rev.push(dc);
        proof {
            let old_rev = rev@.drop_last();
            assert(rev@.reverse() =~= seq![dc] + old_rev.reverse());
            assert(pad_canon(cur as int, left as int) =~= pad_canon(cur as int / 10, left - 1)
                + seq![dc]);
            assert(pad_canon(cur as int / 10, left - 1) + rev@.reverse() =~= pad_canon(
                cur as int,
                left as int,
            ) + old_rev.reverse());
        }
        cur = cur / 10;
        left = left - 1;
    }
    let mut out: Vec<char> = Vec::new();
    let mut i: usize = rev.len();
    while i > 0
        invariant
            i <= rev.len(),
            out@ =~= rev@.skip(i as int).reverse(),
        decreases i,
    {
        i = i - 1;
        out.push(rev[i]);
        proof {
            assert(rev@.skip(i as int).reverse() =~= rev@.skip(i + 1).reverse().push(
                rev@[i as int],
            ));
        }
    }
    proof {
        assert(rev@.skip(0) =~= rev@);
        assert(pad_canon(n as int, w as int) =~= rev@.reverse());
    }
    out
}

pub proof fn lemma_pow10_values()
    ensures
        pow10(0) == 1,
        pow10(1) == 10,
        pow10(2) == 100,
        pow10(3) == 1000,
        pow10(4) == 10000,
        pow10(5) == 100000,
        pow10(6) == 1000000,
        pow10(7) == 10000000,
        pow10(8) == 100000000,
{
    assert(pow10(0) == 1);
    assert(pow10(1) == 10);
    assert(pow10(2) == 100);
    assert(pow10(3) == 1000);
    assert(pow10(4) == 10000);
    assert(pow10(5) == 100000);
    assert(pow10(6) == 1000000);
    assert(pow10(7) == 10000000);
    assert(pow10(8) == 100000000);
}

pub proof fn lemma_pow10_pos(w: int)
    ensures
        pow10(w) >= 1,
    decreases w,
{
    if w > 0 {
        lemma_pow10_pos(w - 1);
    }
}

pub proof fn lemma_pow10_monotone(a: int, b: int)
    requires
        a <= b,
    ensures
        pow10(a) <= pow10(b),
        pow10(a) >= 1,
    decreases b - a,
{
    lemma_pow10_pos(a);
    if a < b {
        lemma_pow10_monotone(a, b - 1);
        lemma_pow10_pos(b - 1);
    }
}

/// Reads a fixed-width decimal number out of a character window, or
/// reports that some character there is not a digit.
pub fn parse_fixed(cs: &Vec<char>, start: usize, w: usize) -> (r: Option<u32>)
    requires
        start + w <= cs@.len(),
        w <= 8,
    ensures
        match r {
            Some(v) => all_digits(cs@.subrange(start as int, start + w)) && v == digits_val(
                cs@.subrange(start as int, start + w),
            ) && v < pow10(w as int),
            None => !all_digits(cs@.subrange(start as int, start + w)),
        },
{
    let ghost win = cs@.subrange(start as int, start + w);
    let mut acc: u32 = 0;
    let mut j: usize = 0;
    while j < w
        invariant
            j <= w,
            w <= 8,
            start + w <= cs@.len(),
            win == cs@.subrange(start as int, start + w),
            all_digits(win.take(j as int)),
            acc == digits_val(win.take(j as int)),
            acc < pow10(j as int),
        decreases w - j,
    {
        let n = cs.len();
        proof {
            assert(start + j < n);
        }
        let c = cs[start + j];
        proof {
            assert(win[j as int] == c);
        }
        if !('0' <= c && c <= '9') {
            proof {
                assert(!is_digit(win[j as int]));
            }
            return None;
        }
        let d: u32 = (c as u32) - ('0' as u32);
        proof {
            assert(win.take(j + 1).drop_last() =~= win.take(j as int));
            assert(win.take(j + 1).last() == win[j as int]);
            assert(digit_val(win[j as int]) == d);
            lemma_pow10_monotone(j as int, 7);
            lemma_pow10_values();
            assert(acc * 10 + d < pow10(j + 1));
        }
        acc = acc * 10 + d;
        j = j + 1;
    }
    proof {
        assert(win.take(w as int) =~= win);
    }
    Some(acc)
}

/// The `YYYYMMDD` grammar: exactly eight digits naming a valid date.
pub open spec fn sp_parse_date(s: Seq<char>) -> Result<ICalDate, CodecError> {
    if s.len() == 8 && all_digits(s) {
        let y = digits_val(s.subrange(0, 4));
        let m = digits_val(s.subrange(4, 6));
        let d = digits_val(s.subrange(6, 8));
        if date_valid(y, m, d) {
            Ok(ICalDate { year: y as u32, month: m as u32, day: d as u32 })
        } else {
            Err(CodecError::BadDate)
        }
    } else {
        Err(CodecError::BadDate)
    }
}

pub open spec fn sp_canon_date(date: ICalDate) -> Seq<char> {
    pad_canon(date.year as int, 4) + pad_canon(date.month as int, 2) + pad_canon(date.day as int, 2)
}

impl ICalDate {
    pub fn year(&self) -> (r: u32)
        ensures
            r == self.year,
    {
        self.year
    }

    pub fn month(&self) -> (r: u32)
        ensures
            r == self.month,
    {
        self.month
    }

    pub fn day(&self) -> (r: u32)
        ensures
            r == self.day,
    {
        self.day
    }
}

/// Days in a month, computed executably.
pub fn days_in_month_x(y: u32, m: u32) -> (r: u32)
    ensures
        r == days_in_month(y as int, m as int),
{
    if m == 2 {
        if y % 4 == 0 && (y % 100 != 0 || y % 400 == 0) {
            29
        } else {
            28
        }
    } else if m == 4 || m == 6 || m == 9 || m == 11 {
        30
    } else {
        31
    }
}

impl ICalValueType for ICalDate {
    open spec fn sp_parse(raw: Seq<char>, params: Seq<(Seq<char>, Seq<char>)>) -> Result<
        ICalDate,
        CodecError,
    > {
        sp_parse_date(raw)
    }

    open spec fn sp_canon(m: ICalDate) -> Seq<char> {
        sp_canon_date(m)
    }

    fn parse(value: &str, params: &ICalParameterMap) -> (r: Result<Self, CodecError>) {
        let cs = str_to_chars(value);
        if cs.len() != 8 {
            return Err(CodecError::BadDate);
        }
        let y = match parse_fixed(&cs, 0, 4) {
            Some(v) => v,
            None => {
                proof {
                    assert(cs@.subrange(0, 4) =~= cs@.take(4));
                    assert(!all_digits(cs@));
                }
                return Err(CodecError::BadDate);
            },
        };
        let m = match parse_fixed(&cs, 4, 2) {
            Some(v) => v,
            None => {
                proof {
                    assert(!all_digits(cs@));
                }
                return Err(CodecError::BadDate);
            },
        };
        let d = match parse_fixed(&cs, 6, 2) {
            Some(v) => v,
            None => {
                proof {
                    assert(!all_digits(cs@));
                }
                return Err(CodecError::BadDate);
            },
        };
        proof {
            assert forall|i: int| 0 <= i < 8 implies is_digit(#[trigger] cs@[i]) by {
                if i < 4 {
                    assert(cs@[i] == cs@.subrange(0, 4)[i]);
                } else if i < 6 {
                    assert(cs@[i] == cs@.subrange(4, 6)[i - 4]);
                } else {
                    assert(cs@[i] == cs@.subrange(6, 8)[i - 6]);
                }
            }
            assert(all_digits(cs@));
        }
        if 1 <= m && m <= 12 && 1 <= d && d <= days_in_month_x(y, m) {
            proof {
                lemma_pow10_values();
                assert(y <= 9999);
            }
            Ok(ICalDate { year: y, month: m, day: d })
        } else {
            Err(CodecError::BadDate)
        }
    }

    fn serialize(&self) -> (r: String) {
        let mut out = pad_u32(self.year, 4);
        let mut mm = pad_u32(self.month, 2);
        let mut dd = pad_u32(self.day, 2);
        out.append(&mut mm);
        out.append(&mut dd);
        chars_to_string(&out)
    }
}

/// Parsing the canonical text of a well-formed date yields the date back.
pub proof fn lemma_date_round_trip(date: ICalDate)
    requires
        date_wf(date),
    ensures
        sp_parse_date(sp_canon_date(date)) == Ok::<ICalDate, CodecError>(date),
{
    let s = sp_canon_date(date);
    lemma_pow10_values();
    lemma_pad_canon(date.year as int, 4);
    lemma_pad_canon(date.month as int, 2);
    lemma_pad_canon(date.day as int, 2);
    assert(s.subrange(0, 4) =~= pad_canon(date.year as int, 4));
    assert(s.subrange(4, 6) =~= pad_canon(date.month as int, 2));
    assert(s.subrange(6, 8) =~= pad_canon(date.day as int, 2));
    assert forall|i: int| 0 <= i < 8 implies is_digit(#[trigger] s[i]) by {
        if i < 4 {
            assert(s[i] == s.subrange(0, 4)[i]);
        } else if i < 6 {
            assert(s[i] == s.subrange(4, 6)[i - 4]);
        } else {
            assert(s[i] == s.subrange(6, 8)[i - 6]);
        }
    }
    assert(all_digits(s));
}

} // verus!
