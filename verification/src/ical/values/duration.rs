//! Durations in the RFC 5545 `["+"|"-"]"P"...` form.  Parsing accepts a
//! relaxed superset of the RFC grammar: week, day, hour, minute and second
//! components may appear in any order, each counted once (a repeated
//! letter overwrites).  Serialization is canonical: the week form exactly
//! when the total is a whole number of weeks with no sub-day remainder,
//! else days plus a time part; the zero duration serializes as `PT0S`.

use vstd::prelude::*;

verus! {

use crate::strutil::{
    all_digits,
    digits_val,
    digit_val,
    is_digit,
    nat_canon,
    str_to_chars,
    chars_to_string,
    u64_to_chars,
    lemma_digits_val_nonneg,
    lemma_nat_canon_digits,
};
use crate::ical::values::base::{CodecError, ICalValueType, ICalParameterMap};

/// A signed time delta, counted in whole seconds.
#[derive(Clone, Copy, Debug, PartialEq, Eq, Structural)]
pub struct ICalDuration {
    pub seconds: i64,
}

impl View for ICalDuration {
    type V = int;

    open spec fn view(&self) -> int {
        self.seconds as int
    }
}

pub open spec fn trunc_div(a: int, b: int) -> int {
    if a >= 0 {
        a / b
    } else {
        -((-a) / b)
    }
}

impl ICalDuration {
    /// Builds a duration from whole seconds.
    pub fn from_seconds(seconds: i64) -> (r: Self)
        ensures
            r.seconds == seconds,
    {
        ICalDuration { seconds }
    }

    /// Whole weeks, truncated toward zero.
    pub fn num_weeks(&self) -> (r: i64)
        ensures
            r == trunc_div(self.seconds as int, 604800),
    {
        self.seconds / 604800
    }

    /// Whole days, truncated toward zero.
    pub fn num_days(&self) -> (r: i64)
        ensures
            r == trunc_div(self.seconds as int, 86400),
    {
        self.seconds / 86400
    }

    /// Whole hours, truncated toward zero.
    pub fn num_hours(&self) -> (r: i64)
        ensures
            r == trunc_div(self.seconds as int, 3600),
    {
        self.seconds / 3600
    }

    /// Whole minutes, truncated toward zero.
    pub fn num_minutes(&self) -> (r: i64)
        ensures
            r == trunc_div(self.seconds as int, 60),
    {
        self.seconds / 60
    }

    /// Whole seconds.
    pub fn num_seconds(&self) -> (r: i64)
        ensures
            r == self.seconds,
    {
        self.seconds
    }
}

/// Accumulated component counts: weeks, days, hours, minutes, seconds.
pub type DurComps = (int, int, int, int, int);

pub open spec fn dur_total(c: DurComps) -> int {
    c.0 * 604800 + c.1 * 86400 + c.2 * 3600 + c.3 * 60 + c.4
}

pub open spec fn dur_set(c: DurComps, letter: char, v: int) -> DurComps {
    if letter == 'W' {
        (v, c.1, c.2, c.3, c.4)
    } else if letter == 'D' {
        (c.0, v, c.2, c.3, c.4)
    } else if letter == 'H' {
        (c.0, c.1, v, c.3, c.4)
    } else if letter == 'M' {
        (c.0, c.1, c.2, v, c.4)
    } else {
        (c.0, c.1, c.2, c.3, v)
    }
}

pub open spec fn is_dur_letter(c: char) -> bool {
    c == 'W' || c == 'D' || c == 'H' || c == 'M' || c == 'S'
}

/// The component scanner: digits accumulate into a buffer, `T` is skipped,
/// a unit letter commits the buffered count (which must be non-empty and
/// fit 64 bits), anything else is an error.  A buffer left at the end is
/// discarded.
pub open spec fn dur_scan(s: Seq<char>, buf: Seq<char>, c: DurComps) -> Option<DurComps>
    decreases s.len(),
{
    if s.len() == 0 {
        Some(c)
    } else {
        let ch = s[0];
        let rest = s.skip(1);
        if ch == 'T' {
            dur_scan(rest, buf, c)
        } else if is_digit(ch) {
            dur_scan(rest, buf.push(ch), c)
        } else if is_dur_letter(ch) {
            if buf.len() > 0 && digits_val(buf) <= 0x7fff_ffff_ffff_ffff {
                dur_scan(rest, Seq::empty(), dur_set(c, ch, digits_val(buf)))
            } else {
                None
            }
        } else {
            None
        }
    }
}

/// The sign and `P` prefix: `P`, `-P` or `+P`.
pub open spec fn dur_sign(s: Seq<char>) -> Option<(bool, Seq<char>)> {
    if s.len() >= 1 && s[0] == 'P' {
        Some((false, s.skip(1)))
    } else if s.len() >= 2 && (s[0] == '-' || s[0] == '+') && s[1] == 'P' {
        Some((s[0] == '-', s.skip(2)))
    } else {
        None
    }
}

/// The duration grammar: sign, `P`, scanned components; the signed total
/// must fit 64 bits of seconds.
pub open spec fn sp_parse_duration(s: Seq<char>) -> Result<int, CodecError> {
    match dur_sign(s) {
        None => Err(CodecError::BadDuration),
        Some((neg, rest)) => match dur_scan(rest, Seq::empty(), (0, 0, 0, 0, 0)) {
            None => Err(CodecError::BadDuration),
            Some(c) => {
                let t = if neg {
                    -dur_total(c)
                } else {
                    dur_total(c)
                };
                if -0x8000_0000_0000_0000 <= t <= 0x7fff_ffff_ffff_ffff {
                    Ok(t)
                } else {
                    Err(CodecError::BadDuration)
                }
            },
        },
    }
}

/// The canonical time-of-day part: `T` then hours, minutes and seconds,
/// each omitted together with every finer unit that is zero.
pub open spec fn time_canon(h: int, m: int, s: int) -> Seq<char> {
    if s > 0 {
        seq!['T'] + nat_canon(h) + seq!['H'] + nat_canon(m) + seq!['M'] + nat_canon(s) + seq!['S']
    } else if m > 0 {
        seq!['T'] + nat_canon(h) + seq!['H'] + nat_canon(m) + seq!['M']
    } else {
        seq!['T'] + nat_canon(h) + seq!['H']
    }
}

/// The canonical duration text.
pub open spec fn sp_canon_duration(total: int) -> Seq<char> {
    if total == 0 {
        seq!['P', 'T', '0', 'S']
    } else {
        let a = if total < 0 {
            -total
        } else {
            total
        };
        let prefix = if total < 0 {
            seq!['-', 'P']
        } else {
            seq!['P']
        };
        let weeks = a / 604800;
        let total_days = a / 86400;
        let days_rem = total_days - weeks * 7;
        let hours = a / 3600 - total_days * 24;
        let minutes = a / 60 - (a / 3600) * 60;
        let seconds = a - (a / 60) * 60;
        if days_rem == 0 && hours == 0 && minutes == 0 && seconds == 0 {
            prefix + nat_canon(weeks) + seq!['W']
        } else {
            let day_part = if total_days > 0 {
                nat_canon(total_days) + seq!['D']
            } else {
                Seq::<char>::empty()
            };
            let time_part = if hours > 0 || minutes > 0 || seconds > 0 {
                time_canon(hours, minutes, seconds)
            } else {
                Seq::<char>::empty()
            };
            prefix + day_part + time_part
        }
    }
}

impl ICalValueType for ICalDuration {
    open spec fn sp_parse(raw: Seq<char>, params: Seq<(Seq<char>, Seq<char>)>) -> Result<
        int,
        CodecError,
    > {
        sp_parse_duration(raw)
    }

    open spec fn sp_canon(m: int) -> Seq<char> {
        sp_canon_duration(m)
    }

    fn parse(value: &str, params: &ICalParameterMap) -> (r: Result<Self, CodecError>) {
        let cs = str_to_chars(value);
        let mut start: usize = 0;
        let mut neg = false;
        if cs.len() >= 1 && cs[0] == 'P' {
            start = 1;
        } else if cs.len() >= 2 && (cs[0] == '-' || cs[0] == '+') && cs[1] == 'P' {
            neg = cs[0] == '-';
            start = 2;
        } else {
            return Err(CodecError::BadDuration);
        }
        let ghost body = cs@.skip(start as int);
        proof {
            assert(dur_sign(value@) == Some((neg, body)));
        }
        let mut cw: i64 = 0;
        let mut cd: i64 = 0;
        let mut ch: i64 = 0;
        let mut cm: i64 = 0;
        let mut csec: i64 = 0;
        let mut acc: u64 = 0;
        let mut buffered = false;
        let mut over = false;
        let ghost mut buf: Seq<char> = Seq::empty();
        let mut j: usize = start;
        proof {
            assert(cs@.skip(start as int) =~= body);
        }
        while j < cs.len()
            invariant
                start <= j <= cs.len(),
                cs@ == value@,
                dur_sign(value@) == Some((neg, body)),
                body == cs@.skip(start as int),
                all_digits(buf),
                buffered == (buf.len() > 0),
                !over ==> acc == digits_val(buf) && acc <= 0x7fff_ffff_ffff_ffff,
                over ==> digits_val(buf) > 0x7fff_ffff_ffff_ffff,
                cw >= 0 && cd >= 0 && ch >= 0 && cm >= 0 && csec >= 0,
                dur_scan(body, Seq::empty(), (0, 0, 0, 0, 0)) == dur_scan(
                    cs@.skip(j as int),
                    buf,
                    (cw as int, cd as int, ch as int, cm as int, csec as int),
                ),
            decreases cs.len() - j,
        {
            let c = cs[j];
            proof {
                assert(cs@.skip(j as int)[0] == c);
                assert(cs@.skip(j as int).skip(1) =~= cs@.skip(j + 1));
            }
            if c == 'T' {
                // the buffer is kept across a T marker
            } else if '0' <= c && c <= '9' {
                let d: u64 = (c as u32 as u64) - ('0' as u32 as u64);
                proof {
                    assert(is_digit(c));
                    assert(digit_val(c) == d);
                    assert(buf.push(c).drop_last() =~= buf);
                    lemma_digits_val_nonneg(buf);
                }
                if over || acc > 922337203685477580 || (acc == 922337203685477580 && d > 7) {
                    proof {
                        if !over {
                            assert(digits_val(buf.push(c)) == acc * 10 + d);
                        } else {
                            assert(digits_val(buf.push(c)) == digits_val(buf) * 10 + d);
                        }
                        assert(digits_val(buf.push(c)) > 0x7fff_ffff_ffff_ffff);
                    }
                    over = true;
                } else {
                    acc = acc * 10 + d;
                }
                proof {
                    buf = buf.push(c);
                }
                buffered = true;
            } else if c == 'W' || c == 'D' || c == 'H' || c == 'M' || c == 'S' {
                if !buffered || over {
                    return Err(CodecError::BadDuration);
                }
                let v: i64 = acc as i64;
                if c == 'W' {
                    cw = v;
                } else if c == 'D' {
                    cd = v;
                } else if c == 'H' {
                    ch = v;
                } else if c == 'M' {
                    cm = v;
                } else {
                    csec = v;
                }
                acc = 0;
                buffered = false;
                over = false;
                proof {
                    buf = Seq::empty();
                }
            } else {
                proof {
                    assert(!is_digit(c) && !is_dur_letter(c) && c != 'T');
                }
                return Err(CodecError::BadDuration);
            }
            j = j + 1;
        }
        proof {
            assert(cs@.skip(cs@.len() as int) =~= Seq::<char>::empty());
        }
        let t: i128 = (cw as i128) * 604800 + (cd as i128) * 86400 + (ch as i128) * 3600 + (
        cm as i128) * 60 + (csec as i128);
        let t = if neg {
            -t
        } else {
            t
        };
        if t < -0x8000_0000_0000_0000i128 || t > 0x7fff_ffff_ffff_ffffi128 {
            return Err(CodecError::BadDuration);
        }
        Ok(ICalDuration { seconds: t as i64 })
    }

    #[verifier::rlimit(50)]
    fn serialize(&self) -> (r: String) {
        let total = self.seconds;
        if total == 0 {
            let mut v: Vec<char> = Vec::new();
            v.push('P');
            v.push('T');
            v.push('0');
            v.push('S');
            proof {
                assert(v@ =~= seq!['P', 'T', '0', 'S']);
            }
            return chars_to_string(&v);
        }
        let a: u64 = if total < 0 {
            (-(total as i128)) as u64
        } else {
            total as u64
        };
        let (weeks, total_days, days_rem, hours, minutes, seconds) = dur_units(a);
        let ghost prefix: Seq<char> = if total < 0 {
            seq!['-', 'P']
        } else {
            seq!['P']
        };
        let mut v: Vec<char> = Vec::new();
        if total < 0 {
            v.push('-');
        }
        v.push('P');
        proof {
            assert(v@ =~= prefix);
        }
        if days_rem == 0 && hours == 0 && minutes == 0 && seconds == 0 {
            let mut w = u64_to_chars(weeks);
            v.append(&mut w);
            v.push('W');
            proof {
                assert(v@ =~= prefix + nat_canon(weeks as int) + seq!['W']);
                assert(v@ =~= sp_canon_duration(self.seconds as int));
            }
        } else {
            if total_days > 0 {
                let mut dd = u64_to_chars(total_days);
                v.append(&mut dd);
                v.push('D');
            }
            let ghost day_part: Seq<char> = if total_days > 0 {
                nat_canon(total_days as int) + seq!['D']
            } else {
                Seq::<char>::empty()
            };
            proof {
                assert(v@ =~= prefix + day_part);
            }
            if hours > 0 || minutes > 0 || seconds > 0 {
                v.push('T');
                if seconds > 0 {
                    let mut hh = u64_to_chars(hours);
                    v.append(&mut hh);
                    v.push('H');
                    let mut mm = u64_to_chars(minutes);
                    v.append(&mut mm);
                    v.push('M');
                    let mut ss = u64_to_chars(seconds);
                    v.append(&mut ss);
                    v.push('S');
                } else if minutes > 0 {
                    let mut hh = u64_to_chars(hours);
                    v.append(&mut hh);
                    v.push('H');
                    let mut mm = u64_to_chars(minutes);
                    v.append(&mut mm);
                    v.push('M');
                } else {
                    let mut hh = u64_to_chars(hours);
                    v.append(&mut hh);
                    v.push('H');
                }
                proof {
                    assert(v@ =~= prefix + day_part + time_canon(
                        hours as int,
                        minutes as int,
                        seconds as int,
                    ));
                }
            }
            proof {
                assert(v@ =~= sp_canon_duration(self.seconds as int));
            }
        }
        chars_to_string(&v)
    }
}


/// Splits a non-negative second count into the unit counts the canonical
/// form is written with.
#[verifier::rlimit(50)]
fn dur_units(a: u64) -> (r: (u64, u64, u64, u64, u64, u64))
    ensures
        r.0 == a as int / 604800,
        r.1 == a as int / 86400,
        r.2 == a as int / 86400 - (a as int / 604800) * 7,
        r.3 == a as int / 3600 - (a as int / 86400) * 24,
        r.4 == a as int / 60 - (a as int / 3600) * 60,
        r.5 == a as int - (a as int / 60) * 60,
{
    proof {
        lemma_dur_decompose(a as int);
    }
    let weeks: u64 = a / 604800;
    let total_days: u64 = a / 86400;
    let days_rem: u64 = total_days - weeks * 7;
    let hours: u64 = a / 3600 - total_days * 24;
    let minutes: u64 = a / 60 - (a / 3600) * 60;
    let seconds: u64 = a - (a / 60) * 60;
    (weeks, total_days, days_rem, hours, minutes, seconds)
}

/// The derived unit counts of a non-negative total are themselves
/// non-negative and within their carrying ranges.
pub proof fn lemma_dur_decompose(a: int)
    requires
        a >= 0,
    ensures
        0 <= a / 604800,
        a / 604800 * 7 <= a / 86400,
        a / 86400 * 24 <= a / 3600,
        a / 3600 * 60 <= a / 60,
        a / 60 * 60 <= a,
        a / 86400 - (a / 604800) * 7 <= 6,
        a / 3600 - (a / 86400) * 24 <= 23,
        a / 60 - (a / 3600) * 60 <= 59,
        a - (a / 60) * 60 <= 59,
        a / 60 <= a,
        a / 3600 <= a,
        a / 86400 <= a,
        a / 86400 * 24 <= a,
        a / 3600 * 60 <= a,
{
    vstd::arithmetic::div_mod::lemma_div_nonincreasing(a, 60);
    vstd::arithmetic::div_mod::lemma_div_nonincreasing(a, 3600);
    vstd::arithmetic::div_mod::lemma_div_nonincreasing(a, 86400);
    vstd::arithmetic::div_mod::lemma_fundamental_div_mod(a, 60);
    vstd::arithmetic::div_mod::lemma_fundamental_div_mod(a, 3600);
    vstd::arithmetic::div_mod::lemma_fundamental_div_mod(a, 86400);
    vstd::arithmetic::div_mod::lemma_fundamental_div_mod(a, 604800);
    lemma_div_chain(a, 60, 60);
    lemma_div_chain(a, 3600, 24);
    lemma_div_chain(a, 86400, 7);
}

/// Relates a division by `b` to the division by `b * c`:
/// `(a / b) / c == a / (b * c)`, so the remainder of the coarser unit in
/// the finer one is below `c`.
proof fn lemma_div_chain(a: int, b: int, c: int)
    requires
        a >= 0,
        b > 0,
        c > 0,
    ensures
        a / b - (a / (b * c)) * c <= c - 1,
        (a / (b * c)) * c <= a / b,
{
    vstd::arithmetic::div_mod::lemma_div_denominator(a, b, c);
    assert((a / b) / c == a / (b * c));
    vstd::arithmetic::div_mod::lemma_fundamental_div_mod(a / b, c);
    vstd::arithmetic::div_mod::lemma_div_pos_is_pos(a, b);
    vstd::arithmetic::div_mod::lemma_mod_bound(a / b, c);
}


/// Scanning a digit run moves it into the buffer.
proof fn lemma_scan_digits(ds: Seq<char>, rest: Seq<char>, buf: Seq<char>, c: DurComps)
    requires
        all_digits(ds),
    ensures
        dur_scan(ds + rest, buf, c) == dur_scan(rest, buf + ds, c),
    decreases ds.len(),
{
    if ds.len() == 0 {
        assert(ds + rest =~= rest);
        assert(buf + ds =~= buf);
    } else {
        let d0 = ds[0];
        assert(is_digit(d0));
        assert((ds + rest)[0] == d0);
        assert((ds + rest).skip(1) =~= ds.skip(1) + rest);
        assert(all_digits(ds.skip(1))) by {
            assert(forall|j: int| 0 <= j < ds.len() - 1 ==> #[trigger] ds.skip(1)[j] == ds[j + 1]);
        }
        lemma_scan_digits(ds.skip(1), rest, buf.push(d0), c);
        assert(buf.push(d0) + ds.skip(1) =~= buf + ds);
    }
}

/// Scanning a rendered count and its unit letter commits the count.
proof fn lemma_scan_segment(n: int, letter: char, rest: Seq<char>, c: DurComps)
    requires
        0 <= n <= 0x7fff_ffff_ffff_ffff,
        is_dur_letter(letter),
    ensures
        dur_scan(nat_canon(n) + seq![letter] + rest, Seq::empty(), c) == dur_scan(
            rest,
            Seq::empty(),
            dur_set(c, letter, n),
        ),
{
    lemma_nat_canon_digits(n);
    assert(nat_canon(n) + seq![letter] + rest =~= nat_canon(n) + (seq![letter] + rest));
    lemma_scan_digits(nat_canon(n), seq![letter] + rest, Seq::empty(), c);
    assert(Seq::<char>::empty() + nat_canon(n) =~= nat_canon(n));
    let mid = seq![letter] + rest;
    assert(mid[0] == letter);
    assert(mid.skip(1) =~= rest);
    assert(!is_digit(letter));
    assert(letter != 'T');
    assert(dur_scan(mid, nat_canon(n), c) == dur_scan(rest, Seq::empty(), dur_set(c, letter, n)));
}

/// Scanning a rendered time part commits hours, minutes and seconds,
/// leaving out whatever the canonical form left out as zero.
proof fn lemma_scan_time(h: int, m: int, sec: int, c: DurComps)
    requires
        0 <= h <= 0x7fff_ffff_ffff_ffff,
        0 <= m <= 0x7fff_ffff_ffff_ffff,
        0 <= sec <= 0x7fff_ffff_ffff_ffff,
        h > 0 || m > 0 || sec > 0,
        c.2 == 0 && c.3 == 0 && c.4 == 0,
    ensures
        dur_scan(time_canon(h, m, sec), Seq::empty(), c) == Some(
            (c.0, c.1, h as int, m as int, sec as int),
        ),
{
    let t = time_canon(h, m, sec);
    if sec > 0 {
        let r1 = nat_canon(h) + seq!['H'] + nat_canon(m) + seq!['M'] + nat_canon(sec) + seq!['S'];
        assert(t =~= seq!['T'] + r1);
        assert(t[0] == 'T');
        assert(t.skip(1) =~= r1);
        let r2 = nat_canon(m) + seq!['M'] + (nat_canon(sec) + seq!['S']);
        assert(r1 =~= nat_canon(h) + seq!['H'] + r2);
        lemma_scan_segment(h, 'H', r2, c);
        let c1 = dur_set(c, 'H', h);
        let r3 = nat_canon(sec) + seq!['S'];
        assert(r2 =~= nat_canon(m) + seq!['M'] + r3);
        lemma_scan_segment(m, 'M', r3, c1);
        let c2 = dur_set(c1, 'M', m);
        assert(r3 =~= nat_canon(sec) + seq!['S'] + Seq::<char>::empty());
        lemma_scan_segment(sec, 'S', Seq::empty(), c2);
        let c3 = dur_set(c2, 'S', sec);
        assert(dur_scan(Seq::empty(), Seq::empty(), c3) == Some(c3));
        assert(c3 == (c.0, c.1, h as int, m as int, sec as int));
    } else if m > 0 {
        let r1 = nat_canon(h) + seq!['H'] + nat_canon(m) + seq!['M'];
        assert(t =~= seq!['T'] + r1);
        assert(t[0] == 'T');
        assert(t.skip(1) =~= r1);
        let r2 = nat_canon(m) + seq!['M'];
        assert(r1 =~= nat_canon(h) + seq!['H'] + r2);
        lemma_scan_segment(h, 'H', r2, c);
        let c1 = dur_set(c, 'H', h);
        assert(r2 =~= nat_canon(m) + seq!['M'] + Seq::<char>::empty());
        lemma_scan_segment(m, 'M', Seq::empty(), c1);
        let c2 = dur_set(c1, 'M', m);
        assert(dur_scan(Seq::empty(), Seq::empty(), c2) == Some(c2));
        assert(c2 == (c.0, c.1, h as int, m as int, 0int));
    } else {
        let r1 = nat_canon(h) + seq!['H'];
        assert(t =~= seq!['T'] + r1);
        assert(t[0] == 'T');
        assert(t.skip(1) =~= r1);
        assert(r1 =~= nat_canon(h) + seq!['H'] + Seq::<char>::empty());
        lemma_scan_segment(h, 'H', Seq::empty(), c);
        let c1 = dur_set(c, 'H', h);
        assert(dur_scan(Seq::empty(), Seq::empty(), c1) == Some(c1));
        assert(c1 == (c.0, c.1, h as int, 0int, 0int));
    }
}

/// Duration round-trip: parsing the canonical text of any total within
/// the model's range yields the total back.
#[verifier::rlimit(100)]
#[verifier::spinoff_prover]
pub proof fn lemma_duration_round_trip(d: int)
    requires
        -0x8000_0000_0000_0000 <= d <= 0x7fff_ffff_ffff_ffff,
    ensures
        sp_parse_duration(sp_canon_duration(d)) == Ok::<int, CodecError>(d),
{
    let text = sp_canon_duration(d);
    if d == 0 {
        reveal_with_fuel(dur_scan, 5);
        assert(text =~= seq!['P', 'T', '0', 'S']);
        assert(text[0] == 'P');
        let body = text.skip(1);
        assert(body =~= seq!['T', '0', 'S']);
        assert(dur_sign(text) == Some((false, body)));
        assert(body[0] == 'T');
        let b1 = body.skip(1);
        assert(b1 =~= seq!['0', 'S']);
        assert(b1[0] == '0');
        assert(is_digit('0'));
        let b2 = b1.skip(1);
        assert(b2 =~= seq!['S']);
        assert(b2[0] == 'S');
        let buf = Seq::<char>::empty().push('0');
        assert(buf.drop_last() =~= Seq::<char>::empty());
        assert(digits_val(buf) == 0);
        assert(b2.skip(1) =~= Seq::<char>::empty());
        assert(dur_scan(body, Seq::empty(), (0, 0, 0, 0, 0)) == Some((0int, 0int, 0int, 0int, 0int)));
    } else {
        let a = if d < 0 {
            -d
        } else {
            d
        };
        let weeks = a / 604800;
        let total_days = a / 86400;
        let days_rem = total_days - weeks * 7;
        let hours = a / 3600 - total_days * 24;
        let minutes = a / 60 - (a / 3600) * 60;
        let seconds = a - (a / 60) * 60;
        lemma_dur_decompose(a);
        vstd::arithmetic::div_mod::lemma_div_is_ordered(a, 0x8000_0000_0000_0000int, 604800);
        vstd::arithmetic::div_mod::lemma_div_is_ordered(a, 0x8000_0000_0000_0000int, 86400);
        assert(weeks <= 0x8000_0000_0000_0000int / 604800);
        assert(total_days <= 0x8000_0000_0000_0000int / 86400);
        vstd::arithmetic::div_mod::lemma_fundamental_div_mod(a, 60);
        vstd::arithmetic::div_mod::lemma_fundamental_div_mod(a, 3600);
        vstd::arithmetic::div_mod::lemma_fundamental_div_mod(a, 86400);
        let prefix = if d < 0 {
            seq!['-', 'P']
        } else {
            seq!['P']
        };
        let zeros: DurComps = (0int, 0int, 0int, 0int, 0int);
        let body: Seq<char> = if days_rem == 0 && hours == 0 && minutes == 0 && seconds == 0 {
            nat_canon(weeks) + seq!['W']
        } else {
            let day_part: Seq<char> = if total_days > 0 {
                nat_canon(total_days) + seq!['D']
            } else {
                Seq::<char>::empty()
            };
            let time_part: Seq<char> = if hours > 0 || minutes > 0 || seconds > 0 {
                time_canon(hours, minutes, seconds)
            } else {
                Seq::<char>::empty()
            };
            day_part + time_part
        };
        assert(text == prefix + body);
        if d < 0 {
            assert(text[0] == '-');
            assert(text[1] == 'P');
            assert(text.len() >= 2);
            assert(text.skip(2) =~= body);
            assert(dur_sign(text) == Some((true, body)));
        } else {
            assert(text[0] == 'P');
            assert(text.skip(1) =~= body);
            assert(dur_sign(text) == Some((false, body)));
        }
        let scanned = dur_scan(body, Seq::empty(), zeros);
        if days_rem == 0 && hours == 0 && minutes == 0 && seconds == 0 {
            assert(body =~= nat_canon(weeks) + seq!['W'] + Seq::<char>::empty());
            lemma_scan_segment(weeks, 'W', Seq::empty(), zeros);
            let cw = dur_set(zeros, 'W', weeks);
            assert(scanned == Some(cw));
            assert(a == (a / 60) * 60);
            assert(a / 60 == (a / 3600) * 60);
            assert(a == (a / 3600) * 3600);
            assert(a / 3600 == total_days * 24);
            assert(a == total_days * 86400);
            assert(total_days == weeks * 7);
            assert(a == weeks * 604800);
            assert(dur_total(cw) == a);
        } else {
            assert(total_days > 0 || hours > 0 || minutes > 0 || seconds > 0) by {
                if total_days == 0 && hours == 0 && minutes == 0 && seconds == 0 {
                    assert(a == (a / 60) * 60);
                    assert(a / 60 == (a / 3600) * 60);
                    assert(a == (a / 3600) * 3600);
                    assert(a / 3600 == total_days * 24);
                    assert(a == 0);
                }
            }
            let c1: DurComps = if total_days > 0 {
                dur_set(zeros, 'D', total_days)
            } else {
                zeros
            };
            if hours > 0 || minutes > 0 || seconds > 0 {
                let time_part = time_canon(hours, minutes, seconds);
                if total_days > 0 {
                    assert(body =~= nat_canon(total_days) + seq!['D'] + time_part);
                    lemma_scan_segment(total_days, 'D', time_part, zeros);
                } else {
                    assert(body =~= time_part);
                }
                lemma_scan_time(hours, minutes, seconds, c1);
                assert(scanned == Some((c1.0, c1.1, hours, minutes, seconds)));
            } else {
                assert(total_days > 0);
                assert(body =~= nat_canon(total_days) + seq!['D'] + Seq::<char>::empty());
                lemma_scan_segment(total_days, 'D', Seq::empty(), zeros);
                assert(scanned == Some(c1));
            }
            // recompose the total
            assert(a == (a / 60) * 60 + seconds);
            assert(a / 60 == (a / 3600) * 60 + minutes);
            assert(a == (a / 3600) * 3600 + minutes * 60 + seconds) by {
                assert(((a / 3600) * 60 + minutes) * 60 == (a / 3600) * 3600 + minutes * 60)
                    by (nonlinear_arith);
            }
            assert(a / 3600 == total_days * 24 + hours);
            assert(a == total_days * 86400 + hours * 3600 + minutes * 60 + seconds) by {
                assert((total_days * 24 + hours) * 3600 == total_days * 86400 + hours * 3600)
                    by (nonlinear_arith);
            }
            match scanned {
                Some(cc) => {
                    assert(dur_total(cc) == a);
                },
                None => {
                    assert(false);
                },
            }
        }
        if d < 0 {
            assert(-a == d);
        }
    }
}

} // verus!
