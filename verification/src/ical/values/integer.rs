//! Integer values: decimal parse with optional sign, canonical decimal
//! output without a leading plus or leading zeros.

use vstd::prelude::*;

verus! {

use crate::strutil::{
    all_digits,
    digits_val,
    int_canon,
    is_digit,
    digit_val,
    nat_canon,
    str_to_chars,
    chars_to_string,
    u64_to_chars,
    lemma_digits_val_prefix,
    lemma_nat_canon_digits,
};
use crate::ical::values::base::{CodecError, ICalValueType, ICalParameterMap};

pub type ICalInteger = i32;

/// The digit part of a signed decimal string, and whether it is negated.
pub open spec fn int_strip_sign(s: Seq<char>) -> (bool, Seq<char>) {
    if s.len() > 0 && s[0] == '-' {
        (true, s.skip(1))
    } else if s.len() > 0 && s[0] == '+' {
        (false, s.skip(1))
    } else {
        (false, s)
    }
}

/// The decimal integer grammar: optional sign, one or more digits, value
/// within the 32-bit signed range.
pub open spec fn sp_parse_i32(s: Seq<char>) -> Result<i32, CodecError> {
    let (neg, ds) = int_strip_sign(s);
    if ds.len() == 0 || !all_digits(ds) {
        Err(CodecError::BadInteger)
    } else if neg {
        if digits_val(ds) <= 0x8000_0000 {
            Ok((-digits_val(ds)) as i32)
        } else {
            Err(CodecError::BadInteger)
        }
    } else {
        if digits_val(ds) <= 0x7fff_ffff {
            Ok(digits_val(ds) as i32)
        } else {
            Err(CodecError::BadInteger)
        }
    }
}

impl ICalValueType for ICalInteger {
    open spec fn sp_parse(raw: Seq<char>, params: Seq<(Seq<char>, Seq<char>)>) -> Result<
        i32,
        CodecError,
    > {
        sp_parse_i32(raw)
    }

    open spec fn sp_canon(m: i32) -> Seq<char> {
        int_canon(m as int)
    }

    fn parse(value: &str, params: &ICalParameterMap) -> (r: Result<Self, CodecError>) {
        let cs = str_to_chars(value);
        let mut start: usize = 0;
        let mut neg = false;
        if cs.len() > 0 && (cs[0] == '-' || cs[0] == '+') {
            neg = cs[0] == '-';
            start = 1;
        }
        let ghost ds = int_strip_sign(value@).1;
        proof {
            assert(ds =~= cs@.skip(start as int));
            assert(int_strip_sign(value@).0 == neg);
        }
        if start >= cs.len() {
            return Err(CodecError::BadInteger);
        }
        let limit: u64 = if neg {
            0x8000_0000
        } else {
            0x7fff_ffff
        };
        let mut acc: u64 = 0;
        let mut j: usize = start;
        while j < cs.len()
            invariant
                start <= j <= cs.len(),
                start < cs.len(),
                cs@ == value@,
                ds == int_strip_sign(value@).1,
                neg == int_strip_sign(value@).0,
                ds =~= cs@.skip(start as int),
                acc <= limit,
                limit == if neg {
                    0x8000_0000u64
                } else {
                    0x7fff_ffffu64
                },
                acc == digits_val(ds.take(j - start)),
                all_digits(ds.take(j - start)),
            decreases cs.len() - j,
        {
            let c = cs[j];
            if !('0' <= c && c <= '9') {
                proof {
                    assert(!is_digit(ds[j - start]));
                }
                return Err(CodecError::BadInteger);
            }
            let d: u64 = (c as u32 as u64) - ('0' as u32 as u64);
            proof {
                assert(ds.take(j - start + 1).drop_last() =~= ds.take(j - start));
                assert(ds.take(j - start + 1).last() == ds[j - start]);
                assert(digit_val(ds[j - start]) == d);
            }
            let next: u64 = acc * 10 + d;
            if next > limit {
                proof {
                    if all_digits(ds) {
                        lemma_digits_val_prefix(ds, j - start + 1);
                        assert(digits_val(ds) >= digits_val(ds.take(j - start + 1)));
                    }
                }
                return Err(CodecError::BadInteger);
            }
            acc = next;
            j = j + 1;
        }
        proof {
            assert(ds.take(ds.len() as int) =~= ds);
        }
        if neg {
            let v: i64 = -(acc as i64);
            Ok(v as i32)
        } else {
            Ok(acc as i32)
        }
    }

    fn serialize(&self) -> (r: String) {
        let n = *self;
        if n < 0 {
            let mag: u64 = (-(n as i64)) as u64;
            let digits = u64_to_chars(mag);
            let mut out: Vec<char> = Vec::new();
            out.push('-');
            let mut i: usize = 0;
            while i < digits.len()
                invariant
                    i <= digits.len(),
                    digits@ == nat_canon(mag as int),
                    out@ =~= seq!['-'] + digits@.take(i as int),
                decreases digits.len() - i,
            {
                out.push(digits[i]);
                proof {
                    assert(digits@.take(i + 1) =~= digits@.take(i as int).push(digits@[i as int]));
                }
                i = i + 1;
            }
            proof {
                assert(digits@.take(digits@.len() as int) =~= digits@);
                assert(out@ =~= int_canon(n as int));
            }
            chars_to_string(&out)
        } else {
            let digits = u64_to_chars(n as u64);
            chars_to_string(&digits)
        }
    }
}

/// Parsing the canonical decimal text of any 32-bit integer yields the
/// integer back.
pub proof fn lemma_i32_round_trip(n: i32)
    ensures
        sp_parse_i32(int_canon(n as int)) == Ok::<i32, CodecError>(n),
{
    if n >= 0 {
        lemma_nat_canon_digits(n as int);
        let s = int_canon(n as int);
        assert(s == nat_canon(n as int));
        assert(is_digit(s[0]));
        assert(s[0] != '-' && s[0] != '+');
        assert(int_strip_sign(s) == (false, s));
    } else {
        lemma_nat_canon_digits(-(n as int));
        let s = int_canon(n as int);
        assert(s == seq!['-'] + nat_canon(-(n as int)));
        assert(s[0] == '-');
        assert(s.skip(1) =~= nat_canon(-(n as int)));
        assert(digits_val(s.skip(1)) == -(n as int));
    }
}

} // verus!
