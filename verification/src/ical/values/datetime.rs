//! Datetimes in the RFC 5545 `YYYYMMDD"T"HHMMSS[Z]` form: local wall-clock
//! values, or values zoned by a `TZID` parameter or a trailing `Z`.

use vstd::prelude::*;

verus! {

use crate::strutil::{all_digits, digits_val, is_digit, str_to_chars, chars_to_string};
use crate::ical::values::base::{
    CodecError,
    ICalValueType,
    ICalParameterMap,
    param_get,
    param_lookup,
};
use crate::ical::values::date::{
    ICalDate,
    date_valid,
    days_in_month_x,
    pad_canon,
    pad_u32,
    parse_fixed,
    lemma_pad_canon,
    lemma_pow10_values,
};

/// The wall-clock fields of a datetime.
#[derive(Clone, Copy, Debug, PartialEq, Eq, Structural)]
pub struct DateTimeParts {
    pub date: ICalDate,
    pub hour: u32,
    pub minute: u32,
    pub second: u32,
}

pub open spec fn parts_valid(p: DateTimeParts) -> bool {
    date_valid(p.date.year as int, p.date.month as int, p.date.day as int) && p.hour <= 23
        && p.minute <= 59 && p.second <= 59
}

/// A datetime value: either a floating local time, or a time zoned by the
/// named timezone.  A value parsed with a `TZID` parameter or a trailing
/// `Z` is always `Zoned`; the zone name `UTC` is what a trailing `Z`
/// denotes, and only that zone serializes with the `Z` suffix again.
#[derive(Clone, Debug)]
pub enum ICalDateTime {
    Local(DateTimeParts),
    Zoned(DateTimeParts, String),
}

/// Spec view of a datetime: the zone name as a character sequence.
pub enum DateTimeModel {
    Local(DateTimeParts),
    Zoned(DateTimeParts, Seq<char>),
}

impl View for ICalDateTime {
    type V = DateTimeModel;

    open spec fn view(&self) -> DateTimeModel {
        match self {
            ICalDateTime::Local(p) => DateTimeModel::Local(*p),
            ICalDateTime::Zoned(p, tz) => DateTimeModel::Zoned(*p, tz@),
        }
    }
}

/// Whether the named timezone is known and the given wall-clock fields
/// denote one unambiguous instant in it.  This names the outcome of the
/// timezone database lookup; it is a fixed function of its arguments.
pub uninterp spec fn tz_resolves(
    name: Seq<char>,
    y: int,
    mo: int,
    d: int,
    h: int,
    mi: int,
    s: int,
) -> bool;

/// Relies on `chrono_tz::Tz::from_str`, `chrono::NaiveDate::from_ymd_opt`,
/// `chrono::NaiveDate::and_hms_opt` and chrono's
/// `TimeZone::from_local_datetime`: returns whether the name resolves to a
/// timezone of the bundled database in which these wall-clock fields exist
/// unambiguously.  The answer depends on the arguments alone.
#[verifier::external_body]
fn tz_check(name: &str, y: u32, mo: u32, d: u32, h: u32, mi: u32, s: u32) -> (r: bool)
    ensures
        r == tz_resolves(name@, y as int, mo as int, d as int, h as int, mi as int, s as int),
{
    let tz: chrono_tz::Tz = match name.parse() {
        Ok(tz) => tz,
        Err(_) => return false,
    };
    let date = match chrono::NaiveDate::from_ymd_opt(y as i32, mo, d) {
        Some(date) => date,
        None => return false,
    };
    let naive = match date.and_hms_opt(h, mi, s) {
        Some(naive) => naive,
        None => return false,
    };
    chrono::TimeZone::from_local_datetime(&tz, &naive).single().is_some()
}

/// The digit part of a datetime: date, `T`, time of day.
pub open spec fn parts_canon(p: DateTimeParts) -> Seq<char> {
    pad_canon(p.date.year as int, 4) + pad_canon(p.date.month as int, 2) + pad_canon(
        p.date.day as int,
        2,
    ) + seq!['T'] + pad_canon(p.hour as int, 2) + pad_canon(p.minute as int, 2) + pad_canon(
        p.second as int,
        2,
    )
}

/// Reads the fifteen-character digit form, if well shaped and valid.
pub open spec fn sp_parse_parts(v: Seq<char>) -> Option<DateTimeParts> {
    if v.len() == 15 && v[8] == 'T' && all_digits(v.subrange(0, 8)) && all_digits(
        v.subrange(9, 15),
    ) {
        let y = digits_val(v.subrange(0, 4));
        let mo = digits_val(v.subrange(4, 6));
        let d = digits_val(v.subrange(6, 8));
        let h = digits_val(v.subrange(9, 11));
        let mi = digits_val(v.subrange(11, 13));
        let s = digits_val(v.subrange(13, 15));
        let p = DateTimeParts {
            date: ICalDate { year: y as u32, month: mo as u32, day: d as u32 },
            hour: h as u32,
            minute: mi as u32,
            second: s as u32,
        };
        if date_valid(y, mo, d) && h <= 23 && mi <= 59 && s <= 59 {
            Some(p)
        } else {
            None
        }
    } else {
        None
    }
}

pub open spec fn tz_resolves_parts(name: Seq<char>, p: DateTimeParts) -> bool {
    tz_resolves(
        name,
        p.date.year as int,
        p.date.month as int,
        p.date.day as int,
        p.hour as int,
        p.minute as int,
        p.second as int,
    )
}

/// The datetime grammar: digits with optional trailing `Z`; a `TZID`
/// parameter zones the value (and must resolve), else a trailing `Z`
/// zones it to `UTC`, else it stays local.
pub open spec fn sp_parse_datetime(raw: Seq<char>, params: Seq<(Seq<char>, Seq<char>)>) -> Result<
    DateTimeModel,
    CodecError,
> {
    let is_utc = raw.len() > 0 && raw.last() == 'Z';
    let v = if is_utc {
        raw.drop_last()
    } else {
        raw
    };
    match sp_parse_parts(v) {
        None => Err(CodecError::BadDateTime),
        Some(p) => match param_lookup(params, "TZID"@) {
            Some(tzname) => if tz_resolves_parts(tzname, p) {
                Ok(DateTimeModel::Zoned(p, tzname))
            } else {
                Err(CodecError::BadTimezone)
            },
            None => if is_utc {
                Ok(DateTimeModel::Zoned(p, "UTC"@))
            } else {
                Ok(DateTimeModel::Local(p))
            },
        },
    }
}

/// The canonical datetime text: wall-clock digits, with a trailing `Z`
/// exactly for the `UTC` zone.
pub open spec fn sp_canon_datetime(m: DateTimeModel) -> Seq<char> {
    match m {
        DateTimeModel::Local(p) => parts_canon(p),
        DateTimeModel::Zoned(p, tz) => if tz == "UTC"@ {
            parts_canon(p) + seq!['Z']
        } else {
            parts_canon(p)
        },
    }
}

/// Reads the fifteen-character digit form executably.
fn parse_parts(cs: &Vec<char>) -> (r: Option<DateTimeParts>)
    ensures
        r == sp_parse_parts(cs@),
{
    if cs.len() != 15 {
        return None;
    }
    if cs[8] != 'T' {
        return None;
    }
    let y = match parse_fixed(cs, 0, 4) {
        Some(v) => v,
        None => {
            proof {
                if all_digits(cs@.subrange(0, 8)) {
                    lemma_window(cs@, 0, 4, 0, 8);
                }
            }
            return None;
        },
    };
    let mo = match parse_fixed(cs, 4, 2) {
        Some(v) => v,
        None => {
            proof {
                if all_digits(cs@.subrange(0, 8)) {
                    lemma_window(cs@, 4, 6, 0, 8);
                }
            }
            return None;
        },
    };
    let d = match parse_fixed(cs, 6, 2) {
        Some(v) => v,
        None => {
            proof {
                if all_digits(cs@.subrange(0, 8)) {
                    lemma_window(cs@, 6, 8, 0, 8);
                }
            }
            return None;
        },
    };
    let h = match parse_fixed(cs, 9, 2) {
        Some(v) => v,
        None => {
            proof {
                if all_digits(cs@.subrange(9, 15)) {
                    lemma_window(cs@, 9, 11, 9, 15);
                }
            }
            return None;
        },
    };
    let mi = match parse_fixed(cs, 11, 2) {
        Some(v) => v,
        None => {
            proof {
                if all_digits(cs@.subrange(9, 15)) {
                    lemma_window(cs@, 11, 13, 9, 15);
                }
            }
            return None;
        },
    };
    let s = match parse_fixed(cs, 13, 2) {
        Some(v) => v,
        None => {
            proof {
                if all_digits(cs@.subrange(9, 15)) {
                    lemma_window(cs@, 13, 15, 9, 15);
                }
            }
            return None;
        },
    };
    proof {
        assert forall|i: int| 0 <= i < 8 implies is_digit(#[trigger] cs@.subrange(0, 8)[i]) by {
            if i < 4 {
                assert(cs@.subrange(0, 8)[i] == cs@.subrange(0, 4)[i]);
            } else if i < 6 {
                assert(cs@.subrange(0, 8)[i] == cs@.subrange(4, 6)[i - 4]);
            } else {
                assert(cs@.subrange(0, 8)[i] == cs@.subrange(6, 8)[i - 6]);
            }
        }
        assert forall|i: int| 0 <= i < 6 implies is_digit(#[trigger] cs@.subrange(9, 15)[i]) by {
            if i < 2 {
                assert(cs@.subrange(9, 15)[i] == cs@.subrange(9, 11)[i]);
            } else if i < 4 {
                assert(cs@.subrange(9, 15)[i] == cs@.subrange(11, 13)[i - 2]);
            } else {
                assert(cs@.subrange(9, 15)[i] == cs@.subrange(13, 15)[i - 4]);
            }
        }
        assert(all_digits(cs@.subrange(0, 8)));
        assert(all_digits(cs@.subrange(9, 15)));
        lemma_pow10_values();
    }
    if 1 <= mo && mo <= 12 && 1 <= d && d <= days_in_month_x(y, mo) && h <= 23 && mi <= 59 && s
        <= 59 {
        Some(
            DateTimeParts {
                date: ICalDate { year: y, month: mo, day: d },
                hour: h,
                minute: mi,
                second: s,
            },
        )
    } else {
        None
    }
}

/// Digitness of a window passes down to any window inside it.
proof fn lemma_window(s: Seq<char>, a: int, b: int, lo: int, hi: int)
    requires
        0 <= lo <= a <= b <= hi <= s.len(),
        all_digits(s.subrange(lo, hi)),
    ensures
        all_digits(s.subrange(a, b)),
{
    let inner = s.subrange(a, b);
    let outer = s.subrange(lo, hi);
    assert forall|k: int| 0 <= k < inner.len() implies is_digit(#[trigger] inner[k]) by {
        assert(inner[k] == s[a + k]);
        assert(outer[k + a - lo] == s[lo + (k + a - lo)]);
        assert(is_digit(outer[k + a - lo]));
    }
}

impl ICalValueType for ICalDateTime {
    open spec fn sp_parse(raw: Seq<char>, params: Seq<(Seq<char>, Seq<char>)>) -> Result<
        DateTimeModel,
        CodecError,
    > {
        sp_parse_datetime(raw, params)
    }

    open spec fn sp_canon(m: DateTimeModel) -> Seq<char> {
        sp_canon_datetime(m)
    }

    fn parse(value: &str, params: &ICalParameterMap) -> (r: Result<Self, CodecError>) {
        let mut cs = str_to_chars(value);
        let is_utc = cs.len() > 0 && cs[cs.len() - 1] == 'Z';
        if is_utc {
            cs.pop();
            proof {
                assert(cs@ =~= value@.drop_last());
            }
        }
        let p = match parse_parts(&cs) {
            Some(p) => p,
            None => {
                return Err(CodecError::BadDateTime);
            },
        };
        match param_get(params, "TZID") {
            Some(tzname) => {
                if tz_check(
                    tzname.as_str(),
                    p.date.year,
                    p.date.month,
                    p.date.day,
                    p.hour,
                    p.minute,
                    p.second,
                ) {
                    Ok(ICalDateTime::Zoned(p, tzname))
                } else {
                    Err(CodecError::BadTimezone)
                }
            },
            None => {
                if is_utc {
                    let utc = utc_name();
                    Ok(ICalDateTime::Zoned(p, utc))
                } else {
                    Ok(ICalDateTime::Local(p))
                }
            },
        }
    }

    fn serialize(&self) -> (r: String) {
        match self {
            ICalDateTime::Local(p) => {
                let v = parts_chars(p);
                chars_to_string(&v)
            },
            ICalDateTime::Zoned(p, tz) => {
                let mut v = parts_chars(p);
                if crate::strutil::str_eq(tz.as_str(), "UTC") {
                    v.push('Z');
                    proof {
                        assert(v@ =~= parts_canon(*p) + seq!['Z']);
                    }
                }
                chars_to_string(&v)
            },
        }
    }
}

/// The zone name that a trailing `Z` denotes.
fn utc_name() -> (r: String)
    ensures
        r@ == "UTC"@,
{
    let r = "UTC";
    r.to_owned()
}

/// Renders the fifteen wall-clock digit characters.
fn parts_chars(p: &DateTimeParts) -> (r: Vec<char>)
    ensures
        r@ == parts_canon(*p),
{
    let mut v = pad_u32(p.date.year, 4);
    let mut mo = pad_u32(p.date.month, 2);
    let mut d = pad_u32(p.date.day, 2);
    v.append(&mut mo);
    v.append(&mut d);
    v.push('T');
    let mut h = pad_u32(p.hour, 2);
    let mut mi = pad_u32(p.minute, 2);
    let mut s = pad_u32(p.second, 2);
    v.append(&mut h);
    v.append(&mut mi);
    v.append(&mut s);
    proof {
        assert(v@ =~= parts_canon(*p));
    }
    v
}

/// A datetime model is consistent with the parameters it is stored under:
/// zoned values carry their zone in `TZID`, or are the `UTC` zone a
/// trailing `Z` denotes; local values carry no `TZID`.
pub open spec fn datetime_wf(m: DateTimeModel, params: Seq<(Seq<char>, Seq<char>)>) -> bool {
    match m {
        DateTimeModel::Local(p) => parts_valid(p) && param_lookup(params, "TZID"@) is None,
        DateTimeModel::Zoned(p, tz) => parts_valid(p) && ((param_lookup(params, "TZID"@) == Some(
            tz,
        ) && tz_resolves_parts(tz, p)) || (tz == "UTC"@ && param_lookup(params, "TZID"@) is None)),
    }
}

/// The canonical digits of valid wall-clock fields parse back to them.
pub proof fn lemma_parts_round_trip(p: DateTimeParts)
    requires
        parts_valid(p),
    ensures
        sp_parse_parts(parts_canon(p)) == Some(p),
        parts_canon(p).len() == 15,
        parts_canon(p)[14] != 'Z',
{
    let s = parts_canon(p);
    lemma_pow10_values();
    lemma_pad_canon(p.date.year as int, 4);
    lemma_pad_canon(p.date.month as int, 2);
    lemma_pad_canon(p.date.day as int, 2);
    lemma_pad_canon(p.hour as int, 2);
    lemma_pad_canon(p.minute as int, 2);
    lemma_pad_canon(p.second as int, 2);
    assert(s.subrange(0, 4) =~= pad_canon(p.date.year as int, 4));
    assert(s.subrange(4, 6) =~= pad_canon(p.date.month as int, 2));
    assert(s.subrange(6, 8) =~= pad_canon(p.date.day as int, 2));
    assert(s[8] == 'T');
    assert(s.subrange(9, 11) =~= pad_canon(p.hour as int, 2));
    assert(s.subrange(11, 13) =~= pad_canon(p.minute as int, 2));
    assert(s.subrange(13, 15) =~= pad_canon(p.second as int, 2));
    assert forall|i: int| 0 <= i < 8 implies is_digit(#[trigger] s.subrange(0, 8)[i]) by {
        if i < 4 {
            assert(s.subrange(0, 8)[i] == s.subrange(0, 4)[i]);
        } else if i < 6 {
            assert(s.subrange(0, 8)[i] == s.subrange(4, 6)[i - 4]);
        } else {
            assert(s.subrange(0, 8)[i] == s.subrange(6, 8)[i - 6]);
        }
    }
    assert forall|i: int| 0 <= i < 6 implies is_digit(#[trigger] s.subrange(9, 15)[i]) by {
        if i < 2 {
            assert(s.subrange(9, 15)[i] == s.subrange(9, 11)[i]);
        } else if i < 4 {
            assert(s.subrange(9, 15)[i] == s.subrange(11, 13)[i - 2]);
        } else {
            assert(s.subrange(9, 15)[i] == s.subrange(13, 15)[i - 4]);
        }
    }
    assert(all_digits(s.subrange(0, 8)));
    assert(all_digits(s.subrange(9, 15)));
    assert(s[14] == s.subrange(13, 15)[1]);
    assert(is_digit(s[14]));
}

/// Parsing the canonical text of a well-formed datetime under its own
/// parameters yields the datetime back.
pub proof fn lemma_datetime_round_trip(m: DateTimeModel, params: Seq<(Seq<char>, Seq<char>)>)
    requires
        datetime_wf(m, params),
    ensures
        sp_parse_datetime(sp_canon_datetime(m), params) == Ok::<DateTimeModel, CodecError>(m),
{
    reveal_strlit("UTC");
    match m {
        DateTimeModel::Local(p) => {
            lemma_parts_round_trip(p);
            let raw = sp_canon_datetime(m);
            assert(raw.last() != 'Z');
        },
        DateTimeModel::Zoned(p, tz) => {
            lemma_parts_round_trip(p);
            let raw = sp_canon_datetime(m);
            if tz == "UTC"@ {
                assert(raw =~= parts_canon(p) + seq!['Z']);
                assert(raw.last() == 'Z');
                assert(raw.drop_last() =~= parts_canon(p));
            } else {
                assert(raw == parts_canon(p));
                assert(raw.last() != 'Z');
            }
        },
    }
}

} // verus!
