//! The content-line lexer: unfolding of RFC 5545 folded lines, splitting
//! into physical lines, and reading each line as `NAME[;P=V...]:VALUE`.

use vstd::prelude::*;

verus! {

use crate::strutil::{find_char, find_char_x, lemma_find_char_props, subvec, str_to_chars, chars_to_string};
use crate::ical::values::base::{CodecError, Param, ICalParameterMap, params_model};

/// Why a document failed to parse.
#[derive(Clone, Copy, Debug, PartialEq, Eq, Structural)]
pub enum ParseError {
    /// A content line holds no colon.
    NoColon,
    /// A content line's property name is empty.
    EmptyName,
    /// A parameter holds no equals sign.
    BadParam,
    /// The document holds no content line at all.
    EmptyDocument,
    /// The document does not open with `BEGIN:VCALENDAR`.
    NotVCalendar,
    /// An `END` line does not match the open component.
    UnexpectedEnd,
    /// A typed property value failed its grammar.
    Codec(CodecError),
}

/// Spec view of a content line.
#[verifier::ext_equal]
pub struct CLModel {
    pub name: Seq<char>,
    pub params: Seq<(Seq<char>, Seq<char>)>,
    pub value: Seq<char>,
}

/// One logical `NAME[;PARAM=VALUE...]:VALUE` unit after unfolding.
#[derive(Clone, Debug)]
pub struct ContentLine {
    pub name: String,
    pub params: ICalParameterMap,
    pub value: String,
}

impl View for ContentLine {
    type V = CLModel;

    open spec fn view(&self) -> CLModel {
        CLModel { name: self.name@, params: params_model(self.params@), value: self.value@ }
    }
}

/// Removes every line break that is immediately followed by a space or
/// tab: the RFC 5545 unfolding step, with the carriage return optional.
pub open spec fn unfold_spec(s: Seq<char>) -> Seq<char>
    decreases s.len(),
{
    if s.len() >= 3 && s[0] == '\r' && s[1] == '\n' && (s[2] == ' ' || s[2] == '\t') {
        unfold_spec(s.skip(3))
    } else if s.len() >= 2 && s[0] == '\n' && (s[1] == ' ' || s[1] == '\t') {
        unfold_spec(s.skip(2))
    } else if s.len() > 0 {
        seq![s[0]] + unfold_spec(s.skip(1))
    } else {
        Seq::empty()
    }
}

/// Unfolds executably.
pub fn unfold_chars(cs: &Vec<char>) -> (r: Vec<char>)
    ensures
        r@ == unfold_spec(cs@),
{
    let mut out: Vec<char> = Vec::new();
    let mut i: usize = 0;
    proof {
        assert(cs@.skip(0) =~= cs@);
    }
    while i < cs.len()
        invariant
            i <= cs.len(),
            unfold_spec(cs@) =~= out@ + unfold_spec(cs@.skip(i as int)),
        decreases cs.len() - i,
    {
        let c = cs[i];
        proof {
            assert(cs@.skip(i as int)[0] == c);
            assert(cs@.skip(i as int).skip(1) =~= cs@.skip(i + 1));
            if cs@.len() - i >= 2 {
                assert(cs@.skip(i as int)[1] == cs@[i + 1]);
                assert(cs@.skip(i as int).skip(2) =~= cs@.skip(i + 2));
            }
            if cs@.len() - i >= 3 {
                assert(cs@.skip(i as int)[2] == cs@[i + 2]);
                assert(cs@.skip(i as int).skip(3) =~= cs@.skip(i + 3));
            }
        }
        if c == '\r' && cs.len() - i > 2 && cs[i + 1] == '\n' && (cs[i + 2] == ' ' || cs[i + 2]
            == '\t') {
            i = i + 3;
        } else if c == '\n' && cs.len() - i > 1 && (cs[i + 1] == ' ' || cs[i + 1] == '\t') {
            i = i + 2;
        } else {
            out.push(c);
            proof {
                assert(out@ + unfold_spec(cs@.skip(i + 1)) =~= out@.drop_last() + (seq![c]
                    + unfold_spec(cs@.skip(i + 1))));
            }
            i = i + 1;
        }
    }
    proof {
        assert(cs@.skip(cs@.len() as int) =~= Seq::<char>::empty());
        assert(out@ + Seq::<char>::empty() =~= out@);
    }
    out
}

/// A line with its single optional trailing carriage return removed.
pub open spec fn strip_cr(l: Seq<char>) -> Seq<char> {
    if l.len() > 0 && l.last() == '\r' {
        l.drop_last()
    } else {
        l
    }
}

/// Splits on line feeds, stripping one carriage return before each line
/// feed; a final line without a line feed is kept as it stands, and a
/// trailing line feed opens no further line.
pub open spec fn split_lines_spec(s: Seq<char>) -> Seq<Seq<char>>
    decreases s.len(),
{
    if s.len() == 0 {
        Seq::empty()
    } else {
        let i = find_char(s, '\n');
        if i >= s.len() {
            seq![s]
        } else {
            seq![strip_cr(s.take(i as int))] + split_lines_spec(s.skip(i + 1 as int))
        }
    }
}

/// Model of a vector of character vectors.
pub open spec fn vecs_model(s: Seq<Vec<char>>) -> Seq<Seq<char>> {
    s.map_values(|v: Vec<char>| v@)
}

/// Splits executably.
pub fn split_lines(cs: &Vec<char>) -> (r: Vec<Vec<char>>)
    ensures
        vecs_model(r@) == split_lines_spec(cs@),
{
    let mut out: Vec<Vec<char>> = Vec::new();
    let mut i: usize = 0;
    proof {
        assert(cs@.skip(0) =~= cs@);
        assert(vecs_model(out@) + split_lines_spec(cs@) =~= split_lines_spec(cs@));
    }
    while i < cs.len()
        invariant
            i <= cs.len(),
            split_lines_spec(cs@) =~= vecs_model(out@) + split_lines_spec(cs@.skip(i as int)),
        decreases cs.len() - i,
    {
        let k = find_char_x(cs, i, '\n');
        let ghost rest = cs@.skip(i as int);
        proof {
            lemma_find_char_props(rest, '\n');
            assert(rest.take(find_char(rest, '\n') as int) =~= cs@.subrange(i as int, k as int));
        }
        if k == cs.len() {
            let line = subvec(cs, i, k);
            out.push(line);
            proof {
                assert(rest =~= cs@.subrange(i as int, k as int));
                assert(split_lines_spec(rest) =~= seq![line@]);
                assert(vecs_model(out@) =~= vecs_model(out@.drop_last()) + seq![line@]);
                assert(cs@.skip(cs@.len() as int) =~= Seq::<char>::empty());
                assert(vecs_model(out@) + split_lines_spec(cs@.skip(cs@.len() as int))
                    =~= vecs_model(out@));
            }
            i = k;
            return out;
        } else {
            let mut line = subvec(cs, i, k);
            if line.len() > 0 && line[line.len() - 1] == '\r' {
                line.pop();
            }
            proof {
                assert(line@ == strip_cr(cs@.subrange(i as int, k as int)));
            }
            out.push(line);
            proof {
                assert(rest.skip(find_char(rest, '\n') + 1 as int) =~= cs@.skip(k + 1));
                assert(split_lines_spec(rest) =~= seq![line@] + split_lines_spec(cs@.skip(k + 1)));
                assert(vecs_model(out@) =~= vecs_model(out@.drop_last()) + seq![line@]);
                assert(vecs_model(out@.drop_last()) + (seq![line@] + split_lines_spec(
                    cs@.skip(k + 1),
                )) =~= vecs_model(out@) + split_lines_spec(cs@.skip(k + 1)));
            }
            i = k + 1;
        }
    }
    proof {
        assert(cs@.skip(i as int) =~= Seq::<char>::empty());
        assert(vecs_model(out@) + split_lines_spec(cs@.skip(i as int)) =~= vecs_model(out@));
    }
    out
}

/// The parameter grammar: each `;`-separated segment must hold an equals
/// sign; the name is what stands before the first one.
pub open spec fn sp_parse_params(s: Seq<char>) -> Result<Seq<(Seq<char>, Seq<char>)>, ParseError>
    decreases s.len(),
{
    let i = find_char(s, ';');
    let seg = s.take(i as int);
    let e = find_char(seg, '=');
    if e >= seg.len() {
        Err(ParseError::BadParam)
    } else {
        let p = (seg.take(e as int), seg.skip(e + 1 as int));
        if i >= s.len() {
            Ok(seq![p])
        } else {
            match sp_parse_params(s.skip(i + 1 as int)) {
                Ok(rest) => Ok(seq![p] + rest),
                Err(x) => Err(x),
            }
        }
    }
}

/// The content-line grammar: `name *(";" param) ":" value`, splitting on
/// the first colon; the name must be non-empty.
pub open spec fn sp_parse_content_line(l: Seq<char>) -> Result<CLModel, ParseError> {
    let ci = find_char(l, ':');
    if ci == l.len() {
        Err(ParseError::NoColon)
    } else {
        let lhs = l.take(ci as int);
        let value = l.skip(ci + 1 as int);
        let ni = find_char(lhs, ';');
        let name = lhs.take(ni as int);
        if name.len() == 0 {
            Err(ParseError::EmptyName)
        } else if ni == lhs.len() {
            Ok(CLModel { name, params: Seq::empty(), value })
        } else {
            match sp_parse_params(lhs.skip(ni + 1 as int)) {
                Ok(params) => Ok(CLModel { name, params, value }),
                Err(e) => Err(e),
            }
        }
    }
}

/// Reads the `;`-separated parameter segments beginning at `at`.
fn parse_params_chars(lhs: &Vec<char>, at: usize) -> (r: Result<ICalParameterMap, ParseError>)
    requires
        at <= lhs@.len(),
    ensures
        match r {
            Ok(ps) => sp_parse_params(lhs@.skip(at as int)) == Ok::<
                Seq<(Seq<char>, Seq<char>)>,
                ParseError,
            >(params_model(ps@)),
            Err(e) => sp_parse_params(lhs@.skip(at as int)) == Err::<
                Seq<(Seq<char>, Seq<char>)>,
                ParseError,
            >(e),
        },
    decreases lhs@.len() - at,
{
    let ghost seg_s = lhs@.skip(at as int);
    let si = find_char_x(lhs, at, ';');
    proof {
        lemma_find_char_props(seg_s, ';');
        assert(seg_s.take(find_char(seg_s, ';') as int) =~= lhs@.subrange(at as int, si as int));
    }
    let seg = subvec(lhs, at, si);
    let ei = find_char_x(&seg, 0, '=');
    proof {
        assert(seg@.skip(0) =~= seg@);
    }
    if ei == seg.len() {
        return Err(ParseError::BadParam);
    }
    let pname = subvec(&seg, 0, ei);
    let pval = subvec(&seg, ei + 1, seg.len());
    proof {
        assert(pname@ =~= seg@.take(ei as int));
        assert(pval@ =~= seg@.skip(ei + 1));
    }
    let param = Param { name: chars_to_string(&pname), value: chars_to_string(&pval) };
    if si == lhs.len() {
        let mut ps: ICalParameterMap = Vec::new();
        ps.push(param);
        proof {
            assert(params_model(ps@) =~= seq![(pname@, pval@)]);
        }
        Ok(ps)
    } else {
        proof {
            assert(seg_s.skip(find_char(seg_s, ';') + 1 as int) =~= lhs@.skip(si + 1));
        }
        match parse_params_chars(lhs, si + 1) {
            Ok(rest) => {
                let mut ps: ICalParameterMap = Vec::new();
                ps.push(param);
                let mut rest = rest;
                let ghost rv = rest@;
                ps.append(&mut rest);
                proof {
                    assert(params_model(ps@) =~= seq![(pname@, pval@)] + params_model(rv));
                }
                Ok(ps)
            },
            Err(e) => Err(e),
        }
    }
}

impl ContentLine {
    /// Reads one unfolded physical line.
    pub fn from_chars(cs: &Vec<char>) -> (r: Result<ContentLine, ParseError>)
        ensures
            match r {
                Ok(cl) => sp_parse_content_line(cs@) matches Ok(m) && cl@.name == m.name
                    && cl@.params == m.params && cl@.value == m.value,
                Err(e) => sp_parse_content_line(cs@) == Err::<CLModel, ParseError>(e),
            },
    {
        let ci = find_char_x(cs, 0, ':');
        proof {
            assert(cs@.skip(0) =~= cs@);
        }
        if ci == cs.len() {
            return Err(ParseError::NoColon);
        }
        let value_v = subvec(cs, ci + 1, cs.len());
        proof {
            assert(value_v@ =~= cs@.skip(ci + 1));
        }
        let lhs = subvec(cs, 0, ci);
        proof {
            assert(lhs@ =~= cs@.take(ci as int));
        }
        let ni = find_char_x(&lhs, 0, ';');
        proof {
            assert(lhs@.skip(0) =~= lhs@);
        }
        let name_v = subvec(&lhs, 0, ni);
        proof {
            assert(name_v@ =~= lhs@.take(ni as int));
        }
        if name_v.len() == 0 {
            return Err(ParseError::EmptyName);
        }
        let params: ICalParameterMap = if ni < lhs.len() {
            match parse_params_chars(&lhs, ni + 1) {
                Ok(ps) => ps,
                Err(e) => {
                    return Err(e);
                },
            }
        } else {
            Vec::new()
        };
        proof {
            if ni >= lhs@.len() {
                assert(params_model(params@) =~= Seq::<(Seq<char>, Seq<char>)>::empty());
            }
        }
        Ok(
            ContentLine {
                name: chars_to_string(&name_v),
                params,
                value: chars_to_string(&value_v),
            },
        )
    }

    /// Reads one unfolded physical line from a string slice.
    pub fn from_str(line: &str) -> (r: Result<ContentLine, ParseError>)
        ensures
            match r {
                Ok(cl) => sp_parse_content_line(line@) matches Ok(m) && cl@.name == m.name
                    && cl@.params == m.params && cl@.value == m.value,
                Err(e) => sp_parse_content_line(line@) == Err::<CLModel, ParseError>(e),
            },
    {
        let cs = str_to_chars(line);
        ContentLine::from_chars(&cs)
    }

    /// Reads one `NAME=VALUE` parameter.
    pub fn parse_parameter(param: &str) -> (r: Result<(String, String), ParseError>)
        ensures
            match r {
                Ok(p) => find_char(param@, '=') < param@.len() && p.0@ == param@.take(
                    find_char(param@, '=') as int,
                ) && p.1@ == param@.skip(find_char(param@, '=') + 1 as int),
                Err(e) => find_char(param@, '=') == param@.len() && e == ParseError::BadParam,
            },
    {
        let cs = str_to_chars(param);
        let ei = find_char_x(&cs, 0, '=');
        proof {
            assert(cs@.skip(0) =~= cs@);
        }
        if ei == cs.len() {
            return Err(ParseError::BadParam);
        }
        let pname = subvec(&cs, 0, ei);
        let pval = subvec(&cs, ei + 1, cs.len());
        proof {
            assert(pname@ =~= cs@.take(ei as int));
            assert(pval@ =~= cs@.skip(ei + 1));
        }
        Ok((chars_to_string(&pname), chars_to_string(&pval)))
    }
}

/// Models of a sequence of content lines.
pub open spec fn cls_model(s: Seq<ContentLine>) -> Seq<CLModel> {
    s.map_values(|c: ContentLine| c@)
}

/// Reading every physical line in order; the first bad line aborts.
pub open spec fn sp_parse_lines(lines: Seq<Seq<char>>) -> Result<Seq<CLModel>, ParseError>
    decreases lines.len(),
{
    if lines.len() == 0 {
        Ok(Seq::empty())
    } else {
        match sp_parse_content_line(lines[0]) {
            Err(e) => Err(e),
            Ok(cl) => match sp_parse_lines(lines.skip(1)) {
                Ok(r) => Ok(seq![cl] + r),
                Err(e) => Err(e),
            },
        }
    }
}

/// The whole lexer: unfold, split, read each line.
pub open spec fn sp_lex(text: Seq<char>) -> Result<Seq<CLModel>, ParseError> {
    sp_parse_lines(split_lines_spec(unfold_spec(text)))
}

/// Unfolds the text, splits it into physical lines and reads each one.
pub fn lex(text: &str) -> (r: Result<Vec<ContentLine>, ParseError>)
    ensures
        match r {
            Ok(cls) => sp_lex(text@) matches Ok(m) && cls_model(cls@) == m,
            Err(e) => sp_lex(text@) == Err::<Seq<CLModel>, ParseError>(e),
        },
{
    let cs = str_to_chars(text);
    let unfolded = unfold_chars(&cs);
    let lines = split_lines(&unfolded);
    let ghost lm = split_lines_spec(unfold_spec(text@));
    let mut out: Vec<ContentLine> = Vec::new();
    let mut i: usize = 0;
    proof {
        assert(lm.skip(0) =~= lm);
    }
    while i < lines.len()
        invariant
            i <= lines.len(),
            lm == split_lines_spec(unfold_spec(text@)),
            vecs_model(lines@) == lm,
            cls_model(out@).len() == i,
            sp_parse_lines(lm) matches Ok(all) ==> all.take(i as int) == cls_model(out@),
            sp_parse_lines(lm.skip(i as int)) is Ok ==> sp_parse_lines(lm) is Ok,
            sp_parse_lines(lm) matches Err(e) ==> sp_parse_lines(lm.skip(i as int)) == Err::<
                Seq<CLModel>,
                ParseError,
            >(e),
        decreases lines.len() - i,
    {
        let cl = match ContentLine::from_chars(&lines[i]) {
            Ok(cl) => cl,
            Err(e) => {
                proof {
                    assert(lm.skip(i as int)[0] == lines@[i as int]@);
                    lemma_parse_lines_step(lm, i as int);
                    match sp_parse_lines(lm) {
                        Ok(_) => {
                            lemma_parse_lines_index(lm, i as int);
                        },
                        Err(_) => {},
                    }
                }
                return Err(e);
            },
        };
        out.push(cl);
        proof {
            assert(lm.skip(i as int)[0] == lines@[i as int]@);
            lemma_parse_lines_step(lm, i as int);
            assert(cls_model(out@) =~= cls_model(out@.drop_last()).push(cl@));
            match sp_parse_lines(lm) {
                Ok(all) => {
                    lemma_parse_lines_len(lm);
                    lemma_parse_lines_index(lm, i as int);
                    assert(all.take(i + 1) =~= all.take(i as int).push(all[i as int]));
                },
                Err(_) => {},
            }
        }
        i = i + 1;
    }
    proof {
        assert(lm.skip(lm.len() as int) =~= Seq::<Seq<char>>::empty());
        match sp_parse_lines(lm) {
            Ok(all) => {
                lemma_parse_lines_len(lm);
                assert(all.take(all.len() as int) =~= all);
            },
            Err(_) => {},
        }
    }
    Ok(out)
}

/// A successful reading has one content line per physical line.
proof fn lemma_parse_lines_len(lm: Seq<Seq<char>>)
    requires
        sp_parse_lines(lm) is Ok,
    ensures
        sp_parse_lines(lm)->Ok_0.len() == lm.len(),
    decreases lm.len(),
{
    if lm.len() > 0 {
        lemma_parse_lines_step(lm, 0);
        assert(lm.skip(0) =~= lm);
        lemma_parse_lines_len(lm.skip(1));
    }
}

/// One step of the line-list reading: the head line then the tail.
proof fn lemma_parse_lines_step(lm: Seq<Seq<char>>, i: int)
    requires
        0 <= i < lm.len(),
    ensures
        sp_parse_lines(lm.skip(i)) == (match sp_parse_content_line(lm[i]) {
            Err(e) => Err::<Seq<CLModel>, ParseError>(e),
            Ok(cl) => match sp_parse_lines(lm.skip(i + 1)) {
                Ok(r) => Ok::<Seq<CLModel>, ParseError>(seq![cl] + r),
                Err(e) => Err::<Seq<CLModel>, ParseError>(e),
            },
        }),
{
    assert(lm.skip(i)[0] == lm[i]);
    assert(lm.skip(i).skip(1) =~= lm.skip(i + 1));
}

/// In a successful read, line `i` of the result is the reading of input
/// line `i`, and every tail also reads successfully.
proof fn lemma_parse_lines_index(lm: Seq<Seq<char>>, i: int)
    requires
        0 <= i < lm.len(),
        sp_parse_lines(lm) is Ok,
    ensures
        sp_parse_lines(lm.skip(i)) is Ok,
        sp_parse_content_line(lm[i]) is Ok,
        sp_parse_lines(lm)->Ok_0[i] == sp_parse_content_line(lm[i])->Ok_0,
    decreases i,
{
    if i == 0 {
        assert(lm.skip(0) =~= lm);
        lemma_parse_lines_step(lm, 0);
        let all = sp_parse_lines(lm)->Ok_0;
        assert(all[0] == sp_parse_content_line(lm[0])->Ok_0);
    } else {
        lemma_parse_lines_index(lm, i - 1);
        lemma_parse_lines_step(lm, i - 1);
        let tail = sp_parse_lines(lm.skip(i - 1));
        assert(tail is Ok);
        assert(sp_parse_lines(lm.skip(i)) is Ok);
        lemma_parse_lines_step(lm, i);
        lemma_parse_lines_shift(lm, i);
    }
}

/// The result of reading all lines, at index `i`, is the head of the
/// reading of the tail starting at `i`.
proof fn lemma_parse_lines_shift(lm: Seq<Seq<char>>, i: int)
    requires
        0 <= i < lm.len(),
        sp_parse_lines(lm) is Ok,
    ensures
        sp_parse_lines(lm.skip(i)) is Ok,
        sp_parse_lines(lm)->Ok_0[i] == sp_parse_lines(lm.skip(i))->Ok_0[0],
    decreases i,
{
    if i == 0 {
        assert(lm.skip(0) =~= lm);
    } else {
        lemma_parse_lines_step(lm, 0);
        assert(lm.skip(0) =~= lm);
        let tail = lm.skip(1);
        assert(sp_parse_lines(tail) is Ok);
        lemma_parse_lines_shift(tail, i - 1);
        assert(tail.skip(i - 1) =~= lm.skip(i));
        let cl0 = sp_parse_content_line(lm[0])->Ok_0;
        let r = sp_parse_lines(tail)->Ok_0;
        lemma_parse_lines_len(tail);
        assert(sp_parse_lines(lm)->Ok_0 == seq![cl0] + r);
        assert((seq![cl0] + r)[i] == r[i - 1]);
    }
}


use crate::ical::objects::generics::{
    CompData,
    CompModel,
    FieldDef,
    FieldSpec,
    ObjModel,
    CalModel,
    ICalObject,
    UnknownComponent,
    UnknownProperty,
    VCalendar,
    PropModel,
    Prop,
    val_parse,
    sp_val_parse,
    val_model,
    prop_model,
    props_model,
    comp_model,
    obj_model,
    objs_model,
    cal_model,
    defs_model,
    find_field,
    find_field_x,
    empty_comp,
    empty_comp_model,
    clone_params,
    lemma_objs_model_push,
    lemma_alarms_model_push,
};
use crate::ical::objects::vtodo::{VTodo, vtodo_defs, vtodo_defs_spec};
use crate::ical::objects::valarm::{VAlarm, valarm_defs, valarm_defs_spec};
use crate::ical::objects::vevent::{VEvent, vevent_defs, vevent_defs_spec};
use crate::ical::objects::vjournal::{VJournal, vjournal_defs, vjournal_defs_spec};
use crate::ical::values::base::ICalValue;
use crate::strutil::str_eq;
use vstd::pervasive::VecAdditionalExecFns;

/// Consumes the body of a typed component from line `i` on: fields fill
/// their slots (single-valued fields keep the last write), nested alarms
/// and unrecognized members accumulate in order, `END` with the right
/// name closes the component, and a document that just ends closes it
/// too.
pub open spec fn sp_parse_comp(
    lines: Seq<CLModel>,
    i: int,
    defs: Seq<FieldSpec>,
    name: Seq<char>,
    allow_alarms: bool,
    acc: CompModel,
) -> Result<(CompModel, int), ParseError>
    decreases lines.len() - i, 2int,
{
    if i < 0 || i >= lines.len() {
        Ok((acc, i))
    } else {
        let l = lines[i];
        if l.name == "END"@ {
            if l.value == name {
                Ok((acc, i + 1))
            } else {
                Err(ParseError::UnexpectedEnd)
            }
        } else if allow_alarms && l.name == "BEGIN"@ && l.value == "VALARM"@ {
            match sp_parse_comp(
                lines,
                i + 1,
                valarm_defs_spec(),
                "VALARM"@,
                false,
                empty_comp_model(8),
            ) {
                Err(e) => Err(e),
                Ok((am, j)) => {
                    let j2 = if i < j <= lines.len() {
                        j
                    } else {
                        i + 1
                    };
                    sp_parse_comp(
                        lines,
                        j2,
                        defs,
                        name,
                        allow_alarms,
                        CompModel { alarms: acc.alarms.push(am), ..acc },
                    )
                },
            }
        } else if find_field(defs, l.name) < defs.len() {
            let fi = find_field(defs, l.name) as int;
            match sp_val_parse(defs[fi].kind, l.value, l.params) {
                Err(e) => Err(ParseError::Codec(e)),
                Ok(vm) => {
                    let p = PropModel { value: vm, params: l.params };
                    let ns = if defs[fi].multiple {
                        acc.slots[fi].push(p)
                    } else {
                        seq![p]
                    };
                    sp_parse_comp(
                        lines,
                        i + 1,
                        defs,
                        name,
                        allow_alarms,
                        CompModel { slots: acc.slots.update(fi, ns), ..acc },
                    )
                },
            }
        } else if l.name == "BEGIN"@ {
            match sp_parse_object(lines, i) {
                Err(e) => Err(e),
                Ok((o, j)) => {
                    let j2 = if i < j <= lines.len() {
                        j
                    } else {
                        i + 1
                    };
                    sp_parse_comp(
                        lines,
                        j2,
                        defs,
                        name,
                        allow_alarms,
                        CompModel { unknown: acc.unknown.push(o), ..acc },
                    )
                },
            }
        } else {
            sp_parse_comp(
                lines,
                i + 1,
                defs,
                name,
                allow_alarms,
                CompModel {
                    unknown: acc.unknown.push(
                        ObjModel::UProp { name: l.name, params: l.params, value: l.value },
                    ),
                    ..acc
                },
            )
        }
    }
}

/// Consumes one member starting at line `i`: a property line stands for
/// itself; a `BEGIN` line opens a typed component when its name is known,
/// else an unknown component kept verbatim.
pub open spec fn sp_parse_object(lines: Seq<CLModel>, i: int) -> Result<
    (ObjModel, int),
    ParseError,
>
    decreases lines.len() - i, 1int,
{
    if i < 0 || i >= lines.len() {
        Err(ParseError::EmptyDocument)
    } else {
        let l = lines[i];
        if l.name != "BEGIN"@ {
            Ok((ObjModel::UProp { name: l.name, params: l.params, value: l.value }, i + 1))
        } else if l.value == "VTODO"@ {
            match sp_parse_comp(lines, i + 1, vtodo_defs_spec(), "VTODO"@, true, empty_comp_model(31)) {
                Ok((cm, j)) => Ok((ObjModel::Todo(cm), j)),
                Err(e) => Err(e),
            }
        } else if l.value == "VEVENT"@ {
            match sp_parse_comp(
                lines,
                i + 1,
                vevent_defs_spec(),
                "VEVENT"@,
                false,
                empty_comp_model(30),
            ) {
                Ok((cm, j)) => Ok((ObjModel::Event(cm), j)),
                Err(e) => Err(e),
            }
        } else if l.value == "VALARM"@ {
            match sp_parse_comp(
                lines,
                i + 1,
                valarm_defs_spec(),
                "VALARM"@,
                false,
                empty_comp_model(8),
            ) {
                Ok((cm, j)) => Ok((ObjModel::Alarm(cm), j)),
                Err(e) => Err(e),
            }
        } else if l.value == "VJOURNAL"@ {
            match sp_parse_comp(
                lines,
                i + 1,
                vjournal_defs_spec(),
                "VJOURNAL"@,
                false,
                empty_comp_model(23),
            ) {
                Ok((cm, j)) => Ok((ObjModel::Journal(cm), j)),
                Err(e) => Err(e),
            }
        } else {
            match sp_parse_unknown(lines, i + 1, l.value, Seq::empty()) {
                Ok((children, j)) => Ok(
                    (ObjModel::UComp { name: l.value, params: l.params, children }, j),
                ),
                Err(e) => Err(e),
            }
        }
    }
}

/// Consumes the body of an unknown component (or of the calendar root):
/// members accumulate in order until the matching `END` or the end of the
/// document.
pub open spec fn sp_parse_unknown(
    lines: Seq<CLModel>,
    i: int,
    name: Seq<char>,
    acc: Seq<ObjModel>,
) -> Result<(Seq<ObjModel>, int), ParseError>
    decreases lines.len() - i, 2int,
{
    if i < 0 || i >= lines.len() {
        Ok((acc, i))
    } else {
        let l = lines[i];
        if l.name == "END"@ {
            if l.value == name {
                Ok((acc, i + 1))
            } else {
                Err(ParseError::UnexpectedEnd)
            }
        } else {
            match sp_parse_object(lines, i) {
                Err(e) => Err(e),
                Ok((o, j)) => {
                    let j2 = if i < j <= lines.len() {
                        j
                    } else {
                        i + 1
                    };
                    sp_parse_unknown(lines, j2, name, acc.push(o))
                },
            }
        }
    }
}

/// The whole document grammar: lex, demand a `BEGIN:VCALENDAR` opener,
/// then read the root's members to its `END` (anything after is ignored,
/// as is a missing final `END`).
pub open spec fn sp_parse_vcalendar(text: Seq<char>) -> Result<CalModel, ParseError> {
    match sp_lex(text) {
        Err(e) => Err(e),
        Ok(lines) => if lines.len() == 0 {
            Err(ParseError::EmptyDocument)
        } else if !(lines[0].name == "BEGIN"@ && lines[0].value == "VCALENDAR"@) {
            Err(ParseError::NotVCalendar)
        } else {
            match sp_parse_unknown(lines, 1, "VCALENDAR"@, Seq::empty()) {
                Ok((children, j)) => Ok(CalModel { children }),
                Err(e) => Err(e),
            }
        },
    }
}

/// Consumes a typed component body executably.
#[verifier::rlimit(100)]
pub fn parse_typed(
    lines: &Vec<ContentLine>,
    start: usize,
    defs: &Vec<FieldDef>,
    name: &str,
    allow_alarms: bool,
    init: CompData,
) -> (r: Result<(CompData, usize), ParseError>)
    requires
        start <= lines@.len(),
        init.slots@.len() == defs@.len(),
    ensures
        match r {
            Ok((c, j)) => sp_parse_comp(
                cls_model(lines@),
                start as int,
                defs_model(defs@),
                name@,
                allow_alarms,
                comp_model(init),
            ) == Ok::<(CompModel, int), ParseError>((comp_model(c), j as int)) && start <= j
                <= lines@.len(),
            Err(e) => sp_parse_comp(
                cls_model(lines@),
                start as int,
                defs_model(defs@),
                name@,
                allow_alarms,
                comp_model(init),
            ) == Err::<(CompModel, int), ParseError>(e),
        },
    decreases lines@.len() - start, 2int,
{
    let ghost lm = cls_model(lines@);
    let ghost dm = defs_model(defs@);
    let ghost im = comp_model(init);
    let mut cur = init;
    let mut pos: usize = start;
    while pos < lines.len()
        invariant
            start <= pos <= lines@.len(),
            lm == cls_model(lines@),
            dm == defs_model(defs@),
            im == comp_model(init),
            cur.slots@.len() == defs@.len(),
            sp_parse_comp(lm, start as int, dm, name@, allow_alarms, im) == sp_parse_comp(
                lm,
                pos as int,
                dm,
                name@,
                allow_alarms,
                comp_model(cur),
            ),
        decreases lines@.len() - pos,
    {
        proof {
            assert(lm[pos as int] == lines@[pos as int]@);
        }
        let is_end = str_eq(lines[pos].name.as_str(), "END");
        if is_end {
            if str_eq(lines[pos].value.as_str(), name) {
                return Ok((cur, pos + 1));
            }
            return Err(ParseError::UnexpectedEnd);
        }
        let is_begin = str_eq(lines[pos].name.as_str(), "BEGIN");
        if allow_alarms && is_begin && str_eq(lines[pos].value.as_str(), "VALARM") {
            let adefs = valarm_defs();
            proof {
                assert(valarm_defs_spec().len() == 8);
            }
            let sub = empty_comp(adefs.len());
            match parse_typed(lines, pos + 1, &adefs, "VALARM", false, sub) {
                Err(e) => {
                    return Err(e);
                },
                Ok((am, j)) => {
                    let ghost amm = comp_model(am);
                    let ghost oldal = cur.alarms@;
                    cur.alarms.push(VAlarm { data: am });
                    proof {
                        assert(cur.alarms@ == oldal.push(cur.alarms@.last()));
                        assert(cur.alarms@.last().data == am);
                        lemma_alarms_model_push(oldal, cur.alarms@.last());
                    }
                    pos = j;
                },
            }
            continue;
        }
        let fi = find_field_x(defs, lines[pos].name.as_str());
        if fi < defs.len() {
            proof {
                assert(dm[fi as int].kind == defs@[fi as int].kind);
                assert(dm[fi as int].multiple == defs@[fi as int].multiple);
            }
            match val_parse(defs[fi].kind, lines[pos].value.as_str(), &lines[pos].params) {
                Err(e) => {
                    return Err(ParseError::Codec(e));
                },
                Ok(v) => {
                    let p = Prop { value: v, params: clone_params(&lines[pos].params) };
                    let ghost pv = p;
                    let ghost pm = prop_model(p);
                    let ghost old_slots = cur.slots@;
                    let ghost oldm = comp_model(cur);
                    if defs[fi].multiple {
                        let mut tmp: Vec<Prop> = Vec::new();
                        cur.slots.set_and_swap(fi, &mut tmp);
                        tmp.push(p);
                        cur.slots.set_and_swap(fi, &mut tmp);
                        proof {
                            assert(cur.slots@[fi as int]@ == old_slots[fi as int]@.push(pv));
                            assert(props_model(cur.slots@[fi as int]@) =~= props_model(
                                old_slots[fi as int]@,
                            ).push(pm));
                        }
                    } else {
                        let mut nv: Vec<Prop> = Vec::new();
                        nv.push(p);
                        cur.slots.set(fi, nv);
                        proof {
                            assert(props_model(cur.slots@[fi as int]@) =~= seq![pm]);
                        }
                    }
                    proof {
                        let ns = if dm[fi as int].multiple {
                            oldm.slots[fi as int].push(pm)
                        } else {
                            seq![pm]
                        };
                        assert(comp_model(cur).slots =~= oldm.slots.update(fi as int, ns)) by {
                            assert(forall|k: int|
                                0 <= k < old_slots.len() && k != fi ==> #[trigger] cur.slots@[k]
                                    == old_slots[k]);
                        }
                        assert(comp_model(cur).alarms == oldm.alarms);
                        assert(comp_model(cur).unknown == oldm.unknown);
                    }
                    pos = pos + 1;
                },
            }
            continue;
        }
        if is_begin {
            match ICalObject::parse(lines, pos) {
                Err(e) => {
                    return Err(e);
                },
                Ok((o, j)) => {
                    let ghost om = obj_model(o);
                    let ghost oldun = cur.unknown@;
                    cur.unknown.push(o);
                    proof {
                        assert(cur.unknown@ == oldun.push(cur.unknown@.last()));
                        lemma_objs_model_push(oldun, cur.unknown@.last());
                    }
                    pos = j;
                },
            }
            continue;
        }
        let up = UnknownProperty {
            name: lines[pos].name.clone(),
            value: ICalValue {
                value: lines[pos].value.clone(),
                params: clone_params(&lines[pos].params),
            },
        };
        let ghost oldun = cur.unknown@;
        cur.unknown.push(ICalObject::UnknownProperty(up));
        proof {
            assert(cur.unknown@ == oldun.push(cur.unknown@.last()));
            lemma_objs_model_push(oldun, cur.unknown@.last());
        }
        pos = pos + 1;
    }
    Ok((cur, pos))
}

impl ICalObject {
    /// Consumes one member executably.
    pub fn parse(lines: &Vec<ContentLine>, start: usize) -> (r: Result<
        (ICalObject, usize),
        ParseError,
    >)
        requires
            start < lines@.len(),
        ensures
            match r {
                Ok((o, j)) => sp_parse_object(cls_model(lines@), start as int) == Ok::<
                    (ObjModel, int),
                    ParseError,
                >((obj_model(o), j as int)) && start < j <= lines@.len(),
                Err(e) => sp_parse_object(cls_model(lines@), start as int) == Err::<
                    (ObjModel, int),
                    ParseError,
                >(e),
            },
        decreases lines@.len() - start, 1int,
    {
        let n = lines.len();
        proof {
            assert(cls_model(lines@)[start as int] == lines@[start as int]@);
        }
        let line = &lines[start];
        if !str_eq(line.name.as_str(), "BEGIN") {
            let up = UnknownProperty {
                name: line.name.clone(),
                value: ICalValue { value: line.value.clone(), params: clone_params(&line.params) },
            };
            return Ok((ICalObject::UnknownProperty(up), start + 1));
        }
        if str_eq(line.value.as_str(), "VTODO") {
            let defs = vtodo_defs();
            proof {
                assert(vtodo_defs_spec().len() == 31);
            }
            let sub = empty_comp(defs.len());
            match parse_typed(lines, start + 1, &defs, "VTODO", true, sub) {
                Ok((data, j)) => Ok((ICalObject::VTodo(VTodo { data }), j)),
                Err(e) => Err(e),
            }
        } else if str_eq(line.value.as_str(), "VEVENT") {
            let defs = vevent_defs();
            proof {
                assert(vevent_defs_spec().len() == 30);
            }
            let sub = empty_comp(defs.len());
            match parse_typed(lines, start + 1, &defs, "VEVENT", false, sub) {
                Ok((data, j)) => Ok((ICalObject::VEvent(VEvent { data }), j)),
                Err(e) => Err(e),
            }
        } else if str_eq(line.value.as_str(), "VALARM") {
            let defs = valarm_defs();
            proof {
                assert(valarm_defs_spec().len() == 8);
            }
            let sub = empty_comp(defs.len());
            match parse_typed(lines, start + 1, &defs, "VALARM", false, sub) {
                Ok((data, j)) => Ok((ICalObject::VAlarm(VAlarm { data }), j)),
                Err(e) => Err(e),
            }
        } else if str_eq(line.value.as_str(), "VJOURNAL") {
            let defs = vjournal_defs();
            proof {
                assert(vjournal_defs_spec().len() == 23);
            }
            let sub = empty_comp(defs.len());
            match parse_typed(lines, start + 1, &defs, "VJOURNAL", false, sub) {
                Ok((data, j)) => Ok((ICalObject::VJournal(VJournal { data }), j)),
                Err(e) => Err(e),
            }
        } else {
            match parse_children(lines, start + 1, line.value.as_str()) {
                Ok((children, j)) => {
                    let uc = UnknownComponent {
                        name: line.value.clone(),
                        params: clone_params(&line.params),
                        children,
                    };
                    Ok((ICalObject::UnknownComponent(uc), j))
                },
                Err(e) => Err(e),
            }
        }
    }
}

/// Consumes members until the named `END` (or the end of the document).
pub fn parse_children(lines: &Vec<ContentLine>, start: usize, name: &str) -> (r: Result<
    (Vec<ICalObject>, usize),
    ParseError,
>)
    requires
        start <= lines@.len(),
    ensures
        match r {
            Ok((children, j)) => sp_parse_unknown(
                cls_model(lines@),
                start as int,
                name@,
                Seq::empty(),
            ) == Ok::<(Seq<ObjModel>, int), ParseError>((objs_model(children@), j as int)) && start
                <= j <= lines@.len(),
            Err(e) => sp_parse_unknown(cls_model(lines@), start as int, name@, Seq::empty())
                == Err::<(Seq<ObjModel>, int), ParseError>(e),
        },
    decreases lines@.len() - start, 2int,
{
    let ghost lm = cls_model(lines@);
    let mut children: Vec<ICalObject> = Vec::new();
    let mut pos: usize = start;
    proof {
        assert(objs_model(children@) =~= Seq::<ObjModel>::empty());
    }
    while pos < lines.len()
        invariant
            start <= pos <= lines@.len(),
            lm == cls_model(lines@),
            sp_parse_unknown(lm, start as int, name@, Seq::empty()) == sp_parse_unknown(
                lm,
                pos as int,
                name@,
                objs_model(children@),
            ),
        decreases lines@.len() - pos,
    {
        proof {
            assert(lm[pos as int] == lines@[pos as int]@);
        }
        if str_eq(lines[pos].name.as_str(), "END") {
            if str_eq(lines[pos].value.as_str(), name) {
                return Ok((children, pos + 1));
            }
            return Err(ParseError::UnexpectedEnd);
        }
        match ICalObject::parse(lines, pos) {
            Err(e) => {
                return Err(e);
            },
            Ok((o, j)) => {
                let ghost oldch = children@;
                children.push(o);
                proof {
                    assert(children@ == oldch.push(children@.last()));
                    lemma_objs_model_push(oldch, children@.last());
                }
                pos = j;
            },
        }
    }
    Ok((children, pos))
}

impl VCalendar {
    /// Parses a whole document.
    pub fn parse(ical_str: &str) -> (r: Result<VCalendar, ParseError>)
        ensures
            match r {
                Ok(cal) => sp_parse_vcalendar(ical_str@) matches Ok(m) && cal_model(cal) == m,
                Err(e) => sp_parse_vcalendar(ical_str@) == Err::<CalModel, ParseError>(e),
            },
    {
        let lines = match lex(ical_str) {
            Ok(lines) => lines,
            Err(e) => {
                return Err(e);
            },
        };
        if lines.len() == 0 {
            return Err(ParseError::EmptyDocument);
        }
        proof {
            assert(cls_model(lines@)[0] == lines@[0]@);
        }
        if !(str_eq(lines[0].name.as_str(), "BEGIN") && str_eq(lines[0].value.as_str(), "VCALENDAR")) {
            return Err(ParseError::NotVCalendar);
        }
        match parse_children(&lines, 1, "VCALENDAR") {
            Ok((children, _j)) => Ok(VCalendar { children }),
            Err(e) => Err(e),
        }
    }
}

impl ContentLine {
    /// Turns this line into an unknown-property member, verbatim.
    pub fn to_unknown_prop_obj(self) -> (r: ICalObject)
        ensures
            obj_model(r) == (ObjModel::UProp {
                name: self@.name,
                params: self@.params,
                value: self@.value,
            }),
    {
        ICalObject::UnknownProperty(
            UnknownProperty {
                name: self.name,
                value: ICalValue { value: self.value, params: self.params },
            },
        )
    }
}


/// A content line that can stand on the wire: a non-empty name free of
/// separators, parameter names free of separators and equals signs,
/// parameter values free of separators, and a value free of line breaks.
pub open spec fn cl_wf(m: CLModel) -> bool {
    &&& m.name.len() > 0
    &&& forall|j: int| 0 <= j < m.name.len() ==> m.name[j] != ':' && m.name[j] != ';'
    &&& forall|k: int|
        0 <= k < m.params.len() ==> ((#[trigger] m.params[k]).0.len() > 0 && (forall|j: int|
            0 <= j < m.params[k].0.len() ==> m.params[k].0[j] != ':' && m.params[k].0[j] != ';'
                && m.params[k].0[j] != '=') && (forall|j: int|
            0 <= j < m.params[k].1.len() ==> m.params[k].1[j] != ':' && m.params[k].1[j] != ';'))
}

/// Rendered parameters hold no colon, and start with a semicolon when any
/// parameter is there at all.
proof fn lemma_params_render_clean(ps: Seq<(Seq<char>, Seq<char>)>, k: int)
    requires
        0 <= k <= ps.len(),
        forall|i: int|
            0 <= i < ps.len() ==> ((forall|j: int|
                0 <= j < (#[trigger] ps[i]).0.len() ==> ps[i].0[j] != ':') && (forall|j: int|
                0 <= j < ps[i].1.len() ==> ps[i].1[j] != ':')),
    ensures
        forall|j: int|
            0 <= j < crate::ical::serializer::params_render(ps, k).len()
                ==> #[trigger] crate::ical::serializer::params_render(ps, k)[j] != ':',
    decreases ps.len() - k,
{
    if 0 <= k < ps.len() {
        lemma_params_render_clean(ps, k + 1);
        let r = crate::ical::serializer::params_render(ps, k);
        let head = seq![';'] + ps[k].0 + seq!['='] + ps[k].1;
        assert(r == head + crate::ical::serializer::params_render(ps, k + 1));
        assert forall|j: int| 0 <= j < r.len() implies #[trigger] r[j] != ':' by {
            if j < head.len() {
                assert(r[j] == head[j]);
                if 1 <= j < 1 + ps[k].0.len() {
                    assert(head[j] == ps[k].0[j - 1]);
                } else if j >= 2 + ps[k].0.len() {
                    assert(head[j] == ps[k].1[j - 2 - ps[k].0.len()]);
                }
            } else {
                assert(r[j] == crate::ical::serializer::params_render(ps, k + 1)[j - head.len()]);
            }
        }
    }
}

/// Reading one rendered parameter tail gives the parameters back.
proof fn lemma_params_round_trip(ps: Seq<(Seq<char>, Seq<char>)>, k: int)
    requires
        0 <= k < ps.len(),
        forall|i: int|
            0 <= i < ps.len() ==> ((#[trigger] ps[i]).0.len() > 0 && (forall|j: int|
                0 <= j < ps[i].0.len() ==> ps[i].0[j] != ':' && ps[i].0[j] != ';' && ps[i].0[j]
                    != '=') && (forall|j: int|
                0 <= j < ps[i].1.len() ==> ps[i].1[j] != ':' && ps[i].1[j] != ';')),
    ensures
        sp_parse_params(crate::ical::serializer::params_render(ps, k).skip(1)) == Ok::<
            Seq<(Seq<char>, Seq<char>)>,
            ParseError,
        >(ps.skip(k)),
    decreases ps.len() - k,
{
    let r = crate::ical::serializer::params_render(ps, k);
    let seg = ps[k].0 + seq!['='] + ps[k].1;
    let rest = crate::ical::serializer::params_render(ps, k + 1);
    assert(r.skip(1) =~= seg + rest);
    let s = r.skip(1);
    // the first semicolon ends this segment
    assert(forall|j: int| 0 <= j < seg.len() ==> #[trigger] seg[j] != ';') by {
        assert(forall|j: int|
            0 <= j < ps[k].0.len() ==> #[trigger] seg[j] == ps[k].0[j]);
        assert(forall|j: int|
            ps[k].0.len() + 1 <= j < seg.len() ==> #[trigger] seg[j] == ps[k].1[j - ps[k].0.len()
                - 1]);
    }
    if k + 1 < ps.len() {
        assert(rest[0] == ';');
        crate::strutil::lemma_find_char_absent_prefix(seg, rest, ';');
        assert(crate::strutil::find_char(rest, ';') == 0) by {
            assert(rest.skip(0) =~= rest);
        }
        assert(crate::strutil::find_char(s, ';') == seg.len());
    } else {
        assert(rest =~= Seq::<char>::empty());
        assert(s =~= seg);
        crate::strutil::lemma_find_char_absent_prefix(seg, Seq::empty(), ';');
        assert(seg + Seq::<char>::empty() =~= seg);
        assert(crate::strutil::find_char(s, ';') == seg.len());
    }
    let i = crate::strutil::find_char(s, ';');
    assert(s.take(i as int) =~= seg);
    // the first equals sign splits name from value
    crate::strutil::lemma_find_char_absent_prefix(ps[k].0, seq!['='] + ps[k].1, '=');
    assert(ps[k].0 + (seq!['='] + ps[k].1) =~= seg);
    assert((seq!['='] + ps[k].1)[0] == '=');
    assert(crate::strutil::find_char(seq!['='] + ps[k].1, '=') == 0);
    let e = crate::strutil::find_char(seg, '=');
    assert(e == ps[k].0.len());
    assert(seg.take(e as int) =~= ps[k].0);
    assert(seg.skip(e + 1 as int) =~= ps[k].1);
    if k + 1 < ps.len() {
        assert(s.skip(i + 1 as int) =~= rest.skip(1));
        lemma_params_round_trip(ps, k + 1);
        assert(seq![(ps[k].0, ps[k].1)] + ps.skip(k + 1) =~= ps.skip(k));
        assert((ps[k].0, ps[k].1) == ps[k]);
    } else {
        assert(i >= s.len());
        assert(seq![(ps[k].0, ps[k].1)] =~= ps.skip(k));
    }
}

/// Content-line round-trip: reading a rendered well-formed line gives the
/// line model back.
pub proof fn lemma_content_line_round_trip(m: CLModel)
    requires
        cl_wf(m),
    ensures
        sp_parse_content_line(
            crate::ical::serializer::line_render(m.name, m.params, m.value),
        ) matches Ok(m2) && m2.name == m.name && m2.params == m.params && m2.value == m.value,
{
    let pr = crate::ical::serializer::params_render(m.params, 0);
    let l = crate::ical::serializer::line_render(m.name, m.params, m.value);
    let lhs = m.name + pr;
    assert(l =~= lhs + (seq![':'] + m.value));
    lemma_params_render_clean(m.params, 0);
    assert(forall|j: int| 0 <= j < lhs.len() ==> #[trigger] lhs[j] != ':') by {
        assert(forall|j: int| 0 <= j < m.name.len() ==> #[trigger] lhs[j] == m.name[j]);
        assert(forall|j: int|
            m.name.len() <= j < lhs.len() ==> #[trigger] lhs[j] == pr[j - m.name.len()]);
    }
    crate::strutil::lemma_find_char_absent_prefix(lhs, seq![':'] + m.value, ':');
    assert((seq![':'] + m.value)[0] == ':');
    assert(crate::strutil::find_char(seq![':'] + m.value, ':') == 0);
    let ci = crate::strutil::find_char(l, ':');
    assert(ci == lhs.len());
    assert(l.take(ci as int) =~= lhs);
    assert(l.skip(ci + 1 as int) =~= m.value);
    if m.params.len() == 0 {
        assert(pr =~= Seq::<char>::empty());
        assert(lhs =~= m.name);
        crate::strutil::lemma_find_char_props(lhs, ';');
        assert(crate::strutil::find_char(lhs, ';') >= lhs.len()) by {
            if crate::strutil::find_char(lhs, ';') < lhs.len() {
                assert(lhs[crate::strutil::find_char(lhs, ';') as int] == ';');
            }
        }
        assert(lhs.take(crate::strutil::find_char(lhs, ';') as int) =~= m.name);
        assert(m.params =~= Seq::<(Seq<char>, Seq<char>)>::empty());
    } else {
        assert(pr[0] == ';');
        assert(forall|j: int| 0 <= j < m.name.len() ==> #[trigger] m.name[j] != ';');
        crate::strutil::lemma_find_char_absent_prefix(m.name, pr, ';');
        assert(crate::strutil::find_char(pr, ';') == 0) by {
            assert(pr.skip(0) =~= pr);
        }
        let ni = crate::strutil::find_char(lhs, ';');
        assert(ni == m.name.len());
        assert(lhs.take(ni as int) =~= m.name);
        assert(lhs.skip(ni + 1 as int) =~= pr.skip(1));
        lemma_params_round_trip(m.params, 0);
        assert(m.params.skip(0) =~= m.params);
    }
}


/// The CRLF-joined text of a line list from index `k` on.
pub open spec fn join_crlf(lines: Seq<Seq<char>>, k: int) -> Seq<char>
    decreases lines.len() - k,
{
    if k < 0 || k >= lines.len() {
        Seq::empty()
    } else {
        lines[k] + seq!['\r', '\n'] + join_crlf(lines, k + 1)
    }
}

/// Whether no line feed is followed by blank space, so unfolding finds
/// nothing to remove.
pub open spec fn nothing_folded(s: Seq<char>) -> bool {
    forall|j: int|
        0 <= j < s.len() && #[trigger] s[j] == '\n' ==> (j + 1 >= s.len() || (s[j + 1] != ' '
            && s[j + 1] != '\t'))
}

/// Unfolding text with no folded line break leaves it unchanged.
pub proof fn lemma_unfold_noop(s: Seq<char>)
    requires
        nothing_folded(s),
    ensures
        unfold_spec(s) == s,
    decreases s.len(),
{
    if s.len() > 0 {
        if s.len() >= 3 && s[0] == '\r' && s[1] == '\n' && (s[2] == ' ' || s[2] == '\t') {
            assert(false);
        }
        if s.len() >= 2 && s[0] == '\n' && (s[1] == ' ' || s[1] == '\t') {
            assert(false);
        }
        assert(nothing_folded(s.skip(1))) by {
            assert forall|j: int|
                0 <= j < s.skip(1).len() && #[trigger] s.skip(1)[j] == '\n' implies (j + 1
                >= s.skip(1).len() || (s.skip(1)[j + 1] != ' ' && s.skip(1)[j + 1]
                != '\t')) by {
                assert(s.skip(1)[j] == s[j + 1]);
                if j + 1 < s.skip(1).len() {
                    assert(s.skip(1)[j + 1] == s[j + 2]);
                }
            }
        }
        lemma_unfold_noop(s.skip(1));
        assert(seq![s[0]] + s.skip(1) =~= s);
    }
}

/// Splitting the CRLF-joined text of break-free lines recovers the lines:
/// the splitter inverts the joiner.
pub proof fn lemma_split_join_round_trip(lines: Seq<Seq<char>>, k: int)
    requires
        0 <= k <= lines.len(),
        forall|i: int|
            0 <= i < lines.len() ==> crate::ical::serializer::clean_text(#[trigger] lines[i]),
    ensures
        split_lines_spec(join_crlf(lines, k)) == lines.skip(k),
    decreases lines.len() - k,
{
    if k >= lines.len() {
        assert(join_crlf(lines, k) =~= Seq::<char>::empty());
        assert(lines.skip(k) =~= Seq::<Seq<char>>::empty());
    } else {
        let t = join_crlf(lines, k);
        let head = lines[k] + seq!['\r'];
        let rest = join_crlf(lines, k + 1);
        assert(t =~= head + (seq!['\n'] + rest));
        assert(forall|j: int| 0 <= j < head.len() ==> #[trigger] head[j] != '\n') by {
            assert(forall|j: int| 0 <= j < lines[k].len() ==> #[trigger] head[j] == lines[k][j]);
            assert(head[lines[k].len() as int] == '\r');
        }
        crate::strutil::lemma_find_char_absent_prefix(head, seq!['\n'] + rest, '\n');
        assert((seq!['\n'] + rest)[0] == '\n');
        assert(crate::strutil::find_char(seq!['\n'] + rest, '\n') == 0);
        let i = crate::strutil::find_char(t, '\n');
        assert(i == head.len());
        assert(t.len() > i);
        assert(t.take(i as int) =~= head);
        assert(strip_cr(head) =~= lines[k]);
        assert(t.skip(i + 1 as int) =~= rest);
        lemma_split_join_round_trip(lines, k + 1);
        assert(seq![lines[k]] + lines.skip(k + 1) =~= lines.skip(k));
    }
}


/// The rendered texts of a list of content-line models.
pub open spec fn render_lines(ms: Seq<CLModel>) -> Seq<Seq<char>> {
    ms.map_values(
        |m: CLModel| crate::ical::serializer::line_render(m.name, m.params, m.value),
    )
}

/// Line-list round-trip: reading the rendered lines of well-formed
/// content-line models gives the models back.
pub proof fn lemma_parse_lines_round_trip(ms: Seq<CLModel>)
    requires
        forall|i: int| 0 <= i < ms.len() ==> cl_wf(#[trigger] ms[i]),
    ensures
        sp_parse_lines(render_lines(ms)) == Ok::<Seq<CLModel>, ParseError>(ms),
    decreases ms.len(),
{
    if ms.len() == 0 {
        assert(render_lines(ms) =~= Seq::<Seq<char>>::empty());
        assert(ms =~= Seq::<CLModel>::empty());
    } else {
        let rl = render_lines(ms);
        assert(rl[0] == crate::ical::serializer::line_render(ms[0].name, ms[0].params, ms[0].value));
        lemma_content_line_round_trip(ms[0]);
        match sp_parse_content_line(rl[0]) {
            Ok(m2) => {
                assert(m2 =~= ms[0]);
            },
            Err(_) => {
                assert(false);
            },
        }
        assert(rl.skip(1) =~= render_lines(ms.skip(1))) by {
            assert(forall|i: int|
                0 <= i < ms.len() - 1 ==> #[trigger] ms.skip(1)[i] == ms[i + 1]);
        }
        assert(forall|i: int| 0 <= i < ms.skip(1).len() ==> cl_wf(#[trigger] ms.skip(1)[i])) by {
            assert(forall|i: int|
                0 <= i < ms.len() - 1 ==> #[trigger] ms.skip(1)[i] == ms[i + 1]);
        }
        lemma_parse_lines_round_trip(ms.skip(1));
        assert(sp_parse_lines(rl.skip(1)) == Ok::<Seq<CLModel>, ParseError>(ms.skip(1)));
        assert(sp_parse_lines(rl) == Ok::<Seq<CLModel>, ParseError>(seq![ms[0]] + ms.skip(1)));
        assert(seq![ms[0]] + ms.skip(1) =~= ms);
        assert(Ok::<Seq<CLModel>, ParseError>(seq![ms[0]] + ms.skip(1)) == Ok::<
            Seq<CLModel>,
            ParseError,
        >(ms));
    }
}


/// Unknown-property preservation: for a well-formed property line whose
/// name no field table knows and which is neither `BEGIN` nor `END`, the
/// serialized line unfolds back to itself (under the segmentation facts
/// the folding wrapper establishes), reads back as the same name,
/// parameters and value, and the typed parser files it verbatim under the
/// component's unrecognized members.
pub proof fn lemma_unknown_property_preserved(
    m: CLModel,
    lines: Seq<CLModel>,
    i: int,
    defs: Seq<FieldSpec>,
    cname: Seq<char>,
    allow_alarms: bool,
    acc: CompModel,
)
    requires
        cl_wf(m),
        m.name != "BEGIN"@,
        m.name != "END"@,
        find_field(defs, m.name) >= defs.len(),
        0 <= i < lines.len(),
        lines[i] == m,
        crate::ical::serializer::clean_text(
            crate::ical::serializer::line_render(m.name, m.params, m.value),
        ),
        crate::ical::serializer::line_render(m.name, m.params, m.value)[0] != ' ',
        crate::ical::serializer::line_render(m.name, m.params, m.value)[0] != '\t',
        crate::ical::serializer::sum_lens(
            crate::ical::serializer::grapheme_lens(
                crate::ical::serializer::line_render(m.name, m.params, m.value),
            ),
        ) == crate::ical::serializer::line_render(m.name, m.params, m.value).len(),
        forall|k: int|
            0 <= k < crate::ical::serializer::grapheme_lens(
                crate::ical::serializer::line_render(m.name, m.params, m.value),
            ).len() ==> crate::ical::serializer::grapheme_lens(
                crate::ical::serializer::line_render(m.name, m.params, m.value),
            )[k] >= 1,
    ensures
        unfold_spec(
            crate::ical::serializer::fold_render(
                crate::ical::serializer::line_render(m.name, m.params, m.value),
            ),
        ) == seq!['\r', '\n'] + crate::ical::serializer::line_render(m.name, m.params, m.value),
        sp_parse_content_line(crate::ical::serializer::line_render(m.name, m.params, m.value))
            matches Ok(m2) && m2 =~= m,
        sp_parse_comp(lines, i, defs, cname, allow_alarms, acc) == sp_parse_comp(
            lines,
            i + 1,
            defs,
            cname,
            allow_alarms,
            CompModel {
                unknown: acc.unknown.push(
                    crate::ical::objects::generics::ObjModel::UProp {
                        name: m.name,
                        params: m.params,
                        value: m.value,
                    },
                ),
                ..acc
            },
        ),
{
    let l = crate::ical::serializer::line_render(m.name, m.params, m.value);
    assert(l.len() > 0);
    crate::ical::serializer::lemma_fold_unfold_round_trip(l);
    lemma_content_line_round_trip(m);
    crate::ical::objects::generics::lemma_find_field_props(defs, m.name);
}

} // verus!
