//! The inverse of the parser: renders the typed object tree back to
//! iCalendar text, folding every property line at the 75/74-octet bounds
//! along grapheme-cluster boundaries.

use vstd::prelude::*;

verus! {

use crate::strutil::{
    seq_width,
    char_width_x,
    chars_to_string,
    str_to_chars,
    subvec,
    push_char,
    lemma_seq_width_append,
    lemma_seq_width_bounds,
};
use crate::ical::values::base::{ICalValueType, ICalValue, ICalOptional, ICalMultiple, params_model};
use crate::ical::objects::generics::{
    CompData,
    CompModel,
    FieldDef,
    FieldSpec,
    ObjModel,
    ICalObject,
    UnknownComponent,
    UnknownProperty,
    VCalendar,
    PropModel,
    Prop,
    Val,
    ValModel,
    val_model,
    prop_model,
    props_model,
    comp_model,
    obj_model,
    objs_model,
    cal_model,
    defs_model,
};
use crate::ical::objects::vtodo::{VTodo, vtodo_defs, vtodo_defs_spec};
use crate::ical::objects::valarm::{VAlarm, valarm_defs, valarm_defs_spec};
use crate::ical::objects::vevent::{VEvent, vevent_defs, vevent_defs_spec};
use crate::ical::objects::vjournal::{VJournal, vjournal_defs, vjournal_defs_spec};
use vstd::string::StringExecFns;
use vstd::string::StrSliceExecFns;

/// The character lengths of the grapheme clusters of a string, in order.
/// This names the outcome of Unicode segmentation; it is a fixed function
/// of the characters alone.
pub uninterp spec fn grapheme_lens(s: Seq<char>) -> Seq<usize>;

/// Total of a length list.
pub open spec fn sum_lens(lens: Seq<usize>) -> int
    decreases lens.len(),
{
    if lens.len() == 0 {
        0
    } else {
        lens[0] + sum_lens(lens.skip(1))
    }
}

/// Relies on `unicode_segmentation::UnicodeSegmentation::graphemes`:
/// grapheme clusters partition the string into non-empty pieces, so the
/// character counts are positive and sum to the string's length.
#[verifier::external_body]
fn grapheme_lens_x(s: &str) -> (r: Vec<usize>)
    ensures
        r@ == grapheme_lens(s@),
        sum_lens(r@) == s@.len(),
        forall|i: int| 0 <= i < r@.len() ==> r@[i] >= 1,
{
    unicode_segmentation::UnicodeSegmentation::graphemes(s, true).map(|g| g.chars().count()).collect()
}

/// The greedy fold: graphemes accumulate into the current physical line
/// while it stays within budget (75 octets for the first line, 74 for
/// continuations); a grapheme that does not fit opens the next line, and
/// one too wide for any line stands alone, over-long.
pub open spec fn fold_go(
    s: Seq<char>,
    lens: Seq<usize>,
    cur: Seq<char>,
    curw: int,
    out: Seq<Seq<char>>,
) -> Seq<Seq<char>>
    decreases lens.len(),
{
    if lens.len() == 0 {
        out.push(cur)
    } else {
        let g = s.take(lens[0] as int);
        let rest = s.skip(lens[0] as int);
        let gw = seq_width(g);
        let budget: int = if out.len() == 0 {
            75
        } else {
            74
        };
        if curw + gw <= budget || cur.len() == 0 {
            fold_go(rest, lens.skip(1), cur + g, curw + gw, out)
        } else {
            fold_go(rest, lens.skip(1), g, gw, out.push(cur))
        }
    }
}

/// The physical lines a logical line folds into.
pub open spec fn fold_chunks(l: Seq<char>) -> Seq<Seq<char>> {
    fold_go(l, grapheme_lens(l), Seq::empty(), 0, Seq::empty())
}

/// Joins folded physical lines from index `k` on: every line after the
/// first is introduced by a line break and one space.
pub open spec fn fold_join(chunks: Seq<Seq<char>>, k: int) -> Seq<char>
    decreases chunks.len() - k,
{
    if k < 0 || k >= chunks.len() {
        Seq::empty()
    } else if k == 0 {
        chunks[0] + fold_join(chunks, 1)
    } else {
        seq!['\r', '\n', ' '] + chunks[k] + fold_join(chunks, k + 1)
    }
}

/// A property line as it stands in the output: a line break, then the
/// folded text.
pub open spec fn fold_render(l: Seq<char>) -> Seq<char> {
    seq!['\r', '\n'] + fold_join(fold_chunks(l), 0)
}

/// One rendered parameter list: `;NAME=VALUE` for each entry, from `k` on.
pub open spec fn params_render(ps: Seq<(Seq<char>, Seq<char>)>, k: int) -> Seq<char>
    decreases ps.len() - k,
{
    if k < 0 || k >= ps.len() {
        Seq::empty()
    } else {
        seq![';'] + ps[k].0 + seq!['='] + ps[k].1 + params_render(ps, k + 1)
    }
}

/// One logical content line: `name[;params]:value`.
pub open spec fn line_render(
    name: Seq<char>,
    ps: Seq<(Seq<char>, Seq<char>)>,
    value: Seq<char>,
) -> Seq<char> {
    name + params_render(ps, 0) + seq![':'] + value
}

/// The canonical text of a typed value.
pub open spec fn sp_val_canon(vm: ValModel) -> Seq<char> {
    match vm {
        ValModel::Text(s) => s,
        ValModel::Int(n) => crate::strutil::int_canon(n as int),
        ValModel::Time(t) => crate::ical::values::datetime::sp_canon_datetime(t),
        ValModel::Span(d) => crate::ical::values::duration::sp_canon_duration(d),
    }
}

/// A `BEGIN:` line for a nested component (introduced by a line break).
pub open spec fn begin_render(name: Seq<char>) -> Seq<char> {
    seq!['\r', '\n', 'B', 'E', 'G', 'I', 'N', ':'] + name
}

/// An `END:` line (introduced by a line break).
pub open spec fn end_render(name: Seq<char>) -> Seq<char> {
    seq!['\r', '\n', 'E', 'N', 'D', ':'] + name
}

/// The folded lines of one slot's properties, from index `k` on.
pub open spec fn sp_render_props(ps: Seq<PropModel>, fname: Seq<char>, k: int) -> Seq<char>
    decreases ps.len() - k,
{
    if k < 0 || k >= ps.len() {
        Seq::empty()
    } else {
        fold_render(line_render(fname, ps[k].params, sp_val_canon(ps[k].value))) + sp_render_props(
            ps,
            fname,
            k + 1,
        )
    }
}

/// The folded lines of every slot, from field `k` on, in table order.
pub open spec fn sp_render_slots(
    slots: Seq<Seq<PropModel>>,
    defs: Seq<FieldSpec>,
    k: int,
) -> Seq<char>
    decreases defs.len() - k,
{
    if k < 0 || k >= defs.len() || k >= slots.len() {
        Seq::empty()
    } else {
        sp_render_props(slots[k], defs[k].name, 0) + sp_render_slots(slots, defs, k + 1)
    }
}

/// A typed component: `BEGIN`, its slots, its alarms, its unknown
/// members, `END`.
pub open spec fn sp_render_comp(c: CompModel, defs: Seq<FieldSpec>, name: Seq<char>) -> Seq<char>
    decreases c, 0int, 1int,
{
    begin_render(name) + sp_render_slots(c.slots, defs, 0) + sp_render_alarms(c.alarms, 0)
        + sp_render_objs(c.unknown, 0) + end_render(name)
}

pub open spec fn sp_render_alarms(s: Seq<CompModel>, k: int) -> Seq<char>
    decreases s, s.len() - k, 0int,
{
    if k < 0 || k >= s.len() {
        Seq::empty()
    } else {
        sp_render_comp(s[k], valarm_defs_spec(), "VALARM"@) + sp_render_alarms(s, k + 1)
    }
}

pub open spec fn sp_render_objs(s: Seq<ObjModel>, k: int) -> Seq<char>
    decreases s, s.len() - k, 0int,
{
    if k < 0 || k >= s.len() {
        Seq::empty()
    } else {
        sp_render_obj(s[k]) + sp_render_objs(s, k + 1)
    }
}

/// One member: unknown components keep their members between `BEGIN` and
/// `END` (their own parameters are not re-emitted); unknown properties
/// stand verbatim; typed components render by their field tables.
pub open spec fn sp_render_obj(o: ObjModel) -> Seq<char>
    decreases o, 0int, 2int,
{
    match o {
        ObjModel::UComp { name, params, children } => begin_render(name) + sp_render_objs(
            children,
            0,
        ) + end_render(name),
        ObjModel::UProp { name, params, value } => fold_render(line_render(name, params, value)),
        ObjModel::Todo(cm) => sp_render_comp(cm, vtodo_defs_spec(), "VTODO"@),
        ObjModel::Alarm(cm) => sp_render_comp(cm, valarm_defs_spec(), "VALARM"@),
        ObjModel::Event(cm) => sp_render_comp(cm, vevent_defs_spec(), "VEVENT"@),
        ObjModel::Journal(cm) => sp_render_comp(cm, vjournal_defs_spec(), "VJOURNAL"@),
    }
}

/// A whole document: the unprefixed `BEGIN:VCALENDAR`, the members, the
/// final `END:VCALENDAR`.
pub open spec fn sp_to_ics(c: crate::ical::objects::generics::CalModel) -> Seq<char> {
    seq!['B', 'E', 'G', 'I', 'N', ':'] + "VCALENDAR"@ + sp_render_objs(c.children, 0) + end_render(
        "VCALENDAR"@,
    )
}

/// Appends the characters of a string slice.
fn append_str(ics: &mut String, s: &str)
    ensures
        final(ics)@ == old(ics)@ + s@,
{
    ics.append(s);
}

/// Appends a character vector.
fn append_chars(ics: &mut String, v: &Vec<char>)
    ensures
        final(ics)@ == old(ics)@ + v@,
{
    let mut i: usize = 0;
    while i < v.len()
        invariant
            i <= v.len(),
            ics@ =~= old(ics)@ + v@.take(i as int),
        decreases v.len() - i,
    {
        push_char(ics, v[i]);
        proof {
            assert(v@.take(i + 1) =~= v@.take(i as int).push(v@[i as int]));
        }
        i = i + 1;
    }
    proof {
        assert(v@.take(v@.len() as int) =~= v@);
    }
}

/// Octet width of a character window.
fn width_of(v: &Vec<char>, a: usize, b: usize) -> (r: u128)
    requires
        a <= b <= v@.len(),
    ensures
        r == seq_width(v@.subrange(a as int, b as int)),
        r <= 4 * (b - a),
{
    proof {
        lemma_seq_width_bounds(v@.subrange(a as int, b as int));
    }
    let mut r: u128 = 0;
    let mut i: usize = a;
    while i < b
        invariant
            a <= i <= b <= v@.len(),
            r == seq_width(v@.subrange(a as int, i as int)),
            r <= 4 * (i - a),
        decreases b - i,
    {
        let w = char_width_x(v[i]);
        proof {
            assert(v@.subrange(a as int, i + 1).drop_last() =~= v@.subrange(a as int, i as int));
            assert(v@.subrange(a as int, i + 1).last() == v@[i as int]);
            lemma_seq_width_bounds(v@.subrange(a as int, i as int));
        }
        r = r + (w as u128);
        i = i + 1;
    }
    r
}

/// Folds one logical line and appends it, introduced by a line break.
pub fn fold_append(line: &Vec<char>, ics: &mut String)
    ensures
        final(ics)@ == old(ics)@ + fold_render(line@),
{
    let s = chars_to_string(line);
    let lens = grapheme_lens_x(s.as_str());
    let ghost lm = grapheme_lens(line@);
    let ll = line.len();
    // collect the physical lines first
    let mut chunks: Vec<Vec<char>> = Vec::new();
    let mut cur: Vec<char> = Vec::new();
    let mut curw: u128 = 0;
    let mut pos: usize = 0;
    let mut li: usize = 0;
    proof {
        assert(line@.skip(0) =~= line@);
        assert(lm.skip(0) =~= lm);
        assert(cur@ + line@.skip(0) =~= line@);
        assert(fold_chunks(line@) == fold_go(line@, lm, Seq::empty(), 0, Seq::empty()));
        assert(cur@ =~= Seq::<char>::empty());
        assert(crate::ical::parser::vecs_model(chunks@) =~= Seq::<Seq<char>>::empty());
    }
    while li < lens.len()
        invariant
            li <= lens@.len(),
            pos <= line@.len(),
            lens@ == lm,
            sum_lens(lm.skip(li as int)) == line@.len() - pos,
            forall|i: int| 0 <= i < lm.len() ==> lm[i] >= 1,
            curw == seq_width(cur@),
            curw <= 4 * (pos as int),
            line@.len() == ll,
            fold_chunks(line@) == fold_go(
                line@.skip(pos as int),
                lm.skip(li as int),
                cur@,
                curw as int,
                crate::ical::parser::vecs_model(chunks@),
            ),
        decreases lens@.len() - li,
    {
        let glen = lens[li];
        proof {
            assert(lm.skip(li as int)[0] == glen);
            assert(lm.skip(li as int).skip(1) =~= lm.skip(li + 1));
            assert(sum_lens(lm.skip(li as int)) == glen + sum_lens(lm.skip(li + 1)));
            lemma_sum_lens_nonneg(lm.skip(li + 1));
        }
        let g = subvec(line, pos, pos + glen);
        let gw = width_of(line, pos, pos + glen);
        proof {
            assert(line@.skip(pos as int).take(glen as int) =~= g@);
            assert(line@.skip(pos as int).skip(glen as int) =~= line@.skip(pos + glen));
        }
        let budget: u128 = if chunks.len() == 0 {
            75
        } else {
            74
        };
        proof {
            assert(crate::ical::parser::vecs_model(chunks@).len() == chunks@.len());
        }
        if curw + gw <= budget || cur.len() == 0 {
            let mut gg = g;
            let ghost oldcur = cur@;
            cur.append(&mut gg);
            proof {
                lemma_seq_width_append(oldcur, g@);
            }
            curw = curw + gw;
        } else {
            let ghost oldchunks = chunks@;
            chunks.push(cur);
            cur = g;
            curw = gw;
            proof {
                assert(crate::ical::parser::vecs_model(chunks@) =~= crate::ical::parser::vecs_model(
                    oldchunks,
                ).push(chunks@.last()@));
            }
        }
        pos = pos + glen;
        li = li + 1;
    }
    proof {
        lemma_sum_lens_nonneg(lm.skip(li as int));
        assert(lm.skip(li as int).len() == 0);
        assert(fold_chunks(line@) == crate::ical::parser::vecs_model(chunks@).push(cur@));
    }
    let ghost oldchunks2 = chunks@;
    chunks.push(cur);
    proof {
        assert(crate::ical::parser::vecs_model(chunks@) =~= crate::ical::parser::vecs_model(
            oldchunks2,
        ).push(chunks@.last()@));
        assert(fold_chunks(line@) == crate::ical::parser::vecs_model(chunks@));
    }
    // now emit: CRLF, first chunk, then CRLF + space + chunk
    let ghost cm = crate::ical::parser::vecs_model(chunks@);
    append_str(ics, "\r\n");
    proof {
        reveal_strlit("\r\n");
        assert("\r\n"@ =~= seq!['\r', '\n']);
    }
    let mut k: usize = 0;
    while k < chunks.len()
        invariant
            k <= chunks@.len(),
            cm == crate::ical::parser::vecs_model(chunks@),
            cm.len() >= 1,
            ics@ + fold_join(cm, k as int) =~= old(ics)@ + seq!['\r', '\n'] + fold_join(cm, 0),
        decreases chunks@.len() - k,
    {
        if k > 0 {
            append_str(ics, "\r\n ");
            proof {
                reveal_strlit("\r\n ");
                assert("\r\n "@ =~= seq!['\r', '\n', ' ']);
            }
        }
        append_chars(ics, &chunks[k]);
        proof {
            assert(cm[k as int] == chunks@[k as int]@);
        }
        k = k + 1;
    }
    proof {
        assert(fold_join(cm, chunks@.len() as int) =~= Seq::<char>::empty());
        assert(ics@ =~= ics@ + fold_join(cm, chunks@.len() as int));
        assert(fold_render(line@) =~= seq!['\r', '\n'] + fold_join(cm, 0));
    }
}

pub proof fn lemma_sum_lens_nonneg(lens: Seq<usize>)
    ensures
        sum_lens(lens) >= 0,
        lens.len() == 0 ==> sum_lens(lens) == 0,
        lens.len() > 0 ==> sum_lens(lens) >= lens[0],
    decreases lens.len(),
{
    if lens.len() > 0 {
        lemma_sum_lens_nonneg(lens.skip(1));
    }
}

/// Renders one logical content line's characters.
pub fn line_chars(fname: &str, params: &crate::ical::values::base::ICalParameterMap, value: &str) -> (r:
    Vec<char>)
    ensures
        r@ == line_render(fname@, params_model(params@), value@),
{
    let mut out = str_to_chars(fname);
    let ghost pm = params_model(params@);
    let ghost base = fname@;
    let mut k: usize = 0;
    while k < params.len()
        invariant
            k <= params@.len(),
            pm == params_model(params@),
            pm.len() == params@.len(),
            out@ + params_render(pm, k as int) =~= base + params_render(pm, 0),
        decreases params@.len() - k,
    {
        proof {
            assert(pm[k as int] == (params@[k as int].name@, params@[k as int].value@));
        }
        out.push(';');
        let mut nm = str_to_chars(params[k].name.as_str());
        out.append(&mut nm);
        out.push('=');
        let mut vl = str_to_chars(params[k].value.as_str());
        out.append(&mut vl);
        k = k + 1;
    }
    proof {
        assert(params_render(pm, params@.len() as int) =~= Seq::<char>::empty());
        assert(out@ =~= out@ + params_render(pm, params@.len() as int));
    }
    out.push(':');
    let mut vv = str_to_chars(value);
    out.append(&mut vv);
    proof {
        assert(out@ =~= line_render(fname@, pm, value@));
    }
    out
}

/// The canonical text of one typed value, executably.
pub fn val_canon_x(v: &Val) -> (r: String)
    ensures
        r@ == sp_val_canon(val_model(*v)),
{
    match v {
        Val::Text(s) => s.clone(),
        Val::Int(n) => <i32 as ICalValueType>::serialize(n),
        Val::Time(t) => <crate::ical::values::datetime::ICalDateTime as ICalValueType>::serialize(
            t,
        ),
        Val::Span(d) => <crate::ical::values::duration::ICalDuration as ICalValueType>::serialize(
            d,
        ),
    }
}

/// Appends a `BEGIN:` line for a nested component.
pub fn begin(ics: &mut String, name: &str)
    ensures
        final(ics)@ == old(ics)@ + begin_render(name@),
{
    append_str(ics, "\r\nBEGIN:");
    proof {
        reveal_strlit("\r\nBEGIN:");
        assert("\r\nBEGIN:"@ =~= seq!['\r', '\n', 'B', 'E', 'G', 'I', 'N', ':']);
    }
    append_str(ics, name);
}

/// Appends an `END:` line.
pub fn end(ics: &mut String, name: &str)
    ensures
        final(ics)@ == old(ics)@ + end_render(name@),
{
    append_str(ics, "\r\nEND:");
    proof {
        reveal_strlit("\r\nEND:");
        assert("\r\nEND:"@ =~= seq!['\r', '\n', 'E', 'N', 'D', ':']);
    }
    append_str(ics, name);
}

/// Renders one slot's properties.
fn render_props_x(ps: &Vec<Prop>, fname: &str, ics: &mut String)
    ensures
        final(ics)@ == old(ics)@ + sp_render_props(props_model(ps@), fname@, 0),
{
    let ghost pm = props_model(ps@);
    let mut k: usize = 0;
    while k < ps.len()
        invariant
            k <= ps@.len(),
            pm == props_model(ps@),
            pm.len() == ps@.len(),
            ics@ + sp_render_props(pm, fname@, k as int) =~= old(ics)@ + sp_render_props(
                pm,
                fname@,
                0,
            ),
        decreases ps@.len() - k,
    {
        proof {
            assert(pm[k as int] == prop_model(ps@[k as int]));
        }
        let canon = val_canon_x(&ps[k].value);
        let line = line_chars(fname, &ps[k].params, canon.as_str());
        fold_append(&line, ics);
        k = k + 1;
    }
    proof {
        assert(sp_render_props(pm, fname@, ps@.len() as int) =~= Seq::<char>::empty());
        assert(ics@ =~= ics@ + sp_render_props(pm, fname@, ps@.len() as int));
    }
}

/// Renders a typed component body between its `BEGIN` and `END` lines.
pub fn render_comp_x(c: &CompData, defs: &Vec<FieldDef>, name: &str, ics: &mut String)
    ensures
        final(ics)@ == old(ics)@ + sp_render_comp(comp_model(*c), defs_model(defs@), name@),
    decreases *c, 0int, 1int,
{
    let ghost cm = comp_model(*c);
    let ghost dm = defs_model(defs@);
    begin(ics, name);
    let bound: usize = if defs.len() < c.slots.len() {
        defs.len()
    } else {
        c.slots.len()
    };
    let mut k: usize = 0;
    while k < bound
        invariant
            k <= bound,
            bound <= defs@.len(),
            bound <= c.slots@.len(),
            bound == defs@.len() || bound == c.slots@.len(),
            cm == comp_model(*c),
            dm == defs_model(defs@),
            cm.slots.len() == c.slots@.len(),
            ics@ + sp_render_slots(cm.slots, dm, k as int) =~= old(ics)@ + begin_render(name@)
                + sp_render_slots(cm.slots, dm, 0),
        decreases bound - k,
    {
        proof {
            assert(cm.slots[k as int] == props_model(c.slots@[k as int]@));
            assert(dm[k as int].name == defs@[k as int].name@);
        }
        render_props_x(&c.slots[k], defs[k].name.as_str(), ics);
        k = k + 1;
    }
    proof {
        assert(sp_render_slots(cm.slots, dm, bound as int) =~= Seq::<char>::empty());
        assert(ics@ =~= ics@ + sp_render_slots(cm.slots, dm, bound as int));
    }
    let adefs = valarm_defs();
    proof {
        assert(valarm_defs_spec().len() == 8);
        crate::ical::objects::generics::lemma_alarms_model_len(c.alarms@);
    }
    let mut k: usize = 0;
    while k < c.alarms.len()
        invariant
            k <= c.alarms@.len(),
            cm == comp_model(*c),
            defs_model(adefs@) == valarm_defs_spec(),
            adefs@.len() == 8,
            cm.alarms.len() == c.alarms@.len(),
            ics@ + sp_render_alarms(cm.alarms, k as int) =~= old(ics)@ + begin_render(name@)
                + sp_render_slots(cm.slots, dm, 0) + sp_render_alarms(cm.alarms, 0),
        decreases c.alarms@.len() - k,
    {
        proof {
            lemma_alarms_model_index(c.alarms@, k as int);
        }
        render_comp_x(&c.alarms[k].data, &adefs, "VALARM", ics);
        k = k + 1;
    }
    proof {
        assert(sp_render_alarms(cm.alarms, c.alarms@.len() as int) =~= Seq::<char>::empty());
        assert(ics@ =~= ics@ + sp_render_alarms(cm.alarms, c.alarms@.len() as int));
    }
    render_objs_x(&c.unknown, ics);
    end(ics, name);
    proof {
        assert(cm.unknown == objs_model(c.unknown@));
    }
}

/// The model of an alarm list at an index is the model of that alarm.
pub proof fn lemma_alarms_model_index(s: Seq<VAlarm>, k: int)
    requires
        0 <= k < s.len(),
    ensures
        crate::ical::objects::generics::alarms_model(s).len() == s.len(),
        crate::ical::objects::generics::alarms_model(s)[k] == comp_model(s[k].data),
    decreases k,
{
    crate::ical::objects::generics::lemma_alarms_model_len(s);
    if k == 0 {
    } else {
        lemma_alarms_model_index(s.skip(1), k - 1);
        crate::ical::objects::generics::lemma_alarms_model_len(s.skip(1));
        assert(s.skip(1)[k - 1] == s[k]);
    }
}

/// The model of a member list at an index is the model of that member.
pub proof fn lemma_objs_model_index(s: Seq<ICalObject>, k: int)
    requires
        0 <= k < s.len(),
    ensures
        objs_model(s).len() == s.len(),
        objs_model(s)[k] == obj_model(s[k]),
    decreases k,
{
    crate::ical::objects::generics::lemma_objs_model_len(s);
    if k == 0 {
    } else {
        lemma_objs_model_index(s.skip(1), k - 1);
        crate::ical::objects::generics::lemma_objs_model_len(s.skip(1));
        assert(s.skip(1)[k - 1] == s[k]);
    }
}

/// Renders a member list in order.
pub fn render_objs_x(v: &Vec<ICalObject>, ics: &mut String)
    ensures
        final(ics)@ == old(ics)@ + sp_render_objs(objs_model(v@), 0),
    decreases *v, 0int, 0int,
{
    let ghost vm = objs_model(v@);
    proof {
        crate::ical::objects::generics::lemma_objs_model_len(v@);
    }
    let mut k: usize = 0;
    while k < v.len()
        invariant
            k <= v@.len(),
            vm == objs_model(v@),
            vm.len() == v@.len(),
            ics@ + sp_render_objs(vm, k as int) =~= old(ics)@ + sp_render_objs(vm, 0),
        decreases v@.len() - k,
    {
        proof {
            lemma_objs_model_index(v@, k as int);
        }
        render_obj_x(&v[k], ics);
        k = k + 1;
    }
    proof {
        assert(sp_render_objs(vm, v@.len() as int) =~= Seq::<char>::empty());
        assert(ics@ =~= ics@ + sp_render_objs(vm, v@.len() as int));
    }
}

/// Renders one member.
pub fn render_obj_x(o: &ICalObject, ics: &mut String)
    ensures
        final(ics)@ == old(ics)@ + sp_render_obj(obj_model(*o)),
    decreases *o, 0int, 2int,
{
    match o {
        ICalObject::UnknownComponent(u) => {
            begin(ics, u.name.as_str());
            render_objs_x(&u.children, ics);
            end(ics, u.name.as_str());
        },
        ICalObject::UnknownProperty(u) => {
            let line = line_chars(u.name.as_str(), &u.value.params, u.value.value.as_str());
            fold_append(&line, ics);
        },
        ICalObject::VTodo(t) => {
            let defs = vtodo_defs();
            render_comp_x(&t.data, &defs, "VTODO", ics);
        },
        ICalObject::VAlarm(a) => {
            let defs = valarm_defs();
            render_comp_x(&a.data, &defs, "VALARM", ics);
        },
        ICalObject::VEvent(e) => {
            let defs = vevent_defs();
            render_comp_x(&e.data, &defs, "VEVENT", ics);
        },
        ICalObject::VJournal(j) => {
            let defs = vjournal_defs();
            render_comp_x(&j.data, &defs, "VJOURNAL", ics);
        },
    }
}

impl VCalendar {
    /// Serializes the whole document.
    pub fn to_ics(&self) -> (r: String)
        ensures
            r@ == sp_to_ics(cal_model(*self)),
    {
        let mut ics = String::new();
        append_str(&mut ics, "BEGIN:");
        proof {
            reveal_strlit("BEGIN:");
            assert("BEGIN:"@ =~= seq!['B', 'E', 'G', 'I', 'N', ':']);
        }
        append_str(&mut ics, "VCALENDAR");
        render_objs_x(&self.children, &mut ics);
        end(&mut ics, "VCALENDAR");
        ics
    }
}


/// Anything that appends its own rendering to a document.
pub trait ICSAble {
    /// The exact text this value appends.
    spec fn render(&self) -> Seq<char>;

    /// Appends exactly `render`.
    fn to_ics(&self, ics: &mut String)
        ensures
            final(ics)@ == old(ics)@ + self.render(),
    ;
}

/// Anything that appends its rendering under a property name.
pub trait ICSAbleWithName {
    /// The exact text this value appends under the name.
    spec fn render_with_name(&self, name: Seq<char>) -> Seq<char>;

    /// Appends exactly `render_with_name`.
    fn to_ics_with_name(&self, name: &str, ics: &mut String)
        ensures
            final(ics)@ == old(ics)@ + self.render_with_name(name@),
    ;
}

impl ICSAble for ICalObject {
    open spec fn render(&self) -> Seq<char> {
        sp_render_obj(obj_model(*self))
    }

    fn to_ics(&self, ics: &mut String) {
        render_obj_x(self, ics);
    }
}

impl ICSAble for UnknownComponent {
    open spec fn render(&self) -> Seq<char> {
        begin_render(self.name@) + sp_render_objs(objs_model(self.children@), 0) + end_render(
            self.name@,
        )
    }

    fn to_ics(&self, ics: &mut String) {
        begin(ics, self.name.as_str());
        render_objs_x(&self.children, ics);
        end(ics, self.name.as_str());
    }
}

impl ICSAble for UnknownProperty {
    open spec fn render(&self) -> Seq<char> {
        fold_render(
            line_render(self.name@, params_model(self.value.params@), self.value.value@),
        )
    }

    fn to_ics(&self, ics: &mut String) {
        let line = line_chars(self.name.as_str(), &self.value.params, self.value.value.as_str());
        fold_append(&line, ics);
    }
}

impl ICSAble for VTodo {
    open spec fn render(&self) -> Seq<char> {
        sp_render_comp(comp_model(self.data), vtodo_defs_spec(), "VTODO"@)
    }

    fn to_ics(&self, ics: &mut String) {
        let defs = vtodo_defs();
        render_comp_x(&self.data, &defs, "VTODO", ics);
    }
}

impl ICSAble for VAlarm {
    open spec fn render(&self) -> Seq<char> {
        sp_render_comp(comp_model(self.data), valarm_defs_spec(), "VALARM"@)
    }

    fn to_ics(&self, ics: &mut String) {
        let defs = valarm_defs();
        render_comp_x(&self.data, &defs, "VALARM", ics);
    }
}

impl ICSAble for VEvent {
    open spec fn render(&self) -> Seq<char> {
        sp_render_comp(comp_model(self.data), vevent_defs_spec(), "VEVENT"@)
    }

    fn to_ics(&self, ics: &mut String) {
        let defs = vevent_defs();
        render_comp_x(&self.data, &defs, "VEVENT", ics);
    }
}

impl ICSAble for VJournal {
    open spec fn render(&self) -> Seq<char> {
        sp_render_comp(comp_model(self.data), vjournal_defs_spec(), "VJOURNAL"@)
    }

    fn to_ics(&self, ics: &mut String) {
        let defs = vjournal_defs();
        render_comp_x(&self.data, &defs, "VJOURNAL", ics);
    }
}

impl<T: ICalValueType> ICalValue<T> {
    /// One logical content line for this value under the given name.
    pub fn make_line(&self, name: &str) -> (r: String)
        ensures
            r@ == line_render(name@, params_model(self.params@), T::sp_canon(self.value@)),
    {
        let canon = self.value.serialize();
        let line = line_chars(name, &self.params, canon.as_str());
        chars_to_string(&line)
    }

    /// Folds one logical line and appends it, introduced by a line break.
    pub fn fold_push(&self, line: &str, ics: &mut String)
        ensures
            final(ics)@ == old(ics)@ + fold_render(line@),
    {
        let cs = str_to_chars(line);
        fold_append(&cs, ics);
    }
}

impl<T: ICalValueType> ICSAbleWithName for ICalValue<T> {
    open spec fn render_with_name(&self, name: Seq<char>) -> Seq<char> {
        fold_render(line_render(name, params_model(self.params@), T::sp_canon(self.value@)))
    }

    fn to_ics_with_name(&self, name: &str, ics: &mut String) {
        let line = self.make_line(name);
        self.fold_push(line.as_str(), ics);
    }
}

impl<T: ICalValueType> ICSAbleWithName for ICalOptional<T> {
    open spec fn render_with_name(&self, name: Seq<char>) -> Seq<char> {
        match self.0 {
            Some(v) => v.render_with_name(name),
            None => Seq::empty(),
        }
    }

    fn to_ics_with_name(&self, name: &str, ics: &mut String) {
        match &self.0 {
            Some(v) => {
                v.to_ics_with_name(name, ics);
            },
            None => {
                proof {
                    assert(ics@ =~= old(ics)@ + self.render_with_name(name@));
                }
            },
        }
    }
}

impl<T: ICalValueType> ICSAbleWithName for ICalMultiple<T> {
    open spec fn render_with_name(&self, name: Seq<char>) -> Seq<char> {
        values_render(self.0@, name, 0)
    }

    fn to_ics_with_name(&self, name: &str, ics: &mut String) {
        let mut k: usize = 0;
        while k < self.0.len()
            invariant
                k <= self.0@.len(),
                ics@ + values_render(self.0@, name@, k as int) =~= old(ics)@ + values_render(
                    self.0@,
                    name@,
                    0,
                ),
            decreases self.0@.len() - k,
        {
            self.0[k].to_ics_with_name(name, ics);
            k = k + 1;
        }
        proof {
            assert(values_render(self.0@, name@, self.0@.len() as int) =~= Seq::<char>::empty());
            assert(ics@ =~= ics@ + values_render(self.0@, name@, self.0@.len() as int));
        }
    }
}

/// The renderings of a value list under one name, from index `k` on.
pub open spec fn values_render<T: ICalValueType>(
    vs: Seq<ICalValue<T>>,
    name: Seq<char>,
    k: int,
) -> Seq<char>
    decreases vs.len() - k,
{
    if k < 0 || k >= vs.len() {
        Seq::empty()
    } else {
        vs[k].render_with_name(name) + values_render(vs, name, k + 1)
    }
}


/// Appends a line's characters and a line break, without folding.
pub fn append_line(ics: &mut String, line: &Vec<char>)
    ensures
        final(ics)@ == old(ics)@ + line@ + seq!['\r', '\n'],
{
    append_chars(ics, line);
    append_str(ics, "\r\n");
    proof {
        reveal_strlit("\r\n");
        assert("\r\n"@ =~= seq!['\r', '\n']);
        assert(ics@ =~= old(ics)@ + line@ + seq!['\r', '\n']);
    }
}


/// Concatenation of the physical lines from index `k` on.
pub open spec fn concat_chunks(chunks: Seq<Seq<char>>, k: int) -> Seq<char>
    decreases chunks.len() - k,
{
    if k < 0 || k >= chunks.len() {
        Seq::empty()
    } else {
        chunks[k] + concat_chunks(chunks, k + 1)
    }
}

/// Whether every grapheme cluster of the line, as the given lengths cut
/// it, fits a continuation line's 74 octets.
pub open spec fn graphemes_ok(s: Seq<char>, lens: Seq<usize>) -> bool
    decreases lens.len(),
{
    if lens.len() == 0 {
        true
    } else {
        seq_width(s.take(lens[0] as int)) <= 74 && graphemes_ok(
            s.skip(lens[0] as int),
            lens.skip(1),
        )
    }
}

/// Whether a chunk list obeys the folding bounds: at most 75 octets for
/// the first physical line and 74 for every continuation.
pub open spec fn chunk_widths_ok(chunks: Seq<Seq<char>>) -> bool {
    forall|k: int|
        0 <= k < chunks.len() ==> seq_width(#[trigger] chunks[k]) <= (if k == 0 {
            75int
        } else {
            74int
        })
}

proof fn lemma_fold_go_bounds(
    s: Seq<char>,
    lens: Seq<usize>,
    cur: Seq<char>,
    curw: int,
    out: Seq<Seq<char>>,
)
    requires
        curw == seq_width(cur),
        graphemes_ok(s, lens),
        out.len() == 0 ==> curw <= 75,
        out.len() > 0 ==> curw <= 74,
        chunk_widths_ok(out),
    ensures
        chunk_widths_ok(fold_go(s, lens, cur, curw, out)),
    decreases lens.len(),
{
    if lens.len() == 0 {
        let res = out.push(cur);
        assert forall|k: int|
            0 <= k < res.len() implies seq_width(#[trigger] res[k]) <= (if k == 0 {
            75int
        } else {
            74int
        }) by {
            if k < out.len() {
                assert(res[k] == out[k]);
            }
        }
    } else {
        let g = s.take(lens[0] as int);
        let rest = s.skip(lens[0] as int);
        let gw = seq_width(g);
        let budget: int = if out.len() == 0 {
            75
        } else {
            74
        };
        if curw + gw <= budget || cur.len() == 0 {
            lemma_seq_width_append(cur, g);
            if cur.len() == 0 {
                assert(cur =~= Seq::<char>::empty());
                assert(seq_width(cur) == 0);
                assert(cur + g =~= g);
            }
            lemma_fold_go_bounds(rest, lens.skip(1), cur + g, curw + gw, out);
        } else {
            let out2 = out.push(cur);
            assert forall|k: int|
                0 <= k < out2.len() implies seq_width(#[trigger] out2[k]) <= (if k == 0 {
                75int
            } else {
                74int
            }) by {
                if k < out.len() {
                    assert(out2[k] == out[k]);
                }
            }
            lemma_fold_go_bounds(rest, lens.skip(1), g, gw, out2);
        }
    }
}

proof fn lemma_fold_go_concat(
    s: Seq<char>,
    lens: Seq<usize>,
    cur: Seq<char>,
    curw: int,
    out: Seq<Seq<char>>,
)
    requires
        sum_lens(lens) == s.len(),
    ensures
        concat_chunks(fold_go(s, lens, cur, curw, out), 0) == concat_chunks(out, 0) + cur + s,
    decreases lens.len(),
{
    if lens.len() == 0 {
        assert(s =~= Seq::<char>::empty());
        lemma_concat_chunks_push(out, cur);
        assert(concat_chunks(out, 0) + cur + s =~= concat_chunks(out, 0) + cur);
    } else {
        let g = s.take(lens[0] as int);
        let rest = s.skip(lens[0] as int);
        let gw = seq_width(g);
        let budget: int = if out.len() == 0 {
            75
        } else {
            74
        };
        lemma_sum_lens_nonneg(lens.skip(1));
        if curw + gw <= budget || cur.len() == 0 {
            lemma_fold_go_concat(rest, lens.skip(1), cur + g, curw + gw, out);
            assert(concat_chunks(out, 0) + (cur + g) + rest =~= concat_chunks(out, 0) + cur + s);
        } else {
            lemma_fold_go_concat(rest, lens.skip(1), g, gw, out.push(cur));
            lemma_concat_chunks_push(out, cur);
            assert((concat_chunks(out, 0) + cur) + g + rest =~= concat_chunks(out, 0) + cur + s);
        }
    }
}

proof fn lemma_concat_chunks_push(out: Seq<Seq<char>>, cur: Seq<char>)
    ensures
        concat_chunks(out.push(cur), 0) == concat_chunks(out, 0) + cur,
    decreases out.len(),
{
    lemma_concat_chunks_push_from(out, cur, 0);
}

proof fn lemma_concat_chunks_push_from(out: Seq<Seq<char>>, cur: Seq<char>, k: int)
    requires
        0 <= k <= out.len(),
    ensures
        concat_chunks(out.push(cur), k) == concat_chunks(out, k) + cur,
    decreases out.len() - k,
{
    if k == out.len() {
        assert(out.push(cur)[k] == cur);
        assert(concat_chunks(out.push(cur), k) == cur + concat_chunks(out.push(cur), k + 1));
        assert(concat_chunks(out.push(cur), k) =~= concat_chunks(out, k) + cur);
    } else {
        assert(out.push(cur)[k] == out[k]);
        lemma_concat_chunks_push_from(out, cur, k + 1);
        assert(out[k] + (concat_chunks(out, k + 1) + cur) =~= (out[k] + concat_chunks(out, k + 1))
            + cur);
    }
}

/// Folding invariant: under the facts the segmentation wrapper
/// establishes (the cluster lengths are positive and sum to the line's
/// length) and for lines none of whose clusters is wider than 74 octets,
/// every physical line of a fold is at most 75 octets for the first and
/// 74 for each continuation, and the physical lines concatenate back to
/// the logical line, so no break falls inside a cluster.
pub proof fn lemma_folding_invariant(l: Seq<char>)
    requires
        sum_lens(grapheme_lens(l)) == l.len(),
        graphemes_ok(l, grapheme_lens(l)),
    ensures
        chunk_widths_ok(fold_chunks(l)),
        concat_chunks(fold_chunks(l), 0) == l,
{
    lemma_fold_go_bounds(l, grapheme_lens(l), Seq::empty(), 0, Seq::empty());
    lemma_fold_go_concat(l, grapheme_lens(l), Seq::empty(), 0, Seq::empty());
    assert(concat_chunks(Seq::<Seq<char>>::empty(), 0) + Seq::<char>::empty() + l =~= l);
}


/// Whether a text holds no line-break character.
pub open spec fn clean_text(s: Seq<char>) -> bool {
    forall|j: int| 0 <= j < s.len() ==> s[j] != '\r' && s[j] != '\n'
}

/// Unfolding passes over a break-free prefix unchanged.
proof fn lemma_unfold_clean_prefix(a: Seq<char>, b: Seq<char>)
    requires
        clean_text(a),
    ensures
        crate::ical::parser::unfold_spec(a + b) == a + crate::ical::parser::unfold_spec(b),
    decreases a.len(),
{
    if a.len() == 0 {
        assert(a + b =~= b);
        assert(a + crate::ical::parser::unfold_spec(b) =~= crate::ical::parser::unfold_spec(b));
    } else {
        let s = a + b;
        assert(s[0] == a[0]);
        assert(s[0] != '\r' && s[0] != '\n');
        assert(s.skip(1) =~= a.skip(1) + b);
        assert(clean_text(a.skip(1))) by {
            assert(forall|j: int| 0 <= j < a.len() - 1 ==> #[trigger] a.skip(1)[j] == a[j + 1]);
        }
        lemma_unfold_clean_prefix(a.skip(1), b);
        assert(seq![s[0]] + (a.skip(1) + crate::ical::parser::unfold_spec(b)) =~= a
            + crate::ical::parser::unfold_spec(b));
    }
}

/// Whether every chunk of a list is free of line breaks.
pub open spec fn clean_chunks(chunks: Seq<Seq<char>>) -> bool {
    forall|k: int| 0 <= k < chunks.len() ==> clean_text(#[trigger] chunks[k])
}

proof fn lemma_fold_go_clean(
    s: Seq<char>,
    lens: Seq<usize>,
    cur: Seq<char>,
    curw: int,
    out: Seq<Seq<char>>,
)
    requires
        sum_lens(lens) == s.len(),
        clean_text(s),
        clean_text(cur),
        clean_chunks(out),
    ensures
        clean_chunks(fold_go(s, lens, cur, curw, out)),
    decreases lens.len(),
{
    if lens.len() == 0 {
        let res = out.push(cur);
        assert forall|k: int| 0 <= k < res.len() implies clean_text(#[trigger] res[k]) by {
            if k < out.len() {
                assert(res[k] == out[k]);
            }
        }
        assert(fold_go(s, lens, cur, curw, out) == res);
    } else {
        let g = s.take(lens[0] as int);
        let rest = s.skip(lens[0] as int);
        let gw = seq_width(g);
        lemma_sum_lens_nonneg(lens.skip(1));
        assert(sum_lens(lens) == lens[0] + sum_lens(lens.skip(1)));
        assert(lens[0] <= s.len());
        assert(sum_lens(lens.skip(1)) == rest.len());
        assert(clean_text(g)) by {
            assert(forall|j: int| 0 <= j < g.len() ==> #[trigger] g[j] == s[j]);
        }
        assert(clean_text(rest)) by {
            assert(forall|j: int| 0 <= j < rest.len() ==> #[trigger] rest[j] == s[j + lens[0]]);
        }
        let budget: int = if out.len() == 0 {
            75
        } else {
            74
        };
        if curw + gw <= budget || cur.len() == 0 {
            assert(clean_text(cur + g)) by {
                assert forall|j: int|
                    0 <= j < (cur + g).len() implies #[trigger] (cur + g)[j] != '\r' && (cur
                    + g)[j] != '\n' by {
                    if j < cur.len() {
                        assert((cur + g)[j] == cur[j]);
                    } else {
                        assert((cur + g)[j] == g[j - cur.len()]);
                    }
                }
            }
            lemma_fold_go_clean(rest, lens.skip(1), cur + g, curw + gw, out);
        } else {
            let out2 = out.push(cur);
            assert forall|k: int| 0 <= k < out2.len() implies clean_text(#[trigger] out2[k]) by {
                if k < out.len() {
                    assert(out2[k] == out[k]);
                }
            }
            lemma_fold_go_clean(rest, lens.skip(1), g, gw, out2);
        }
    }
}

proof fn lemma_fold_go_nonempty(
    s: Seq<char>,
    lens: Seq<usize>,
    cur: Seq<char>,
    curw: int,
    out: Seq<Seq<char>>,
)
    requires
        forall|i: int| 0 <= i < lens.len() ==> lens[i] >= 1,
        sum_lens(lens) == s.len(),
        lens.len() > 0 || cur.len() > 0,
        forall|k: int| 0 <= k < out.len() ==> (#[trigger] out[k]).len() > 0,
    ensures
        forall|k: int|
            0 <= k < fold_go(s, lens, cur, curw, out).len() ==> (#[trigger] fold_go(
                s,
                lens,
                cur,
                curw,
                out,
            )[k]).len() > 0,
    decreases lens.len(),
{
    if lens.len() == 0 {
        let res = out.push(cur);
        assert(cur.len() > 0);
        assert forall|k: int| 0 <= k < res.len() implies (#[trigger] res[k]).len() > 0 by {
            if k < out.len() {
                assert(res[k] == out[k]);
            } else {
                assert(res[k] == cur);
            }
        }
        assert(fold_go(s, lens, cur, curw, out) == res);
    } else {
        let g = s.take(lens[0] as int);
        let rest = s.skip(lens[0] as int);
        let gw = seq_width(g);
        lemma_sum_lens_nonneg(lens.skip(1));
        assert(sum_lens(lens) == lens[0] + sum_lens(lens.skip(1)));
        assert(lens[0] <= s.len());
        assert(forall|i: int|
            0 <= i < lens.len() - 1 ==> #[trigger] lens.skip(1)[i] == lens[i + 1]);
        assert(g.len() == lens[0]);
        let budget: int = if out.len() == 0 {
            75
        } else {
            74
        };
        if curw + gw <= budget || cur.len() == 0 {
            lemma_fold_go_nonempty(rest, lens.skip(1), cur + g, curw + gw, out);
            let sub = fold_go(rest, lens.skip(1), cur + g, curw + gw, out);
            assert(fold_go(s, lens, cur, curw, out) == sub);
            assert forall|k: int|
                0 <= k < fold_go(s, lens, cur, curw, out).len() implies (#[trigger] fold_go(
                s,
                lens,
                cur,
                curw,
                out,
            )[k]).len() > 0 by {
                assert(fold_go(s, lens, cur, curw, out)[k] == sub[k]);
            }
        } else {
            let out2 = out.push(cur);
            assert forall|k: int| 0 <= k < out2.len() implies (#[trigger] out2[k]).len() > 0 by {
                if k < out.len() {
                    assert(out2[k] == out[k]);
                }
            }
            lemma_fold_go_nonempty(rest, lens.skip(1), g, gw, out2);
            let sub = fold_go(rest, lens.skip(1), g, gw, out2);
            assert(fold_go(s, lens, cur, curw, out) == sub);
            assert forall|k: int|
                0 <= k < fold_go(s, lens, cur, curw, out).len() implies (#[trigger] fold_go(
                s,
                lens,
                cur,
                curw,
                out,
            )[k]).len() > 0 by {
                assert(fold_go(s, lens, cur, curw, out)[k] == sub[k]);
            }
        }
    }
}

/// Unfolding a join of clean chunks from a continuation on recovers their
/// concatenation.
proof fn lemma_unfold_join(chunks: Seq<Seq<char>>, k: int)
    requires
        1 <= k,
        clean_chunks(chunks),
    ensures
        crate::ical::parser::unfold_spec(fold_join(chunks, k)) == concat_chunks(chunks, k),
    decreases chunks.len() - k,
{
    if k >= chunks.len() {
        assert(fold_join(chunks, k) =~= Seq::<char>::empty());
        assert(concat_chunks(chunks, k) =~= Seq::<char>::empty());
    } else {
        let j = fold_join(chunks, k);
        assert(j == seq!['\r', '\n', ' '] + chunks[k] + fold_join(chunks, k + 1));
        assert(j.len() >= 3);
        assert(j[0] == '\r');
        assert(j[1] == '\n');
        assert(j[2] == ' ');
        assert(j.skip(3) =~= chunks[k] + fold_join(chunks, k + 1));
        lemma_unfold_join(chunks, k + 1);
        lemma_unfold_clean_prefix(chunks[k], fold_join(chunks, k + 1));
    }
}

/// Fold/unfold round-trip: under the segmentation facts the wrapper
/// establishes, unfolding a folded property line (for a line that is
/// non-empty, holds no line break, and does not open with blank space)
/// recovers exactly the line break and the logical line.
pub proof fn lemma_fold_unfold_round_trip(l: Seq<char>)
    requires
        l.len() > 0,
        l[0] != ' ' && l[0] != '\t',
        clean_text(l),
        sum_lens(grapheme_lens(l)) == l.len(),
        forall|i: int| 0 <= i < grapheme_lens(l).len() ==> grapheme_lens(l)[i] >= 1,
    ensures
        crate::ical::parser::unfold_spec(fold_render(l)) == seq!['\r', '\n'] + l,
{
    let chunks = fold_chunks(l);
    lemma_fold_go_clean(l, grapheme_lens(l), Seq::empty(), 0, Seq::empty());
    lemma_fold_go_concat(l, grapheme_lens(l), Seq::empty(), 0, Seq::empty());
    assert(concat_chunks(Seq::<Seq<char>>::empty(), 0) + Seq::<char>::empty() + l =~= l);
    assert(grapheme_lens(l).len() > 0) by {
        if grapheme_lens(l).len() == 0 {
            assert(sum_lens(grapheme_lens(l)) == 0);
        }
    }
    lemma_fold_go_nonempty(l, grapheme_lens(l), Seq::empty(), 0, Seq::empty());
    assert(chunks.len() > 0) by {
        lemma_fold_go_len(l, grapheme_lens(l), Seq::empty(), 0, Seq::empty());
    }
    // the first chunk opens with the line's first character
    assert(concat_chunks(chunks, 0) == l);
    assert(chunks[0].len() > 0);
    assert(chunks[0][0] == l[0]) by {
        assert(concat_chunks(chunks, 0) == chunks[0] + concat_chunks(chunks, 1));
        assert((chunks[0] + concat_chunks(chunks, 1))[0] == chunks[0][0]);
    }
    let r = fold_render(l);
    assert(r == seq!['\r', '\n'] + fold_join(chunks, 0));
    assert(fold_join(chunks, 0) == chunks[0] + fold_join(chunks, 1));
    assert(r.len() >= 2);
    assert(r[0] == '\r');
    assert(r[1] == '\n');
    if r.len() >= 3 {
        assert(r[2] == chunks[0][0]);
        assert(r[2] != ' ' && r[2] != '\t');
    }
    assert(r.skip(1).len() >= 1);
    assert(r.skip(1)[0] == '\n');
    if r.skip(1).len() >= 2 {
        assert(r.skip(1)[1] == r[2]);
    }
    assert(r.skip(1).skip(1) =~= r.skip(2));
    assert(r.skip(2) =~= fold_join(chunks, 0));
    lemma_unfold_join(chunks, 1);
    lemma_unfold_clean_prefix(chunks[0], fold_join(chunks, 1));
    assert(crate::ical::parser::unfold_spec(fold_join(chunks, 0)) == chunks[0] + concat_chunks(
        chunks,
        1,
    ));
    assert(chunks[0] + concat_chunks(chunks, 1) =~= l);
    assert(crate::ical::parser::unfold_spec(r) == seq![r[0]] + crate::ical::parser::unfold_spec(
        r.skip(1),
    ));
    assert(crate::ical::parser::unfold_spec(r.skip(1)) == seq!['\n']
        + crate::ical::parser::unfold_spec(r.skip(2)));
    assert(seq![r[0]] + (seq!['\n'] + l) =~= seq!['\r', '\n'] + l);
}

/// A fold yields one physical line more than it pushes out along the way;
/// in particular at least one.
proof fn lemma_fold_go_len(
    s: Seq<char>,
    lens: Seq<usize>,
    cur: Seq<char>,
    curw: int,
    out: Seq<Seq<char>>,
)
    ensures
        fold_go(s, lens, cur, curw, out).len() > out.len(),
    decreases lens.len(),
{
    if lens.len() == 0 {
    } else {
        let g = s.take(lens[0] as int);
        let rest = s.skip(lens[0] as int);
        let gw = seq_width(g);
        let budget: int = if out.len() == 0 {
            75
        } else {
            74
        };
        if curw + gw <= budget || cur.len() == 0 {
            lemma_fold_go_len(rest, lens.skip(1), cur + g, curw + gw, out);
        } else {
            lemma_fold_go_len(rest, lens.skip(1), g, gw, out.push(cur));
        }
    }
}

} // verus!
