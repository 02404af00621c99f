//! The parser and printer of the lossless generic tree.

use vstd::prelude::*;

verus! {

use crate::ical::parser::{ContentLine, CLModel, ParseError, lex, sp_lex, cls_model};
use crate::ical::tree::types::{
    TreeObject,
    TreeComponent,
    TreeProperty,
    TreeObjModel,
    TreeCompModel,
    TreePropModel,
    tobj_model,
    tobjs_model,
    tcomp_model,
    lemma_tobjs_model_push,
    lemma_tobjs_model_len,
};
use crate::ical::serializer::{line_render, line_chars};
use crate::ical::values::base::params_model;
use crate::strutil::{str_eq, chars_to_string};

/// Consumes members until the named `END` (or the end of the document);
/// every line is kept whole, parameters included.
pub open spec fn sp_tree_children(
    lines: Seq<CLModel>,
    i: int,
    name: Seq<char>,
    acc: Seq<TreeObjModel>,
) -> Result<(Seq<TreeObjModel>, int), ParseError>
    decreases lines.len() - i,
{
    if i < 0 || i >= lines.len() {
        Ok((acc, i))
    } else {
        let l = lines[i];
        if l.name == "END"@ {
            if l.value == name {
                Ok((acc, i + 1))
            } else {
                Err(ParseError::UnexpectedEnd)
            }
        } else if l.name == "BEGIN"@ {
            match sp_tree_children(lines, i + 1, l.value, Seq::empty()) {
                Err(e) => Err(e),
                Ok((ch, j)) => {
                    let j2 = if i < j <= lines.len() {
                        j
                    } else {
                        i + 1
                    };
                    sp_tree_children(
                        lines,
                        j2,
                        name,
                        acc.push(
                            TreeObjModel::Component(
                                TreeCompModel { name: l.value, params: l.params, children: ch },
                            ),
                        ),
                    )
                },
            }
        } else {
            sp_tree_children(
                lines,
                i + 1,
                name,
                acc.push(
                    TreeObjModel::Property(
                        TreePropModel { name: l.name, params: l.params, value: l.value },
                    ),
                ),
            )
        }
    }
}

/// The whole generic-tree grammar: the document must open with
/// `BEGIN:VCALENDAR`; the root keeps that line's parameters.
pub open spec fn sp_tree_parse(text: Seq<char>) -> Result<TreeCompModel, ParseError> {
    match sp_lex(text) {
        Err(e) => Err(e),
        Ok(lines) => if lines.len() == 0 {
            Err(ParseError::EmptyDocument)
        } else if !(lines[0].name == "BEGIN"@ && lines[0].value == "VCALENDAR"@) {
            Err(ParseError::NotVCalendar)
        } else {
            match sp_tree_children(lines, 1, "VCALENDAR"@, Seq::empty()) {
                Err(e) => Err(e),
                Ok((children, j)) => Ok(
                    TreeCompModel { name: "VCALENDAR"@, params: lines[0].params, children },
                ),
            }
        },
    }
}

/// Consumes members executably.
fn tree_children(lines: &Vec<ContentLine>, start: usize, name: &str) -> (r: Result<
    (Vec<TreeObject>, usize),
    ParseError,
>)
    requires
        start <= lines@.len(),
    ensures
        match r {
            Ok((children, j)) => sp_tree_children(
                cls_model(lines@),
                start as int,
                name@,
                Seq::empty(),
            ) == Ok::<(Seq<TreeObjModel>, int), ParseError>((tobjs_model(children@), j as int))
                && start <= j <= lines@.len(),
            Err(e) => sp_tree_children(cls_model(lines@), start as int, name@, Seq::empty())
                == Err::<(Seq<TreeObjModel>, int), ParseError>(e),
        },
    decreases lines@.len() - start,
{
    let ghost lm = cls_model(lines@);
    let mut children: Vec<TreeObject> = Vec::new();
    let mut pos: usize = start;
    proof {
        assert(tobjs_model(children@) =~= Seq::<TreeObjModel>::empty());
    }
    while pos < lines.len()
        invariant
            start <= pos <= lines@.len(),
            lm == cls_model(lines@),
            sp_tree_children(lm, start as int, name@, Seq::empty()) == sp_tree_children(
                lm,
                pos as int,
                name@,
                tobjs_model(children@),
            ),
        decreases lines@.len() - pos,
    {
        proof {
            assert(lm[pos as int] == lines@[pos as int]@);
        }
        if str_eq(lines[pos].name.as_str(), "END") {
            if str_eq(lines[pos].value.as_str(), name) {
                return Ok((children, pos + 1));
            }
            return Err(ParseError::UnexpectedEnd);
        }
        if str_eq(lines[pos].name.as_str(), "BEGIN") {
            match tree_children(lines, pos + 1, lines[pos].value.as_str()) {
                Err(e) => {
                    return Err(e);
                },
                Ok((ch, j)) => {
                    let comp = TreeComponent {
                        name: lines[pos].value.clone(),
                        params: crate::ical::objects::generics::clone_params(&lines[pos].params),
                        children: ch,
                    };
                    let ghost oldch = children@;
                    children.push(TreeObject::Component(comp));
                    proof {
                        assert(children@ == oldch.push(children@.last()));
                        lemma_tobjs_model_push(oldch, children@.last());
                    }
                    pos = j;
                },
            }
            continue;
        }
        let prop = TreeProperty {
            name: lines[pos].name.clone(),
            params: crate::ical::objects::generics::clone_params(&lines[pos].params),
            value: lines[pos].value.clone(),
        };
        let ghost oldch = children@;
        children.push(TreeObject::Property(prop));
        proof {
            assert(children@ == oldch.push(children@.last()));
            lemma_tobjs_model_push(oldch, children@.last());
        }
        pos = pos + 1;
    }
    Ok((children, pos))
}

/// Parses a whole document into the lossless generic tree.
pub fn parse(ical_str: &str) -> (r: Result<TreeComponent, ParseError>)
    ensures
        match r {
            Ok(t) => sp_tree_parse(ical_str@) matches Ok(m) && tcomp_model(t) == m,
            Err(e) => sp_tree_parse(ical_str@) == Err::<TreeCompModel, ParseError>(e),
        },
{
    let lines = match lex(ical_str) {
        Ok(lines) => lines,
        Err(e) => {
            return Err(e);
        },
    };
    if lines.len() == 0 {
        return Err(ParseError::EmptyDocument);
    }
    proof {
        assert(cls_model(lines@)[0] == lines@[0]@);
    }
    if !(str_eq(lines[0].name.as_str(), "BEGIN") && str_eq(lines[0].value.as_str(), "VCALENDAR")) {
        return Err(ParseError::NotVCalendar);
    }
    match tree_children(&lines, 1, "VCALENDAR") {
        Err(e) => Err(e),
        Ok((children, _j)) => {
            let name = chars_to_string(&crate::strutil::str_to_chars("VCALENDAR"));
            Ok(
                TreeComponent {
                    name,
                    params: crate::ical::objects::generics::clone_params(&lines[0].params),
                    children,
                },
            )
        },
    }
}

/// The plain rendering of a tree member: one line per property, `BEGIN`
/// and `END` lines around components, every line ended by a line break
/// and none folded.
pub open spec fn tree_obj_render(o: TreeObjModel) -> Seq<char>
    decreases o, 1int,
{
    match o {
        TreeObjModel::Property(p) => line_render(p.name, p.params, p.value) + seq!['\r', '\n'],
        TreeObjModel::Component(c) => tree_comp_render(c),
    }
}

pub open spec fn tree_comp_render(c: TreeCompModel) -> Seq<char>
    decreases c, 2int,
{
    line_render("BEGIN"@, c.params, c.name) + seq!['\r', '\n'] + tree_objs_render(c.children, 0)
        + line_render("END"@, Seq::empty(), c.name) + seq!['\r', '\n']
}

pub open spec fn tree_objs_render(s: Seq<TreeObjModel>, k: int) -> Seq<char>
    decreases s, s.len() - k, 0int,
{
    if k < 0 || k >= s.len() {
        Seq::empty()
    } else {
        tree_obj_render(s[k]) + tree_objs_render(s, k + 1)
    }
}

/// Renders a whole tree back to text.
pub fn serialize(vcal: &TreeComponent) -> (r: String)
    ensures
        r@ == tree_comp_render(tcomp_model(*vcal)),
{
    let mut out = String::new();
    render_tree_comp(vcal, &mut out);
    out
}

fn render_tree_comp(c: &TreeComponent, out: &mut String)
    ensures
        final(out)@ == old(out)@ + tree_comp_render(tcomp_model(*c)),
    decreases *c, 2int,
{
    let begin_line = line_chars("BEGIN", &c.params, c.name.as_str());
    crate::ical::serializer::append_line(out, &begin_line);
    let ghost cm = tobjs_model(c.children@);
    proof {
        lemma_tobjs_model_len(c.children@);
    }
    let mut k: usize = 0;
    while k < c.children.len()
        invariant
            k <= c.children@.len(),
            cm == tobjs_model(c.children@),
            cm.len() == c.children@.len(),
            out@ + tree_objs_render(cm, k as int) =~= old(out)@ + line_render(
                "BEGIN"@,
                params_model(c.params@),
                c.name@,
            ) + seq!['\r', '\n'] + tree_objs_render(cm, 0),
        decreases c.children@.len() - k,
    {
        proof {
            crate::ical::tree::types::lemma_tobjs_model_index(c.children@, k as int);
        }
        render_tree_obj(&c.children[k], out);
        k = k + 1;
    }
    proof {
        assert(tree_objs_render(cm, c.children@.len() as int) =~= Seq::<char>::empty());
        assert(out@ =~= out@ + tree_objs_render(cm, c.children@.len() as int));
    }
    let empty_params: crate::ical::values::base::ICalParameterMap = Vec::new();
    let end_line = line_chars("END", &empty_params, c.name.as_str());
    proof {
        assert(params_model(empty_params@) =~= Seq::<(Seq<char>, Seq<char>)>::empty());
    }
    crate::ical::serializer::append_line(out, &end_line);
}

fn render_tree_obj(o: &TreeObject, out: &mut String)
    ensures
        final(out)@ == old(out)@ + tree_obj_render(tobj_model(*o)),
    decreases *o, 3int,
{
    match o {
        TreeObject::Property(p) => {
            let line = line_chars(p.name.as_str(), &p.params, p.value.as_str());
            crate::ical::serializer::append_line(out, &line);
        },
        TreeObject::Component(c) => {
            render_tree_comp(c, out);
        },
    }
}

} // verus!
