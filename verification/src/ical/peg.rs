//! A small line-oriented calendar reader: blocks between `BEGIN:` and
//! `END:` lines, parameters as `name:value` lines, nothing unfolded.

use vstd::prelude::*;

verus! {

use crate::strutil::{find_char, find_char_x, lemma_find_char_props, subvec, str_to_chars, chars_to_string, str_eq};

/// A block or a parameter line.
#[derive(Debug)]
pub enum Element {
    Block(Block),
    Parameter(Parameter),
}

/// A named block and its members.
#[derive(Debug)]
pub struct Block {
    pub name: String,
    pub children: Vec<Element>,
}

/// One `name:value` line.
#[derive(Debug)]
pub struct Parameter {
    pub name: String,
    pub value: String,
}

/// Spec view of an element.
pub enum PegModel {
    Block { name: Seq<char>, children: Seq<PegModel> },
    Param { name: Seq<char>, value: Seq<char> },
}

pub open spec fn elem_model(e: Element) -> PegModel
    decreases e, 2int,
{
    match e {
        Element::Block(b) => PegModel::Block { name: b.name@, children: elems_model(b.children@) },
        Element::Parameter(p) => PegModel::Param { name: p.name@, value: p.value@ },
    }
}

pub open spec fn elems_model(s: Seq<Element>) -> Seq<PegModel>
    decreases s, 0int,
{
    if s.len() == 0 {
        Seq::empty()
    } else {
        seq![elem_model(s[0])] + elems_model(s.skip(1))
    }
}

pub proof fn lemma_elems_model_len(s: Seq<Element>)
    ensures
        elems_model(s).len() == s.len(),
    decreases s.len(),
{
    if s.len() > 0 {
        lemma_elems_model_len(s.skip(1));
    }
}

pub proof fn lemma_elems_model_index(s: Seq<Element>, k: int)
    requires
        0 <= k < s.len(),
    ensures
        elems_model(s).len() == s.len(),
        elems_model(s)[k] == elem_model(s[k]),
    decreases k,
{
    lemma_elems_model_len(s);
    if k > 0 {
        lemma_elems_model_index(s.skip(1), k - 1);
        lemma_elems_model_len(s.skip(1));
        assert(s.skip(1)[k - 1] == s[k]);
    }
}

pub proof fn lemma_elems_model_push(s: Seq<Element>, x: Element)
    ensures
        elems_model(s.push(x)) == elems_model(s).push(elem_model(x)),
    decreases s.len(),
{
    if s.len() == 0 {
        reveal_with_fuel(elems_model, 2);
        assert(s.push(x).skip(1) =~= Seq::<Element>::empty());
        assert(s.push(x)[0] == x);
        assert(elems_model(s.push(x)) =~= elems_model(s).push(elem_model(x)));
    } else {
        assert(s.push(x).skip(1) =~= s.skip(1).push(x));
        lemma_elems_model_push(s.skip(1), x);
        assert(s.push(x)[0] == s[0]);
        assert(elems_model(s.push(x)) == seq![elem_model(s[0])] + elems_model(s.skip(1).push(x)));
        assert(seq![elem_model(s[0])] + elems_model(s.skip(1)).push(elem_model(x)) =~= (seq![
            elem_model(s[0]),
        ] + elems_model(s.skip(1))).push(elem_model(x)));
    }
}

/// Splits on line feeds, keeping everything else as it stands.
pub open spec fn split_nl(s: Seq<char>) -> Seq<Seq<char>>
    decreases s.len(),
{
    let i = find_char(s, '\n');
    if i >= s.len() {
        seq![s]
    } else {
        seq![s.take(i as int)] + split_nl(s.skip(i + 1 as int))
    }
}

/// Whether a line opens a block: `BEGIN:` and a non-empty name.
pub open spec fn peg_begin_name(l: Seq<char>) -> Option<Seq<char>> {
    if l.len() > 6 && l.take(6) == seq!['B', 'E', 'G', 'I', 'N', ':'] {
        Some(l.skip(6))
    } else {
        None
    }
}

/// Whether a line closes a block: `END:` and a non-empty name.
pub open spec fn peg_end_name(l: Seq<char>) -> Option<Seq<char>> {
    if l.len() > 4 && l.take(4) == seq!['E', 'N', 'D', ':'] {
        Some(l.skip(4))
    } else {
        None
    }
}

/// One element starting at line `i`: a block runs to the line closing it
/// by name; any other line with a colon is a parameter.
pub open spec fn sp_peg_element(lines: Seq<Seq<char>>, i: int) -> Option<(PegModel, int)>
    decreases lines.len() - i, 1int,
{
    if i < 0 || i >= lines.len() {
        None
    } else {
        let l = lines[i];
        match peg_begin_name(l) {
            Some(name) => match sp_peg_children(lines, i + 1, name, Seq::empty()) {
                None => None,
                Some((children, j)) => Some((PegModel::Block { name, children }, j)),
            },
            None => {
                let ci = find_char(l, ':');
                if ci == 0 || ci >= l.len() {
                    None
                } else {
                    Some(
                        (
                            PegModel::Param {
                                name: l.take(ci as int),
                                value: l.skip(ci + 1 as int),
                            },
                            i + 1,
                        ),
                    )
                }
            },
        }
    }
}

/// The members of an open block, until the line closing it by name.
pub open spec fn sp_peg_children(
    lines: Seq<Seq<char>>,
    i: int,
    name: Seq<char>,
    acc: Seq<PegModel>,
) -> Option<(Seq<PegModel>, int)>
    decreases lines.len() - i, 2int,
{
    if i < 0 || i >= lines.len() {
        None
    } else if peg_end_name(lines[i]) == Some(name) {
        Some((acc, i + 1))
    } else {
        match sp_peg_element(lines, i) {
            None => None,
            Some((e, j)) => {
                let j2 = if i < j <= lines.len() {
                    j
                } else {
                    i + 1
                };
                sp_peg_children(lines, j2, name, acc.push(e))
            },
        }
    }
}

/// The whole reader: a leading empty line (the grammar's line break),
/// then exactly one element covering all remaining lines.
pub open spec fn sp_peg_parse(text: Seq<char>) -> Option<PegModel> {
    let parts = split_nl(text);
    if parts.len() < 1 || parts[0].len() != 0 {
        None
    } else {
        match sp_peg_element(parts, 1) {
            None => None,
            Some((e, j)) => if j == parts.len() {
                Some(e)
            } else {
                None
            },
        }
    }
}

/// Splits text on line feeds executably.
fn split_nl_x(cs: &Vec<char>) -> (r: Vec<Vec<char>>)
    ensures
        crate::ical::parser::vecs_model(r@) == split_nl(cs@),
    decreases cs@.len(),
{
    let mut out: Vec<Vec<char>> = Vec::new();
    let mut i: usize = 0;
    proof {
        assert(cs@.skip(0) =~= cs@);
        assert(crate::ical::parser::vecs_model(out@) + split_nl(cs@) =~= split_nl(cs@));
    }
    loop
        invariant
            i <= cs@.len(),
            split_nl(cs@) =~= crate::ical::parser::vecs_model(out@) + split_nl(cs@.skip(i as int)),
        decreases cs@.len() - i,
    {
        let k = find_char_x(cs, i, '\n');
        let ghost rest = cs@.skip(i as int);
        proof {
            lemma_find_char_props(rest, '\n');
            assert(rest.take(find_char(rest, '\n') as int) =~= cs@.subrange(i as int, k as int));
        }
        let line = subvec(cs, i, k);
        if k == cs.len() {
            out.push(line);
            proof {
                assert(rest =~= cs@.subrange(i as int, k as int));
                assert(split_nl(rest) =~= seq![line@]);
                assert(crate::ical::parser::vecs_model(out@)
                    =~= crate::ical::parser::vecs_model(out@.drop_last()) + seq![line@]);
            }
            return out;
        }
        out.push(line);
        proof {
            assert(rest.skip(find_char(rest, '\n') + 1 as int) =~= cs@.skip(k + 1));
            assert(split_nl(rest) =~= seq![line@] + split_nl(cs@.skip(k + 1)));
            assert(crate::ical::parser::vecs_model(out@) =~= crate::ical::parser::vecs_model(
                out@.drop_last(),
            ) + seq![line@]);
            assert(crate::ical::parser::vecs_model(out@.drop_last()) + (seq![line@] + split_nl(
                cs@.skip(k + 1),
            )) =~= crate::ical::parser::vecs_model(out@) + split_nl(cs@.skip(k + 1)));
        }
        i = k + 1;
    }
}

/// Reads the `BEGIN:` name of a line, if it opens a block.
fn begin_name_x(line: &Vec<char>) -> (r: Option<String>)
    ensures
        match r {
            Some(n) => peg_begin_name(line@) == Some(n@),
            None => peg_begin_name(line@) is None,
        },
{
    let s = chars_to_string(line);
    if line.len() > 6 {
        let head = subvec(line, 0, 6);
        let hs = chars_to_string(&head);
        if str_eq(hs.as_str(), "BEGIN:") {
            proof {
                reveal_strlit("BEGIN:");
                assert(line@.take(6) =~= head@);
                assert("BEGIN:"@ =~= seq!['B', 'E', 'G', 'I', 'N', ':']);
            }
            let tail = subvec(line, 6, line.len());
            proof {
                assert(tail@ =~= line@.skip(6));
            }
            return Some(chars_to_string(&tail));
        }
        proof {
            reveal_strlit("BEGIN:");
            assert(line@.take(6) =~= head@);
            assert("BEGIN:"@ =~= seq!['B', 'E', 'G', 'I', 'N', ':']);
        }
        return None;
    }
    None
}

/// Reads the `END:` name of a line, if it closes a block.
fn end_name_x(line: &Vec<char>) -> (r: Option<String>)
    ensures
        match r {
            Some(n) => peg_end_name(line@) == Some(n@),
            None => peg_end_name(line@) is None,
        },
{
    if line.len() > 4 {
        let head = subvec(line, 0, 4);
        let hs = chars_to_string(&head);
        if str_eq(hs.as_str(), "END:") {
            proof {
                reveal_strlit("END:");
                assert(line@.take(4) =~= head@);
                assert("END:"@ =~= seq!['E', 'N', 'D', ':']);
            }
            let tail = subvec(line, 4, line.len());
            proof {
                assert(tail@ =~= line@.skip(4));
            }
            return Some(chars_to_string(&tail));
        }
        proof {
            reveal_strlit("END:");
            assert(line@.take(4) =~= head@);
            assert("END:"@ =~= seq!['E', 'N', 'D', ':']);
        }
        return None;
    }
    None
}

/// Reads one element starting at line `start`.
fn peg_element_x(lines: &Vec<Vec<char>>, start: usize) -> (r: Option<(Element, usize)>)
    requires
        start < lines@.len(),
    ensures
        match r {
            Some((e, j)) => sp_peg_element(crate::ical::parser::vecs_model(lines@), start as int)
                == Some((elem_model(e), j as int)) && start < j <= lines@.len(),
            None => sp_peg_element(crate::ical::parser::vecs_model(lines@), start as int) is None,
        },
    decreases lines@.len() - start, 1int,
{
    let ghost lm = crate::ical::parser::vecs_model(lines@);
    let n = lines.len();
    proof {
        assert(lm[start as int] == lines@[start as int]@);
    }
    match begin_name_x(&lines[start]) {
        Some(name) => {
            match peg_children_x(lines, start + 1, name.as_str()) {
                None => None,
                Some((children, j)) => Some((Element::Block(Block { name, children }), j)),
            }
        },
        None => {
            let line = &lines[start];
            let ci = find_char_x(line, 0, ':');
            proof {
                assert(line@.skip(0) =~= line@);
            }
            if ci == 0 || ci >= line.len() {
                return None;
            }
            let nm = subvec(line, 0, ci);
            let vl = subvec(line, ci + 1, line.len());
            proof {
                assert(nm@ =~= line@.take(ci as int));
                assert(vl@ =~= line@.skip(ci + 1 as int));
            }
            Some(
                (
                    Element::Parameter(
                        Parameter { name: chars_to_string(&nm), value: chars_to_string(&vl) },
                    ),
                    start + 1,
                ),
            )
        },
    }
}

/// Reads an open block's members until the line closing it by name.
fn peg_children_x(lines: &Vec<Vec<char>>, start: usize, name: &str) -> (r: Option<
    (Vec<Element>, usize),
>)
    requires
        start <= lines@.len(),
    ensures
        match r {
            Some((children, j)) => sp_peg_children(
                crate::ical::parser::vecs_model(lines@),
                start as int,
                name@,
                Seq::empty(),
            ) == Some((elems_model(children@), j as int)) && start < j <= lines@.len(),
            None => sp_peg_children(
                crate::ical::parser::vecs_model(lines@),
                start as int,
                name@,
                Seq::empty(),
            ) is None,
        },
    decreases lines@.len() - start, 2int,
{
    let ghost lm = crate::ical::parser::vecs_model(lines@);
    let mut children: Vec<Element> = Vec::new();
    let mut pos: usize = start;
    proof {
        assert(elems_model(children@) =~= Seq::<PegModel>::empty());
    }
    while pos < lines.len()
        invariant
            start <= pos <= lines@.len(),
            lm == crate::ical::parser::vecs_model(lines@),
            sp_peg_children(lm, start as int, name@, Seq::empty()) == sp_peg_children(
                lm,
                pos as int,
                name@,
                elems_model(children@),
            ),
        decreases lines@.len() - pos,
    {
        proof {
            assert(lm[pos as int] == lines@[pos as int]@);
        }
        match end_name_x(&lines[pos]) {
            Some(en) => {
                if str_eq(en.as_str(), name) {
                    return Some((children, pos + 1));
                }
            },
            None => {},
        }
        proof {
            assert(peg_end_name(lm[pos as int]) != Some(name@));
        }
        match peg_element_x(lines, pos) {
            None => {
                return None;
            },
            Some((e, j)) => {
                let ghost oldch = children@;
                children.push(e);
                proof {
                    assert(children@ == oldch.push(children@.last()));
                    lemma_elems_model_push(oldch, children@.last());
                }
                pos = j;
            },
        }
    }
    None
}

/// Reads a whole document: a leading line break, then one element that
/// covers every remaining line.
pub fn parse(text: &str) -> (r: Option<Element>)
    ensures
        match r {
            Some(e) => sp_peg_parse(text@) == Some(elem_model(e)),
            None => sp_peg_parse(text@) is None,
        },
{
    let cs = str_to_chars(text);
    let parts = split_nl_x(&cs);
    let ghost pm = crate::ical::parser::vecs_model(parts@);
    if parts.len() < 1 {
        return None;
    }
    proof {
        assert(pm[0] == parts@[0]@);
    }
    if parts[0].len() != 0 {
        return None;
    }
    if parts.len() < 2 {
        return None;
    }
    match peg_element_x(&parts, 1) {
        None => None,
        Some((e, j)) => {
            if j == parts.len() {
                Some(e)
            } else {
                None
            }
        },
    }
}

impl Element {
    /// The block inside, when this element is a block of that name.
    pub fn expect_block(&self, name: &str) -> (r: Option<&Block>)
        ensures
            match r {
                Some(b) => elem_model(*self) == (PegModel::Block {
                    name: name@,
                    children: elems_model(b.children@),
                }) && b.name@ == name@,
                None => !(self is Block) || !(elem_model(*self) matches PegModel::Block {
                    name: n,
                    ..
                } && n == name@),
            },
    {
        match self {
            Element::Block(block) => {
                if str_eq(block.name.as_str(), name) {
                    Some(block)
                } else {
                    None
                }
            },
            _ => None,
        }
    }
}

/// Index of the first block member with the given name, or the count.
pub open spec fn pfind_block(children: Seq<PegModel>, name: Seq<char>) -> nat
    decreases children.len(),
{
    if children.len() == 0 {
        0
    } else if children[0] matches PegModel::Block { name: n, .. } && n == name {
        0
    } else {
        1 + pfind_block(children.skip(1), name)
    }
}

/// Index of the first parameter member with the given name, or the count.
pub open spec fn pfind_param(children: Seq<PegModel>, name: Seq<char>) -> nat
    decreases children.len(),
{
    if children.len() == 0 {
        0
    } else if children[0] matches PegModel::Param { name: n, .. } && n == name {
        0
    } else {
        1 + pfind_param(children.skip(1), name)
    }
}

proof fn lemma_pfind_block_at(children: Seq<PegModel>, name: Seq<char>, k: int)
    requires
        0 <= k <= children.len(),
        forall|j: int|
            0 <= j < k ==> !((#[trigger] children[j]) matches PegModel::Block { name: n, .. } && n
                == name),
        k == children.len() || (children[k] matches PegModel::Block { name: n, .. } && n == name),
    ensures
        pfind_block(children, name) == k,
    decreases k,
{
    if children.len() == 0 || k == 0 {
    } else {
        assert(forall|j: int|
            0 <= j < k - 1 ==> #[trigger] children.skip(1)[j] == children[j + 1]);
        lemma_pfind_block_at(children.skip(1), name, k - 1);
    }
}

proof fn lemma_pfind_param_at(children: Seq<PegModel>, name: Seq<char>, k: int)
    requires
        0 <= k <= children.len(),
        forall|j: int|
            0 <= j < k ==> !((#[trigger] children[j]) matches PegModel::Param { name: n, .. } && n
                == name),
        k == children.len() || (children[k] matches PegModel::Param { name: n, .. } && n == name),
    ensures
        pfind_param(children, name) == k,
    decreases k,
{
    if children.len() == 0 || k == 0 {
    } else {
        assert(forall|j: int|
            0 <= j < k - 1 ==> #[trigger] children.skip(1)[j] == children[j + 1]);
        lemma_pfind_param_at(children.skip(1), name, k - 1);
    }
}

impl Block {
    /// The model of this block's members.
    pub open spec fn model(&self) -> Seq<PegModel> {
        elems_model(self.children@)
    }

    /// The first block member with the given name.
    pub fn find_block(&self, name: &str) -> (r: Option<&Block>)
        ensures
            match r {
                Some(b) => pfind_block(self.model(), name@) < self.model().len() && self.model()[pfind_block(self.model(), name@) as int] == elem_model(Element::Block(*b)) && b.name@ == name@,
                None => pfind_block(self.model(), name@) == self.model().len(),
            },
    {
        let ghost cm = self.model();
        proof {
            lemma_elems_model_len(self.children@);
        }
        let mut k: usize = 0;
        while k < self.children.len()
            invariant
                k <= self.children@.len(),
                cm == self.model(),
                cm.len() == self.children@.len(),
                forall|j: int|
                    0 <= j < k ==> !((#[trigger] cm[j]) matches PegModel::Block { name: n, .. }
                        && n == name@),
            decreases self.children@.len() - k,
        {
            proof {
                lemma_elems_model_index(self.children@, k as int);
            }
            match &self.children[k] {
                Element::Block(b) => {
                    if str_eq(b.name.as_str(), name) {
                        proof {
                            lemma_pfind_block_at(cm, name@, k as int);
                        }
                        return Some(b);
                    }
                },
                _ => {},
            }
            k = k + 1;
        }
        proof {
            lemma_pfind_block_at(cm, name@, k as int);
        }
        None
    }

    /// The first parameter member with the given name.
    pub fn find_param(&self, name: &str) -> (r: Option<&Parameter>)
        ensures
            match r {
                Some(p) => pfind_param(self.model(), name@) < self.model().len() && self.model()[pfind_param(self.model(), name@) as int] == elem_model(Element::Parameter(*p)) && p.name@ == name@,
                None => pfind_param(self.model(), name@) == self.model().len(),
            },
    {
        let ghost cm = self.model();
        proof {
            lemma_elems_model_len(self.children@);
        }
        let mut k: usize = 0;
        while k < self.children.len()
            invariant
                k <= self.children@.len(),
                cm == self.model(),
                cm.len() == self.children@.len(),
                forall|j: int|
                    0 <= j < k ==> !((#[trigger] cm[j]) matches PegModel::Param { name: n, .. }
                        && n == name@),
            decreases self.children@.len() - k,
        {
            proof {
                lemma_elems_model_index(self.children@, k as int);
            }
            match &self.children[k] {
                Element::Parameter(p) => {
                    if str_eq(p.name.as_str(), name) {
                        proof {
                            lemma_pfind_param_at(cm, name@, k as int);
                        }
                        return Some(p);
                    }
                },
                _ => {},
            }
            k = k + 1;
        }
        proof {
            lemma_pfind_param_at(cm, name@, k as int);
        }
        None
    }

    /// The value of the first parameter member with the given name.
    pub fn get_param_value(&self, name: &str) -> (r: Option<String>)
        ensures
            match r {
                Some(v) => pfind_param(self.model(), name@) < self.model().len() && (self.model()[pfind_param(self.model(), name@) as int] matches PegModel::Param { value: pv, .. } && pv == v@),
                None => pfind_param(self.model(), name@) == self.model().len(),
            },
    {
        match self.find_param(name) {
            Some(p) => Some(p.value.clone()),
            None => None,
        }
    }

    /// The value of the first parameter member with the given name, for
    /// date-valued parameters (the raw text is handed out unparsed).
    pub fn get_param_value_date(&self, name: &str) -> (r: Option<String>)
        ensures
            match r {
                Some(v) => pfind_param(self.model(), name@) < self.model().len() && (self.model()[pfind_param(self.model(), name@) as int] matches PegModel::Param { value: pv, .. } && pv == v@),
                None => pfind_param(self.model(), name@) == self.model().len(),
            },
    {
        self.get_param_value(name)
    }
}

} // verus!
