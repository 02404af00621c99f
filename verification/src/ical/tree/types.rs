//! The lossless generic calendar tree: components and properties both
//! keep their parameters, so nothing of the document is dropped.

use vstd::prelude::*;

verus! {

use crate::ical::values::base::{Param, params_model};
use crate::strutil::str_eq;

/// A component or a property.
#[derive(Debug)]
pub enum TreeObject {
    Component(TreeComponent),
    Property(TreeProperty),
}

/// A component: name, parameters of its `BEGIN` line, members in order.
#[derive(Debug)]
pub struct TreeComponent {
    pub name: String,
    pub params: TreeParameterMap,
    pub children: Vec<TreeObject>,
}

/// A property: name, parameters, raw value.
#[derive(Debug)]
pub struct TreeProperty {
    pub name: String,
    pub params: TreeParameterMap,
    pub value: String,
}

/// The parameters of one line, in document order.
pub type TreeParameterMap = Vec<Param>;

/// Spec view of a tree member.
pub enum TreeObjModel {
    Component(TreeCompModel),
    Property(TreePropModel),
}

/// Spec view of a component.
pub struct TreeCompModel {
    pub name: Seq<char>,
    pub params: Seq<(Seq<char>, Seq<char>)>,
    pub children: Seq<TreeObjModel>,
}

/// Spec view of a property.
pub struct TreePropModel {
    pub name: Seq<char>,
    pub params: Seq<(Seq<char>, Seq<char>)>,
    pub value: Seq<char>,
}

pub open spec fn tprop_model(p: TreeProperty) -> TreePropModel {
    TreePropModel { name: p.name@, params: params_model(p.params@), value: p.value@ }
}

pub open spec fn tcomp_model(c: TreeComponent) -> TreeCompModel
    decreases c, 1int,
{
    TreeCompModel {
        name: c.name@,
        params: params_model(c.params@),
        children: tobjs_model(c.children@),
    }
}

pub open spec fn tobjs_model(s: Seq<TreeObject>) -> Seq<TreeObjModel>
    decreases s, 0int,
{
    if s.len() == 0 {
        Seq::empty()
    } else {
        seq![tobj_model(s[0])] + tobjs_model(s.skip(1))
    }
}

pub open spec fn tobj_model(o: TreeObject) -> TreeObjModel
    decreases o, 2int,
{
    match o {
        TreeObject::Component(c) => TreeObjModel::Component(tcomp_model(c)),
        TreeObject::Property(p) => TreeObjModel::Property(tprop_model(p)),
    }
}

pub proof fn lemma_tobjs_model_len(s: Seq<TreeObject>)
    ensures
        tobjs_model(s).len() == s.len(),
    decreases s.len(),
{
    if s.len() > 0 {
        lemma_tobjs_model_len(s.skip(1));
    }
}

pub proof fn lemma_tobjs_model_index(s: Seq<TreeObject>, k: int)
    requires
        0 <= k < s.len(),
    ensures
        tobjs_model(s).len() == s.len(),
        tobjs_model(s)[k] == tobj_model(s[k]),
    decreases k,
{
    lemma_tobjs_model_len(s);
    if k > 0 {
        lemma_tobjs_model_index(s.skip(1), k - 1);
        lemma_tobjs_model_len(s.skip(1));
        assert(s.skip(1)[k - 1] == s[k]);
    }
}

pub proof fn lemma_tobjs_model_push(s: Seq<TreeObject>, x: TreeObject)
    ensures
        tobjs_model(s.push(x)) == tobjs_model(s).push(tobj_model(x)),
    decreases s.len(),
{
    if s.len() == 0 {
        reveal_with_fuel(tobjs_model, 2);
        assert(s.push(x).skip(1) =~= Seq::<TreeObject>::empty());
        assert(s.push(x)[0] == x);
        assert(tobjs_model(s.push(x)) =~= tobjs_model(s).push(tobj_model(x)));
    } else {
        assert(s.push(x).skip(1) =~= s.skip(1).push(x));
        lemma_tobjs_model_push(s.skip(1), x);
        assert(s.push(x)[0] == s[0]);
        assert(tobjs_model(s.push(x)) == seq![tobj_model(s[0])] + tobjs_model(s.skip(1).push(x)));
        assert(seq![tobj_model(s[0])] + tobjs_model(s.skip(1)).push(tobj_model(x)) =~= (seq![
            tobj_model(s[0]),
        ] + tobjs_model(s.skip(1))).push(tobj_model(x)));
    }
}

pub proof fn lemma_tobjs_model_remove(s: Seq<TreeObject>, i: int)
    requires
        0 <= i < s.len(),
    ensures
        tobjs_model(s.remove(i)) == tobjs_model(s).remove(i),
    decreases i,
{
    lemma_tobjs_model_len(s);
    if i == 0 {
        assert(s.remove(0) =~= s.skip(1));
        assert(tobjs_model(s).remove(0) =~= tobjs_model(s.skip(1)));
    } else {
        assert(s.remove(i)[0] == s[0]);
        assert(s.remove(i).skip(1) =~= s.skip(1).remove(i - 1));
        lemma_tobjs_model_remove(s.skip(1), i - 1);
        lemma_tobjs_model_len(s.remove(i));
        assert(tobjs_model(s.remove(i)) == seq![tobj_model(s[0])] + tobjs_model(
            s.skip(1).remove(i - 1),
        ));
        assert(seq![tobj_model(s[0])] + tobjs_model(s.skip(1)).remove(i - 1) =~= tobjs_model(
            s,
        ).remove(i));
    }
}

/// The name a member answers to.
pub open spec fn tobj_name(o: TreeObjModel) -> Seq<char> {
    match o {
        TreeObjModel::Component(c) => c.name,
        TreeObjModel::Property(p) => p.name,
    }
}

/// Index of the first component member with the given name, or the count.
pub open spec fn tfind_comp(children: Seq<TreeObjModel>, name: Seq<char>) -> nat
    decreases children.len(),
{
    if children.len() == 0 {
        0
    } else if children[0] is Component && tobj_name(children[0]) == name {
        0
    } else {
        1 + tfind_comp(children.skip(1), name)
    }
}

/// Index of the first property member with the given name, or the count.
pub open spec fn tfind_prop(children: Seq<TreeObjModel>, name: Seq<char>) -> nat
    decreases children.len(),
{
    if children.len() == 0 {
        0
    } else if children[0] is Property && tobj_name(children[0]) == name {
        0
    } else {
        1 + tfind_prop(children.skip(1), name)
    }
}

proof fn lemma_tfind_comp_at(children: Seq<TreeObjModel>, name: Seq<char>, k: int)
    requires
        0 <= k <= children.len(),
        forall|j: int|
            0 <= j < k ==> !((#[trigger] children[j]) is Component && tobj_name(children[j])
                == name),
        k == children.len() || (children[k] is Component && tobj_name(children[k]) == name),
    ensures
        tfind_comp(children, name) == k,
    decreases k,
{
    if children.len() == 0 || k == 0 {
    } else {
        assert(forall|j: int|
            0 <= j < k - 1 ==> #[trigger] children.skip(1)[j] == children[j + 1]);
        lemma_tfind_comp_at(children.skip(1), name, k - 1);
    }
}

proof fn lemma_tfind_prop_at(children: Seq<TreeObjModel>, name: Seq<char>, k: int)
    requires
        0 <= k <= children.len(),
        forall|j: int|
            0 <= j < k ==> !((#[trigger] children[j]) is Property && tobj_name(children[j])
                == name),
        k == children.len() || (children[k] is Property && tobj_name(children[k]) == name),
    ensures
        tfind_prop(children, name) == k,
    decreases k,
{
    if children.len() == 0 || k == 0 {
    } else {
        assert(forall|j: int|
            0 <= j < k - 1 ==> #[trigger] children.skip(1)[j] == children[j + 1]);
        lemma_tfind_prop_at(children.skip(1), name, k - 1);
    }
}

impl TreeObject {
    /// The component inside; only for members known to be components.
    pub fn expect_component(&self) -> (r: &TreeComponent)
        requires
            self is Component,
        ensures
            *self == TreeObject::Component(*r),
    {
        match self {
            TreeObject::Component(comp) => comp,
            TreeObject::Property(_) => {
                proof {
                    assert(false);
                }
                unreached()
            },
        }
    }

    /// The property inside; only for members known to be properties.
    pub fn expect_property(&self) -> (r: &TreeProperty)
        requires
            self is Property,
        ensures
            *self == TreeObject::Property(*r),
    {
        match self {
            TreeObject::Property(prop) => prop,
            TreeObject::Component(_) => {
                proof {
                    assert(false);
                }
                unreached()
            },
        }
    }

    /// The member's name.
    pub fn name(&self) -> (r: &str)
        ensures
            r@ == tobj_name(tobj_model(*self)),
    {
        match self {
            TreeObject::Component(comp) => comp.name.as_str(),
            TreeObject::Property(prop) => prop.name.as_str(),
        }
    }

    /// Whether this member is a component.
    pub fn is_component(&self) -> (r: bool)
        ensures
            r == (self is Component),
    {
        matches!(self, TreeObject::Component(_))
    }

    /// Whether this member is a property.
    pub fn is_property(&self) -> (r: bool)
        ensures
            r == (self is Property),
    {
        matches!(self, TreeObject::Property(_))
    }
}

impl TreeComponent {
    /// The model of this component.
    pub open spec fn model(&self) -> TreeCompModel {
        tcomp_model(*self)
    }

    /// Index of the first component member with the given name.
    pub fn find_component_index(&self, name: &str) -> (r: Option<usize>)
        ensures
            match r {
                Some(i) => i as nat == tfind_comp(self.model().children, name@) && i
                    < self.children@.len() && self.children@[i as int] is Component
                    && self.model().children[i as int] is Component && tobj_name(
                    self.model().children[i as int],
                ) == name@,
                None => tfind_comp(self.model().children, name@) == self.children@.len(),
            },
    {
        let ghost cm = tobjs_model(self.children@);
        proof {
            lemma_tobjs_model_len(self.children@);
        }
        let mut i: usize = 0;
        while i < self.children.len()
            invariant
                i <= self.children@.len(),
                cm == tobjs_model(self.children@),
                cm.len() == self.children@.len(),
                forall|j: int|
                    0 <= j < i ==> !((#[trigger] cm[j]) is Component && tobj_name(cm[j]) == name@),
            decreases self.children@.len() - i,
        {
            proof {
                lemma_tobjs_model_index(self.children@, i as int);
            }
            let child = &self.children[i];
            if child.is_component() && str_eq(child.name(), name) {
                proof {
                    assert(cm[i as int] is Component && tobj_name(cm[i as int]) == name@);
                    lemma_tfind_comp_at(cm, name@, i as int);
                }
                return Some(i);
            }
            i = i + 1;
        }
        proof {
            lemma_tfind_comp_at(cm, name@, i as int);
        }
        None
    }

    /// Index of the first property member with the given name.
    pub fn find_property_index(&self, name: &str) -> (r: Option<usize>)
        ensures
            match r {
                Some(i) => i as nat == tfind_prop(self.model().children, name@) && i
                    < self.children@.len() && self.children@[i as int] is Property
                    && self.model().children[i as int] is Property && tobj_name(
                    self.model().children[i as int],
                ) == name@,
                None => tfind_prop(self.model().children, name@) == self.children@.len(),
            },
    {
        let ghost cm = tobjs_model(self.children@);
        proof {
            lemma_tobjs_model_len(self.children@);
        }
        let mut i: usize = 0;
        while i < self.children.len()
            invariant
                i <= self.children@.len(),
                cm == tobjs_model(self.children@),
                cm.len() == self.children@.len(),
                forall|j: int|
                    0 <= j < i ==> !((#[trigger] cm[j]) is Property && tobj_name(cm[j]) == name@),
            decreases self.children@.len() - i,
        {
            proof {
                lemma_tobjs_model_index(self.children@, i as int);
            }
            let child = &self.children[i];
            if child.is_property() && str_eq(child.name(), name) {
                proof {
                    assert(cm[i as int] is Property && tobj_name(cm[i as int]) == name@);
                    lemma_tfind_prop_at(cm, name@, i as int);
                }
                return Some(i);
            }
            i = i + 1;
        }
        proof {
            lemma_tfind_prop_at(cm, name@, i as int);
        }
        None
    }

    /// The first component member with the given name.
    pub fn find_component(&self, name: &str) -> (r: Option<&TreeComponent>)
        ensures
            match r {
                Some(c) => tfind_comp(self.model().children, name@) < self.model().children.len()
                    && self.model().children[tfind_comp(self.model().children, name@) as int]
                    == TreeObjModel::Component(tcomp_model(*c)),
                None => tfind_comp(self.model().children, name@) == self.children@.len(),
            },
    {
        match self.find_component_index(name) {
            Some(i) => {
                proof {
                    lemma_tobjs_model_index(self.children@, i as int);
                }
                Some(self.children[i].expect_component())
            },
            None => None,
        }
    }

    /// The first property member with the given name.
    pub fn find_property(&self, name: &str) -> (r: Option<&TreeProperty>)
        ensures
            match r {
                Some(p) => tfind_prop(self.model().children, name@) < self.model().children.len()
                    && self.model().children[tfind_prop(self.model().children, name@) as int]
                    == TreeObjModel::Property(tprop_model(*p)),
                None => tfind_prop(self.model().children, name@) == self.children@.len(),
            },
    {
        match self.find_property_index(name) {
            Some(i) => {
                proof {
                    lemma_tobjs_model_index(self.children@, i as int);
                }
                Some(self.children[i].expect_property())
            },
            None => None,
        }
    }

    /// Takes the first component member with the given name out.
    pub fn pop_component(&mut self, name: &str) -> (r: Option<TreeComponent>)
        ensures
            match r {
                Some(c) => tfind_comp(old(self).model().children, name@) < old(self).model().children.len() && old(self).model().children[tfind_comp(
                    old(self).model().children,
                    name@,
                ) as int] == TreeObjModel::Component(tcomp_model(c)) && final(self).model().children == old(self).model().children.remove(
                    tfind_comp(old(self).model().children, name@) as int,
                ) && final(self).model().name == old(self).model().name && final(self).model().params == old(self).model().params,
                None => tfind_comp(old(self).model().children, name@) == old(self).children@.len() && *final(self) == *old(self),
            },
    {
        let i = match self.find_component_index(name) {
            Some(i) => i,
            None => {
                return None;
            },
        };
        proof {
            lemma_tobjs_model_index(self.children@, i as int);
        }
        let ghost oldch = self.children@;
        let comp = self.children.remove(i);
        proof {
            lemma_tobjs_model_remove(oldch, i as int);
        }
        match comp {
            TreeObject::Component(c) => Some(c),
            TreeObject::Property(_) => {
                proof {
                    assert(false);
                }
                None
            },
        }
    }

    /// Takes the first property member with the given name out.
    pub fn pop_property(&mut self, name: &str) -> (r: Option<TreeProperty>)
        ensures
            match r {
                Some(p) => tfind_prop(old(self).model().children, name@) < old(self).model().children.len() && old(self).model().children[tfind_prop(
                    old(self).model().children,
                    name@,
                ) as int] == TreeObjModel::Property(tprop_model(p)) && final(self).model().children == old(self).model().children.remove(
                    tfind_prop(old(self).model().children, name@) as int,
                ) && final(self).model().name == old(self).model().name && final(self).model().params == old(self).model().params,
                None => tfind_prop(old(self).model().children, name@) == old(self).children@.len() && *final(self) == *old(self),
            },
    {
        let i = match self.find_property_index(name) {
            Some(i) => i,
            None => {
                return None;
            },
        };
        proof {
            lemma_tobjs_model_index(self.children@, i as int);
        }
        let ghost oldch = self.children@;
        let prop = self.children.remove(i);
        proof {
            lemma_tobjs_model_remove(oldch, i as int);
        }
        match prop {
            TreeObject::Property(p) => Some(p),
            TreeObject::Component(_) => {
                proof {
                    assert(false);
                }
                None
            },
        }
    }

    /// Takes the first property member with the given name out and hands
    /// back its value, or the empty string where there is none.
    pub fn pop_property_value_or_empty(&mut self, name: &str) -> (r: String)
        ensures
            (tfind_prop(old(self).model().children, name@) < old(self).model().children.len()
                ==> final(self).model().children == old(self).model().children.remove(
                tfind_prop(old(self).model().children, name@) as int,
            ) && (old(self).model().children[tfind_prop(old(self).model().children, name@) as int]
                matches TreeObjModel::Property(p) && p.value == r@)),
            (tfind_prop(old(self).model().children, name@) == old(self).children@.len() ==> *final(self) == *old(self) && r@ == Seq::<char>::empty()),
            final(self).model().name == old(self).model().name,
            final(self).model().params == old(self).model().params,
    {
        proof {
            lemma_tobjs_model_len(old(self).children@);
        }
        if let Some(prop) = self.pop_property(name) {
            return prop.value;
        }
        String::new()
    }
}


impl TreeComponent {
    /// The first property member's value under the given name.
    pub fn get_property_value(&self, name: &str) -> (r: Option<&str>)
        ensures
            match r {
                Some(v) => tfind_prop(self.model().children, name@) < self.model().children.len()
                    && (self.model().children[tfind_prop(self.model().children, name@) as int]
                    matches TreeObjModel::Property(p) && p.value == v@),
                None => tfind_prop(self.model().children, name@) == self.children@.len(),
            },
    {
        match self.find_property(name) {
            Some(p) => Some(p.value.as_str()),
            None => None,
        }
    }

    /// Looks first at a guessed index, then scans from the start.
    pub fn find_component_with_guess(&self, name: &str, guess: usize) -> (r: Option<
        &TreeComponent,
    >)
        ensures
            match r {
                Some(c) => comp_at_or_first(self.model().children, name@, guess as int) == Some(
                    tcomp_model(*c),
                ),
                None => comp_at_or_first(self.model().children, name@, guess as int) is None,
            },
    {
        proof {
            lemma_tobjs_model_len(self.children@);
        }
        if guess < self.children.len() {
            proof {
                lemma_tobjs_model_index(self.children@, guess as int);
            }
            let child = &self.children[guess];
            if child.is_component() && str_eq(child.name(), name) {
                return Some(child.expect_component());
            }
        }
        match self.find_component(name) {
            Some(c) => Some(c),
            None => None,
        }
    }
}

/// The component a guessed lookup answers: the member at the guess when
/// it is a component of that name, else the first such member.
pub open spec fn comp_at_or_first(
    children: Seq<TreeObjModel>,
    name: Seq<char>,
    guess: int,
) -> Option<TreeCompModel> {
    if 0 <= guess < children.len() && children[guess] is Component && tobj_name(children[guess])
        == name {
        match children[guess] {
            TreeObjModel::Component(c) => Some(c),
            TreeObjModel::Property(_) => None,
        }
    } else if tfind_comp(children, name) < children.len() {
        match children[tfind_comp(children, name) as int] {
            TreeObjModel::Component(c) => Some(c),
            TreeObjModel::Property(_) => None,
        }
    } else {
        None
    }
}

} // verus!
