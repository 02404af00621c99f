//! A lossless-but-simple calendar tree: components with named children,
//! properties as plain name/value pairs.  The todo view over parsed
//! REPORT entries reads through this tree.

use vstd::prelude::*;

verus! {

use crate::strutil::str_eq;

/// A component or a property.
#[derive(Debug)]
pub enum CalendarObject {
    Component(CalendarComponent),
    Property(CalendarProperty),
}

/// A component: a name and its members in document order.
#[derive(Debug)]
pub struct CalendarComponent {
    pub name: String,
    pub children: Vec<CalendarObject>,
}

/// A property: a name and its raw value.
#[derive(Clone, Debug)]
pub struct CalendarProperty {
    pub name: String,
    pub value: String,
}

impl CalendarObject {
    /// The component inside; only for members known to be components.
    pub fn expect_component(&self) -> (r: &CalendarComponent)
        requires
            self is Component,
        ensures
            *self == CalendarObject::Component(*r),
    {
        match self {
            CalendarObject::Component(comp) => comp,
            CalendarObject::Property(_) => {
                proof {
                    assert(false);
                }
                unreached()
            },
        }
    }

    /// The property inside; only for members known to be properties.
    pub fn expect_property(&self) -> (r: &CalendarProperty)
        requires
            self is Property,
        ensures
            *self == CalendarObject::Property(*r),
    {
        match self {
            CalendarObject::Property(prop) => prop,
            CalendarObject::Component(_) => {
                proof {
                    assert(false);
                }
                unreached()
            },
        }
    }

    /// The member's name.
    pub fn name(&self) -> (r: &str)
        ensures
            r@ == obj_cname(*self),
    {
        match self {
            CalendarObject::Component(comp) => comp.name.as_str(),
            CalendarObject::Property(prop) => prop.name.as_str(),
        }
    }

    /// Whether this member is a component.
    pub fn is_component(&self) -> (r: bool)
        ensures
            r == (self is Component),
    {
        matches!(self, CalendarObject::Component(_))
    }

    /// Whether this member is a property.
    pub fn is_property(&self) -> (r: bool)
        ensures
            r == (self is Property),
    {
        matches!(self, CalendarObject::Property(_))
    }

    /// Renders the member as an indented listing, for inspection.
    pub fn render(&self) -> (r: String)
        decreases *self,
    {
        self.fmt_level(0)
    }

    /// Renders the member at the given indentation depth.
    pub fn fmt_level(&self, level: usize) -> (r: String)
        decreases *self, 1int,
    {
        let mut out = String::new();
        let mut t: usize = 0;
        while t < level
            decreases level - t,
        {
            out.append("  ");
            t = t + 1;
        }
        match self {
            CalendarObject::Component(b) => {
                out.append(b.name.as_str());
                out.append(" [\n");
                let sub = fmt_children(&b.children, level);
                out.append(sub.as_str());
                let mut t2: usize = 0;
                while t2 < level
                    decreases level - t2,
                {
                    out.append("  ");
                    t2 = t2 + 1;
                }
                out.append("]");
            },
            CalendarObject::Property(p) => {
                out.append(p.name.as_str());
                out.append(" = \"");
                out.append(p.value.as_str());
                out.append("\",");
            },
        }
        out
    }
}

/// Renders a member list, one per line, one level deeper.
fn fmt_children(v: &Vec<CalendarObject>, level: usize) -> (r: String)
    decreases *v, 0int,
{
    let mut out = String::new();
    let lv = if level < usize::MAX {
        level + 1
    } else {
        level
    };
    let mut k: usize = 0;
    while k < v.len()
        decreases v@.len() - k,
    {
        let sub = v[k].fmt_level(lv);
        out.append(sub.as_str());
        out.append("\n");
        k = k + 1;
    }
    out
}

/// The name a member answers to.
pub open spec fn obj_cname(o: CalendarObject) -> Seq<char> {
    match o {
        CalendarObject::Component(c) => c.name@,
        CalendarObject::Property(p) => p.name@,
    }
}

/// Index of the first component child with the given name, or the count.
pub open spec fn find_comp_index(children: Seq<CalendarObject>, name: Seq<char>) -> nat
    decreases children.len(),
{
    if children.len() == 0 {
        0
    } else if children[0] is Component && obj_cname(children[0]) == name {
        0
    } else {
        1 + find_comp_index(children.skip(1), name)
    }
}

/// Index of the first property child with the given name, or the count.
pub open spec fn find_prop_index(children: Seq<CalendarObject>, name: Seq<char>) -> nat
    decreases children.len(),
{
    if children.len() == 0 {
        0
    } else if children[0] is Property && obj_cname(children[0]) == name {
        0
    } else {
        1 + find_prop_index(children.skip(1), name)
    }
}

proof fn lemma_find_comp_at(children: Seq<CalendarObject>, name: Seq<char>, k: int)
    requires
        0 <= k <= children.len(),
        forall|j: int|
            0 <= j < k ==> !((#[trigger] children[j]) is Component && obj_cname(children[j])
                == name),
        k == children.len() || (children[k] is Component && obj_cname(children[k]) == name),
    ensures
        find_comp_index(children, name) == k,
    decreases k,
{
    if children.len() == 0 || k == 0 {
    } else {
        assert(forall|j: int|
            0 <= j < k - 1 ==> #[trigger] children.skip(1)[j] == children[j + 1]);
        lemma_find_comp_at(children.skip(1), name, k - 1);
    }
}

proof fn lemma_find_prop_at(children: Seq<CalendarObject>, name: Seq<char>, k: int)
    requires
        0 <= k <= children.len(),
        forall|j: int|
            0 <= j < k ==> !((#[trigger] children[j]) is Property && obj_cname(children[j])
                == name),
        k == children.len() || (children[k] is Property && obj_cname(children[k]) == name),
    ensures
        find_prop_index(children, name) == k,
    decreases k,
{
    if children.len() == 0 || k == 0 {
    } else {
        assert(forall|j: int|
            0 <= j < k - 1 ==> #[trigger] children.skip(1)[j] == children[j + 1]);
        lemma_find_prop_at(children.skip(1), name, k - 1);
    }
}

impl CalendarComponent {
    /// Looks first at a guessed index, then scans from the start.
    pub fn find_component_index_with_guess(&self, name: &str, guess: usize) -> (r: Option<usize>)
        ensures
            match r {
                Some(i) => i < self.children@.len() && self.children@[i as int] is Component
                    && obj_cname(self.children@[i as int]) == name@ && (i as nat == find_comp_index(
                    self.children@,
                    name@,
                ) || i == guess),
                None => find_comp_index(self.children@, name@) == self.children@.len(),
            },
    {
        if guess < self.children.len() {
            let child = &self.children[guess];
            if child.is_component() && str_eq(child.name(), name) {
                return Some(guess);
            }
        }
        self.find_component_index(name)
    }

    /// Index of the first component child with the given name.
    pub fn find_component_index(&self, name: &str) -> (r: Option<usize>)
        ensures
            match r {
                Some(i) => i as nat == find_comp_index(self.children@, name@) && i
                    < self.children@.len() && self.children@[i as int] is Component && obj_cname(
                    self.children@[i as int],
                ) == name@,
                None => find_comp_index(self.children@, name@) == self.children@.len(),
            },
    {
        let mut i: usize = 0;
        while i < self.children.len()
            invariant
                i <= self.children@.len(),
                forall|j: int|
                    0 <= j < i ==> !((#[trigger] self.children@[j]) is Component && obj_cname(
                        self.children@[j],
                    ) == name@),
            decreases self.children@.len() - i,
        {
            let child = &self.children[i];
            if child.is_component() && str_eq(child.name(), name) {
                proof {
                    lemma_find_comp_at(self.children@, name@, i as int);
                }
                return Some(i);
            }
            i = i + 1;
        }
        proof {
            lemma_find_comp_at(self.children@, name@, i as int);
        }
        None
    }

    /// The component found by `find_component_index_with_guess`.
    pub fn find_component_with_guess(&self, name: &str, guess: usize) -> (r: Option<
        &CalendarComponent,
    >)
        ensures
            match r {
                Some(c) => c.name@ == name@,
                None => find_comp_index(self.children@, name@) == self.children@.len(),
            },
    {
        match self.find_component_index_with_guess(name, guess) {
            Some(i) => Some(self.children[i].expect_component()),
            None => None,
        }
    }

    /// The first component child with the given name.
    pub fn find_component(&self, name: &str) -> (r: Option<&CalendarComponent>)
        ensures
            match r {
                Some(c) => find_comp_index(self.children@, name@) < self.children@.len()
                    && self.children@[find_comp_index(self.children@, name@) as int]
                    == CalendarObject::Component(*c),
                None => find_comp_index(self.children@, name@) == self.children@.len(),
            },
    {
        match self.find_component_index(name) {
            Some(i) => Some(self.children[i].expect_component()),
            None => None,
        }
    }

    /// The first property child with the given name.
    pub fn find_property(&self, name: &str) -> (r: Option<&CalendarProperty>)
        ensures
            match r {
                Some(p) => find_prop_index(self.children@, name@) < self.children@.len()
                    && self.children@[find_prop_index(self.children@, name@) as int]
                    == CalendarObject::Property(*p),
                None => find_prop_index(self.children@, name@) == self.children@.len(),
            },
    {
        let mut i: usize = 0;
        while i < self.children.len()
            invariant
                i <= self.children@.len(),
                forall|j: int|
                    0 <= j < i ==> !((#[trigger] self.children@[j]) is Property && obj_cname(
                        self.children@[j],
                    ) == name@),
            decreases self.children@.len() - i,
        {
            let child = &self.children[i];
            if child.is_property() && str_eq(child.name(), name) {
                proof {
                    lemma_find_prop_at(self.children@, name@, i as int);
                }
                return Some(child.expect_property());
            }
            i = i + 1;
        }
        proof {
            lemma_find_prop_at(self.children@, name@, i as int);
        }
        None
    }

    /// The value of the first property child with the given name.
    pub fn get_property_value(&self, name: &str) -> (r: Option<&str>)
        ensures
            match r {
                Some(v) => find_prop_index(self.children@, name@) < self.children@.len()
                    && obj_cvalue(self.children@[find_prop_index(self.children@, name@) as int])
                    == v@,
                None => find_prop_index(self.children@, name@) == self.children@.len(),
            },
    {
        match self.find_property(name) {
            Some(p) => Some(p.value.as_str()),
            None => None,
        }
    }

    /// The value of the first property child with the given name, for
    /// date-valued properties (the raw text is handed out unparsed).
    pub fn get_property_value_date(&self, name: &str) -> (r: Option<&str>)
        ensures
            match r {
                Some(v) => find_prop_index(self.children@, name@) < self.children@.len()
                    && obj_cvalue(self.children@[find_prop_index(self.children@, name@) as int])
                    == v@,
                None => find_prop_index(self.children@, name@) == self.children@.len(),
            },
    {
        self.get_property_value(name)
    }
}

/// The raw value a property member carries (components carry none).
pub open spec fn obj_cvalue(o: CalendarObject) -> Seq<char> {
    match o {
        CalendarObject::Property(p) => p.value@,
        CalendarObject::Component(_) => Seq::empty(),
    }
}

} // verus!
