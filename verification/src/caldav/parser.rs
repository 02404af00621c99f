//! Walking WebDAV/CalDAV XML responses: a plain XML tree, dotted-path
//! child lookup, and URL path helpers.

use vstd::prelude::*;

verus! {

use crate::ical::values::base::Param;
use crate::strutil::{find_char, find_char_x, lemma_find_char_props, subvec, str_to_chars, chars_to_string};

/// A plain XML element: name, namespace, attributes, gathered text, and
/// child elements in document order.  Attribute namespaces are not kept.
pub struct XmlElem {
    pub name: String,
    pub namespace: String,
    pub attrs: Vec<Param>,
    pub text: String,
    pub children: Vec<XmlElem>,
}

/// Spec view of an XML element.
pub struct XmlModel {
    pub name: Seq<char>,
    pub namespace: Seq<char>,
    pub attrs: Seq<(Seq<char>, Seq<char>)>,
    pub text: Seq<char>,
    pub children: Seq<XmlModel>,
}

pub open spec fn xml_model(e: XmlElem) -> XmlModel
    decreases e, 1int,
{
    XmlModel {
        name: e.name@,
        namespace: e.namespace@,
        attrs: crate::ical::values::base::params_model(e.attrs@),
        text: e.text@,
        children: xmls_model(e.children@),
    }
}

pub open spec fn xmls_model(s: Seq<XmlElem>) -> Seq<XmlModel>
    decreases s, 0int,
{
    if s.len() == 0 {
        Seq::empty()
    } else {
        seq![xml_model(s[0])] + xmls_model(s.skip(1))
    }
}

pub proof fn lemma_xmls_model_index(s: Seq<XmlElem>, k: int)
    requires
        0 <= k < s.len(),
    ensures
        xmls_model(s).len() == s.len(),
        xmls_model(s)[k] == xml_model(s[k]),
    decreases k,
{
    lemma_xmls_model_len(s);
    if k > 0 {
        lemma_xmls_model_index(s.skip(1), k - 1);
        lemma_xmls_model_len(s.skip(1));
        assert(s.skip(1)[k - 1] == s[k]);
    }
}

pub proof fn lemma_xmls_model_len(s: Seq<XmlElem>)
    ensures
        xmls_model(s).len() == s.len(),
    decreases s.len(),
{
    if s.len() > 0 {
        lemma_xmls_model_len(s.skip(1));
    }
}

/// An opaque box around the `minidom` crate's parsed element, so the
/// conversion below can recurse over it; the library never looks inside.
#[verifier::external_body]
struct MiniNode {
    inner: minidom::Element,
}

/// Relies on `minidom::Element`'s `FromStr`: parses one XML document, or
/// answers nothing for text that is not well-formed namespaced XML.
#[verifier::external_body]
pub fn xml_parse(text: &str) -> (r: Option<XmlElem>)
{
    match text.parse::<minidom::Element>() {
        Ok(e) => Some(xml_to_tree(&MiniNode { inner: e })),
        Err(_) => None,
    }
}

/// Relies on `minidom::Element`'s accessors `name`, `ns`, `attrs`, `text`
/// and `children`: converts the parsed element tree node for node into
/// the library's plain tree.  Attribute namespaces are dropped.
#[verifier::external_body]
fn xml_to_tree(e: &MiniNode) -> XmlElem {
    XmlElem {
        name: e.inner.name().to_string(),
        namespace: e.inner.ns().to_string(),
        attrs: e.inner.attrs().iter().map(
            |((_ns, k), v)| Param { name: k.to_string(), value: v.to_string() },
        ).collect(),
        text: e.inner.text(),
        children: e.inner.children().map(
            |c| xml_to_tree(&MiniNode { inner: c.clone() }),
        ).collect(),
    }
}

/// The `DAV:` namespace.
pub fn ns_d() -> (r: &'static str)
    ensures
        r@ == "DAV:"@,
{
    "DAV:"
}

/// The CalDAV namespace.
pub fn ns_c() -> (r: &'static str)
    ensures
        r@ == "urn:ietf:params:xml:ns:caldav"@,
{
    "urn:ietf:params:xml:ns:caldav"
}

/// The calendarserver namespace.
pub fn ns_cs() -> (r: &'static str)
    ensures
        r@ == "http://calendarserver.org/ns/"@,
{
    "http://calendarserver.org/ns/"
}

/// The Apple iCal namespace.
pub fn ns_i() -> (r: &'static str)
    ensures
        r@ == "http://apple.com/ns/ical/"@,
{
    "http://apple.com/ns/ical/"
}

/// The namespace declarations every request body carries.
pub fn format_ns_attrs() -> (r: String)
    ensures
        r@
            == "xmlns:d=\"DAV:\" xmlns:c=\"urn:ietf:params:xml:ns:caldav\" xmlns:cs=\"http://calendarserver.org/ns/\" xmlns:i=\"http://apple.com/ns/ical/\""@,
{
    let r =
        "xmlns:d=\"DAV:\" xmlns:c=\"urn:ietf:params:xml:ns:caldav\" xmlns:cs=\"http://calendarserver.org/ns/\" xmlns:i=\"http://apple.com/ns/ical/\"";
    r.to_owned()
}

/// The first child with the given local name and namespace.
pub open spec fn sp_get_child(m: XmlModel, name: Seq<char>, ns: Seq<char>) -> Option<XmlModel>
    decreases m.children.len(),
{
    sp_get_child_from(m.children, name, ns)
}

pub open spec fn sp_get_child_from(
    children: Seq<XmlModel>,
    name: Seq<char>,
    ns: Seq<char>,
) -> Option<XmlModel>
    decreases children.len(),
{
    if children.len() == 0 {
        None
    } else if children[0].name == name && children[0].namespace == ns {
        Some(children[0])
    } else {
        sp_get_child_from(children.skip(1), name, ns)
    }
}

impl XmlElem {
    /// Finds the first child with the given local name and namespace.
    pub fn get_child(&self, name: &str, ns: &str) -> (r: Option<&XmlElem>)
        ensures
            match r {
                Some(c) => sp_get_child(xml_model(*self), name@, ns@) == Some(xml_model(*c)),
                None => sp_get_child(xml_model(*self), name@, ns@) is None,
            },
    {
        let ghost cm = xmls_model(self.children@);
        let mut k: usize = 0;
        proof {
            lemma_xmls_model_len(self.children@);
            assert(cm.skip(0) =~= cm);
        }
        while k < self.children.len()
            invariant
                k <= self.children@.len(),
                cm == xmls_model(self.children@),
                cm.len() == self.children@.len(),
                sp_get_child_from(cm, name@, ns@) == sp_get_child_from(
                    cm.skip(k as int),
                    name@,
                    ns@,
                ),
            decreases self.children@.len() - k,
        {
            proof {
                lemma_xmls_model_index(self.children@, k as int);
                assert(cm.skip(k as int)[0] == cm[k as int]);
                assert(cm.skip(k as int).skip(1) =~= cm.skip(k + 1));
            }
            let c = &self.children[k];
            if crate::strutil::str_eq(c.name.as_str(), name) && crate::strutil::str_eq(
                c.namespace.as_str(),
                ns,
            ) {
                return Some(c);
            }
            k = k + 1;
        }
        proof {
            assert(cm.skip(cm.len() as int) =~= Seq::<XmlModel>::empty());
        }
        None
    }

    /// The element's gathered text.
    pub fn get_text(&self) -> (r: &String)
        ensures
            r@ == xml_model(*self).text,
    {
        &self.text
    }

    /// The value of the named (un-namespaced) attribute, if present.
    pub fn attr(&self, name: &str) -> (r: Option<&String>)
        ensures
            match r {
                Some(v) => crate::ical::values::base::param_lookup(
                    xml_model(*self).attrs,
                    name@,
                ) == Some(v@),
                None => crate::ical::values::base::param_lookup(xml_model(*self).attrs, name@)
                    is None,
            },
    {
        let ghost am = crate::ical::values::base::params_model(self.attrs@);
        let mut i: usize = self.attrs.len();
        proof {
            assert(am.take(i as int) =~= am);
        }
        while i > 0
            invariant
                i <= self.attrs@.len(),
                am == crate::ical::values::base::params_model(self.attrs@),
                crate::ical::values::base::param_lookup(am, name@)
                    == crate::ical::values::base::param_lookup(am.take(i as int), name@),
            decreases i,
        {
            i = i - 1;
            proof {
                assert(am.take(i + 1).drop_last() =~= am.take(i as int));
                assert(am.take(i + 1).last() == (self.attrs@[i as int].name@,
                self.attrs@[i as int].value@));
            }
            if crate::strutil::str_eq(self.attrs[i].name.as_str(), name) {
                return Some(&self.attrs[i].value);
            }
        }
        proof {
            assert(am.take(0) =~= Seq::<(Seq<char>, Seq<char>)>::empty());
        }
        None
    }
}

/// The segments of a dotted path.
pub open spec fn split_dots(s: Seq<char>) -> Seq<Seq<char>>
    decreases s.len(),
{
    let i = find_char(s, '.');
    if i >= s.len() {
        seq![s]
    } else {
        seq![s.take(i as int)] + split_dots(s.skip(i + 1 as int))
    }
}

/// Follows a dotted child path from index `k` on, in one namespace.
pub open spec fn sp_follow(m: XmlModel, parts: Seq<Seq<char>>, k: int, ns: Seq<char>) -> Option<
    XmlModel,
>
    decreases parts.len() - k,
{
    if k < 0 || k >= parts.len() {
        Some(m)
    } else {
        match sp_get_child(m, parts[k], ns) {
            None => None,
            Some(c) => sp_follow(c, parts, k + 1, ns),
        }
    }
}

/// Walks a dotted child path (`a.b.c`) down the tree, all steps within
/// one namespace.
pub fn follow_tree<'a>(el: &'a XmlElem, tree: &str, namespace: &str) -> (r: Option<&'a XmlElem>)
    ensures
        match r {
            Some(c) => sp_follow(xml_model(*el), split_dots(tree@), 0, namespace@) == Some(
                xml_model(*c),
            ),
            None => sp_follow(xml_model(*el), split_dots(tree@), 0, namespace@) is None,
        },
{
    let cs = str_to_chars(tree);
    let ghost parts = split_dots(tree@);
    let mut cur: &XmlElem = el;
    let mut at: usize = 0;
    let mut k: usize = 0;
    let ghost total = parts.len();
    proof {
        lemma_split_dots_len(tree@);
        assert(cs@.skip(0) =~= cs@);
    }
    loop
        invariant
            at <= cs@.len(),
            k <= at,
            cs@ == tree@,
            parts == split_dots(tree@),
            k < parts.len(),
            split_dots(cs@.skip(at as int)) == parts.skip(k as int),
            sp_follow(xml_model(*el), parts, 0, namespace@) == sp_follow(
                xml_model(*cur),
                parts,
                k as int,
                namespace@,
            ),
        decreases parts.len() - k,
    {
        proof {
            assert(parts.skip(k as int)[0] == parts[k as int]);
        }
        let dot = find_char_x(&cs, at, '.');
        let ghost rest = cs@.skip(at as int);
        proof {
            lemma_find_char_props(rest, '.');
            assert(rest.take(find_char(rest, '.') as int) =~= cs@.subrange(at as int, dot as int));
        }
        let part = subvec(&cs, at, dot);
        let part_s = chars_to_string(&part);
        proof {
            assert(part_s@ == parts[k as int]);
        }
        let child = match cur.get_child(part_s.as_str(), namespace) {
            Some(c) => c,
            None => {
                proof {
                    assert(sp_follow(xml_model(*cur), parts, k as int, namespace@) is None);
                }
                return None;
            },
        };
        cur = child;
        if dot == cs.len() {
            proof {
                assert(k + 1 >= parts.len()) by {
                    assert(parts.skip(k as int).len() == 1);
                }
                assert(sp_follow(xml_model(*cur), parts, k + 1, namespace@) == Some(
                    xml_model(*cur),
                ));
            }
            return Some(cur);
        }
        proof {
            assert(rest.skip(find_char(rest, '.') + 1 as int) =~= cs@.skip(dot + 1));
            assert(parts.skip(k as int).len() > 1) by {
                assert(split_dots(cs@.skip(dot + 1)).len() >= 1) by {
                    lemma_split_dots_len(cs@.skip(dot + 1));
                }
            }
        }
        proof {
            assert(split_dots(cs@.skip(dot + 1)) =~= parts.skip(k + 1)) by {
                assert(split_dots(cs@.skip(at as int)) == seq![
                    cs@.subrange(at as int, dot as int),
                ] + split_dots(cs@.skip(dot + 1)));
                assert(parts.skip(k as int).skip(1) =~= parts.skip(k + 1));
            }
        }
        at = dot + 1;
        k = k + 1;
    }
}

/// A dotted path always has at least one segment.
pub proof fn lemma_split_dots_len(s: Seq<char>)
    ensures
        split_dots(s).len() >= 1,
{
}

/// Strips every trailing occurrence of a character.
pub open spec fn trim_end_spec(s: Seq<char>, c: char) -> Seq<char>
    decreases s.len(),
{
    if s.len() > 0 && s.last() == c {
        trim_end_spec(s.drop_last(), c)
    } else {
        s
    }
}

/// Strips every leading occurrence of a character.
pub open spec fn trim_start_spec(s: Seq<char>, c: char) -> Seq<char>
    decreases s.len(),
{
    if s.len() > 0 && s[0] == c {
        trim_start_spec(s.skip(1), c)
    } else {
        s
    }
}

fn trim_end_slashes(cs: &Vec<char>) -> (r: usize)
    ensures
        r <= cs@.len(),
        cs@.take(r as int) == trim_end_spec(cs@, '/'),
{
    let mut r: usize = cs.len();
    proof {
        assert(cs@.take(cs@.len() as int) =~= cs@);
    }
    while r > 0
        invariant
            r <= cs@.len(),
            trim_end_spec(cs@, '/') == trim_end_spec(cs@.take(r as int), '/'),
        decreases r,
    {
        if cs[r - 1] != '/' {
            proof {
                assert(cs@.take(r as int).last() == cs@[r - 1]);
            }
            return r;
        }
        proof {
            assert(cs@.take(r as int).last() == cs@[r - 1]);
            assert(cs@.take(r as int).drop_last() =~= cs@.take(r - 1));
        }
        r = r - 1;
    }
    proof {
        assert(cs@.take(0) =~= Seq::<char>::empty());
    }
    0
}

fn trim_start_slashes(cs: &Vec<char>) -> (r: usize)
    ensures
        r <= cs@.len(),
        cs@.skip(r as int) == trim_start_spec(cs@, '/'),
{
    let mut r: usize = 0;
    proof {
        assert(cs@.skip(0) =~= cs@);
    }
    while r < cs.len()
        invariant
            r <= cs@.len(),
            trim_start_spec(cs@, '/') == trim_start_spec(cs@.skip(r as int), '/'),
        decreases cs@.len() - r,
    {
        if cs[r] != '/' {
            proof {
                assert(cs@.skip(r as int)[0] == cs@[r as int]);
            }
            return r;
        }
        proof {
            assert(cs@.skip(r as int)[0] == cs@[r as int]);
            assert(cs@.skip(r as int).skip(1) =~= cs@.skip(r + 1));
        }
        r = r + 1;
    }
    proof {
        assert(cs@.skip(r as int) =~= Seq::<char>::empty());
    }
    r
}

/// A base URL and a relative path joined with exactly one slash between.
pub open spec fn add_path_spec(url: Seq<char>, path: Seq<char>) -> Seq<char> {
    trim_end_spec(url, '/') + seq!['/'] + trim_start_spec(path, '/')
}

/// Joins a base URL and a relative path with exactly one slash between.
pub fn add_path(url: &str, path: &str) -> (r: String)
    ensures
        r@ == add_path_spec(url@, path@),
{
    let ucs = str_to_chars(url);
    let pcs = str_to_chars(path);
    let ue = trim_end_slashes(&ucs);
    let ps = trim_start_slashes(&pcs);
    let mut out = subvec(&ucs, 0, ue);
    out.push('/');
    let mut tail = subvec(&pcs, ps, pcs.len());
    out.append(&mut tail);
    proof {
        assert(ucs@.subrange(0, ue as int) =~= ucs@.take(ue as int));
        assert(pcs@.subrange(ps as int, pcs@.len() as int) =~= pcs@.skip(ps as int));
        assert(out@ =~= add_path_spec(url@, path@));
    }
    chars_to_string(&out)
}

/// The path segments of an absolute URL, as the `url` crate splits them;
/// nothing for text that is not an absolute URL or cannot carry a path.
/// This names the crate's parsing outcome; it depends on the text alone.
pub uninterp spec fn url_segments_of(s: Seq<char>) -> Option<Seq<Seq<char>>>;

/// The URL with its path replaced, as the `url` crate renders it; nothing
/// for unparsable text.  It depends on the two texts alone.
pub uninterp spec fn url_with_path_of(s: Seq<char>, path: Seq<char>) -> Option<Seq<char>>;

/// Relies on `url::Url::parse` and `url::Url::path_segments`.
#[verifier::external_body]
fn url_path_segments(url: &str) -> (r: Option<Vec<String>>)
    ensures
        match r {
            Some(v) => url_segments_of(url@) == Some(v@.map_values(|s: String| s@)),
            None => url_segments_of(url@) is None,
        },
{
    match url::Url::parse(url) {
        Ok(u) => Some(
            match u.path_segments() {
                Some(segs) => segs.map(|x| x.to_string()).collect(),
                None => Vec::new(),
            },
        ),
        Err(_) => None,
    }
}

/// Relies on `url::Url::parse`, `url::Url::set_path` and `url::Url::as_str`.
#[verifier::external_body]
fn url_set_path(url: &str, path: &str) -> (r: Option<String>)
    ensures
        match r {
            Some(v) => url_with_path_of(url@, path@) == Some(v@),
            None => url_with_path_of(url@, path@) is None,
        },
{
    match url::Url::parse(url) {
        Ok(mut u) => {
            u.set_path(path);
            Some(u.as_str().to_string())
        },
        Err(_) => None,
    }
}

/// The slash-joined path with the last segment dropped, or the root path.
pub open spec fn parent_path_spec(segs: Seq<Seq<char>>) -> Seq<char>
    decreases segs.len(),
{
    if segs.len() <= 1 {
        seq!['/']
    } else if segs.len() == 2 {
        segs[0]
    } else {
        segs[0] + seq!['/'] + parent_path_spec(segs.skip(1))
    }
}

/// What `go_back` answers: the URL one path segment up, under the `url`
/// crate's reading, or the slash-trimmed input where it cannot be parsed.
pub open spec fn go_back_spec(url: Seq<char>) -> Seq<char> {
    let t = trim_end_spec(url, '/');
    match url_segments_of(t) {
        None => t,
        Some(segs) => match url_with_path_of(t, parent_path_spec(segs)) {
            Some(r) => r,
            None => t,
        },
    }
}

/// Steps one path segment up from a URL.
pub fn go_back(url: &str) -> (r: String)
    ensures
        r@ == go_back_spec(url@),
{
    let cs = str_to_chars(url);
    let ue = trim_end_slashes(&cs);
    let tv = subvec(&cs, 0, ue);
    proof {
        assert(cs@.subrange(0, ue as int) =~= cs@.take(ue as int));
    }
    let trimmed = chars_to_string(&tv);
    let segs = match url_path_segments(trimmed.as_str()) {
        Some(segs) => segs,
        None => {
            return trimmed;
        },
    };
    let ghost sm = segs@.map_values(|s: String| s@);
    let mut path: Vec<char> = Vec::new();
    if segs.len() <= 1 {
        path.push('/');
        proof {
            assert(path@ =~= parent_path_spec(sm));
        }
    } else {
        let mut k: usize = 0;
        proof {
            assert(sm.skip(0) =~= sm);
        }
        while k < segs.len() - 2
            invariant
                k + 2 <= segs@.len(),
                segs@.len() >= 2,
                sm == segs@.map_values(|s: String| s@),
                sm.len() == segs@.len(),
                sm.len() >= 2,
                parent_path_spec(sm) =~= path@ + parent_path_spec(sm.skip(k as int)),
            decreases segs@.len() - k,
        {
            proof {
                assert(sm.skip(k as int)[0] == sm[k as int]);
                assert(sm.skip(k as int).skip(1) =~= sm.skip(k + 1));
            }
            let mut sv = str_to_chars(segs[k].as_str());
            path.append(&mut sv);
            path.push('/');
            k = k + 1;
        }
        proof {
            assert(sm.skip(k as int)[0] == sm[k as int]);
            assert(sm.skip(k as int).len() == 2);
        }
        let mut sv = str_to_chars(segs[k].as_str());
        path.append(&mut sv);
        proof {
            assert(path@ =~= parent_path_spec(sm));
        }
    }
    let path_s = chars_to_string(&path);
    match url_set_path(trimmed.as_str(), path_s.as_str()) {
        Some(r) => r,
        None => trimmed,
    }
}

} // verus!
