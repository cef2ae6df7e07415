//! A Document View: an owned tree of markup nodes holding exactly what the
//! extraction logic reads (tag names, `id` attributes, class lists, `href`
//! attributes, literal text fragments), together with the structural queries
//! the extractors need: first matching descendant, text fragments in document
//! order, and matching elements with their immediately following sibling.
use vstd::prelude::*;

verus! {

/// A markup element: its tag name, the attributes the extractors read,
/// and its child nodes in document order.
pub struct Elem {
    pub tag: String,
    pub id: Option<String>,
    pub classes: Vec<String>,
    pub href: Option<String>,
    pub children: Vec<MarkupNode>,
}

/// One node of the parsed page: an element or a literal text fragment.
pub enum MarkupNode {
    Element(Elem),
    Text(String),
}

/// A whole parsed page: its top-level nodes in document order.
pub struct Doc {
    pub roots: Vec<MarkupNode>,
}

/// A tag/id/class predicate on elements, as a structural query uses it.
pub struct ElemQuery {
    pub tag: String,
    pub id: Option<String>,
    pub class: Option<String>,
}

pub open spec fn opt_view(o: Option<String>) -> Option<Seq<char>> {
    match o {
        Some(s) => Some(s@),
        None => None,
    }
}

pub open spec fn spec_has_class(e: Elem, c: Seq<char>) -> bool {
    exists|k: int| 0 <= k < e.classes@.len() && e.classes@[k]@ == c
}

/// Whether an element matches a query: the tag must be equal, and the id and
/// class must be present on the element wherever the query names one.
pub open spec fn spec_elem_matches(
    e: Elem,
    tag: Seq<char>,
    id: Option<Seq<char>>,
    class: Option<Seq<char>>,
) -> bool {
    &&& e.tag@ == tag
    &&& (match id {
        Some(i) => e.id is Some && e.id->0@ == i,
        None => true,
    })
    &&& (match class {
        Some(c) => spec_has_class(e, c),
        None => true,
    })
}

/// The first element matching the query in the forest `s[i..]`, in document
/// order: a node is visited before its descendants, and descendants before
/// later siblings.
pub open spec fn spec_find_from(
    s: Seq<MarkupNode>,
    i: int,
    tag: Seq<char>,
    id: Option<Seq<char>>,
    class: Option<Seq<char>>,
) -> Option<Elem>
    decreases s, s.len() - i,
{
    if i < 0 || i >= s.len() {
        None
    } else {
        match spec_find_in_node(s[i], tag, id, class) {
            Some(e) => Some(e),
            None => spec_find_from(s, i + 1, tag, id, class),
        }
    }
}

pub open spec fn spec_find_in_node(
    n: MarkupNode,
    tag: Seq<char>,
    id: Option<Seq<char>>,
    class: Option<Seq<char>>,
) -> Option<Elem>
    decreases n, 0int,
{
    match n {
        MarkupNode::Text(_) => None,
        MarkupNode::Element(e) => if spec_elem_matches(e, tag, id, class) {
            Some(e)
        } else {
            spec_find_from(e.children@, 0, tag, id, class)
        },
    }
}

/// The literal text fragments of the forest `s[i..]`, in document order.
pub open spec fn spec_texts_from(s: Seq<MarkupNode>, i: int) -> Seq<Seq<char>>
    decreases s, s.len() - i,
{
    if i < 0 || i >= s.len() {
        Seq::empty()
    } else {
        spec_texts_in_node(s[i]) + spec_texts_from(s, i + 1)
    }
}

pub open spec fn spec_texts_in_node(n: MarkupNode) -> Seq<Seq<char>>
    decreases n, 0int,
{
    match n {
        MarkupNode::Text(t) => seq![t@],
        MarkupNode::Element(e) => spec_texts_from(e.children@, 0),
    }
}

/// The text fragments inside an element: those of its descendants.
pub open spec fn spec_elem_texts(e: Elem) -> Seq<Seq<char>> {
    spec_texts_from(e.children@, 0)
}

/// Every element of the forest `s[i..]` matching the query, in document
/// order, each paired with the node immediately following it as a sibling,
/// if there is one.
pub open spec fn spec_hits_from(
    s: Seq<MarkupNode>,
    i: int,
    tag: Seq<char>,
    id: Option<Seq<char>>,
    class: Option<Seq<char>>,
) -> Seq<(Elem, Option<MarkupNode>)>
    decreases s, s.len() - i,
{
    if i < 0 || i >= s.len() {
        Seq::empty()
    } else {
        let sib = if i + 1 < s.len() {
            Some(s[i + 1])
        } else {
            None
        };
        spec_hits_in_node(s[i], sib, tag, id, class) + spec_hits_from(s, i + 1, tag, id, class)
    }
}

pub open spec fn spec_hits_in_node(
    n: MarkupNode,
    sib: Option<MarkupNode>,
    tag: Seq<char>,
    id: Option<Seq<char>>,
    class: Option<Seq<char>>,
) -> Seq<(Elem, Option<MarkupNode>)>
    decreases n, 0int,
{
    match n {
        MarkupNode::Text(_) => Seq::empty(),
        MarkupNode::Element(e) => (if spec_elem_matches(e, tag, id, class) {
            seq![(e, sib)]
        } else {
            Seq::empty()
        }) + spec_hits_from(e.children@, 0, tag, id, class),
    }
}

fn str_eq_string(a: &String, b: &String) -> (r: bool)
    ensures
        r == (a@ == b@),
{
    a.eq(b)
}

pub fn has_class(e: &Elem, c: &String) -> (r: bool)
    ensures
        r == spec_has_class(*e, c@),
{
    let mut k: usize = 0;
    while k < e.classes.len()
        invariant
            k <= e.classes@.len(),
            forall|j: int| 0 <= j < k ==> e.classes@[j]@ != c@,
        decreases e.classes@.len() - k,
    {
        if str_eq_string(&e.classes[k], c) {
            assert(spec_has_class(*e, c@));
            return true;
        }
        k = k + 1;
    }
    false
}

pub fn elem_matches(e: &Elem, q: &ElemQuery) -> (r: bool)
    ensures
        r == spec_elem_matches(*e, q.tag@, opt_view(q.id), opt_view(q.class)),
{
    let tag_ok = str_eq_string(&e.tag, &q.tag);
    let id_ok = match &q.id {
        Some(want) => match &e.id {
            Some(have) => str_eq_string(have, want),
            None => false,
        },
        None => true,
    };
    let class_ok = match &q.class {
        Some(want) => has_class(e, want),
        None => true,
    };
    tag_ok && id_ok && class_ok
}

/// The first element matching the query among `nodes[i..]` and their
/// descendants, in document order.
pub fn find_from<'a>(nodes: &'a Vec<MarkupNode>, i: usize, q: &ElemQuery) -> (r: Option<&'a Elem>)
    ensures
        match r {
            Some(e) => spec_find_from(nodes@, i as int, q.tag@, opt_view(q.id), opt_view(q.class))
                == Some(*e),
            None => spec_find_from(nodes@, i as int, q.tag@, opt_view(q.id), opt_view(q.class))
                is None,
        },
    decreases nodes@, nodes@.len() - i,
{
    if i >= nodes.len() {
        None
    } else {
        match find_in_node(&nodes[i], q) {
            Some(e) => Some(e),
            None => find_from(nodes, i + 1, q),
        }
    }
}

pub fn find_in_node<'a>(n: &'a MarkupNode, q: &ElemQuery) -> (r: Option<&'a Elem>)
    ensures
        match r {
            Some(e) => spec_find_in_node(*n, q.tag@, opt_view(q.id), opt_view(q.class)) == Some(
                *e,
            ),
            None => spec_find_in_node(*n, q.tag@, opt_view(q.id), opt_view(q.class)) is None,
        },
    decreases *n, 0int,
{
    match n {
        MarkupNode::Text(_) => None,
        MarkupNode::Element(e) => if elem_matches(e, q) {
            Some(e)
        } else {
            find_from(&e.children, 0, q)
        },
    }
}

/// Collects the text fragments of `nodes[i..]` onto the end of `out`,
/// in document order.
pub fn collect_texts_from(nodes: &Vec<MarkupNode>, i: usize, out: &mut Vec<String>)
    ensures
        final(out)@.len() == old(out)@.len() + spec_texts_from(nodes@, i as int).len(),
        forall|k: int| 0 <= k < old(out)@.len() ==> final(out)@[k] == old(out)@[k],
        forall|k: int|
            old(out)@.len() <= k < final(out)@.len() ==> final(out)@[k]@ == spec_texts_from(nodes@, i as int)[k
                - old(out)@.len()],
    decreases nodes@, nodes@.len() - i,
{
    if i < nodes.len() {
        collect_texts_in_node(&nodes[i], out);
        collect_texts_from(nodes, i + 1, out);
    }
}

pub fn collect_texts_in_node(n: &MarkupNode, out: &mut Vec<String>)
    ensures
        final(out)@.len() == old(out)@.len() + spec_texts_in_node(*n).len(),
        forall|k: int| 0 <= k < old(out)@.len() ==> final(out)@[k] == old(out)@[k],
        forall|k: int|
            old(out)@.len() <= k < final(out)@.len() ==> final(out)@[k]@ == spec_texts_in_node(*n)[k - old(
                out,
            )@.len()],
    decreases *n, 0int,
{
    match n {
        MarkupNode::Text(t) => {
            out.push(t.clone());
        },
        MarkupNode::Element(e) => {
            collect_texts_from(&e.children, 0, out);
        },
    }
}

/// The text fragments inside an element, in document order.
pub fn elem_texts(e: &Elem) -> (r: Vec<String>)
    ensures
        r@.len() == spec_elem_texts(*e).len(),
        forall|k: int| 0 <= k < r@.len() ==> r@[k]@ == spec_elem_texts(*e)[k],
{
    let mut out: Vec<String> = Vec::new();
    collect_texts_from(&e.children, 0, &mut out);
    out
}

/// Collects every element of `nodes[i..]` matching the query, in document
/// order, each with the node immediately following it as a sibling.
pub fn collect_hits_from<'a>(
    nodes: &'a Vec<MarkupNode>,
    i: usize,
    q: &ElemQuery,
    out: &mut Vec<(&'a Elem, Option<&'a MarkupNode>)>,
)
    ensures
        ({
            let hits = spec_hits_from(nodes@, i as int, q.tag@, opt_view(q.id), opt_view(q.class));
            &&& final(out)@.len() == old(out)@.len() + hits.len()
            &&& forall|k: int| 0 <= k < old(out)@.len() ==> final(out)@[k] == old(out)@[k]
            &&& forall|k: int|
                old(out)@.len() <= k < final(out)@.len() ==> (*final(out)@[k].0, match final(out)@[k].1 {
                    Some(s) => Some(*s),
                    None => None,
                }) == hits[k - old(out)@.len()]
        }),
    decreases nodes@, nodes@.len() - i,
{
    if i < nodes.len() {
        let sib: Option<&MarkupNode> = if i + 1 < nodes.len() {
            Some(&nodes[i + 1])
        } else {
            None
        };
        collect_hits_in_node(&nodes[i], sib, q, out);
        collect_hits_from(nodes, i + 1, q, out);
    }
}

pub fn collect_hits_in_node<'a>(
    n: &'a MarkupNode,
    sib: Option<&'a MarkupNode>,
    q: &ElemQuery,
    out: &mut Vec<(&'a Elem, Option<&'a MarkupNode>)>,
)
    ensures
        ({
            let sibv = match sib {
                Some(s) => Some(*s),
                None => None,
            };
            let hits = spec_hits_in_node(*n, sibv, q.tag@, opt_view(q.id), opt_view(q.class));
            &&& final(out)@.len() == old(out)@.len() + hits.len()
            &&& forall|k: int| 0 <= k < old(out)@.len() ==> final(out)@[k] == old(out)@[k]
            &&& forall|k: int|
                old(out)@.len() <= k < final(out)@.len() ==> (*final(out)@[k].0, match final(out)@[k].1 {
                    Some(s) => Some(*s),
                    None => None,
                }) == hits[k - old(out)@.len()]
        }),
    decreases *n, 0int,
{
    match n {
        MarkupNode::Text(_) => {},
        MarkupNode::Element(e) => {
            if elem_matches(e, q) {
                out.push((e, sib));
            }
            collect_hits_from(&e.children, 0, q, out);
        },
    }
}

} // verus!
