//! XML documents as a list of nodes, each with its parent, and the reading
//! of child elements, attributes and unsigned decimal numbers from them.
use vstd::prelude::*;

verus! {

/// A node of an XML document, in document order: the position of its
/// parent in the list (none for the document itself), whether it is an
/// element, its tag name (empty for other nodes) and its attributes (name
/// and value) in order.
#[derive(Debug, Clone)]
pub struct XmlNode {
    pub parent: Option<usize>,
    pub is_element: bool,
    pub name: String,
    pub attributes: Vec<(String, String)>,
}

/// What a node holds, as the contracts see it.
pub ghost struct XmlNodeView {
    pub parent: Option<usize>,
    pub is_element: bool,
    pub name: Seq<char>,
    pub attributes: Seq<(Seq<char>, Seq<char>)>,
}

/// The view of a node.
pub open spec fn node_view(n: XmlNode) -> XmlNodeView {
    XmlNodeView {
        parent: n.parent,
        is_element: n.is_element,
        name: n.name@,
        attributes: n.attributes@.map_values(|a: (String, String)| (a.0@, a.1@)),
    }
}

/// The views of a list of nodes.
pub open spec fn nodes_view(v: Seq<XmlNode>) -> Seq<XmlNodeView> {
    v.map_values(|n: XmlNode| node_view(n))
}

/// The nodes of the XML document `text` in document order, starting with
/// the document node, as `roxmltree` parses it; nothing where the text is
/// not a well-formed document.
pub uninterp spec fn xml_document(text: Seq<char>) -> Option<Seq<XmlNodeView>>;

/// Parses `text` (`roxmltree::Document::parse`) and lists its nodes in
/// document order (`Document::descendants`), each with its parent's place
/// in the list (`NodeId::get_usize`, which numbers the nodes in document
/// order), element kind, tag name and attributes. The list is named
/// `xml_document`; nothing more is stated of it.
#[verifier::external_body]
pub fn parse_xml(text: &str) -> (r: Option<Vec<XmlNode>>)
    ensures
        match r {
            Some(v) => xml_document(text@) == Some(nodes_view(v@)),
            None => xml_document(text@) is None,
        },
{
    let doc = roxmltree::Document::parse(text).ok()?;
    Some(doc.descendants().map(|n| XmlNode {
        parent: n.parent().map(|p| p.id().get_usize()),
        is_element: n.is_element(),
        name: n.tag_name().name().to_string(),
        attributes: n.attributes().map(|a| (a.name().to_string(), a.value().to_string())).collect(),
    }).collect())
}

/// Whether node `i` is an element named `name` whose parent is node `p`.
pub open spec fn is_child_named(nodes: Seq<XmlNodeView>, p: int, i: int, name: Seq<char>) -> bool {
    &&& nodes[i].is_element
    &&& nodes[i].name == name
    &&& nodes[i].parent == Some(p as usize)
}

/// The places of the elements named `name` among the first `n` nodes
/// whose parent is node `p`, in document order.
pub open spec fn children_upto(nodes: Seq<XmlNodeView>, p: int, name: Seq<char>, n: int) -> Seq<int>
    decreases n,
{
    if n <= 0 {
        Seq::empty()
    } else {
        let r = children_upto(nodes, p, name, n - 1);
        if is_child_named(nodes, p, n - 1, name) {
            r.push(n - 1)
        } else {
            r
        }
    }
}

/// The places of the child elements of node `p` named `name`, in order.
pub open spec fn children_named(nodes: Seq<XmlNodeView>, p: int, name: Seq<char>) -> Seq<int> {
    children_upto(nodes, p, name, nodes.len() as int)
}

/// The place of the first element that is a child of the first node, if
/// any: the document's root element.
pub open spec fn root_element_from(nodes: Seq<XmlNodeView>, i: int) -> Option<int>
    decreases nodes.len() - i,
{
    if i < 0 || i >= nodes.len() {
        None
    } else if nodes[i].is_element && nodes[i].parent == Some(0usize) {
        Some(i)
    } else {
        root_element_from(nodes, i + 1)
    }
}

/// The value of the first attribute named `name` from the `i`-th on.
pub open spec fn attribute_from(attrs: Seq<(Seq<char>, Seq<char>)>, name: Seq<char>, i: int) -> Option<
    Seq<char>,
>
    decreases attrs.len() - i,
{
    if i < 0 || i >= attrs.len() {
        None
    } else if attrs[i].0 == name {
        Some(attrs[i].1)
    } else {
        attribute_from(attrs, name, i + 1)
    }
}

/// The value of attribute `name`, or `default` where there is none.
pub open spec fn attribute_or(n: XmlNodeView, name: Seq<char>, default: Seq<char>) -> Seq<char> {
    match attribute_from(n.attributes, name, 0) {
        Some(v) => v,
        None => default,
    }
}

/// The place of the document's root element (see `root_element_from`).
pub fn root_element(nodes: &Vec<XmlNode>) -> (r: Option<usize>)
    ensures
        match r {
            Some(k) => root_element_from(nodes_view(nodes@), 0) == Some(k as int),
            None => root_element_from(nodes_view(nodes@), 0) is None,
        },
{
    let ghost vs = nodes_view(nodes@);
    let mut i: usize = 0;
    while i < nodes.len()
        invariant
            i <= nodes@.len(),
            vs == nodes_view(nodes@),
            root_element_from(vs, 0) == root_element_from(vs, i as int),
        decreases nodes@.len() - i,
    {
        let n = &nodes[i];
        assert(vs[i as int] == node_view(nodes@[i as int]));
        if n.is_element && n.parent == Some(0usize) {
            return Some(i);
        }
        i = i + 1;
    }
    None
}

/// Whether node `i` is an element named `name` whose parent is node `p`.
pub fn child_named(nodes: &Vec<XmlNode>, p: usize, i: usize, name: &str) -> (r: bool)
    requires
        i < nodes@.len(),
    ensures
        r == is_child_named(nodes_view(nodes@), p as int, i as int, name@),
{
    let n = &nodes[i];
    assert(nodes_view(nodes@)[i as int] == node_view(nodes@[i as int]));
    n.is_element && n.parent == Some(p) && crate::util::text::str_eq(n.name.as_str(), name)
}

/// The value of the attribute `name` of node `i`, or `default`.
pub fn attribute_value(nodes: &Vec<XmlNode>, i: usize, name: &str, default: &str) -> (r: String)
    requires
        i < nodes@.len(),
    ensures
        r@ == attribute_or(nodes_view(nodes@)[i as int], name@, default@),
{
    let ghost nv = nodes_view(nodes@)[i as int];
    assert(nv == node_view(nodes@[i as int]));
    let attrs = &nodes[i].attributes;
    let mut k: usize = 0;
    while k < attrs.len()
        invariant
            k <= attrs@.len(),
            i < nodes@.len(),
            nv == nodes_view(nodes@)[i as int],
            nv.attributes == attrs@.map_values(|a: (String, String)| (a.0@, a.1@)),
            attribute_from(nv.attributes, name@, 0) == attribute_from(nv.attributes, name@, k as int),
        decreases attrs@.len() - k,
    {
        assert(nv.attributes[k as int] == (attrs@[k as int].0@, attrs@[k as int].1@));
        if crate::util::text::str_eq(attrs[k].0.as_str(), name) {
            return attrs[k].1.clone();
        }
        k = k + 1;
    }
    default.to_string()
}

/// The value of the ASCII digits `s`, in base ten.
pub open spec fn digits_value(s: Seq<char>) -> nat
    decreases s.len(),
{
    if s.len() == 0 {
        0
    } else {
        digits_value(s.drop_last()) * 10 + (s.last() as nat - '0' as nat) as nat
    }
}

/// Whether all of `s` are ASCII digits.
pub open spec fn all_digits(s: Seq<char>) -> bool {
    forall|i: int| 0 <= i < s.len() ==> '0' <= #[trigger] s[i] <= '9'
}

/// The unsigned number that `s` spells, as `str::parse` reads one of at
/// most `max`: an optional `+`, then at least one digit and nothing else;
/// nothing for other text or a number above `max`.
pub open spec fn parse_unsigned(s: Seq<char>, max: nat) -> Option<nat> {
    let d = if s.len() > 0 && s[0] == '+' {
        s.skip(1)
    } else {
        s
    };
    if d.len() > 0 && all_digits(d) && digits_value(d) <= max {
        Some(digits_value(d))
    } else {
        None
    }
}

proof fn lemma_digits_grow(d: Seq<char>, k: int)
    requires
        all_digits(d),
        0 <= k <= d.len(),
    ensures
        digits_value(d.take(k)) <= digits_value(d),
    decreases d.len() - k,
{
    if k < d.len() {
        lemma_digits_grow(d, k + 1);
        assert(d.take(k + 1).drop_last() =~= d.take(k));
    } else {
        assert(d.take(k) =~= d);
    }
}

/// The unsigned number of at most `max` that `s` spells (see
/// `parse_unsigned`).
pub fn parse_unsigned_str(s: &str, max: u64) -> (r: Option<u64>)
    ensures
        match parse_unsigned(s@, max as nat) {
            Some(n) => r == Some(n as u64),
            None => r is None,
        },
{
    let chars = crate::util::text::chars_of(s);
    let start: usize = if chars.len() > 0 && chars[0] == '+' {
        1
    } else {
        0
    };
    let ghost d = if s@.len() > 0 && s@[0] == '+' {
        s@.skip(1)
    } else {
        s@
    };
    assert(d =~= chars@.skip(start as int));
    if start >= chars.len() {
        return None;
    }
    let mut value: u64 = 0;
    let mut i: usize = start;
    while i < chars.len()
        invariant
            start <= i <= chars@.len(),
            start < chars@.len(),
            chars@ == s@,
            d == chars@.skip(start as int),
            d == (if s@.len() > 0 && s@[0] == '+' {
                s@.skip(1)
            } else {
                s@
            }),
            value as nat == digits_value(d.take(i - start)),
            value <= max,
            forall|j: int| 0 <= j < i - start ==> '0' <= #[trigger] d[j] <= '9',
        decreases chars@.len() - i,
    {
        let c = chars[i];
        if c < '0' || c > '9' {
            assert(d[i - start] == c);
            assert(!all_digits(d)) by {
                assert(!('0' <= d[i - start] <= '9'));
            }
            return None;
        }
        let digit = (c as u32 - '0' as u32) as u64;
        assert(d.take(i + 1 - start).drop_last() =~= d.take(i - start));
        assert(d.take(i + 1 - start).last() == c);
        assert(digit == c as nat - '0' as nat);
        assert(digits_value(d.take(i + 1 - start)) == value * 10 + digit);
        if digit > max || value > (max - digit) / 10 {
            proof {
                if digit <= max {
                    assert(value * 10 + digit > max) by (nonlinear_arith)
                        requires
                            value > (max - digit) / 10,
                            digit <= max,
                    ;
                }
                if all_digits(d) {
                    lemma_digits_grow(d, i + 1 - start);
                }
            }
            return None;
        }
        assert(value * 10 + digit <= max) by (nonlinear_arith)
            requires
                value <= (max - digit) / 10,
                digit <= max,
        ;
        value = value * 10 + digit;
        i = i + 1;
    }
    assert(d.take(i - start) =~= d);
    Some(value)
}


/// The value of the attribute `name` of node `i`, if it has one.
pub fn attribute_opt(nodes: &Vec<XmlNode>, i: usize, name: &str) -> (r: Option<String>)
    requires
        i < nodes@.len(),
    ensures
        match attribute_from(nodes_view(nodes@)[i as int].attributes, name@, 0) {
            Some(v) => r matches Some(x) && x@ == v,
            None => r is None,
        },
{
    let ghost nv = nodes_view(nodes@)[i as int];
    assert(nv == node_view(nodes@[i as int]));
    let attrs = &nodes[i].attributes;
    let mut k: usize = 0;
    while k < attrs.len()
        invariant
            k <= attrs@.len(),
            i < nodes@.len(),
            nv == nodes_view(nodes@)[i as int],
            nv.attributes == attrs@.map_values(|a: (String, String)| (a.0@, a.1@)),
            attribute_from(nv.attributes, name@, 0) == attribute_from(nv.attributes, name@, k as int),
        decreases attrs@.len() - k,
    {
        assert(nv.attributes[k as int] == (attrs@[k as int].0@, attrs@[k as int].1@));
        if crate::util::text::str_eq(attrs[k].0.as_str(), name) {
            return Some(attrs[k].1.clone());
        }
        k = k + 1;
    }
    None
}

/// The signed number that `s` spells, as `str::parse` reads one between
/// `min` and `max`: an optional `+` or `-`, then at least one digit and
/// nothing else; nothing for other text or a number out of range.
pub open spec fn parse_signed(s: Seq<char>, min: int, max: int) -> Option<int> {
    let neg = s.len() > 0 && s[0] == '-';
    let d = if s.len() > 0 && (s[0] == '+' || s[0] == '-') {
        s.skip(1)
    } else {
        s
    };
    let v: int = if neg {
        -(digits_value(d) as int)
    } else {
        digits_value(d) as int
    };
    if d.len() > 0 && all_digits(d) && min <= v <= max {
        Some(v)
    } else {
        None
    }
}

/// The signed number between `min` and `max` that `s` spells (see
/// `parse_signed`).
pub fn parse_signed_str(s: &str, min: i64, max: i64) -> (r: Option<i64>)
    requires
        min <= 0 <= max,
    ensures
        match parse_signed(s@, min as int, max as int) {
            Some(n) => r == Some(n as i64),
            None => r is None,
        },
{
    let chars = crate::util::text::chars_of(s);
    if chars.len() > 0 && chars[0] == '-' {
        let mut rest = String::new();
        let mut i: usize = 1;
        while i < chars.len()
            invariant
                1 <= i <= chars@.len(),
                chars@ == s@,
                rest@ == chars@.subrange(1, i as int),
            decreases chars@.len() - i,
        {
            crate::util::text::string_push(&mut rest, chars[i]);
            i = i + 1;
            assert(rest@ =~= chars@.subrange(1, i as int));
        }
        assert(s@.skip(1) =~= rest@);
        if chars.len() > 1 && chars[1] == '+' {
            proof {
                assert(rest@[0] == '+');
                assert(!all_digits(rest@)) by {
                    assert(!('0' <= rest@[0] <= '9'));
                }
            }
            return None;
        }
        let lim = (0 - (min as i128)) as u64;
        match parse_unsigned_str(rest.as_str(), lim) {
            Some(n) => Some((0 - (n as i128)) as i64),
            None => None,
        }
    } else {
        match parse_unsigned_str(s, max as u64) {
            Some(n) => Some(n as i64),
            None => None,
        }
    }
}

} // verus!
