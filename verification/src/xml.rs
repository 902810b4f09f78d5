//! XML documents as the library reads them: the nodes in document order,
//! each with the place of its parent.

use vstd::prelude::*;
use vstd::string::*;

use crate::nesting::{nesting, nesting_of, DEEPEST_NESTING};
use crate::outside::{parse_xml, same_text, xml_nodes_of};
use crate::text::{lower, optional, same_ignoring_case};

verus! {

/// An attribute of an element.
#[derive(Debug)]
pub struct XmlAttribute {
    pub namespaced: bool,
    pub name: String,
    pub value: String,
}

/// A node of a document. The name is empty for a node that is no element.
#[derive(Debug)]
pub struct XmlNode {
    pub parent: Option<usize>,
    pub element: bool,
    pub name: String,
    pub text: Option<String>,
    pub attributes: Vec<XmlAttribute>,
}

/// The contents of an `XmlAttribute`.
pub struct AttributeView {
    pub namespaced: bool,
    pub name: Seq<char>,
    pub value: Seq<char>,
}

/// The contents of an `XmlNode`.
pub struct NodeView {
    pub parent: Option<int>,
    pub element: bool,
    pub name: Seq<char>,
    pub text: Option<Seq<char>>,
    pub attributes: Seq<AttributeView>,
}

impl View for XmlAttribute {
    type V = AttributeView;

    open spec fn view(&self) -> AttributeView {
        AttributeView { namespaced: self.namespaced, name: self.name@, value: self.value@ }
    }
}

impl View for XmlNode {
    type V = NodeView;

    open spec fn view(&self) -> NodeView {
        NodeView {
            parent: match self.parent {
                Some(parent) => Some(parent as int),
                None => None,
            },
            element: self.element,
            name: self.name@,
            text: optional(self.text),
            attributes: Seq::new(self.attributes@.len(), |i: int| self.attributes@[i]@),
        }
    }
}

/// The contents of several nodes.
pub open spec fn nodes_view(nodes: Seq<XmlNode>) -> Seq<NodeView> {
    Seq::new(nodes.len(), |i: int| nodes[i]@)
}

/// The nodes of a document, in document order, where a text is one that is
/// read: one whose elements are nested too deeply is not.
pub open spec fn document_of(text: Seq<char>) -> Option<Seq<NodeView>> {
    if nesting_of(text) <= DEEPEST_NESTING {
        xml_nodes_of(text)
    } else {
        None
    }
}

/// Reads the nodes of a document, in document order, where a text is one and
/// its elements are nested in at most 256 levels.
pub fn read_document(text: &str) -> (r: Option<Vec<XmlNode>>)
    ensures
        match r {
            Some(nodes) => document_of(text@) == Some(nodes_view(nodes@)),
            None => document_of(text@) is None,
        },
{
    if nesting(text) <= DEEPEST_NESTING {
        parse_xml(text)
    } else {
        None
    }
}

/// Whether a node is a child of another.
pub open spec fn is_child(nodes: Seq<NodeView>, child: int, parent: int) -> bool {
    nodes[child].parent == Some(parent)
}

/// Whether a node stands below another, at any depth.
pub open spec fn is_below(nodes: Seq<NodeView>, node: int, top: int) -> bool
    decreases node,
{
    match nodes[node].parent {
        Some(parent) => 0 <= parent < node && (parent == top || is_below(nodes, parent, top)),
        None => false,
    }
}

/// Whether a node is an element with a name.
pub open spec fn is_named(node: NodeView, name: Seq<char>) -> bool {
    node.element && node.name == name
}

/// The first child element with a name, from a node on, or the number of
/// nodes.
pub open spec fn find_child(nodes: Seq<NodeView>, parent: int, name: Seq<char>, from: int) -> int
    decreases nodes.len() - from,
{
    if from < 0 || from >= nodes.len() {
        nodes.len() as int
    } else if is_child(nodes, from, parent) && is_named(nodes[from], name) {
        from
    } else {
        find_child(nodes, parent, name, from + 1)
    }
}

/// The first element below a node with a name, from a node on, or the number
/// of nodes.
pub open spec fn find_below(nodes: Seq<NodeView>, top: int, name: Seq<char>, from: int) -> int
    decreases nodes.len() - from,
{
    if from < 0 || from >= nodes.len() {
        nodes.len() as int
    } else if is_below(nodes, from, top) && is_named(nodes[from], name) {
        from
    } else {
        find_below(nodes, top, name, from + 1)
    }
}

/// The value of the first attribute with a name and without a namespace, from
/// an attribute on.
pub open spec fn attribute_of(attributes: Seq<AttributeView>, name: Seq<char>, from: int) -> Option<
    Seq<char>,
>
    decreases attributes.len() - from,
{
    if from < 0 || from >= attributes.len() {
        None
    } else if !attributes[from].namespaced && attributes[from].name == name {
        Some(attributes[from].value)
    } else {
        attribute_of(attributes, name, from + 1)
    }
}

/// Whether a name is one of several, but for the case of ASCII letters.
pub open spec fn is_one_of(name: Seq<char>, names: Seq<&str>) -> bool {
    exists|i: int| 0 <= i < names.len() && lower(name) == lower(#[trigger] names[i]@)
}

/// The first attribute with one of several names, from an attribute on.
pub open spec fn find_attribute(
    attributes: Seq<AttributeView>,
    names: Seq<&str>,
    from: int,
) -> int
    decreases attributes.len() - from,
{
    if from < 0 || from >= attributes.len() {
        attributes.len() as int
    } else if is_one_of(attributes[from].name, names) {
        from
    } else {
        find_attribute(attributes, names, from + 1)
    }
}

/// The first child element with one of several names, from a node on.
pub open spec fn find_child_of(
    nodes: Seq<NodeView>,
    parent: int,
    names: Seq<&str>,
    from: int,
) -> int
    decreases nodes.len() - from,
{
    if from < 0 || from >= nodes.len() {
        nodes.len() as int
    } else if is_child(nodes, from, parent) && nodes[from].element && is_one_of(
        nodes[from].name,
        names,
    ) {
        from
    } else {
        find_child_of(nodes, parent, names, from + 1)
    }
}

/// Whether a node is an element with a name.
pub fn node_named(nodes: &Vec<XmlNode>, node: usize, name: &str) -> (r: bool)
    requires
        node < nodes@.len(),
    ensures
        r == is_named(nodes_view(nodes@)[node as int], name@),
{
    nodes[node].element && same_text(&nodes[node].name, name)
}

/// Whether a node is a child of another.
pub fn child_of(nodes: &Vec<XmlNode>, child: usize, parent: usize) -> (r: bool)
    requires
        child < nodes@.len(),
    ensures
        r == is_child(nodes_view(nodes@), child as int, parent as int),
{
    match nodes[child].parent {
        Some(place) => place == parent,
        None => false,
    }
}

/// Whether a node stands below another, at any depth.
pub fn below(nodes: &Vec<XmlNode>, node: usize, top: usize) -> (r: bool)
    requires
        node < nodes@.len(),
    ensures
        r == is_below(nodes_view(nodes@), node as int, top as int),
{
    let mut current: usize = node;
    loop
        invariant
            current < nodes@.len(),
            is_below(nodes_view(nodes@), current as int, top as int) == is_below(
                nodes_view(nodes@),
                node as int,
                top as int,
            ),
        decreases current,
    {
        assert(nodes_view(nodes@)[current as int] == nodes@[current as int]@);
        match nodes[current].parent {
            Some(parent) => {
                if parent >= current {
                    return false;
                }
                if parent == top {
                    return true;
                }
                current = parent;
            },
            None => {
                return false;
            },
        }
    }
}

/// Finds the first child element with a name.
pub fn first_child(nodes: &Vec<XmlNode>, parent: usize, name: &str) -> (r: Option<usize>)
    ensures
        match r {
            Some(child) => child < nodes@.len() && find_child(
                nodes_view(nodes@),
                parent as int,
                name@,
                0,
            ) == child,
            None => find_child(nodes_view(nodes@), parent as int, name@, 0) == nodes@.len(),
        },
{
    let mut i: usize = 0;
    while i < nodes.len()
        invariant
            i <= nodes@.len(),
            find_child(nodes_view(nodes@), parent as int, name@, 0) == find_child(
                nodes_view(nodes@),
                parent as int,
                name@,
                i as int,
            ),
        decreases nodes@.len() - i,
    {
        if child_of(nodes, i, parent) && node_named(nodes, i, name) {
            return Some(i);
        }
        i += 1;
    }
    None
}

/// Finds the first element below a node with a name.
pub fn first_below(nodes: &Vec<XmlNode>, top: usize, name: &str) -> (r: Option<usize>)
    ensures
        match r {
            Some(node) => node < nodes@.len() && find_below(
                nodes_view(nodes@),
                top as int,
                name@,
                0,
            ) == node,
            None => find_below(nodes_view(nodes@), top as int, name@, 0) == nodes@.len(),
        },
{
    let mut i: usize = 0;
    while i < nodes.len()
        invariant
            i <= nodes@.len(),
            find_below(nodes_view(nodes@), top as int, name@, 0) == find_below(
                nodes_view(nodes@),
                top as int,
                name@,
                i as int,
            ),
        decreases nodes@.len() - i,
    {
        if below(nodes, i, top) && node_named(nodes, i, name) {
            return Some(i);
        }
        i += 1;
    }
    None
}

/// The value of the first attribute with a name and without a namespace.
pub fn attribute(node: &XmlNode, name: &str) -> (r: Option<String>)
    ensures
        optional(r) == attribute_of(node@.attributes, name@, 0),
{
    let mut i: usize = 0;
    while i < node.attributes.len()
        invariant
            i <= node.attributes@.len(),
            attribute_of(node@.attributes, name@, 0) == attribute_of(
                node@.attributes,
                name@,
                i as int,
            ),
        decreases node.attributes@.len() - i,
    {
        if !node.attributes[i].namespaced && same_text(&node.attributes[i].name, name) {
            return Some(node.attributes[i].value.clone());
        }
        i += 1;
    }
    None
}

/// Whether a name is one of several, but for the case of ASCII letters.
pub fn one_of(name: &str, names: &[&str]) -> (r: bool)
    ensures
        r == is_one_of(name@, names@),
{
    let mut i: usize = 0;
    while i < names.len()
        invariant
            i <= names@.len(),
            forall|j: int| 0 <= j < i ==> lower(name@) != lower(#[trigger] names@[j]@),
        decreases names@.len() - i,
    {
        if same_ignoring_case(name, names[i]) {
            assert(lower(name@) == lower(names@[i as int]@));
            return true;
        }
        i += 1;
    }
    false
}

/// Finds the first attribute with one of several names.
pub fn first_attribute(node: &XmlNode, names: &[&str]) -> (r: Option<usize>)
    ensures
        match r {
            Some(at) => at < node.attributes@.len() && find_attribute(
                node@.attributes,
                names@,
                0,
            ) == at,
            None => find_attribute(node@.attributes, names@, 0) == node.attributes@.len(),
        },
{
    let mut i: usize = 0;
    while i < node.attributes.len()
        invariant
            i <= node.attributes@.len(),
            find_attribute(node@.attributes, names@, 0) == find_attribute(
                node@.attributes,
                names@,
                i as int,
            ),
        decreases node.attributes@.len() - i,
    {
        if one_of(&node.attributes[i].name, names) {
            return Some(i);
        }
        i += 1;
    }
    None
}

/// Finds the first child element with one of several names.
pub fn first_child_of(nodes: &Vec<XmlNode>, parent: usize, names: &[&str]) -> (r: Option<usize>)
    ensures
        match r {
            Some(child) => child < nodes@.len() && find_child_of(
                nodes_view(nodes@),
                parent as int,
                names@,
                0,
            ) == child,
            None => find_child_of(nodes_view(nodes@), parent as int, names@, 0) == nodes@.len(),
        },
{
    let mut i: usize = 0;
    while i < nodes.len()
        invariant
            i <= nodes@.len(),
            find_child_of(nodes_view(nodes@), parent as int, names@, 0) == find_child_of(
                nodes_view(nodes@),
                parent as int,
                names@,
                i as int,
            ),
        decreases nodes@.len() - i,
    {
        if child_of(nodes, i, parent) && nodes[i].element && one_of(&nodes[i].name, names) {
            return Some(i);
        }
        i += 1;
    }
    None
}

} // verus!
