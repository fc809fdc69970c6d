//! The document tree: nodes held in one arena and linked by index.
//!
//! A [`Window`] owns every node of a document. A node names its parent, its
//! first and last child and its two neighbours by their index in the arena;
//! [`tree_wf`] says when those links agree with one another, and every edit
//! that the window offers keeps them so.

use vstd::prelude::*;
use crate::renderer::html::attribute::Attribute;
use crate::renderer::html::attribute::AttributeView;
use crate::renderer::html::token::attributes_view;
use crate::text::push_char;
use crate::text::str_equal;

verus! {

#[derive(Debug, Copy, Clone, PartialEq, Eq)]
pub enum ElementKind {
    Html,
    Head,
    Style,
    Script,
    Body,
    P,
    H1,
    H2,
    A,
}

/// A tag name that names no known kind of element.
#[derive(Debug, PartialEq, Eq)]
pub struct UnrecognizedElement {
    pub name: String,
}

impl Clone for UnrecognizedElement {
    fn clone(&self) -> (r: Self)
        ensures
            r.name@ == self.name@,
    {
        UnrecognizedElement { name: self.name.clone() }
    }
}

/// The kind of element that a tag name stands for, if any. Names are
/// matched exactly, in lower case.
pub open spec fn element_kind_of(name: Seq<char>) -> Option<ElementKind> {
    if name == "html"@ {
        Some(ElementKind::Html)
    } else if name == "head"@ {
        Some(ElementKind::Head)
    } else if name == "style"@ {
        Some(ElementKind::Style)
    } else if name == "script"@ {
        Some(ElementKind::Script)
    } else if name == "body"@ {
        Some(ElementKind::Body)
    } else if name == "h1"@ {
        Some(ElementKind::H1)
    } else if name == "h2"@ {
        Some(ElementKind::H2)
    } else if name == "p"@ {
        Some(ElementKind::P)
    } else if name == "a"@ {
        Some(ElementKind::A)
    } else {
        None
    }
}

/// The tag name of a kind of element.
pub open spec fn element_kind_name(kind: ElementKind) -> Seq<char> {
    match kind {
        ElementKind::Html => "html"@,
        ElementKind::Head => "head"@,
        ElementKind::Style => "style"@,
        ElementKind::Script => "script"@,
        ElementKind::Body => "body"@,
        ElementKind::P => "p"@,
        ElementKind::H1 => "h1"@,
        ElementKind::H2 => "h2"@,
        ElementKind::A => "a"@,
    }
}

/// Every kind of element is the kind that its own tag name stands for.
pub proof fn lemma_element_kind_round_trip(kind: ElementKind)
    ensures
        element_kind_of(element_kind_name(kind)) == Some(kind),
{
    reveal_strlit("html");
    reveal_strlit("head");
    reveal_strlit("style");
    reveal_strlit("script");
    reveal_strlit("body");
    reveal_strlit("p");
    reveal_strlit("h1");
    reveal_strlit("h2");
    reveal_strlit("a");
    match kind {
        ElementKind::Html => {},
        ElementKind::Head => {
            assert("head"@[1] != "html"@[1]);
        },
        ElementKind::Style => {
            assert("style"@.len() == 5);
        },
        ElementKind::Script => {
            assert("script"@.len() == 6);
        },
        ElementKind::Body => {
            assert("body"@[0] != "html"@[0]);
            assert("body"@[0] != "head"@[0]);
        },
        ElementKind::P => {
            assert("p"@.len() == 1);
        },
        ElementKind::H1 => {
            assert("h1"@.len() == 2);
        },
        ElementKind::H2 => {
            assert("h2"@[1] != "h1"@[1]);
        },
        ElementKind::A => {
            assert("a"@[0] != "p"@[0]);
        },
    }
}

impl ElementKind {
    /// The kind that `s` names, or the error that carries `s`.
    pub fn from_str(s: &str) -> (r: Result<ElementKind, UnrecognizedElement>)
        ensures
            match element_kind_of(s@) {
                Some(k) => r == Ok::<ElementKind, UnrecognizedElement>(k),
                None => r is Err && r->Err_0.name@ == s@,
            },
    {
        if str_equal(s, "html") {
            Ok(ElementKind::Html)
        } else if str_equal(s, "head") {
            Ok(ElementKind::Head)
        } else if str_equal(s, "style") {
            Ok(ElementKind::Style)
        } else if str_equal(s, "script") {
            Ok(ElementKind::Script)
        } else if str_equal(s, "body") {
            Ok(ElementKind::Body)
        } else if str_equal(s, "h1") {
            Ok(ElementKind::H1)
        } else if str_equal(s, "h2") {
            Ok(ElementKind::H2)
        } else if str_equal(s, "p") {
            Ok(ElementKind::P)
        } else if str_equal(s, "a") {
            Ok(ElementKind::A)
        } else {
            Err(UnrecognizedElement { name: s.to_owned() })
        }
    }

    /// The tag name of this kind.
    pub fn name(&self) -> (s: String)
        ensures
            s@ == element_kind_name(*self),
    {
        match self {
            ElementKind::Html => "html".to_owned(),
            ElementKind::Head => "head".to_owned(),
            ElementKind::Style => "style".to_owned(),
            ElementKind::Script => "script".to_owned(),
            ElementKind::Body => "body".to_owned(),
            ElementKind::P => "p".to_owned(),
            ElementKind::H1 => "h1".to_owned(),
            ElementKind::H2 => "h2".to_owned(),
            ElementKind::A => "a".to_owned(),
        }
    }

    /// Whether two kinds are the same.
    pub fn same(&self, other: &ElementKind) -> (r: bool)
        ensures
            r == (*self == *other),
    {
        match (self, other) {
            (ElementKind::Html, ElementKind::Html) => true,
            (ElementKind::Head, ElementKind::Head) => true,
            (ElementKind::Style, ElementKind::Style) => true,
            (ElementKind::Script, ElementKind::Script) => true,
            (ElementKind::Body, ElementKind::Body) => true,
            (ElementKind::P, ElementKind::P) => true,
            (ElementKind::H1, ElementKind::H1) => true,
            (ElementKind::H2, ElementKind::H2) => true,
            (ElementKind::A, ElementKind::A) => true,
            _ => false,
        }
    }
}

/// A copy of a list of attributes.
pub fn clone_attributes(attributes: &Vec<Attribute>) -> (r: Vec<Attribute>)
    ensures
        attributes_view(r@) == attributes_view(attributes@),
{
    let mut r: Vec<Attribute> = Vec::new();
    let mut i: usize = 0;
    while i < attributes.len()
        invariant
            i <= attributes.len(),
            r@.len() == i,
            forall|j: int| 0 <= j < i ==> r@[j]@ == attributes@[j]@,
        decreases attributes.len() - i,
    {
        r.push(attributes[i].clone());
        i += 1;
    }
    assert(attributes_view(r@) =~= attributes_view(attributes@));
    r
}

/// What an element is: its kind and its attributes in the order given.
pub struct ElementView {
    pub kind: ElementKind,
    pub attributes: Seq<AttributeView>,
}

/// The value of the first attribute named `name`, if there is one.
pub open spec fn first_attribute(attributes: Seq<AttributeView>, name: Seq<char>) -> Option<
    Seq<char>,
>
    decreases attributes.len(),
{
    if attributes.len() == 0 {
        None
    } else if attributes[0].name == name {
        Some(attributes[0].value)
    } else {
        first_attribute(attributes.drop_first(), name)
    }
}

#[derive(Debug, PartialEq, Eq)]
pub struct Element {
    kind: ElementKind,
    attributes: Vec<Attribute>,
}

impl View for Element {
    type V = ElementView;

    closed spec fn view(&self) -> ElementView {
        ElementView { kind: self.kind, attributes: attributes_view(self.attributes@) }
    }
}

impl Clone for Element {
    fn clone(&self) -> (r: Self)
        ensures
            r@ == self@,
    {
        Element { kind: self.kind, attributes: clone_attributes(&self.attributes) }
    }
}

impl Element {
    /// An element of the kind that `element_name` names, with the given
    /// attributes; an error where the name stands for no kind.
    pub fn new(element_name: &str, attributes: Vec<Attribute>) -> (r: Result<
        Self,
        UnrecognizedElement,
    >)
        ensures
            match element_kind_of(element_name@) {
                Some(k) => r is Ok && r->Ok_0@ == (ElementView {
                    kind: k,
                    attributes: attributes_view(attributes@),
                }),
                None => r is Err && r->Err_0.name@ == element_name@,
            },
    {
        match ElementKind::from_str(element_name) {
            Ok(kind) => Ok(Self { kind, attributes }),
            Err(e) => Err(e),
        }
    }

    /// An element of the given kind with the given attributes.
    pub fn of_kind(kind: ElementKind, attributes: Vec<Attribute>) -> (e: Self)
        ensures
            e@ == (ElementView { kind, attributes: attributes_view(attributes@) }),
    {
        Self { kind, attributes }
    }

    pub fn kind(&self) -> (k: ElementKind)
        ensures
            k == self@.kind,
    {
        self.kind
    }

    /// Whether the element starts a block: body, the two headings and the
    /// paragraph do.
    pub fn is_block_element(&self) -> (r: bool)
        ensures
            r == (self@.kind == ElementKind::Body || self@.kind == ElementKind::H1
                || self@.kind == ElementKind::H2 || self@.kind == ElementKind::P),
    {
        matches!(self.kind, ElementKind::Body | ElementKind::H1 | ElementKind::H2 | ElementKind::P)
    }

    pub fn attributes(&self) -> (r: Vec<Attribute>)
        ensures
            attributes_view(r@) == self@.attributes,
    {
        clone_attributes(&self.attributes)
    }

    /// The value of the first attribute named `name`; where two attributes
    /// share a name, the earlier one is found.
    pub fn get_attribute(&self, name: &str) -> (r: Option<String>)
        ensures
            match first_attribute(self@.attributes, name@) {
                Some(v) => r is Some && r->Some_0@ == v,
                None => r is None,
            },
    {
        let mut i: usize = 0;
        let ghost all = attributes_view(self.attributes@);
        assert(all.skip(0) =~= all);
        while i < self.attributes.len()
            invariant
                i <= self.attributes.len(),
                all == attributes_view(self.attributes@),
                first_attribute(all, name@) == first_attribute(all.skip(i as int), name@),
            decreases self.attributes.len() - i,
        {
            let candidate = self.attributes[i].name();
            assert(all.skip(i as int)[0] == self.attributes@[i as int]@);
            assert(all.skip(i as int).drop_first() =~= all.skip(i + 1));
            if str_equal(candidate.as_str(), name) {
                return Some(self.attributes[i].value());
            }
            i += 1;
        }
        assert(all.skip(i as int).len() == 0);
        None
    }
}

/// What a node holds.
pub enum NodeKindView {
    Document,
    Element(ElementView),
    Text(Seq<char>),
}

#[derive(Debug)]
pub enum NodeKind {
    Document,
    Element(Element),
    Text(String),
}

impl View for NodeKind {
    type V = NodeKindView;

    open spec fn view(&self) -> NodeKindView {
        match *self {
            NodeKind::Document => NodeKindView::Document,
            NodeKind::Element(e) => NodeKindView::Element(e@),
            NodeKind::Text(s) => NodeKindView::Text(s@),
        }
    }
}

impl Clone for NodeKind {
    fn clone(&self) -> (r: Self)
        ensures
            r@ == self@,
    {
        match self {
            NodeKind::Document => NodeKind::Document,
            NodeKind::Element(e) => NodeKind::Element(e.clone()),
            NodeKind::Text(s) => NodeKind::Text(s.clone()),
        }
    }
}

/// Two node kinds are alike when both are the document, both are text, or
/// both are elements of one kind; attributes and text do not count.
pub open spec fn alike(a: NodeKindView, b: NodeKindView) -> bool {
    match (a, b) {
        (NodeKindView::Document, NodeKindView::Document) => true,
        (NodeKindView::Element(x), NodeKindView::Element(y)) => x.kind == y.kind,
        (NodeKindView::Text(_), NodeKindView::Text(_)) => true,
        _ => false,
    }
}

impl NodeKind {
    /// Whether the two kinds are alike.
    pub fn same_kind(&self, other: &NodeKind) -> (r: bool)
        ensures
            r == alike(self@, other@),
    {
        match (self, other) {
            (NodeKind::Document, NodeKind::Document) => true,
            (NodeKind::Element(x), NodeKind::Element(y)) => x.kind().same(&y.kind()),
            (NodeKind::Text(_), NodeKind::Text(_)) => true,
            _ => false,
        }
    }
}

/// What a node is: what it holds, and the arena indices of the nodes around it.
pub struct NodeView {
    pub kind: NodeKindView,
    pub parent: Option<usize>,
    pub first_child: Option<usize>,
    pub last_child: Option<usize>,
    pub previous_sibling: Option<usize>,
    pub next_sibling: Option<usize>,
}

impl NodeView {
    /// A node that holds `kind` and is linked to nothing.
    pub open spec fn detached(kind: NodeKindView) -> NodeView {
        NodeView {
            kind,
            parent: None,
            first_child: None,
            last_child: None,
            previous_sibling: None,
            next_sibling: None,
        }
    }
}

#[derive(Debug)]
pub struct Node {
    pub kind: NodeKind,
    parent: Option<usize>,
    first_child: Option<usize>,
    last_child: Option<usize>,
    previous_sibling: Option<usize>,
    next_sibling: Option<usize>,
}

impl View for Node {
    type V = NodeView;

    closed spec fn view(&self) -> NodeView {
        NodeView {
            kind: self.kind@,
            parent: self.parent,
            first_child: self.first_child,
            last_child: self.last_child,
            previous_sibling: self.previous_sibling,
            next_sibling: self.next_sibling,
        }
    }
}

impl Clone for Node {
    fn clone(&self) -> (r: Self)
        ensures
            r@ == self@,
    {
        Node {
            kind: self.kind.clone(),
            parent: self.parent,
            first_child: self.first_child,
            last_child: self.last_child,
            previous_sibling: self.previous_sibling,
            next_sibling: self.next_sibling,
        }
    }
}

impl Node {
    pub fn new(kind: NodeKind) -> (n: Self)
        ensures
            n@ == NodeView::detached(kind@),
    {
        Self {
            kind,
            parent: None,
            first_child: None,
            last_child: None,
            previous_sibling: None,
            next_sibling: None,
        }
    }

    pub fn kind(&self) -> (k: NodeKind)
        ensures
            k@ == self@.kind,
    {
        self.kind.clone()
    }

    /// Whether the node is a document node.
    pub fn is_document(&self) -> (r: bool)
        ensures
            r == (self@.kind is Document),
    {
        match &self.kind {
            NodeKind::Document => true,
            _ => false,
        }
    }

    /// The element that the node holds, if it holds one.
    pub fn get_element(&self) -> (r: Option<Element>)
        ensures
            match self@.kind {
                NodeKindView::Element(e) => r is Some && r->Some_0@ == e,
                _ => r is None,
            },
    {
        match &self.kind {
            NodeKind::Document | NodeKind::Text(_) => None,
            NodeKind::Element(e) => Some(e.clone()),
        }
    }

    /// The kind of the element that the node holds, if it holds one.
    pub fn element_kind(&self) -> (r: Option<ElementKind>)
        ensures
            r == match self@.kind {
                NodeKindView::Element(e) => Some(e.kind),
                _ => None,
            },
    {
        match &self.kind {
            NodeKind::Document | NodeKind::Text(_) => None,
            NodeKind::Element(e) => Some(e.kind()),
        }
    }

    /// The text that the node holds, if it holds text.
    pub fn text(&self) -> (r: Option<String>)
        ensures
            match self@.kind {
                NodeKindView::Text(s) => r is Some && r->Some_0@ == s,
                _ => r is None,
            },
    {
        match &self.kind {
            NodeKind::Text(s) => Some(s.clone()),
            _ => None,
        }
    }

    /// Whether the two nodes hold kinds that are alike; links do not count.
    pub fn same_kind(&self, other: &Node) -> (r: bool)
        ensures
            r == alike(self@.kind, other@.kind),
    {
        self.kind.same_kind(&other.kind)
    }

    pub fn set_parent(&mut self, parent: Option<usize>)
        ensures
            final(self)@ == (NodeView { parent, ..old(self)@ }),
    {
        self.parent = parent;
    }

    pub fn parent(&self) -> (r: Option<usize>)
        ensures
            r == self@.parent,
    {
        self.parent
    }

    pub fn set_first_child(&mut self, first_child: Option<usize>)
        ensures
            final(self)@ == (NodeView { first_child, ..old(self)@ }),
    {
        self.first_child = first_child;
    }

    pub fn first_child(&self) -> (r: Option<usize>)
        ensures
            r == self@.first_child,
    {
        self.first_child
    }

    pub fn set_last_child(&mut self, last_child: Option<usize>)
        ensures
            final(self)@ == (NodeView { last_child, ..old(self)@ }),
    {
        self.last_child = last_child;
    }

    pub fn last_child(&self) -> (r: Option<usize>)
        ensures
            r == self@.last_child,
    {
        self.last_child
    }

    pub fn set_previous_sibling(&mut self, previous_sibling: Option<usize>)
        ensures
            final(self)@ == (NodeView { previous_sibling, ..old(self)@ }),
    {
        self.previous_sibling = previous_sibling;
    }

    pub fn previous_sibling(&self) -> (r: Option<usize>)
        ensures
            r == self@.previous_sibling,
    {
        self.previous_sibling
    }

    pub fn set_next_sibling(&mut self, next_sibling: Option<usize>)
        ensures
            final(self)@ == (NodeView { next_sibling, ..old(self)@ }),
    {
        self.next_sibling = next_sibling;
    }

    pub fn next_sibling(&self) -> (r: Option<usize>)
        ensures
            r == self@.next_sibling,
    {
        self.next_sibling
    }
}


/// Link `l`, where it is set, names a node of the arena.
pub open spec fn link_in_range(nodes: Seq<NodeView>, l: Option<usize>) -> bool {
    l is Some ==> l->0 < nodes.len()
}

/// The links of node `i` agree with the links of the nodes they name.
///
/// A parent comes before its children in the arena and a node before its
/// next sibling; so no chain of links returns to where it began.
pub open spec fn node_wf(nodes: Seq<NodeView>, i: int) -> bool {
    let n = nodes[i];
    &&& link_in_range(nodes, n.parent)
    &&& link_in_range(nodes, n.first_child)
    &&& link_in_range(nodes, n.last_child)
    &&& link_in_range(nodes, n.previous_sibling)
    &&& link_in_range(nodes, n.next_sibling)
    &&& (i == 0 ==> n.parent is None)
    &&& (i > 0 ==> n.parent is Some && n.parent->0 < i)
    &&& (n.parent is None ==> n.previous_sibling is None && n.next_sibling is None)
    &&& (n.first_child is None <==> n.last_child is None)
    &&& (n.first_child is Some ==> {
        let j = n.first_child->0 as int;
        nodes[j].parent == Some(i as usize) && nodes[j].previous_sibling is None
    })
    &&& (n.last_child is Some ==> {
        let j = n.last_child->0 as int;
        nodes[j].parent == Some(i as usize) && nodes[j].next_sibling is None
    })
    &&& (n.next_sibling is Some ==> {
        let j = n.next_sibling->0 as int;
        i < j && nodes[j].previous_sibling == Some(i as usize) && nodes[j].parent == n.parent
    })
    &&& (n.previous_sibling is Some ==> {
        let j = n.previous_sibling->0 as int;
        nodes[j].next_sibling == Some(i as usize) && nodes[j].parent == n.parent
    })
    &&& (n.parent is Some ==> {
        let p = n.parent->0 as int;
        &&& (n.previous_sibling is None ==> nodes[p].first_child == Some(i as usize))
        &&& (n.next_sibling is None ==> nodes[p].last_child == Some(i as usize))
    })
}

/// The arena is a tree: its first node is the document and no other node
/// is one, every other node hangs below it, and the links of every node
/// agree with those around it.
pub open spec fn tree_wf(nodes: Seq<NodeView>) -> bool {
    &&& 1 <= nodes.len() <= usize::MAX
    &&& nodes[0].kind is Document
    &&& forall|i: int| 0 < i < nodes.len() ==> !((#[trigger] nodes[i]).kind is Document)
    &&& forall|i: int| 0 <= i < nodes.len() ==> node_wf(nodes, i)
}

/// The arena of a new window: the document node alone.
pub open spec fn initial_tree() -> Seq<NodeView> {
    seq![NodeView::detached(NodeKindView::Document)]
}

/// Whether a node holding `kind` can be added below `parent`.
pub open spec fn can_append(nodes: Seq<NodeView>, parent: usize) -> bool {
    parent < nodes.len() && nodes.len() < usize::MAX
}

/// The arena with a new node that holds `kind`, added as the last child of
/// `parent`. The new node takes the next free index. Where nothing can be
/// added the arena is unchanged; a second document node is never added.
pub open spec fn append_child(nodes: Seq<NodeView>, parent: usize, kind: NodeKindView) -> Seq<
    NodeView,
> {
    if !can_append(nodes, parent) || kind is Document {
        nodes
    } else {
        let id = nodes.len() as usize;
        let before = nodes[parent as int].last_child;
        let child = NodeView {
            kind,
            parent: Some(parent),
            first_child: None,
            last_child: None,
            previous_sibling: before,
            next_sibling: None,
        };
        let linked = match before {
            Some(last) => if last < nodes.len() {
                nodes.update(last as int, NodeView { next_sibling: Some(id), ..nodes[last as int] })
            } else {
                nodes
            },
            None => nodes,
        };
        let p = linked[parent as int];
        linked.update(
            parent as int,
            NodeView {
                first_child: if before is None {
                    Some(id)
                } else {
                    p.first_child
                },
                last_child: Some(id),
                ..p
            },
        ).push(child)
    }
}

/// The arena with `c` added to the text of node `id`; unchanged where the
/// node holds no text.
pub open spec fn append_text(nodes: Seq<NodeView>, id: usize, c: char) -> Seq<NodeView> {
    if id < nodes.len() {
        match nodes[id as int].kind {
            NodeKindView::Text(s) => nodes.update(
                id as int,
                NodeView { kind: NodeKindView::Text(s.push(c)), ..nodes[id as int] },
            ),
            _ => nodes,
        }
    } else {
        nodes
    }
}

/// Adding a child keeps the arena a tree, keeps every node that was there
/// at its index with what it held, and hangs the new node last below its
/// parent.
pub proof fn lemma_append_child_wf(nodes: Seq<NodeView>, parent: usize, kind: NodeKindView)
    requires
        tree_wf(nodes),
    ensures
        tree_wf(append_child(nodes, parent, kind)),
        can_append(nodes, parent) && !(kind is Document) ==> {
            let after = append_child(nodes, parent, kind);
            &&& after.len() == nodes.len() + 1
            &&& after.last().kind == kind
            &&& after.last().parent == Some(parent)
            &&& after[parent as int].last_child == Some(nodes.len() as usize)
            &&& forall|i: int| 0 <= i < nodes.len() ==> (#[trigger] after[i]).kind == nodes[i].kind
            &&& forall|i: int| 0 <= i < nodes.len() ==> (#[trigger] after[i]).parent == nodes[i].parent
        },
{
    if can_append(nodes, parent) && !(kind is Document) {
        let after = append_child(nodes, parent, kind);
        assert(node_wf(nodes, parent as int));
        let before = nodes[parent as int].last_child;
        if before is Some {
            assert(node_wf(nodes, before->0 as int));
        }
        assert forall|i: int| 0 <= i < after.len() implies node_wf(after, i) by {
            if i < nodes.len() {
                assert(node_wf(nodes, i));
            }
        }
    }
}

/// Adding to a node's text keeps the arena a tree and changes no link.
pub proof fn lemma_append_text_wf(nodes: Seq<NodeView>, id: usize, c: char)
    requires
        tree_wf(nodes),
    ensures
        tree_wf(append_text(nodes, id, c)),
        append_text(nodes, id, c).len() == nodes.len(),
{
    let after = append_text(nodes, id, c);
    assert forall|i: int| 0 <= i < after.len() implies node_wf(after, i) by {
        assert(node_wf(nodes, i));
    }
}

#[derive(Debug)]
pub struct Window {
    nodes: Vec<Node>,
}

impl View for Window {
    type V = Seq<NodeView>;

    closed spec fn view(&self) -> Seq<NodeView> {
        Seq::new(self.nodes@.len(), |i: int| self.nodes@[i]@)
    }
}

impl Clone for Window {
    fn clone(&self) -> (r: Self)
        ensures
            r@ == self@,
    {
        let mut nodes: Vec<Node> = Vec::new();
        let mut i: usize = 0;
        while i < self.nodes.len()
            invariant
                i <= self.nodes.len(),
                nodes@.len() == i,
                forall|j: int| 0 <= j < i ==> nodes@[j]@ == self.nodes@[j]@,
            decreases self.nodes.len() - i,
        {
            nodes.push(self.nodes[i].clone());
            i += 1;
        }
        let r = Window { nodes };
        assert(r@ =~= self@);
        r
    }
}

impl Window {
    /// A window that owns a document node and nothing else.
    pub fn new() -> (w: Self)
        ensures
            w@ == initial_tree(),
            tree_wf(w@),
    {
        let mut nodes: Vec<Node> = Vec::new();
        nodes.push(Node::new(NodeKind::Document));
        let w = Window { nodes };
        assert(w@ =~= initial_tree());
        w
    }

    /// The index of the document node.
    pub fn document(&self) -> (id: usize)
        ensures
            id == 0,
    {
        0
    }

    /// How many nodes the window owns.
    pub fn len(&self) -> (n: usize)
        ensures
            n == self@.len(),
    {
        self.nodes.len()
    }

    /// The node at index `id`.
    pub fn node(&self, id: usize) -> (n: &Node)
        requires
            id < self@.len(),
        ensures
            n@ == self@[id as int],
    {
        &self.nodes[id]
    }

    /// The node at index `id`, or `None` where the window owns no such node.
    pub fn get(&self, id: usize) -> (n: Option<&Node>)
        ensures
            id < self@.len() ==> n is Some && n->Some_0@ == self@[id as int],
            id >= self@.len() ==> n is None,
    {
        if id < self.nodes.len() {
            Some(&self.nodes[id])
        } else {
            None
        }
    }

    /// Adds a node that holds `kind` as the last child of `parent` and
    /// returns its index; `None`, and nothing changed, where `parent` names
    /// no node, the arena is full, or `kind` is the document.
    pub fn append_child(&mut self, parent: usize, kind: NodeKind) -> (id: Option<usize>)
        ensures
            final(self)@ == append_child(old(self)@, parent, kind@),
            tree_wf(old(self)@) ==> tree_wf(final(self)@),
            id == if can_append(old(self)@, parent) && !(kind@ is Document) {
                Some(old(self)@.len() as usize)
            } else {
                None
            },
    {
        proof {
            if tree_wf(self@) {
                lemma_append_child_wf(self@, parent, kind@);
            }
        }
        let len = self.nodes.len();
        if parent >= len || len >= usize::MAX {
            return None;
        }
        if let NodeKind::Document = kind {
            return None;
        }
        let before = self.nodes[parent].last_child;
        let mut child = Node::new(kind);
        child.parent = Some(parent);
        child.previous_sibling = before;
        match before {
            Some(last) => {
                if last < len {
                    self.nodes[last].next_sibling = Some(len);
                }
            },
            None => {
                self.nodes[parent].first_child = Some(len);
            },
        }
        self.nodes[parent].last_child = Some(len);
        self.nodes.push(child);
        assert(self@ =~= append_child(old(self)@, parent, kind@));
        Some(len)
    }

    /// Adds `c` to the text of node `id`; nothing changes where the window
    /// owns no such node or the node holds no text.
    pub fn append_text(&mut self, id: usize, c: char)
        ensures
            final(self)@ == append_text(old(self)@, id, c),
            tree_wf(old(self)@) ==> tree_wf(final(self)@),
    {
        proof {
            if tree_wf(self@) {
                lemma_append_text_wf(self@, id, c);
            }
        }
        if id < self.nodes.len() {
            match &mut self.nodes[id].kind {
                NodeKind::Text(s) => {
                    push_char(s, c);
                },
                _ => {},
            }
        }
        assert(self@ =~= append_text(old(self)@, id, c));
    }
}

impl Default for Window {
    fn default() -> (w: Self)
        ensures
            w@ == initial_tree(),
    {
        Self::new()
    }
}

} // verus!
