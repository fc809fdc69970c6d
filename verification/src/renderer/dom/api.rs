//! Queries on the document tree: the first node, in document order, that an
//! identifier or a kind of element picks out.

use vstd::prelude::*;
use crate::renderer::dom::node::ElementKind;
use crate::renderer::dom::node::NodeKindView;
use crate::renderer::dom::node::NodeView;
use crate::renderer::dom::node::Window;
use crate::renderer::dom::node::first_attribute;

verus! {

/// What a query looks for.
pub enum Query {
    /// An element whose first `id` attribute has this value.
    Id(Seq<char>),
    /// An element of this kind.
    Kind(ElementKind),
}

impl Query {
    /// Whether the node is one that the query looks for.
    pub open spec fn picks(self, n: NodeView) -> bool {
        match n.kind {
            NodeKindView::Element(e) => match self {
                Query::Id(id) => first_attribute(e.attributes, "id"@) == Some(id),
                Query::Kind(k) => e.kind == k,
            },
            _ => false,
        }
    }
}

/// The nodes reached from `start` in document order: `start`, then all that
/// hangs below it, then its later siblings, each followed by what hangs below
/// it.
pub open spec fn document_order(nodes: Seq<NodeView>, start: Option<usize>) -> Seq<usize>
    decreases
        nodes.len() - (match start {
            Some(i) => i as int,
            None => nodes.len() as int,
        }),
{
    match start {
        Some(i) => if i < nodes.len() {
            let n = nodes[i as int];
            let below = if n.first_child is Some && i < n.first_child->0 < nodes.len() {
                document_order(nodes, n.first_child)
            } else {
                Seq::empty()
            };
            let after = if n.next_sibling is Some && i < n.next_sibling->0 < nodes.len() {
                document_order(nodes, n.next_sibling)
            } else {
                Seq::empty()
            };
            seq![i] + below + after
        } else {
            Seq::empty()
        },
        None => Seq::empty(),
    }
}

/// The first node of `order` that the query picks, if any.
pub open spec fn first_picked(nodes: Seq<NodeView>, order: Seq<usize>, query: Query) -> Option<
    usize,
>
    decreases order.len(),
{
    if order.len() == 0 {
        None
    } else if order[0] < nodes.len() && query.picks(nodes[order[0] as int]) {
        Some(order[0])
    } else {
        first_picked(nodes, order.drop_first(), query)
    }
}

/// The first picked node of two orders, one after the other, is the first
/// picked node of the first, or else that of the second.
pub proof fn lemma_first_picked_concat(
    nodes: Seq<NodeView>,
    a: Seq<usize>,
    b: Seq<usize>,
    query: Query,
)
    ensures
        first_picked(nodes, a + b, query) == match first_picked(nodes, a, query) {
            Some(i) => Some(i),
            None => first_picked(nodes, b, query),
        },
    decreases a.len(),
{
    if a.len() == 0 {
        assert(a + b =~= b);
    } else {
        assert((a + b).drop_first() =~= a.drop_first() + b);
        lemma_first_picked_concat(nodes, a.drop_first(), b, query);
    }
}

/// The first picked node of an order of one node is that node or none.
pub proof fn lemma_first_picked_single(nodes: Seq<NodeView>, n: usize, query: Query)
    ensures
        first_picked(nodes, seq![n], query) == if n < nodes.len() && query.picks(nodes[n as int]) {
            Some(n)
        } else {
            None
        },
{
    reveal_with_fuel(first_picked, 3);
    assert(seq![n].drop_first() =~= Seq::<usize>::empty());
}

/// What a picked node is: a node of the arena that the query picks.
pub proof fn lemma_first_picked_is_picked(nodes: Seq<NodeView>, order: Seq<usize>, query: Query)
    ensures
        first_picked(nodes, order, query) matches Some(i) ==> i < nodes.len() && query.picks(
            nodes[i as int],
        ) && order.contains(i),
    decreases order.len(),
{
    if order.len() > 0 {
        if order[0] < nodes.len() && query.picks(nodes[order[0] as int]) {
            assert(order[0] == order[0]);
        } else {
            lemma_first_picked_is_picked(nodes, order.drop_first(), query);
            let found = first_picked(nodes, order.drop_first(), query);
            if found is Some {
                let i = found->0;
                let k = choose|k: int|
                    0 <= k < order.drop_first().len() && order.drop_first()[k] == i;
                assert(order[k + 1] == i);
            }
        }
    }
}

/// The link `l` of node `n` where it leads to a later node of the window;
/// a walk follows no other link, so it cannot return to where it has been.
fn later_link(window: &Window, n: usize, l: Option<usize>) -> (r: Option<usize>)
    ensures
        r == if l is Some && n < l->0 < window@.len() {
            l
        } else {
            None
        },
{
    match l {
        Some(j) => if n < j && j < window.len() {
            l
        } else {
            None
        },
        None => None,
    }
}

/// Whether node `n` of the window has `id_name` as the value of its first
/// `id` attribute.
fn node_has_id(window: &Window, n: usize, id_name: &str) -> (r: bool)
    requires
        n < window@.len(),
    ensures
        r == Query::Id(id_name@).picks(window@[n as int]),
{
    match window.node(n).get_element() {
        Some(e) => match e.get_attribute("id") {
            Some(v) => crate::text::str_equal(v.as_str(), id_name),
            None => false,
        },
        None => false,
    }
}

/// Whether node `n` of the window is an element of kind `kind`.
fn node_has_kind(window: &Window, n: usize, kind: ElementKind) -> (r: bool)
    requires
        n < window@.len(),
    ensures
        r == Query::Kind(kind).picks(window@[n as int]),
{
    match window.node(n).element_kind() {
        Some(k) => k.same(&kind),
        None => false,
    }
}

/// The first element, in document order from `node` on, whose first `id`
/// attribute has the value `id_name`.
pub fn get_element_by_id(window: &Window, node: Option<usize>, id_name: &str) -> (r: Option<usize>)
    ensures
        r == first_picked(window@, document_order(window@, node), Query::Id(id_name@)),
    decreases
        window@.len() - (match node {
            Some(i) => i as int,
            None => window@.len() as int,
        }),
{
    match node {
        Some(n) => {
            if n >= window.len() {
                return None;
            }
            let ghost nodes = window@;
            let ghost query = Query::Id(id_name@);
            let first_child = later_link(window, n, window.node(n).first_child());
            let next_sibling = later_link(window, n, window.node(n).next_sibling());
            proof {
                let below = document_order(nodes, first_child);
                let after = document_order(nodes, next_sibling);
                assert(document_order(nodes, None) =~= Seq::<usize>::empty());
                assert(document_order(nodes, Some(n)) == seq![n] + below + after);
                lemma_first_picked_concat(nodes, seq![n] + below, after, query);
                lemma_first_picked_concat(nodes, seq![n], below, query);
                lemma_first_picked_single(nodes, n, query);
            }
            if node_has_id(window, n, id_name) {
                return Some(n);
            }
            let below = get_element_by_id(window, first_child, id_name);
            if below.is_some() {
                return below;
            }
            get_element_by_id(window, next_sibling, id_name)
        },
        None => None,
    }
}

/// The first element of kind `element_kind`, in document order from `node`
/// on.
pub fn get_target_element_node(window: &Window, node: Option<usize>, element_kind: ElementKind) -> (r:
    Option<usize>)
    ensures
        r == first_picked(window@, document_order(window@, node), Query::Kind(element_kind)),
    decreases
        window@.len() - (match node {
            Some(i) => i as int,
            None => window@.len() as int,
        }),
{
    match node {
        Some(n) => {
            if n >= window.len() {
                return None;
            }
            let ghost nodes = window@;
            let ghost query = Query::Kind(element_kind);
            let first_child = later_link(window, n, window.node(n).first_child());
            let next_sibling = later_link(window, n, window.node(n).next_sibling());
            proof {
                let below = document_order(nodes, first_child);
                let after = document_order(nodes, next_sibling);
                assert(document_order(nodes, None) =~= Seq::<usize>::empty());
                assert(document_order(nodes, Some(n)) == seq![n] + below + after);
                lemma_first_picked_concat(nodes, seq![n] + below, after, query);
                lemma_first_picked_concat(nodes, seq![n], below, query);
                lemma_first_picked_single(nodes, n, query);
            }
            if node_has_kind(window, n, element_kind) {
                return Some(n);
            }
            let below = get_target_element_node(window, first_child, element_kind);
            if below.is_some() {
                return below;
            }
            get_target_element_node(window, next_sibling, element_kind)
        },
        None => None,
    }
}

} // verus!
