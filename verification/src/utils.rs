//! A readable outline of a document tree.

use vstd::prelude::*;
use vstd::string::StringExecFns;
use crate::renderer::dom::node::NodeKindView;
use crate::renderer::dom::node::NodeView;
use crate::renderer::dom::node::Window;
use crate::renderer::dom::node::element_kind_name;

verus! {

/// One line of the outline for a node that holds `kind`.
pub open spec fn describe(kind: NodeKindView) -> Seq<char> {
    match kind {
        NodeKindView::Document => "Document"@,
        NodeKindView::Element(e) => "Element("@ + element_kind_name(e.kind) + ")"@,
        NodeKindView::Text(s) => "Text("@ + s + ")"@,
    }
}

/// Two spaces for each level of depth.
pub open spec fn indent(depth: nat) -> Seq<char>
    decreases depth,
{
    if depth == 0 {
        Seq::empty()
    } else {
        indent((depth - 1) as nat) + "  "@
    }
}

/// The link `l` of node `i` where it leads to a later node of the arena.
pub open spec fn later(nodes: Seq<NodeView>, i: usize, l: Option<usize>) -> Option<usize> {
    if l is Some && i < l->0 < nodes.len() {
        l
    } else {
        None
    }
}

/// The outline of the nodes reached from `start`: one indented line for
/// `start`, then the outline of what hangs below it, one level deeper, then
/// the outline of its later siblings.
pub open spec fn outline(nodes: Seq<NodeView>, start: Option<usize>, depth: nat) -> Seq<char>
    decreases
        nodes.len() - (match start {
            Some(i) => i as int,
            None => nodes.len() as int,
        }),
{
    match start {
        Some(i) => if i < nodes.len() {
            let n = nodes[i as int];
            indent(depth) + describe(n.kind) + "\n"@ + outline(
                nodes,
                later(nodes, i, n.first_child),
                depth + 1,
            ) + outline(nodes, later(nodes, i, n.next_sibling), depth)
        } else {
            Seq::empty()
        },
        None => Seq::empty(),
    }
}

fn push_indent(result: &mut String, depth: usize)
    ensures
        final(result)@ == old(result)@ + indent(depth as nat),
{
    let mut i: usize = 0;
    assert(result@ =~= old(result)@ + indent(0));
    while i < depth
        invariant
            i <= depth,
            result@ == old(result)@ + indent(i as nat),
        decreases depth - i,
    {
        result.append("  ");
        assert(result@ =~= old(result)@ + indent((i + 1) as nat));
        i += 1;
    }
}

fn push_description(result: &mut String, window: &Window, i: usize)
    requires
        i < window@.len(),
    ensures
        final(result)@ == old(result)@ + describe(window@[i as int].kind),
{
    let node = window.node(i);
    if node.is_document() {
        result.append("Document");
    } else {
        match node.element_kind() {
            Some(kind) => {
                result.append("Element(");
                let name = kind.name();
                result.append(name.as_str());
                result.append(")");
                assert(result@ =~= old(result)@ + describe(window@[i as int].kind));
            },
            None => match node.text() {
                Some(text) => {
                    result.append("Text(");
                    result.append(text.as_str());
                    result.append(")");
                    assert(result@ =~= old(result)@ + describe(window@[i as int].kind));
                },
                None => {},
            },
        }
    }
}

fn convert_dom_to_string_internal(
    window: &Window,
    start: Option<usize>,
    depth: usize,
    result: &mut String,
)
    requires
        start matches Some(i) ==> depth <= i,
    ensures
        final(result)@ == old(result)@ + outline(window@, start, depth as nat),
    decreases
        window@.len() - (match start {
            Some(i) => i as int,
            None => window@.len() as int,
        }),
{
    match start {
        Some(i) => {
            if i >= window.len() {
                assert(result@ =~= old(result)@ + outline(window@, start, depth as nat));
                return ;
            }
            let node = window.node(i);
            let below = match node.first_child() {
                Some(j) => if i < j && j < window.len() {
                    Some(j)
                } else {
                    None
                },
                None => None,
            };
            let after = match node.next_sibling() {
                Some(j) => if i < j && j < window.len() {
                    Some(j)
                } else {
                    None
                },
                None => None,
            };
            push_indent(result, depth);
            push_description(result, window, i);
            result.append("\n");
            convert_dom_to_string_internal(window, below, depth + 1, result);
            convert_dom_to_string_internal(window, after, depth, result);
            assert(result@ =~= old(result)@ + outline(window@, start, depth as nat));
        },
        None => {
            assert(result@ =~= old(result)@ + outline(window@, start, depth as nat));
        },
    }
}

/// The outline of the document from node `root` on, behind a line end.
pub fn convert_dom_to_string(window: &Window, root: Option<usize>) -> (s: String)
    ensures
        s@ == "\n"@ + outline(window@, root, 0),
{
    let mut result = String::new();
    result.append("\n");
    convert_dom_to_string_internal(window, root, 0, &mut result);
    assert(result@ =~= "\n"@ + outline(window@, root, 0));
    result
}

} // verus!
