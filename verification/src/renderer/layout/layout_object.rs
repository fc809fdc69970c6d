//! The objects that layout places: one per node that is shown, linked by
//! index like the nodes of the document.

use vstd::prelude::*;
use crate::renderer::dom::node::Node;
use crate::renderer::dom::node::NodeKind;
use crate::renderer::dom::node::NodeKindView;
use crate::renderer::layout::computed_style::ComputedStyle;
use crate::renderer::layout::computed_style::ComputedStyleView;

verus! {

#[derive(Debug, Copy, Clone, PartialEq, Eq)]
pub enum LayoutObjectKind {
    Block,
    Inline,
    Text,
}

#[derive(Debug, Copy, Clone, PartialEq, Eq)]
pub struct LayoutPoint {
    pub x: i64,
    pub y: i64,
}

impl LayoutPoint {
    pub fn new(x: i64, y: i64) -> (p: Self)
        ensures
            p == (LayoutPoint { x, y }),
    {
        Self { x, y }
    }

    pub fn x(&self) -> (x: i64)
        ensures
            x == self.x,
    {
        self.x
    }

    pub fn y(&self) -> (y: i64)
        ensures
            y == self.y,
    {
        self.y
    }

    pub fn set_x(&mut self, x: i64)
        ensures
            *final(self) == (LayoutPoint { x, y: old(self).y }),
    {
        self.x = x;
    }

    pub fn set_y(&mut self, y: i64)
        ensures
            *final(self) == (LayoutPoint { x: old(self).x, y }),
    {
        self.y = y;
    }
}

#[derive(Debug, Copy, Clone, PartialEq, Eq)]
pub struct LayoutSize {
    pub width: i64,
    pub height: i64,
}

impl LayoutSize {
    pub fn new(width: i64, height: i64) -> (s: Self)
        ensures
            s == (LayoutSize { width, height }),
    {
        Self { width, height }
    }

    pub fn width(&self) -> (w: i64)
        ensures
            w == self.width,
    {
        self.width
    }

    pub fn height(&self) -> (h: i64)
        ensures
            h == self.height,
    {
        self.height
    }

    pub fn set_width(&mut self, width: i64)
        ensures
            *final(self) == (LayoutSize { width, height: old(self).height }),
    {
        self.width = width;
    }

    pub fn set_height(&mut self, height: i64)
        ensures
            *final(self) == (LayoutSize { width: old(self).width, height }),
    {
        self.height = height;
    }
}

/// What a layout object is: its kind, what its node holds, the indices of
/// the objects around it, its style and where it stands.
pub struct LayoutObjectView {
    pub kind: LayoutObjectKind,
    pub node_kind: NodeKindView,
    pub first_child: Option<usize>,
    pub next_sibling: Option<usize>,
    pub parent: Option<usize>,
    pub style: ComputedStyleView,
    pub point: LayoutPoint,
    pub size: LayoutSize,
}

#[derive(Debug)]
pub struct LayoutObject {
    kind: LayoutObjectKind,
    node: NodeKind,
    first_child: Option<usize>,
    next_sibling: Option<usize>,
    parent: Option<usize>,
    style: ComputedStyle,
    point: LayoutPoint,
    size: LayoutSize,
}

impl View for LayoutObject {
    type V = LayoutObjectView;

    closed spec fn view(&self) -> LayoutObjectView {
        LayoutObjectView {
            kind: self.kind,
            node_kind: self.node@,
            first_child: self.first_child,
            next_sibling: self.next_sibling,
            parent: self.parent,
            style: self.style@,
            point: self.point,
            size: self.size,
        }
    }
}

impl LayoutObject {
    /// A block object for `node` below the object `parent_obj`, with no
    /// style set, at the origin and without extent.
    pub fn new(node: &Node, parent_obj: Option<usize>) -> (o: Self)
        ensures
            o@ == (LayoutObjectView {
                kind: LayoutObjectKind::Block,
                node_kind: node@.kind,
                first_child: None,
                next_sibling: None,
                parent: parent_obj,
                style: ComputedStyleView::empty(),
                point: LayoutPoint { x: 0, y: 0 },
                size: LayoutSize { width: 0, height: 0 },
            }),
    {
        Self {
            kind: LayoutObjectKind::Block,
            node: node.kind(),
            first_child: None,
            next_sibling: None,
            parent: parent_obj,
            style: ComputedStyle::new(),
            point: LayoutPoint::new(0, 0),
            size: LayoutSize::new(0, 0),
        }
    }

    pub fn kind(&self) -> (k: LayoutObjectKind)
        ensures
            k == self@.kind,
    {
        self.kind
    }

    pub fn node_kind(&self) -> (k: NodeKind)
        ensures
            k@ == self@.node_kind,
    {
        self.node.clone()
    }

    pub fn set_first_child(&mut self, first_child: Option<usize>)
        ensures
            final(self)@ == (LayoutObjectView { first_child, ..old(self)@ }),
    {
        self.first_child = first_child;
    }

    pub fn first_child(&self) -> (r: Option<usize>)
        ensures
            r == self@.first_child,
    {
        self.first_child
    }

    pub fn set_next_sibling(&mut self, next_sibling: Option<usize>)
        ensures
            final(self)@ == (LayoutObjectView { next_sibling, ..old(self)@ }),
    {
        self.next_sibling = next_sibling;
    }

    pub fn next_sibling(&self) -> (r: Option<usize>)
        ensures
            r == self@.next_sibling,
    {
        self.next_sibling
    }

    pub fn parent(&self) -> (r: Option<usize>)
        ensures
            r == self@.parent,
    {
        self.parent
    }

    pub fn style(&self) -> (s: ComputedStyle)
        ensures
            s@ == self@.style,
    {
        self.style.clone()
    }

    pub fn point(&self) -> (p: LayoutPoint)
        ensures
            p == self@.point,
    {
        self.point
    }

    pub fn size(&self) -> (s: LayoutSize)
        ensures
            s == self@.size,
    {
        self.size
    }
}

} // verus!
