//! The layout of a document. Nothing is laid out yet: the view finds the
//! body that it would lay out and holds no object.

use vstd::prelude::*;
use crate::renderer::dom::api::Query;
use crate::renderer::dom::api::document_order;
use crate::renderer::dom::api::first_picked;
use crate::renderer::dom::api::get_target_element_node;
use crate::renderer::dom::node::ElementKind;
use crate::renderer::dom::node::Window;
use crate::renderer::layout::layout_object::LayoutObject;

verus! {

#[derive(Debug)]
pub struct LayoutView {
    body: Option<usize>,
    root: Option<LayoutObject>,
}

impl LayoutView {
    /// The view of the document in `window`: it knows the first body
    /// element from `root` on, in document order, and has no objects.
    pub fn new(window: &Window, root: usize) -> (v: Self)
        ensures
            v.body_node() == first_picked(
                window@,
                document_order(window@, Some(root)),
                Query::Kind(ElementKind::Body),
            ),
            v.is_empty(),
    {
        let body = get_target_element_node(window, Some(root), ElementKind::Body);
        let mut tree = Self { body, root: None };
        tree.update_layout();
        tree
    }

    /// The body element that the view would lay out.
    pub closed spec fn body_node(&self) -> Option<usize> {
        self.body
    }

    /// The view holds no object.
    pub closed spec fn is_empty(&self) -> bool {
        self.root is None
    }

    /// The body element that the view would lay out.
    pub fn body(&self) -> (r: Option<usize>)
        ensures
            r == self.body_node(),
    {
        self.body
    }

    /// The first object of the view, if it has one.
    pub fn root(&self) -> (r: Option<&LayoutObject>)
        ensures
            r is None <==> self.is_empty(),
    {
        match &self.root {
            Some(o) => Some(o),
            None => None,
        }
    }

    /// Places the objects of the view; a view without objects stays as it
    /// is.
    fn update_layout(&mut self)
        ensures
            *final(self) == *old(self),
    {
    }
}

} // verus!
