//! What painting draws: rectangles, text and images.

use vstd::prelude::*;
use crate::renderer::layout::computed_style::ComputedStyle;
use crate::renderer::layout::layout_object::LayoutPoint;
use crate::renderer::layout::layout_object::LayoutSize;

verus! {

#[derive(Debug, PartialEq)]
pub enum DisplayItem {
    Rect { style: ComputedStyle, layout_point: LayoutPoint, layout_size: LayoutSize },
    Text { style: ComputedStyle, layout_point: LayoutPoint, text: String },
    Img { src: String, style: ComputedStyle, layout_point: LayoutPoint },
}

impl DisplayItem {
    pub fn is_rect(&self) -> (r: bool)
        ensures
            r == (*self is Rect),
    {
        matches!(self, DisplayItem::Rect { .. })
    }

    pub fn is_text(&self) -> (r: bool)
        ensures
            r == (*self is Text),
    {
        matches!(self, DisplayItem::Text { .. })
    }
}

} // verus!
