//! Styles and the objects that layout places.

pub mod computed_style;
pub mod layout_object;
pub mod layout_view;
