//! A name/value pair attached to a start tag.

use vstd::prelude::*;
use crate::text::push_char;

verus! {

/// What an attribute is: its name and its value as sequences of characters.
pub struct AttributeView {
    pub name: Seq<char>,
    pub value: Seq<char>,
}

#[derive(Debug, PartialEq, Eq)]
pub struct Attribute {
    name: String,
    value: String,
}

impl View for Attribute {
    type V = AttributeView;

    closed spec fn view(&self) -> AttributeView {
        AttributeView { name: self.name@, value: self.value@ }
    }
}

impl Attribute {
    pub fn new(name: String, value: String) -> (a: Self)
        ensures
            a@ == (AttributeView { name: name@, value: value@ }),
    {
        Self { name, value }
    }

    /// Appends `c` to the name when `is_name` holds, else to the value.
    pub fn add_char(&mut self, c: char, is_name: bool)
        ensures
            final(self)@ == old(self)@.with_char(c, is_name),
    {
        if is_name {
            push_char(&mut self.name, c);
        } else {
            push_char(&mut self.value, c);
        }
    }

    pub fn name(&self) -> (s: String)
        ensures
            s@ == self@.name,
    {
        self.name.clone()
    }

    pub fn value(&self) -> (s: String)
        ensures
            s@ == self@.value,
    {
        self.value.clone()
    }

}

impl Clone for Attribute {
    fn clone(&self) -> (a: Self)
        ensures
            a@ == self@,
    {
        Self { name: self.name.clone(), value: self.value.clone() }
    }
}

impl AttributeView {
    /// The attribute with `c` appended to its name or to its value.
    pub open spec fn with_char(self, c: char, is_name: bool) -> AttributeView {
        if is_name {
            AttributeView { name: self.name.push(c), value: self.value }
        } else {
            AttributeView { name: self.name, value: self.value.push(c) }
        }
    }
}

} // verus!
