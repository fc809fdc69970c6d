//! The decisions of the address bar: what a click and a key do to it. The
//! application reads the mouse and the keyboard and draws; what to do with
//! what it read is decided here.

use vstd::prelude::*;
use crate::text::chars_of;
use crate::text::push_char;
use crate::text::string_of;

verus! {

#[derive(Debug, Copy, Clone, PartialEq, Eq)]
pub enum InputMode {
    Normal,
    Editing,
}

/// Where the window of the browser stands and how its top is divided.
#[derive(Debug, Copy, Clone, PartialEq, Eq)]
pub struct Frame {
    pub x: i64,
    pub y: i64,
    pub width: i64,
    pub title_bar_height: i64,
    pub toolbar_height: i64,
}

/// Where a click went.
#[derive(Debug, Copy, Clone, PartialEq, Eq)]
pub enum Click {
    /// Left of, right of, above or below the strip that holds the toolbar.
    Outside,
    /// Into the toolbar, below the title bar.
    Toolbar,
    /// Anywhere else.
    Elsewhere,
}

/// Where a click at `(x, y)` went, seen from a window at `frame`.
pub open spec fn click_of(frame: Frame, x: int, y: int) -> Click {
    let rx = x - frame.x;
    let ry = y - frame.y;
    if rx < 0 || rx > frame.width || ry < 0 || ry > frame.toolbar_height {
        Click::Outside
    } else if ry < frame.toolbar_height + frame.title_bar_height && ry >= frame.title_bar_height {
        Click::Toolbar
    } else {
        Click::Elsewhere
    }
}

/// The mode that a click leaves the address bar in: a click outside or
/// into the toolbar starts editing, any other click ends it.
pub open spec fn mode_after(click: Click) -> InputMode {
    match click {
        Click::Outside => InputMode::Editing,
        Click::Toolbar => InputMode::Editing,
        Click::Elsewhere => InputMode::Normal,
    }
}

/// Whether a click empties the address: one into the toolbar does.
pub open spec fn clears_address(click: Click) -> bool {
    click == Click::Toolbar
}

/// The key that takes the last character away: delete or backspace.
pub open spec fn is_erase(c: char) -> bool {
    c == '\u{7f}' || c == '\u{8}'
}

/// The address after the key `c`: without its last character for an erase
/// key, with `c` at its end for any other.
pub open spec fn address_after(address: Seq<char>, c: char) -> Seq<char> {
    if is_erase(c) {
        if address.len() > 0 {
            address.drop_last()
        } else {
            address
        }
    } else {
        address.push(c)
    }
}

impl Frame {
    /// Where a click at `(x, y)` went.
    pub fn classify(&self, x: i64, y: i64) -> (click: Click)
        ensures
            click == click_of(*self, x as int, y as int),
    {
        let rx: i128 = x as i128 - self.x as i128;
        let ry: i128 = y as i128 - self.y as i128;
        if rx < 0 || rx > self.width as i128 || ry < 0 || ry > self.toolbar_height as i128 {
            Click::Outside
        } else if ry < self.toolbar_height as i128 + self.title_bar_height as i128 && ry
            >= self.title_bar_height as i128 {
            Click::Toolbar
        } else {
            Click::Elsewhere
        }
    }
}

impl Click {
    /// The mode that the click leaves the address bar in.
    pub fn mode(&self) -> (m: InputMode)
        ensures
            m == mode_after(*self),
    {
        match self {
            Click::Outside => InputMode::Editing,
            Click::Toolbar => InputMode::Editing,
            Click::Elsewhere => InputMode::Normal,
        }
    }

    /// Whether the click empties the address.
    pub fn clears(&self) -> (r: bool)
        ensures
            r == clears_address(*self),
    {
        matches!(self, Click::Toolbar)
    }
}

/// Applies the key `c` to the address that is being edited.
pub fn edit_address(address: &mut String, c: char)
    ensures
        final(address)@ == address_after(old(address)@, c),
{
    if c == '\u{7f}' || c == '\u{8}' {
        let mut chars = chars_of(address.as_str());
        if chars.len() > 0 {
            let _ = chars.pop();
            *address = string_of(&chars);
        }
    } else {
        push_char(address, c);
    }
}

} // verus!
