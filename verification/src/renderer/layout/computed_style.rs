//! The style that layout works with: colours, display type, font size and
//! text decoration, and the rule that fills in what a style leaves open.

use vstd::prelude::*;
use vstd::string::StringExecFns;
use crate::error::Error;
use crate::renderer::dom::node::ElementKind;
use crate::renderer::dom::node::Node;
use crate::renderer::dom::node::NodeKindView;
use crate::text::chars_of;
use crate::text::str_equal;

verus! {

#[derive(Debug, Copy, Clone, PartialEq, Eq)]
pub enum DisplayType {
    Block,
    Inline,
    DisplayNone,
}

/// The display type of a node whose style names none: block for the
/// document and for block elements, inline for everything else.
pub open spec fn default_display(kind: NodeKindView) -> DisplayType {
    match kind {
        NodeKindView::Document => DisplayType::Block,
        NodeKindView::Element(e) => if e.kind == ElementKind::Body || e.kind == ElementKind::H1
            || e.kind == ElementKind::H2 || e.kind == ElementKind::P {
            DisplayType::Block
        } else {
            DisplayType::Inline
        },
        NodeKindView::Text(_) => DisplayType::Inline,
    }
}

/// The display type that a name stands for, if any.
pub open spec fn display_of(s: Seq<char>) -> Option<DisplayType> {
    if s == "block"@ {
        Some(DisplayType::Block)
    } else if s == "inline"@ {
        Some(DisplayType::Inline)
    } else if s == "none"@ {
        Some(DisplayType::DisplayNone)
    } else {
        None
    }
}

/// `message` between `before` and `after`.
pub open spec fn framed(before: Seq<char>, message: Seq<char>, after: Seq<char>) -> Seq<char> {
    before + message + after
}

/// The error that reports input that cannot be used.
fn unexpected(before: &str, message: &str, after: &str) -> (e: Error)
    ensures
        e == Error::UnexpectedInput(e->UnexpectedInput_0),
        e.message_view() == framed(before@, message@, after@),
{
    let mut s = String::new();
    s.append(before);
    s.append(message);
    s.append(after);
    Error::UnexpectedInput(s)
}

impl DisplayType {
    pub fn default(node: &Node) -> (d: Self)
        ensures
            d == default_display(node@.kind),
    {
        if node.is_document() {
            DisplayType::Block
        } else {
            match node.get_element() {
                Some(e) => if e.is_block_element() {
                    DisplayType::Block
                } else {
                    DisplayType::Inline
                },
                None => DisplayType::Inline,
            }
        }
    }

    /// The display type named `s`, or an error that quotes `s`.
    pub fn from_str_display(s: &str) -> (r: Result<Self, Error>)
        ensures
            match display_of(s@) {
                Some(d) => r == Ok::<Self, Error>(d),
                None => r is Err && r->Err_0 is UnexpectedInput && r->Err_0.message_view()
                    == framed("display type \""@, s@, "\" is not supported yet"@),
            },
    {
        if str_equal(s, "block") {
            Ok(Self::Block)
        } else if str_equal(s, "inline") {
            Ok(Self::Inline)
        } else if str_equal(s, "none") {
            Ok(Self::DisplayNone)
        } else {
            Err(unexpected("display type \"", s, "\" is not supported yet"))
        }
    }
}

#[derive(Debug, Copy, Clone, PartialEq, Eq)]
pub enum TextDecoration {
    NoDecoration,
    Underline,
}

/// The text decoration of a node whose style names none: anchors are
/// underlined.
pub open spec fn default_text_decoration(kind: NodeKindView) -> TextDecoration {
    match kind {
        NodeKindView::Element(e) => if e.kind == ElementKind::A {
            TextDecoration::Underline
        } else {
            TextDecoration::NoDecoration
        },
        _ => TextDecoration::NoDecoration,
    }
}

impl TextDecoration {
    pub fn default(node: &Node) -> (d: Self)
        ensures
            d == default_text_decoration(node@.kind),
    {
        match node.element_kind() {
            Some(ElementKind::A) => TextDecoration::Underline,
            _ => TextDecoration::NoDecoration,
        }
    }
}

#[derive(Debug, Copy, Clone, PartialEq, Eq)]
pub enum FontSize {
    Medium,
    XLarge,
    XXLarge,
}

/// The font size of a node whose style names none: the two headings are
/// larger than the rest.
pub open spec fn default_font_size(kind: NodeKindView) -> FontSize {
    match kind {
        NodeKindView::Element(e) => if e.kind == ElementKind::H1 {
            FontSize::XXLarge
        } else if e.kind == ElementKind::H2 {
            FontSize::XLarge
        } else {
            FontSize::Medium
        },
        _ => FontSize::Medium,
    }
}

impl FontSize {
    pub fn default(node: &Node) -> (d: Self)
        ensures
            d == default_font_size(node@.kind),
    {
        match node.element_kind() {
            Some(ElementKind::H1) => FontSize::XXLarge,
            Some(ElementKind::H2) => FontSize::XLarge,
            _ => FontSize::Medium,
        }
    }
}

/// `c` is a hexadecimal digit.
pub open spec fn is_hex_digit(c: char) -> bool {
    ('0' <= c && c <= '9') || ('A' <= c && c <= 'F') || ('a' <= c && c <= 'f')
}

/// The value of a hexadecimal digit.
pub open spec fn hex_digit_value(c: char) -> nat {
    if '0' <= c && c <= '9' {
        ((c as u8) - 48u8) as nat
    } else if 'A' <= c && c <= 'F' {
        ((c as u8) - 55u8) as nat
    } else if 'a' <= c && c <= 'f' {
        ((c as u8) - 87u8) as nat
    } else {
        0
    }
}

/// The number that a run of hexadecimal digits writes.
pub open spec fn hex_value(digits: Seq<char>) -> nat
    decreases digits.len(),
{
    if digits.len() == 0 {
        0
    } else {
        hex_value(digits.drop_last()) * 16 + hex_digit_value(digits.last())
    }
}

/// `code` is a colour code: `#` and six hexadecimal digits.
pub open spec fn is_color_code(code: Seq<char>) -> bool {
    &&& code.len() == 7
    &&& code[0] == '#'
    &&& forall|i: int| 1 <= i < 7 ==> is_hex_digit(#[trigger] code[i])
}

/// The colour code that a colour name stands for, if the name is known.
pub open spec fn code_of_name(name: Seq<char>) -> Option<Seq<char>> {
    if name == "black"@ {
        Some("#000000"@)
    } else if name == "silver"@ {
        Some("#C0C0C0"@)
    } else if name == "gray"@ {
        Some("#808080"@)
    } else if name == "white"@ {
        Some("#FFFFFF"@)
    } else if name == "maroon"@ {
        Some("#800000"@)
    } else if name == "red"@ {
        Some("#FF0000"@)
    } else if name == "purple"@ {
        Some("#800080"@)
    } else if name == "fuchsia"@ {
        Some("#FF00FF"@)
    } else if name == "green"@ {
        Some("#00FF00"@)
    } else if name == "lime"@ {
        Some("#00FF00"@)
    } else if name == "olive"@ {
        Some("#808000"@)
    } else if name == "yellow"@ {
        Some("#FFFF00"@)
    } else if name == "navy"@ {
        Some("#000080"@)
    } else if name == "blue"@ {
        Some("#0000FF"@)
    } else if name == "teal"@ {
        Some("#008080"@)
    } else if name == "aqua"@ {
        Some("#00FFFF"@)
    } else if name == "orange"@ {
        Some("#FFA500"@)
    } else if name == "lightgray"@ {
        Some("#D3D3D3"@)
    } else {
        None
    }
}

/// The colour name that a colour code stands for, if the code is known.
pub open spec fn name_of_code(code: Seq<char>) -> Option<Seq<char>> {
    if code == "#000000"@ {
        Some("black"@)
    } else if code == "#C0C0C0"@ {
        Some("silver"@)
    } else if code == "#808080"@ {
        Some("gray"@)
    } else if code == "#FFFFFF"@ {
        Some("white"@)
    } else if code == "#800000"@ {
        Some("maroon"@)
    } else if code == "#FF0000"@ {
        Some("red"@)
    } else if code == "#800080"@ {
        Some("purple"@)
    } else if code == "#FF00FF"@ {
        Some("fuchsia"@)
    } else if code == "#008000"@ {
        Some("green"@)
    } else if code == "#00FF00"@ {
        Some("lime"@)
    } else if code == "#808000"@ {
        Some("olive"@)
    } else if code == "#FFFF00"@ {
        Some("yellow"@)
    } else if code == "#000080"@ {
        Some("navy"@)
    } else if code == "#0000FF"@ {
        Some("blue"@)
    } else if code == "#008080"@ {
        Some("teal"@)
    } else if code == "#00FFFF"@ {
        Some("aqua"@)
    } else if code == "#FFA500"@ {
        Some("orange"@)
    } else if code == "#D3D3D3"@ {
        Some("lightgray"@)
    } else {
        None
    }
}

/// What a colour is: its name, if it has one, and its code.
pub struct ColorView {
    pub name: Option<Seq<char>>,
    pub code: Seq<char>,
}

#[derive(Debug, PartialEq)]
pub struct Color {
    name: Option<String>,
    code: String,
}

impl View for Color {
    type V = ColorView;

    closed spec fn view(&self) -> ColorView {
        ColorView {
            name: match self.name {
                Some(n) => Some(n@),
                None => None,
            },
            code: self.code@,
        }
    }
}

impl Clone for Color {
    fn clone(&self) -> (r: Self)
        ensures
            r@ == self@,
    {
        proof {
            use_type_invariant(self);
        }
        Color {
            name: match &self.name {
                Some(n) => Some(n.clone()),
                None => None,
            },
            code: self.code.clone(),
        }
    }
}

/// Sixteen to the power of `n`.
pub open spec fn pow16(n: nat) -> nat
    decreases n,
{
    if n == 0 {
        1
    } else {
        16 * pow16((n - 1) as nat)
    }
}

/// A run of hexadecimal digits writes a number below sixteen to the power
/// of its length.
pub proof fn lemma_hex_value_bound(digits: Seq<char>)
    ensures
        hex_value(digits) < pow16(digits.len()),
    decreases digits.len(),
{
    if digits.len() > 0 {
        lemma_hex_value_bound(digits.drop_last());
    }
}

impl Color {
    #[verifier::type_invariant]
    closed spec fn inv(self) -> bool {
        is_color_code(self.code@)
    }

    /// A colour of a known name with the code that the name stands for.
    fn known(name: &str, code: &str) -> (c: Self)
        requires
            is_color_code(code@),
        ensures
            c@ == (ColorView { name: Some(name@), code: code@ }),
    {
        Self { name: Some(name.to_owned()), code: code.to_owned() }
    }

    /// The colour named `name`, or an error that quotes `name`.
    pub fn from_name(name: &str) -> (r: Result<Self, Error>)
        ensures
            match code_of_name(name@) {
                Some(code) => r is Ok && r->Ok_0@ == (ColorView { name: Some(name@), code }),
                None => r is Err && r->Err_0 is UnexpectedInput && r->Err_0.message_view()
                    == framed("color name \""@, name@, "\" is not supported yet"@),
            },
    {
        proof {
            reveal_strlit("#000000");
            reveal_strlit("#C0C0C0");
            reveal_strlit("#808080");
            reveal_strlit("#FFFFFF");
            reveal_strlit("#800000");
            reveal_strlit("#FF0000");
            reveal_strlit("#800080");
            reveal_strlit("#FF00FF");
            reveal_strlit("#00FF00");
            reveal_strlit("#808000");
            reveal_strlit("#FFFF00");
            reveal_strlit("#000080");
            reveal_strlit("#0000FF");
            reveal_strlit("#008080");
            reveal_strlit("#00FFFF");
            reveal_strlit("#FFA500");
            reveal_strlit("#D3D3D3");
        }
        let code = if str_equal(name, "black") {
            "#000000"
        } else if str_equal(name, "silver") {
            "#C0C0C0"
        } else if str_equal(name, "gray") {
            "#808080"
        } else if str_equal(name, "white") {
            "#FFFFFF"
        } else if str_equal(name, "maroon") {
            "#800000"
        } else if str_equal(name, "red") {
            "#FF0000"
        } else if str_equal(name, "purple") {
            "#800080"
        } else if str_equal(name, "fuchsia") {
            "#FF00FF"
        } else if str_equal(name, "green") {
            "#00FF00"
        } else if str_equal(name, "lime") {
            "#00FF00"
        } else if str_equal(name, "olive") {
            "#808000"
        } else if str_equal(name, "yellow") {
            "#FFFF00"
        } else if str_equal(name, "navy") {
            "#000080"
        } else if str_equal(name, "blue") {
            "#0000FF"
        } else if str_equal(name, "teal") {
            "#008080"
        } else if str_equal(name, "aqua") {
            "#00FFFF"
        } else if str_equal(name, "orange") {
            "#FFA500"
        } else if str_equal(name, "lightgray") {
            "#D3D3D3"
        } else {
            return Err(unexpected("color name \"", name, "\" is not supported yet"));
        };
        Ok(Self::known(name, code))
    }

    /// The colour with the code `code`. A code that is not `#` and six more
    /// characters is invalid; a code that no colour name stands for is not
    /// supported.
    pub fn from_code(code: &str) -> (r: Result<Self, Error>)
        ensures
            match name_of_code(code@) {
                Some(name) => r is Ok && r->Ok_0@ == (ColorView { name: Some(name), code: code@ }),
                None => r is Err && r->Err_0 is UnexpectedInput && r->Err_0.message_view() == if code@.len()
                    != 7 || code@[0] != '#' {
                    framed("invalid color code "@, code@, ""@)
                } else {
                    framed("color code \""@, code@, "\" is not supported yet"@)
                },
            },
    {
        proof {
            reveal_strlit("#000000");
            reveal_strlit("#C0C0C0");
            reveal_strlit("#808080");
            reveal_strlit("#FFFFFF");
            reveal_strlit("#800000");
            reveal_strlit("#FF0000");
            reveal_strlit("#800080");
            reveal_strlit("#FF00FF");
            reveal_strlit("#008000");
            reveal_strlit("#00FF00");
            reveal_strlit("#808000");
            reveal_strlit("#FFFF00");
            reveal_strlit("#000080");
            reveal_strlit("#0000FF");
            reveal_strlit("#008080");
            reveal_strlit("#00FFFF");
            reveal_strlit("#FFA500");
            reveal_strlit("#D3D3D3");
        }
        let chars = chars_of(code);
        if chars.len() != 7 || chars[0] != '#' {
            return Err(unexpected("invalid color code ", code, ""));
        }
        let name = if str_equal(code, "#000000") {
            "black"
        } else if str_equal(code, "#C0C0C0") {
            "silver"
        } else if str_equal(code, "#808080") {
            "gray"
        } else if str_equal(code, "#FFFFFF") {
            "white"
        } else if str_equal(code, "#800000") {
            "maroon"
        } else if str_equal(code, "#FF0000") {
            "red"
        } else if str_equal(code, "#800080") {
            "purple"
        } else if str_equal(code, "#FF00FF") {
            "fuchsia"
        } else if str_equal(code, "#008000") {
            "green"
        } else if str_equal(code, "#00FF00") {
            "lime"
        } else if str_equal(code, "#808000") {
            "olive"
        } else if str_equal(code, "#FFFF00") {
            "yellow"
        } else if str_equal(code, "#000080") {
            "navy"
        } else if str_equal(code, "#0000FF") {
            "blue"
        } else if str_equal(code, "#008080") {
            "teal"
        } else if str_equal(code, "#00FFFF") {
            "aqua"
        } else if str_equal(code, "#FFA500") {
            "orange"
        } else if str_equal(code, "#D3D3D3") {
            "lightgray"
        } else {
            return Err(unexpected("color code \"", code, "\" is not supported yet"));
        };
        Ok(Self::known(name, code))
    }

    pub fn white() -> (c: Self)
        ensures
            c@ == (ColorView { name: Some("white"@), code: "#FFFFFF"@ }),
    {
        proof {
            reveal_strlit("#FFFFFF");
        }
        Self::known("white", "#FFFFFF")
    }

    pub fn black() -> (c: Self)
        ensures
            c@ == (ColorView { name: Some("black"@), code: "#000000"@ }),
    {
        proof {
            reveal_strlit("#000000");
        }
        Self::known("black", "#000000")
    }

    /// Every colour has a colour code as its code.
    pub fn code(&self) -> (s: String)
        ensures
            s@ == self@.code,
            is_color_code(s@),
    {
        proof {
            use_type_invariant(self);
        }
        self.code.clone()
    }

    /// The number that the six digits of the code write.
    pub fn code_u32(&self) -> (n: u32)
        ensures
            n == hex_value(self@.code.subrange(1, 7)),
    {
        proof {
            use_type_invariant(self);
        }
        let chars = chars_of(self.code.as_str());
        let ghost digits = chars@.subrange(1, 7);
        let mut n: u32 = 0;
        let mut i: usize = 1;
        assert(digits.subrange(0, 0) =~= Seq::<char>::empty());
        while i < 7
            invariant
                1 <= i <= 7,
                chars@.len() == 7,
                digits == chars@.subrange(1, 7),
                forall|k: int| 1 <= k < 7 ==> is_hex_digit(#[trigger] chars@[k]),
                n == hex_value(digits.subrange(0, i - 1)),
            decreases 7 - i,
        {
            let c = chars[i];
            let d: u32 = if '0' <= c && c <= '9' {
                ((c as u8) - 48u8) as u32
            } else if 'A' <= c && c <= 'F' {
                ((c as u8) - 55u8) as u32
            } else {
                ((c as u8) - 87u8) as u32
            };
            proof {
                let prefix = digits.subrange(0, i - 1);
                let next = digits.subrange(0, i as int);
                assert(next.drop_last() =~= prefix);
                assert(next.last() == c);
                lemma_hex_value_bound(prefix);
                reveal_with_fuel(pow16, 7);
                assert(pow16(prefix.len()) <= pow16(5)) by {
                    reveal_with_fuel(pow16, 7);
                }
            }
            n = n * 16 + d;
            i += 1;
        }
        assert(digits.subrange(0, 6) =~= digits);
        n
    }

    /// Whether the two colours have the same name and the same code.
    pub fn same(&self, other: &Color) -> (r: bool)
        ensures
            r == (self@ == other@),
    {
        let names = match (&self.name, &other.name) {
            (Some(a), Some(b)) => str_equal(a.as_str(), b.as_str()),
            (None, None) => true,
            _ => false,
        };
        let r = names && str_equal(self.code.as_str(), other.code.as_str());
        assert(r == (self@ =~= other@)) by {
            if r {
                assert(self@.name =~= other@.name);
            }
        }
        r
    }
}

/// What a style is: each property set or left open.
pub struct ComputedStyleView {
    pub background_color: Option<ColorView>,
    pub color: Option<ColorView>,
    pub display: Option<DisplayType>,
    pub font_size: Option<FontSize>,
    pub text_decoration: Option<TextDecoration>,
    pub height: Option<i64>,
    pub width: Option<i64>,
}

impl ComputedStyleView {
    /// The style with nothing set.
    pub open spec fn empty() -> ComputedStyleView {
        ComputedStyleView {
            background_color: None,
            color: None,
            display: None,
            font_size: None,
            text_decoration: None,
            height: None,
            width: None,
        }
    }

    /// The four inherited properties are set.
    pub open spec fn inheritable(self) -> bool {
        self.background_color is Some && self.color is Some && self.font_size is Some
            && self.text_decoration is Some
    }

    /// The colour white.
    pub open spec fn white() -> ColorView {
        ColorView { name: Some("white"@), code: "#FFFFFF"@ }
    }

    /// The colour black.
    pub open spec fn black() -> ColorView {
        ColorView { name: Some("black"@), code: "#000000"@ }
    }

    /// The style with what it leaves open taken from the parent's style,
    /// where the parent's value is not the initial one.
    pub open spec fn inherited(self, parent: ComputedStyleView) -> ComputedStyleView {
        ComputedStyleView {
            background_color: if self.background_color is None && parent.background_color
                != Some(Self::white()) {
                parent.background_color
            } else {
                self.background_color
            },
            color: if self.color is None && parent.color != Some(Self::black()) {
                parent.color
            } else {
                self.color
            },
            font_size: if self.font_size is None && parent.font_size != Some(FontSize::Medium) {
                parent.font_size
            } else {
                self.font_size
            },
            text_decoration: if self.text_decoration is None && parent.text_decoration != Some(
                TextDecoration::NoDecoration,
            ) {
                parent.text_decoration
            } else {
                self.text_decoration
            },
            ..self
        }
    }

    /// The style with what it leaves open set to the initial value for a
    /// node holding `kind`.
    pub open spec fn initialised(self, kind: NodeKindView) -> ComputedStyleView {
        ComputedStyleView {
            background_color: if self.background_color is None {
                Some(Self::white())
            } else {
                self.background_color
            },
            color: if self.color is None {
                Some(Self::black())
            } else {
                self.color
            },
            display: if self.display is None {
                Some(default_display(kind))
            } else {
                self.display
            },
            font_size: if self.font_size is None {
                Some(default_font_size(kind))
            } else {
                self.font_size
            },
            text_decoration: if self.text_decoration is None {
                Some(default_text_decoration(kind))
            } else {
                self.text_decoration
            },
            height: if self.height is None {
                Some(0)
            } else {
                self.height
            },
            width: if self.width is None {
                Some(0)
            } else {
                self.width
            },
        }
    }

    /// The style with nothing left open: inherited from the parent first,
    /// if there is one, then initialised.
    pub open spec fn defaulted(self, kind: NodeKindView, parent: Option<ComputedStyleView>) -> ComputedStyleView {
        match parent {
            Some(p) => self.inherited(p).initialised(kind),
            None => self.initialised(kind),
        }
    }
}

#[derive(Debug, PartialEq)]
pub struct ComputedStyle {
    background_color: Option<Color>,
    color: Option<Color>,
    display: Option<DisplayType>,
    font_size: Option<FontSize>,
    text_decoration: Option<TextDecoration>,
    height: Option<i64>,
    width: Option<i64>,
}

/// The view of a colour that may be absent.
pub open spec fn color_option_view(c: Option<Color>) -> Option<ColorView> {
    match c {
        Some(c) => Some(c@),
        None => None,
    }
}

impl View for ComputedStyle {
    type V = ComputedStyleView;

    closed spec fn view(&self) -> ComputedStyleView {
        ComputedStyleView {
            background_color: color_option_view(self.background_color),
            color: color_option_view(self.color),
            display: self.display,
            font_size: self.font_size,
            text_decoration: self.text_decoration,
            height: self.height,
            width: self.width,
        }
    }
}

impl Clone for ComputedStyle {
    fn clone(&self) -> (r: Self)
        ensures
            r@ == self@,
    {
        ComputedStyle {
            background_color: match &self.background_color {
                Some(c) => Some(c.clone()),
                None => None,
            },
            color: match &self.color {
                Some(c) => Some(c.clone()),
                None => None,
            },
            display: self.display,
            font_size: self.font_size,
            text_decoration: self.text_decoration,
            height: self.height,
            width: self.width,
        }
    }
}

impl Default for ComputedStyle {
    fn default() -> (s: Self)
        ensures
            s@ == ComputedStyleView::empty(),
    {
        Self::new()
    }
}

impl ComputedStyle {
    /// A style with nothing set.
    pub fn new() -> (s: Self)
        ensures
            s@ == ComputedStyleView::empty(),
    {
        Self {
            background_color: None,
            color: None,
            display: None,
            font_size: None,
            text_decoration: None,
            height: None,
            width: None,
        }
    }

    pub fn set_background_color(&mut self, color: Color)
        ensures
            final(self)@ == (ComputedStyleView { background_color: Some(color@), ..old(self)@ }),
    {
        self.background_color = Some(color);
    }

    pub fn background_color(&self) -> (c: Color)
        requires
            self@.background_color is Some,
        ensures
            Some(c@) == self@.background_color,
    {
        match &self.background_color {
            Some(c) => c.clone(),
            None => Color::white(),
        }
    }

    pub fn set_color(&mut self, color: Color)
        ensures
            final(self)@ == (ComputedStyleView { color: Some(color@), ..old(self)@ }),
    {
        self.color = Some(color);
    }

    pub fn color(&self) -> (c: Color)
        requires
            self@.color is Some,
        ensures
            Some(c@) == self@.color,
    {
        match &self.color {
            Some(c) => c.clone(),
            None => Color::black(),
        }
    }

    pub fn set_display(&mut self, display: DisplayType)
        ensures
            final(self)@ == (ComputedStyleView { display: Some(display), ..old(self)@ }),
    {
        self.display = Some(display);
    }

    pub fn display(&self) -> (d: DisplayType)
        requires
            self@.display is Some,
        ensures
            Some(d) == self@.display,
    {
        match self.display {
            Some(d) => d,
            None => DisplayType::Block,
        }
    }

    pub fn set_display_type_default(&mut self, node: &Node)
        ensures
            final(self)@ == (ComputedStyleView {
                display: Some(default_display(node@.kind)),
                ..old(self)@
            }),
    {
        self.display = Some(DisplayType::default(node));
    }

    pub fn font_size(&self) -> (f: FontSize)
        requires
            self@.font_size is Some,
        ensures
            Some(f) == self@.font_size,
    {
        match self.font_size {
            Some(f) => f,
            None => FontSize::Medium,
        }
    }

    pub fn set_font_size_default(&mut self, node: &Node)
        ensures
            final(self)@ == (ComputedStyleView {
                font_size: Some(default_font_size(node@.kind)),
                ..old(self)@
            }),
    {
        self.font_size = Some(FontSize::default(node));
    }

    pub fn text_decoration(&self) -> (t: TextDecoration)
        requires
            self@.text_decoration is Some,
        ensures
            Some(t) == self@.text_decoration,
    {
        match self.text_decoration {
            Some(t) => t,
            None => TextDecoration::NoDecoration,
        }
    }

    pub fn set_text_decoration_default(&mut self, node: &Node) -> (t: TextDecoration)
        ensures
            t == default_text_decoration(node@.kind),
            final(self)@ == (ComputedStyleView { text_decoration: Some(t), ..old(self)@ }),
    {
        let text_decoration = TextDecoration::default(node);
        self.text_decoration = Some(text_decoration);
        text_decoration
    }

    pub fn set_height(&mut self, height: i64)
        ensures
            final(self)@ == (ComputedStyleView { height: Some(height), ..old(self)@ }),
    {
        self.height = Some(height);
    }

    pub fn height(&self) -> (h: i64)
        requires
            self@.height is Some,
        ensures
            Some(h) == self@.height,
    {
        match self.height {
            Some(h) => h,
            None => 0,
        }
    }

    pub fn set_width(&mut self, width: i64)
        ensures
            final(self)@ == (ComputedStyleView { width: Some(width), ..old(self)@ }),
    {
        self.width = Some(width);
    }

    pub fn width(&self) -> (w: i64)
        requires
            self@.width is Some,
        ensures
            Some(w) == self@.width,
    {
        match self.width {
            Some(w) => w,
            None => 0,
        }
    }

    /// Whether every property of the style is set.
    pub fn is_complete(&self) -> (r: bool)
        ensures
            r == (self@.inheritable() && self@.display is Some && self@.height is Some
                && self@.width is Some),
    {
        self.background_color.is_some() && self.color.is_some() && self.font_size.is_some()
            && self.text_decoration.is_some() && self.display.is_some() && self.height.is_some()
            && self.width.is_some()
    }

    /// Whether the four inherited properties of the style are set.
    pub fn is_inheritable(&self) -> (r: bool)
        ensures
            r == self@.inheritable(),
    {
        self.background_color.is_some() && self.color.is_some() && self.font_size.is_some()
            && self.text_decoration.is_some()
    }

    /// Sets what the style leaves open: from the parent's style where that
    /// differs from the initial value, else to the initial value for `node`.
    pub fn defaulting(&mut self, node: &Node, parent_style: Option<ComputedStyle>)
        requires
            parent_style matches Some(p) ==> p@.inheritable(),
        ensures
            final(self)@ == old(self)@.defaulted(
                node@.kind,
                match parent_style {
                    Some(p) => Some(p@),
                    None => None,
                },
            ),
    {
        if let Some(parent_style) = parent_style {
            if self.background_color.is_none() && !parent_style.background_color().same(
                &Color::white(),
            ) {
                self.background_color = Some(parent_style.background_color());
            }
            if self.color.is_none() && !parent_style.color().same(&Color::black()) {
                self.color = Some(parent_style.color());
            }
            if self.font_size.is_none() {
                match parent_style.font_size() {
                    FontSize::Medium => {},
                    other => {
                        self.font_size = Some(other);
                    },
                }
            }
            if self.text_decoration.is_none() {
                match parent_style.text_decoration() {
                    TextDecoration::NoDecoration => {},
                    other => {
                        self.text_decoration = Some(other);
                    },
                }
            }
        }
        if self.background_color.is_none() {
            self.set_background_color(Color::white());
        }
        if self.color.is_none() {
            self.set_color(Color::black());
        }
        if self.display.is_none() {
            self.set_display_type_default(node);
        }
        if self.font_size.is_none() {
            self.set_font_size_default(node);
        }
        if self.text_decoration.is_none() {
            let _ = self.set_text_decoration_default(node);
        }
        if self.height.is_none() {
            self.set_height(0);
        }
        if self.width.is_none() {
            self.set_width(0);
        }
    }
}

} // verus!
