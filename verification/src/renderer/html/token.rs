//! The markup tokenizer: a character-level state machine that turns the input
//! into start tags, end tags, characters and one end-of-file token.
//!
//! The machine is described twice. [`TokenizerView::step`] is the transition
//! function over plain mathematical values; [`HtmlTokenizer::next`] is the
//! executable scanner, proved to produce what repeated steps produce.

use vstd::prelude::*;
use crate::renderer::html::attribute::Attribute;
use crate::renderer::html::attribute::AttributeView;
use crate::text::ascii_lower;
use crate::text::char_is_alpha;
use crate::text::char_to_lower;
use crate::text::is_ascii_alpha;
use crate::text::lemma_char_range;
use crate::text::push_char;

verus! {

#[derive(Debug, Clone, Copy, PartialEq, Eq)]
pub enum State {
    Data,
    TagOpen,
    EndTagOpen,
    TagName,
    BeforeAttributeName,
    AttributeName,
    AfterAttributeName,
    BeforeAttributeValue,
    AttributeValueDoubleQuoted,
    AttributeValueSingleQuoted,
    AttributeValueUnQuoted,
    AfterAttributeValueQuoted,
    SelfClosingStartTag,
    ScriptData,
    ScriptDataLessThanSign,
    ScriptDataEndTagOpen,
    ScriptDataEndTagName,
    TemporaryBuffer,
}

/// A character that the machine cannot act on in the state it is in.
#[derive(Debug, Clone, Copy, PartialEq, Eq)]
pub struct TokenizerError {
    pub state: State,
    pub character: char,
}

#[derive(Debug, Clone, PartialEq, Eq)]
pub enum HtmlToken {
    StartTag { tag: String, self_closing: bool, attributes: Vec<Attribute> },
    EndTag { tag: String },
    Char(char),
    Eof,
}

/// What a token is, over sequences of characters.
pub enum HtmlTokenView {
    StartTag { tag: Seq<char>, self_closing: bool, attributes: Seq<AttributeView> },
    EndTag { tag: Seq<char> },
    Char(char),
    Eof,
}

/// The views of a list of attributes, in order.
pub open spec fn attributes_view(attributes: Seq<Attribute>) -> Seq<AttributeView> {
    Seq::new(attributes.len(), |i: int| attributes[i]@)
}

impl View for HtmlToken {
    type V = HtmlTokenView;

    open spec fn view(&self) -> HtmlTokenView {
        match *self {
            HtmlToken::StartTag { tag, self_closing, attributes } => HtmlTokenView::StartTag {
                tag: tag@,
                self_closing,
                attributes: attributes_view(attributes@),
            },
            HtmlToken::EndTag { tag } => HtmlTokenView::EndTag { tag: tag@ },
            HtmlToken::Char(c) => HtmlTokenView::Char(c),
            HtmlToken::Eof => HtmlTokenView::Eof,
        }
    }
}

/// What one call of the scanner hands out: nothing once the input is used up,
/// else a token or the error that stood in its place.
pub type Emission = Option<Result<HtmlTokenView, TokenizerError>>;

/// The view of a token that may be absent.
pub open spec fn token_option_view(t: Option<HtmlToken>) -> Option<HtmlTokenView> {
    match t {
        Some(t) => Some(t@),
        None => None,
    }
}

/// The view of what the scanner hands out.
pub open spec fn emission_view(r: Option<Result<HtmlToken, TokenizerError>>) -> Emission {
    match r {
        Some(Ok(t)) => Some(Ok(t@)),
        Some(Err(e)) => Some(Err(e)),
        None => None,
    }
}

/// The token under construction with `c` appended to its tag name; `None`
/// where no tag is under construction.
pub open spec fn with_tag_char(t: Option<HtmlTokenView>, c: char) -> Option<HtmlTokenView> {
    match t {
        Some(HtmlTokenView::StartTag { tag, self_closing, attributes }) => Some(
            HtmlTokenView::StartTag { tag: tag.push(c), self_closing, attributes },
        ),
        Some(HtmlTokenView::EndTag { tag }) => Some(HtmlTokenView::EndTag { tag: tag.push(c) }),
        _ => None,
    }
}

/// The start tag under construction with one more attribute, empty so far;
/// `None` where no start tag is under construction.
pub open spec fn with_new_attribute(t: Option<HtmlTokenView>) -> Option<HtmlTokenView> {
    match t {
        Some(HtmlTokenView::StartTag { tag, self_closing, attributes }) => Some(
            HtmlTokenView::StartTag {
                tag,
                self_closing,
                attributes: attributes.push(AttributeView { name: Seq::empty(), value: Seq::empty() }),
            },
        ),
        _ => None,
    }
}

/// The start tag under construction with `c` appended to the name or value of
/// its last attribute; `None` where there is no such attribute.
pub open spec fn with_attribute_char(t: Option<HtmlTokenView>, c: char, is_name: bool) -> Option<
    HtmlTokenView,
> {
    match t {
        Some(HtmlTokenView::StartTag { tag, self_closing, attributes }) => if attributes.len() > 0 {
            Some(
                HtmlTokenView::StartTag {
                    tag,
                    self_closing,
                    attributes: attributes.update(
                        attributes.len() - 1,
                        attributes.last().with_char(c, is_name),
                    ),
                },
            )
        } else {
            None
        },
        _ => None,
    }
}

/// The start tag under construction marked self-closing; `None` where no
/// start tag is under construction.
pub open spec fn with_self_closing(t: Option<HtmlTokenView>) -> Option<HtmlTokenView> {
    match t {
        Some(HtmlTokenView::StartTag { tag, self_closing, attributes }) => Some(
            HtmlTokenView::StartTag { tag, self_closing: true, attributes },
        ),
        _ => None,
    }
}

/// The two characters that open an end tag.
pub open spec fn end_tag_opener() -> Seq<char> {
    seq!['<', '/']
}

/// The state of the machine as plain values.
pub struct TokenizerView {
    pub state: State,
    /// How many characters of the input have been read.
    pub pos: int,
    /// The character read last is to be read once more.
    pub reconsume: bool,
    /// The tag under construction, if any.
    pub latest_token: Option<HtmlTokenView>,
    pub input: Seq<char>,
    /// Text held back while a candidate end tag is examined in raw-text mode.
    pub buf: Seq<char>,
    /// The end-of-file token has been handed out.
    pub finished: bool,
}

impl TokenizerView {
    /// The machine before it has read anything of `input`.
    pub open spec fn initial(input: Seq<char>) -> TokenizerView {
        TokenizerView {
            state: State::Data,
            pos: 0,
            reconsume: false,
            latest_token: None,
            input,
            buf: Seq::empty(),
            finished: false,
        }
    }

    /// The position lies within the input, and a character to read again was read.
    pub open spec fn wf(self) -> bool {
        &&& 0 <= self.pos <= self.input.len()
        &&& self.reconsume ==> self.pos > 0
    }

    /// No character is left to read.
    pub open spec fn exhausted(self) -> bool {
        !self.reconsume && self.pos >= self.input.len()
    }

    /// The character that the next read yields.
    pub open spec fn current(self) -> char {
        if self.reconsume {
            self.input[self.pos - 1]
        } else {
            self.input[self.pos]
        }
    }

    /// The machine after one read.
    pub open spec fn advance(self) -> TokenizerView {
        TokenizerView {
            pos: if self.reconsume {
                self.pos
            } else {
                self.pos + 1
            },
            reconsume: false,
            ..self
        }
    }

    /// The machine moved to state `s`.
    pub open spec fn goto(self, s: State) -> TokenizerView {
        TokenizerView { state: s, ..self }
    }

    /// The machine moved to state `s`, which will read the last character again.
    pub open spec fn again(self, s: State) -> TokenizerView {
        TokenizerView { state: s, reconsume: true, ..self }
    }

    /// The machine with `t` as the tag under construction.
    pub open spec fn with_token(self, t: Option<HtmlTokenView>) -> TokenizerView {
        TokenizerView { latest_token: t, ..self }
    }

    /// The machine with `b` as the text held back.
    pub open spec fn with_buf(self, b: Seq<char>) -> TokenizerView {
        TokenizerView { buf: b, ..self }
    }

    /// The outcome of a step that cannot act on `c`: the tag under
    /// construction is dropped, scanning resumes in the data state, and the
    /// error names the state that failed.
    pub open spec fn fail(self, c: char) -> (TokenizerView, Emission) {
        (
            TokenizerView { state: State::Data, reconsume: false, latest_token: None, ..self },
            Some(Err(TokenizerError { state: self.state, character: c })),
        )
    }

    /// The outcome of a step that replaces the tag under construction by `t`
    /// and moves on silently, or fails where `t` is absent.
    pub open spec fn keep(self, t: Option<HtmlTokenView>, c: char) -> (TokenizerView, Emission) {
        if t is Some {
            (self.with_token(t), None)
        } else {
            self.fail(c)
        }
    }

    /// The outcome of a step that opens a new attribute on the tag under
    /// construction and lets the attribute-name state read `c` again, or
    /// fails where no start tag is under construction.
    pub open spec fn open_attribute(self, c: char) -> (TokenizerView, Emission) {
        let t = with_new_attribute(self.latest_token);
        if t is Some {
            (self.with_token(t).again(State::AttributeName), None)
        } else {
            self.fail(c)
        }
    }

    /// The outcome of a step that hands out the tag under construction and
    /// continues in state `s`.
    pub open spec fn emit_latest(self, s: State, c: char) -> (TokenizerView, Emission) {
        match self.latest_token {
            Some(t) => (self.with_token(None).goto(s), Some(Ok(t))),
            None => self.fail(c),
        }
    }

    /// A step in a state that reads no input: the text held back is handed
    /// out one character at a time, then raw-text scanning resumes.
    pub open spec fn step_buffer(self) -> (TokenizerView, Emission) {
        if self.buf.len() == 0 {
            (self.goto(State::ScriptData), None)
        } else {
            (self.with_buf(self.buf.drop_first()), Some(Ok(HtmlTokenView::Char(self.buf[0]))))
        }
    }

    /// A step when no character is left. Text that was read as a candidate
    /// end tag in raw-text mode is replayed first; every other state hands
    /// out the end-of-file token.
    pub open spec fn step_exhausted(self) -> (TokenizerView, Emission) {
        match self.state {
            State::ScriptDataLessThanSign => (
                self.goto(State::ScriptData),
                Some(Ok(HtmlTokenView::Char('<'))),
            ),
            State::ScriptDataEndTagOpen => (
                self.with_buf(end_tag_opener()).goto(State::TemporaryBuffer),
                None,
            ),
            State::ScriptDataEndTagName => (
                self.with_buf(end_tag_opener() + self.buf).with_token(None).goto(
                    State::TemporaryBuffer,
                ),
                None,
            ),
            _ => (TokenizerView { finished: true, ..self }, Some(Ok(HtmlTokenView::Eof))),
        }
    }

    /// A step that has just read `c`; `self` is the machine after the read.
    pub open spec fn step_char(self, c: char) -> (TokenizerView, Emission) {
        match self.state {
            State::Data => if c == '<' {
                (self.goto(State::TagOpen), None)
            } else {
                (self, Some(Ok(HtmlTokenView::Char(c))))
            },
            State::TagOpen => if c == '/' {
                (self.goto(State::EndTagOpen), None)
            } else if is_ascii_alpha(c) {
                (
                    self.with_token(
                        Some(
                            HtmlTokenView::StartTag {
                                tag: Seq::empty(),
                                self_closing: false,
                                attributes: Seq::empty(),
                            },
                        ),
                    ).again(State::TagName),
                    None,
                )
            } else {
                (self.again(State::Data), None)
            },
            State::EndTagOpen => (
                self.with_token(Some(HtmlTokenView::EndTag { tag: Seq::empty() })).again(
                    State::TagName,
                ),
                None,
            ),
            State::TagName => if c == ' ' {
                (self.goto(State::BeforeAttributeName), None)
            } else if c == '/' {
                (self.goto(State::SelfClosingStartTag), None)
            } else if c == '>' {
                self.emit_latest(State::Data, c)
            } else {
                self.keep(with_tag_char(self.latest_token, ascii_lower(c)), c)
            },
            State::BeforeAttributeName => if c == '/' || c == '>' {
                (self.again(State::AfterAttributeName), None)
            } else {
                self.open_attribute(c)
            },
            State::AttributeName => if c == ' ' || c == '/' || c == '>' {
                (self.again(State::AfterAttributeName), None)
            } else if c == '=' {
                (self.goto(State::BeforeAttributeValue), None)
            } else {
                self.keep(with_attribute_char(self.latest_token, ascii_lower(c), true), c)
            },
            State::AfterAttributeName => if c == ' ' {
                (self, None)
            } else if c == '/' {
                (self.goto(State::SelfClosingStartTag), None)
            } else if c == '=' {
                (self.goto(State::BeforeAttributeValue), None)
            } else if c == '>' {
                self.emit_latest(State::Data, c)
            } else {
                self.open_attribute(c)
            },
            State::BeforeAttributeValue => if c == ' ' {
                (self, None)
            } else if c == '"' {
                (self.goto(State::AttributeValueDoubleQuoted), None)
            } else if c == '\'' {
                (self.goto(State::AttributeValueSingleQuoted), None)
            } else {
                (self.again(State::AttributeValueUnQuoted), None)
            },
            State::AttributeValueDoubleQuoted => if c == '"' {
                (self.goto(State::AfterAttributeValueQuoted), None)
            } else {
                self.keep(with_attribute_char(self.latest_token, c, false), c)
            },
            State::AttributeValueSingleQuoted => if c == '\'' {
                (self.goto(State::AfterAttributeValueQuoted), None)
            } else {
                self.keep(with_attribute_char(self.latest_token, c, false), c)
            },
            State::AttributeValueUnQuoted => if c == ' ' {
                (self.goto(State::BeforeAttributeName), None)
            } else if c == '/' {
                self.emit_latest(State::Data, c)
            } else {
                self.keep(with_attribute_char(self.latest_token, c, false), c)
            },
            State::AfterAttributeValueQuoted => if c == ' ' {
                (self.goto(State::BeforeAttributeName), None)
            } else if c == '/' {
                (self.goto(State::SelfClosingStartTag), None)
            } else if c == '>' {
                self.emit_latest(State::Data, c)
            } else {
                (self.again(State::BeforeAttributeName), None)
            },
            State::SelfClosingStartTag => if c == '>' {
                self.with_token(with_self_closing(self.latest_token)).emit_latest(State::Data, c)
            } else {
                (self, None)
            },
            State::ScriptData => if c == '<' {
                (self.goto(State::ScriptDataLessThanSign), None)
            } else {
                (self, Some(Ok(HtmlTokenView::Char(c))))
            },
            State::ScriptDataLessThanSign => if c == '/' {
                (self.with_buf(Seq::empty()).goto(State::ScriptDataEndTagOpen), None)
            } else {
                (self.again(State::ScriptData), Some(Ok(HtmlTokenView::Char('<'))))
            },
            State::ScriptDataEndTagOpen => if is_ascii_alpha(c) {
                (
                    self.with_token(Some(HtmlTokenView::EndTag { tag: Seq::empty() })).again(
                        State::ScriptDataEndTagName,
                    ),
                    None,
                )
            } else {
                (self.with_buf(end_tag_opener()).again(State::TemporaryBuffer), None)
            },
            State::ScriptDataEndTagName => if c == '>' {
                self.emit_latest(State::Data, c)
            } else if is_ascii_alpha(c) {
                self.with_buf(self.buf.push(c)).keep(
                    with_tag_char(self.latest_token, ascii_lower(c)),
                    c,
                )
            } else {
                (
                    self.with_buf((end_tag_opener() + self.buf).push(c)).with_token(None).goto(
                        State::TemporaryBuffer,
                    ),
                    None,
                )
            },
            State::TemporaryBuffer => self.step_buffer(),
        }
    }

    /// One transition of the machine, and what it hands out, if anything.
    pub open spec fn step(self) -> (TokenizerView, Emission) {
        if self.state == State::TemporaryBuffer {
            self.step_buffer()
        } else if self.exhausted() {
            self.step_exhausted()
        } else {
            self.advance().step_char(self.current())
        }
    }
}


impl TokenizerView {
    /// How many reads are still possible: the characters not yet read, and
    /// one more while the last one is to be read again.
    pub open spec fn remaining(self) -> int {
        self.input.len() - self.pos + if self.reconsume {
            1int
        } else {
            0int
        }
    }

    /// `c` ends an attribute name.
    pub open spec fn ends_attribute_name(c: char) -> bool {
        c == ' ' || c == '/' || c == '>'
    }

    /// How many steps the machine can take at most before it reads a
    /// character for the first time or hands out a token.
    pub open spec fn rank(self) -> nat {
        let again = self.reconsume && self.pos > 0;
        let c = self.input[self.pos - 1];
        match self.state {
            State::TemporaryBuffer => 1 + self.buf.len(),
            State::ScriptDataEndTagName => 4 + self.buf.len(),
            State::ScriptDataEndTagOpen => 5 + self.buf.len(),
            State::ScriptDataLessThanSign => 1,
            State::TagOpen => 1,
            State::EndTagOpen => 1,
            State::BeforeAttributeValue => 1,
            State::AfterAttributeValueQuoted => 5,
            State::BeforeAttributeName => 4,
            State::AttributeName => if again && !Self::ends_attribute_name(c) {
                0
            } else {
                3
            },
            State::AfterAttributeName => if again && (Self::ends_attribute_name(c) || c == '=') {
                0
            } else {
                1
            },
            _ => 0,
        }
    }

    /// `self` comes strictly before `other` in the order that every step
    /// descends.
    pub open spec fn before(self, other: TokenizerView) -> bool {
        let a = if self.finished { 0int } else { 1int };
        let b = if other.finished { 0int } else { 1int };
        a < b || (a == b && (self.remaining() < other.remaining() || (self.remaining()
            == other.remaining() && self.rank() < other.rank())))
    }

    /// A step keeps the machine well formed and the input unchanged, and
    /// takes it strictly down the order.
    pub proof fn lemma_step(self)
        requires
            self.wf(),
            !self.finished,
        ensures
            self.step().0.wf(),
            self.step().0.input == self.input,
            self.step().0.before(self),
            self.step().1 is None ==> !self.step().0.finished,
    {
    }

    /// The steps up to and including the first one that hands something
    /// out. Once the end-of-file token is out, nothing more is handed out;
    /// nor does a machine that is not well formed hand anything out.
    pub open spec fn run(self) -> (TokenizerView, Emission)
        decreases
            (if self.finished { 0int } else { 1int }),
            self.remaining(),
            self.rank(),
    {
        if self.finished || !self.wf() {
            (self, None)
        } else {
            let (next, out) = self.step();
            if out is Some {
                (next, out)
            } else {
                next.run()
            }
        }
    }
}


#[derive(Debug, Clone, PartialEq, Eq)]
pub struct HtmlTokenizer {
    state: State,
    pos: usize,
    reconsume: bool,
    latest_token: Option<HtmlToken>,
    input: Vec<char>,
    buf: Vec<char>,
    finished: bool,
}

impl View for HtmlTokenizer {
    type V = TokenizerView;

    closed spec fn view(&self) -> TokenizerView {
        TokenizerView {
            state: self.state,
            pos: self.pos as int,
            reconsume: self.reconsume,
            latest_token: token_option_view(self.latest_token),
            input: self.input@,
            buf: self.buf@,
            finished: self.finished,
        }
    }
}

impl HtmlTokenizer {
    /// A tokenizer at the start of `input`, in the data state.
    pub fn new(input: Vec<char>) -> (t: Self)
        ensures
            t@ == TokenizerView::initial(input@),
            t@.wf(),
    {
        Self {
            state: State::Data,
            pos: 0,
            reconsume: false,
            latest_token: None,
            input,
            buf: Vec::new(),
            finished: false,
        }
    }

    /// Moves the machine to state `state`; the tree builder calls this to
    /// enter raw-text mode after the start tag of a script element.
    pub fn switch_context(&mut self, state: State)
        ensures
            final(self)@ == old(self)@.goto(state),
    {
        self.state = state;
    }

    fn is_eof(&self) -> (r: bool)
        ensures
            r == (self@.pos >= self@.input.len()),
    {
        self.pos >= self.input.len()
    }

    fn consume_next_input(&mut self) -> (c: char)
        requires
            old(self)@.wf(),
            !old(self)@.exhausted(),
            !old(self)@.reconsume,
        ensures
            c == old(self)@.current(),
            final(self)@ == old(self)@.advance(),
    {
        assert(self.pos < self.input.len());
        let c = self.input[self.pos];
        self.pos += 1;
        c
    }

    fn reconsume_input(&mut self) -> (c: char)
        requires
            old(self)@.wf(),
            old(self)@.reconsume,
        ensures
            c == old(self)@.current(),
            final(self)@ == old(self)@.advance(),
    {
        self.reconsume = false;
        self.input[self.pos - 1]
    }

    fn create_tag(&mut self, start_tag_token: bool)
        ensures
            final(self)@ == old(self)@.with_token(
                Some(
                    if start_tag_token {
                        HtmlTokenView::StartTag {
                            tag: Seq::empty(),
                            self_closing: false,
                            attributes: Seq::empty(),
                        }
                    } else {
                        HtmlTokenView::EndTag { tag: Seq::empty() }
                    },
                ),
            ),
    {
        if start_tag_token {
            let attributes: Vec<Attribute> = Vec::new();
            assert(attributes_view(attributes@) =~= Seq::empty());
            self.latest_token = Some(
                HtmlToken::StartTag { tag: String::new(), self_closing: false, attributes },
            );
        } else {
            self.latest_token = Some(HtmlToken::EndTag { tag: String::new() });
        }
    }

    /// Appends `c` to the name of the tag under construction; `false`, and
    /// nothing changed, where there is none.
    fn append_tag_name(&mut self, c: char) -> (ok: bool)
        ensures
            ok == (with_tag_char(old(self)@.latest_token, c) is Some),
            ok ==> final(self)@ == old(self)@.with_token(
                with_tag_char(old(self)@.latest_token, c),
            ),
            !ok ==> final(self)@ == old(self)@,
    {
        match self.latest_token.take() {
            Some(HtmlToken::StartTag { tag, self_closing, attributes }) => {
                let mut tag = tag;
                push_char(&mut tag, c);
                self.latest_token = Some(HtmlToken::StartTag { tag, self_closing, attributes });
                true
            },
            Some(HtmlToken::EndTag { tag }) => {
                let mut tag = tag;
                push_char(&mut tag, c);
                self.latest_token = Some(HtmlToken::EndTag { tag });
                true
            },
            other => {
                self.latest_token = other;
                false
            },
        }
    }

    /// Opens a new, empty attribute on the start tag under construction;
    /// `false`, and nothing changed, where there is none.
    fn start_new_attribute(&mut self) -> (ok: bool)
        ensures
            ok == (with_new_attribute(old(self)@.latest_token) is Some),
            ok ==> final(self)@ == old(self)@.with_token(
                with_new_attribute(old(self)@.latest_token),
            ),
            !ok ==> final(self)@ == old(self)@,
    {
        match self.latest_token.take() {
            Some(HtmlToken::StartTag { tag, self_closing, attributes }) => {
                let mut attributes = attributes;
                let ghost before = attributes@;
                attributes.push(Attribute::new(String::new(), String::new()));
                assert(attributes_view(attributes@) =~= attributes_view(before).push(
                    AttributeView { name: Seq::empty(), value: Seq::empty() },
                ));
                self.latest_token = Some(HtmlToken::StartTag { tag, self_closing, attributes });
                true
            },
            other => {
                self.latest_token = other;
                false
            },
        }
    }

    /// Appends `c` to the name or the value of the last attribute of the
    /// start tag under construction; `false`, and nothing changed, where
    /// there is no such attribute.
    fn append_attribute(&mut self, c: char, is_name: bool) -> (ok: bool)
        ensures
            ok == (with_attribute_char(old(self)@.latest_token, c, is_name) is Some),
            ok ==> final(self)@ == old(self)@.with_token(
                with_attribute_char(old(self)@.latest_token, c, is_name),
            ),
            !ok ==> final(self)@ == old(self)@,
    {
        match self.latest_token.take() {
            Some(HtmlToken::StartTag { tag, self_closing, attributes }) => {
                let mut attributes = attributes;
                let ghost before = attributes@;
                let len = attributes.len();
                let ok = if len > 0 {
                    let mut last = attributes.pop().unwrap();
                    last.add_char(c, is_name);
                    attributes.push(last);
                    assert(attributes_view(attributes@) =~= attributes_view(before).update(
                        len - 1,
                        attributes_view(before).last().with_char(c, is_name),
                    ));
                    true
                } else {
                    assert(attributes_view(before).len() == 0);
                    false
                };
                self.latest_token = Some(HtmlToken::StartTag { tag, self_closing, attributes });
                ok
            },
            other => {
                self.latest_token = other;
                false
            },
        }
    }

    /// Marks the start tag under construction as self-closing; `false`, and
    /// nothing changed, where there is none.
    fn set_self_closing_flag(&mut self) -> (ok: bool)
        ensures
            ok == (with_self_closing(old(self)@.latest_token) is Some),
            ok ==> final(self)@ == old(self)@.with_token(
                with_self_closing(old(self)@.latest_token),
            ),
            !ok ==> final(self)@ == old(self)@,
    {
        match self.latest_token.take() {
            Some(HtmlToken::StartTag { tag, self_closing: _, attributes }) => {
                self.latest_token = Some(
                    HtmlToken::StartTag { tag, self_closing: true, attributes },
                );
                true
            },
            other => {
                self.latest_token = other;
                false
            },
        }
    }

    /// Hands over the tag under construction and leaves none behind.
    fn take_latest_token(&mut self) -> (t: Option<HtmlToken>)
        ensures
            token_option_view(t) == old(self)@.latest_token,
            final(self)@ == old(self)@.with_token(None),
    {
        self.latest_token.take()
    }
}


impl HtmlTokenizer {
    /// Drops the tag under construction and resumes in the data state.
    fn fail(&mut self, c: char) -> (r: Option<Result<HtmlToken, TokenizerError>>)
        ensures
            (final(self)@, emission_view(r)) == old(self)@.fail(c),
    {
        let e = TokenizerError { state: self.state, character: c };
        self.latest_token = None;
        self.reconsume = false;
        self.state = State::Data;
        Some(Err(e))
    }

    /// Hands out the tag under construction and continues in state `s`.
    fn emit_latest(&mut self, s: State, c: char) -> (r: Option<Result<HtmlToken, TokenizerError>>)
        ensures
            (final(self)@, emission_view(r)) == old(self)@.emit_latest(s, c),
    {
        match self.take_latest_token() {
            Some(t) => {
                self.state = s;
                Some(Ok(t))
            },
            None => self.fail(c),
        }
    }

    /// Replaces the text held back by the opener of an end tag followed by
    /// what was held back.
    fn prepend_opener(&mut self)
        ensures
            final(self)@ == old(self)@.with_buf(end_tag_opener() + old(self)@.buf),
    {
        self.buf.insert(0, '/');
        self.buf.insert(0, '<');
        assert(self.buf@ =~= end_tag_opener() + old(self).buf@);
    }

    fn step_buffer(&mut self) -> (r: Option<Result<HtmlToken, TokenizerError>>)
        ensures
            (final(self)@, emission_view(r)) == old(self)@.step_buffer(),
    {
        if self.buf.len() == 0 {
            self.state = State::ScriptData;
            None
        } else {
            let c = self.buf.remove(0);
            assert(self.buf@ =~= old(self).buf@.drop_first());
            Some(Ok(HtmlToken::Char(c)))
        }
    }

    fn step_exhausted(&mut self) -> (r: Option<Result<HtmlToken, TokenizerError>>)
        ensures
            (final(self)@, emission_view(r)) == old(self)@.step_exhausted(),
    {
        match self.state {
            State::ScriptDataLessThanSign => {
                self.state = State::ScriptData;
                Some(Ok(HtmlToken::Char('<')))
            },
            State::ScriptDataEndTagOpen => {
                self.buf = Vec::new();
                self.prepend_opener();
                self.state = State::TemporaryBuffer;
                None
            },
            State::ScriptDataEndTagName => {
                self.prepend_opener();
                self.latest_token = None;
                self.state = State::TemporaryBuffer;
                None
            },
            _ => {
                self.finished = true;
                Some(Ok(HtmlToken::Eof))
            },
        }
    }

    /// Opens a new attribute and lets the attribute-name state read `c` again.
    fn open_attribute(&mut self, c: char) -> (r: Option<Result<HtmlToken, TokenizerError>>)
        requires
            old(self)@.pos > 0,
        ensures
            (final(self)@, emission_view(r)) == old(self)@.open_attribute(c),
    {
        if self.start_new_attribute() {
            self.reconsume = true;
            self.state = State::AttributeName;
            None
        } else {
            self.fail(c)
        }
    }

    /// Appends `c` to the last attribute of the tag under construction.
    fn keep_attribute_char(&mut self, c: char, is_name: bool, origin: char) -> (r: Option<
        Result<HtmlToken, TokenizerError>,
    >)
        ensures
            (final(self)@, emission_view(r)) == old(self)@.keep(
                with_attribute_char(old(self)@.latest_token, c, is_name),
                origin,
            ),
    {
        if self.append_attribute(c, is_name) {
            None
        } else {
            self.fail(origin)
        }
    }

    /// Appends `c` to the name of the tag under construction.
    fn keep_tag_char(&mut self, c: char, origin: char) -> (r: Option<
        Result<HtmlToken, TokenizerError>,
    >)
        ensures
            (final(self)@, emission_view(r)) == old(self)@.keep(
                with_tag_char(old(self)@.latest_token, c),
                origin,
            ),
    {
        if self.append_tag_name(c) {
            None
        } else {
            self.fail(origin)
        }
    }

    fn step_char(&mut self, c: char) -> (r: Option<Result<HtmlToken, TokenizerError>>)
        requires
            old(self)@.pos > 0,
        ensures
            (final(self)@, emission_view(r)) == old(self)@.step_char(c),
    {
        match self.state {
            State::Data => {
                if c == '<' {
                    self.state = State::TagOpen;
                    None
                } else {
                    Some(Ok(HtmlToken::Char(c)))
                }
            },
            State::TagOpen => {
                if c == '/' {
                    self.state = State::EndTagOpen;
                    None
                } else if char_is_alpha(c) {
                    self.reconsume = true;
                    self.state = State::TagName;
                    self.create_tag(true);
                    None
                } else {
                    self.reconsume = true;
                    self.state = State::Data;
                    None
                }
            },
            State::EndTagOpen => {
                self.reconsume = true;
                self.state = State::TagName;
                self.create_tag(false);
                None
            },
            State::TagName => {
                if c == ' ' {
                    self.state = State::BeforeAttributeName;
                    None
                } else if c == '/' {
                    self.state = State::SelfClosingStartTag;
                    None
                } else if c == '>' {
                    self.emit_latest(State::Data, c)
                } else {
                    self.keep_tag_char(char_to_lower(c), c)
                }
            },
            State::BeforeAttributeName => {
                if c == '/' || c == '>' {
                    self.reconsume = true;
                    self.state = State::AfterAttributeName;
                    None
                } else {
                    self.open_attribute(c)
                }
            },
            State::AttributeName => {
                if c == ' ' || c == '/' || c == '>' {
                    self.reconsume = true;
                    self.state = State::AfterAttributeName;
                    None
                } else if c == '=' {
                    self.state = State::BeforeAttributeValue;
                    None
                } else {
                    self.keep_attribute_char(char_to_lower(c), true, c)
                }
            },
            State::AfterAttributeName => {
                if c == ' ' {
                    None
                } else if c == '/' {
                    self.state = State::SelfClosingStartTag;
                    None
                } else if c == '=' {
                    self.state = State::BeforeAttributeValue;
                    None
                } else if c == '>' {
                    self.emit_latest(State::Data, c)
                } else {
                    self.open_attribute(c)
                }
            },
            State::BeforeAttributeValue => {
                if c == ' ' {
                    None
                } else if c == '"' {
                    self.state = State::AttributeValueDoubleQuoted;
                    None
                } else if c == '\'' {
                    self.state = State::AttributeValueSingleQuoted;
                    None
                } else {
                    self.reconsume = true;
                    self.state = State::AttributeValueUnQuoted;
                    None
                }
            },
            State::AttributeValueDoubleQuoted => {
                if c == '"' {
                    self.state = State::AfterAttributeValueQuoted;
                    None
                } else {
                    self.keep_attribute_char(c, false, c)
                }
            },
            State::AttributeValueSingleQuoted => {
                if c == '\'' {
                    self.state = State::AfterAttributeValueQuoted;
                    None
                } else {
                    self.keep_attribute_char(c, false, c)
                }
            },
            State::AttributeValueUnQuoted => {
                if c == ' ' {
                    self.state = State::BeforeAttributeName;
                    None
                } else if c == '/' {
                    self.emit_latest(State::Data, c)
                } else {
                    self.keep_attribute_char(c, false, c)
                }
            },
            State::AfterAttributeValueQuoted => {
                if c == ' ' {
                    self.state = State::BeforeAttributeName;
                    None
                } else if c == '/' {
                    self.state = State::SelfClosingStartTag;
                    None
                } else if c == '>' {
                    self.emit_latest(State::Data, c)
                } else {
                    self.reconsume = true;
                    self.state = State::BeforeAttributeName;
                    None
                }
            },
            State::SelfClosingStartTag => {
                if c == '>' {
                    if self.set_self_closing_flag() {
                        self.emit_latest(State::Data, c)
                    } else {
                        self.fail(c)
                    }
                } else {
                    None
                }
            },
            State::ScriptData => {
                if c == '<' {
                    self.state = State::ScriptDataLessThanSign;
                    None
                } else {
                    Some(Ok(HtmlToken::Char(c)))
                }
            },
            State::ScriptDataLessThanSign => {
                if c == '/' {
                    self.buf = Vec::new();
                    self.state = State::ScriptDataEndTagOpen;
                    None
                } else {
                    self.reconsume = true;
                    self.state = State::ScriptData;
                    Some(Ok(HtmlToken::Char('<')))
                }
            },
            State::ScriptDataEndTagOpen => {
                if char_is_alpha(c) {
                    self.reconsume = true;
                    self.state = State::ScriptDataEndTagName;
                    self.create_tag(false);
                    None
                } else {
                    self.buf = Vec::new();
                    self.prepend_opener();
                    self.reconsume = true;
                    self.state = State::TemporaryBuffer;
                    None
                }
            },
            State::ScriptDataEndTagName => {
                if c == '>' {
                    self.emit_latest(State::Data, c)
                } else if char_is_alpha(c) {
                    self.buf.push(c);
                    self.keep_tag_char(char_to_lower(c), c)
                } else {
                    self.prepend_opener();
                    self.buf.push(c);
                    self.latest_token = None;
                    self.state = State::TemporaryBuffer;
                    None
                }
            },
            State::TemporaryBuffer => self.step_buffer(),
        }
    }

    /// One transition of the machine.
    fn step(&mut self) -> (r: Option<Result<HtmlToken, TokenizerError>>)
        requires
            old(self)@.wf(),
        ensures
            (final(self)@, emission_view(r)) == old(self)@.step(),
    {
        if let State::TemporaryBuffer = self.state {
            self.step_buffer()
        } else if !self.reconsume && self.is_eof() {
            self.step_exhausted()
        } else {
            let c = if self.reconsume {
                self.reconsume_input()
            } else {
                self.consume_next_input()
            };
            self.step_char(c)
        }
    }

    /// The next token, or the error that stands in its place; `None` once
    /// the end-of-file token has been handed out.
    ///
    /// The result and the tokenizer's new state are those of
    /// [`TokenizerView::run`]: the machine takes steps until one of them
    /// hands something out.
    pub fn next(&mut self) -> (r: Option<Result<HtmlToken, TokenizerError>>)
        ensures
            (final(self)@, emission_view(r)) == old(self)@.run(),
    {
        if self.finished || self.pos > self.input.len() || (self.reconsume && self.pos == 0) {
            return None;
        }
        loop
            invariant
                self@.wf(),
                !self@.finished,
                self@.run() == old(self)@.run(),
            decreases
                1int,
                self@.remaining(),
                self@.rank(),
        {
            proof {
                self@.lemma_step();
            }
            let r = self.step();
            if r.is_some() {
                return r;
            }
        }
    }
}


impl TokenizerView {
    /// Everything the machine hands out from here on, in order.
    pub open spec fn emissions(self) -> Seq<Result<HtmlTokenView, TokenizerError>>
        decreases
            (if self.finished { 0int } else { 1int }),
            self.remaining(),
            self.rank(),
    {
        if self.finished || !self.wf() {
            Seq::empty()
        } else {
            let (next, out) = self.step();
            match out {
                Some(e) => seq![e] + next.emissions(),
                None => next.emissions(),
            }
        }
    }

    /// What one call hands out is the first of all that is handed out, and
    /// the rest is handed out by the machine that the call leaves behind.
    /// A call hands out nothing only when nothing is left to hand out.
    pub proof fn lemma_run_emissions(self)
        requires
            self.wf(),
        ensures
            self.run().0.wf(),
            self.run().0.input == self.input,
            self.run().1 is Some ==> self.run().0.before(self),
            self.emissions() == match self.run().1 {
                Some(e) => seq![e] + self.run().0.emissions(),
                None => Seq::empty(),
            },
            self.run().1 is None <==> self.finished,
        decreases
            (if self.finished { 0int } else { 1int }),
            self.remaining(),
            self.rank(),
    {
        if !self.finished {
            self.lemma_step();
            let (next, out) = self.step();
            if out is None {
                next.lemma_run_emissions();
            }
        }
    }

    /// What is under construction, if anything, is a tag. This holds of a
    /// new machine, and every step keeps it.
    pub open spec fn builds_tag(self) -> bool {
        match self.latest_token {
            Some(t) => t is StartTag || t is EndTag,
            None => true,
        }
    }

    /// Whatever the input holds, the machine hands out the end-of-file
    /// token exactly once, as the last thing that it hands out.
    pub proof fn lemma_end_of_file_once(self)
        requires
            self.wf(),
            self.builds_tag(),
            !self.finished,
        ensures
            self.emissions().len() > 0,
            self.emissions().last() == Ok::<HtmlTokenView, TokenizerError>(HtmlTokenView::Eof),
            forall|i: int|
                0 <= i < self.emissions().len() - 1 ==> #[trigger] self.emissions()[i] != Ok::<
                    HtmlTokenView,
                    TokenizerError,
                >(HtmlTokenView::Eof),
        decreases
            (if self.finished { 0int } else { 1int }),
            self.remaining(),
            self.rank(),
    {
        self.lemma_step();
        let (next, out) = self.step();
        assert(next.builds_tag());
        if next.finished {
            assert(next.emissions() =~= Seq::empty());
            assert(out == Some(Ok::<HtmlTokenView, TokenizerError>(HtmlTokenView::Eof)));
        } else {
            next.lemma_end_of_file_once();
            let rest = next.emissions();
            match out {
                Some(e) => {
                    assert(e != Ok::<HtmlTokenView, TokenizerError>(HtmlTokenView::Eof));
                    assert(self.emissions() == seq![e] + rest);
                    assert forall|i: int| 0 <= i < self.emissions().len() - 1 implies #[trigger] self.emissions()[i]
                        != Ok::<HtmlTokenView, TokenizerError>(HtmlTokenView::Eof) by {
                        if i > 0 {
                            assert(self.emissions()[i] == rest[i - 1]);
                        }
                    }
                },
                None => {},
            }
        }
    }

    /// The characters of `input` from position `from` on, each as a
    /// character token, followed by the end-of-file token.
    pub open spec fn plain_tokens(input: Seq<char>, from: int) -> Seq<
        Result<HtmlTokenView, TokenizerError>,
    >
        decreases input.len() - from,
    {
        if 0 <= from < input.len() {
            seq![Ok(HtmlTokenView::Char(input[from]))] + Self::plain_tokens(input, from + 1)
        } else {
            seq![Ok(HtmlTokenView::Eof)]
        }
    }

    /// `plain_tokens` holds one token per character and one more.
    pub proof fn lemma_plain_tokens(input: Seq<char>, from: int)
        requires
            0 <= from <= input.len(),
        ensures
            Self::plain_tokens(input, from).len() == input.len() - from + 1,
            forall|i: int|
                0 <= i < input.len() - from ==> #[trigger] Self::plain_tokens(input, from)[i]
                    == Ok::<HtmlTokenView, TokenizerError>(HtmlTokenView::Char(input[from + i])),
            Self::plain_tokens(input, from)[input.len() - from] == Ok::<
                HtmlTokenView,
                TokenizerError,
            >(HtmlTokenView::Eof),
        decreases input.len() - from,
    {
        if from < input.len() {
            lemma_char_range(input[from]);
            Self::lemma_plain_tokens(input, from + 1);
            let rest = Self::plain_tokens(input, from + 1);
            assert forall|i: int| 0 <= i < input.len() - from implies #[trigger] Self::plain_tokens(
                input,
                from,
            )[i] == Ok::<HtmlTokenView, TokenizerError>(HtmlTokenView::Char(input[from + i])) by {
                if i > 0 {
                    assert(Self::plain_tokens(input, from)[i] == rest[i - 1]);
                }
            }
        }
    }

    proof fn lemma_plain_text_from(self)
        requires
            self.wf(),
            !self.finished,
            !self.reconsume,
            self.state == State::Data,
            forall|i: int| 0 <= i < self.input.len() ==> self.input[i] != '<',
        ensures
            self.emissions() == Self::plain_tokens(self.input, self.pos),
        decreases self.input.len() - self.pos,
    {
        let (next, out) = self.step();
        if self.pos < self.input.len() {
            next.lemma_plain_text_from();
        } else {
            assert(next.emissions() =~= Seq::empty());
        }
    }

    /// Text without `<` comes out as one character token per character, in
    /// order, followed by the end-of-file token and nothing else.
    pub proof fn lemma_plain_text(input: Seq<char>)
        requires
            forall|i: int| 0 <= i < input.len() ==> input[i] != '<',
        ensures
            Self::initial(input).emissions().len() == input.len() + 1,
            forall|i: int|
                0 <= i < input.len() ==> #[trigger] Self::initial(input).emissions()[i] == Ok::<
                    HtmlTokenView,
                    TokenizerError,
                >(HtmlTokenView::Char(input[i])),
            Self::initial(input).emissions()[input.len() as int] == Ok::<
                HtmlTokenView,
                TokenizerError,
            >(HtmlTokenView::Eof),
    {
        Self::initial(input).lemma_plain_text_from();
        Self::lemma_plain_tokens(input, 0);
    }
}


/// No character of `name` is an ASCII capital letter.
pub open spec fn is_folded(name: Seq<char>) -> bool {
    forall|i: int| 0 <= i < name.len() ==> !crate::text::is_ascii_upper(#[trigger] name[i])
}

/// The name of the tag and the names of its attributes hold no ASCII
/// capital letter. Attribute values are not looked at.
pub open spec fn names_folded(t: HtmlTokenView) -> bool {
    match t {
        HtmlTokenView::StartTag { tag, self_closing, attributes } => is_folded(tag) && forall|
            k: int,
        |
            0 <= k < attributes.len() ==> is_folded(#[trigger] attributes[k].name),
        HtmlTokenView::EndTag { tag } => is_folded(tag),
        _ => true,
    }
}

/// What a step hands out, if it hands out a token, has folded names.
pub open spec fn emission_folded(out: Emission) -> bool {
    match out {
        Some(Ok(t)) => names_folded(t),
        _ => true,
    }
}

/// The views of a list of what the scanner has handed out.
pub open spec fn emissions_view(list: Seq<Result<HtmlToken, TokenizerError>>) -> Seq<
    Result<HtmlTokenView, TokenizerError>,
> {
    Seq::new(
        list.len(),
        |i: int|
            match list[i] {
                Ok(t) => Ok(t@),
                Err(e) => Err(e),
            },
    )
}

impl TokenizerView {
    /// The names of what is under construction are folded.
    pub open spec fn pending_folded(self) -> bool {
        match self.latest_token {
            Some(t) => names_folded(t),
            None => true,
        }
    }

    /// A step keeps the names of what is under construction folded, and
    /// hands out only tokens with folded names: letters are lowered as they
    /// are added to a name.
    pub proof fn lemma_step_folds(self)
        requires
            self.wf(),
            !self.finished,
            self.pending_folded(),
        ensures
            self.step().0.pending_folded(),
            emission_folded(self.step().1),
    {
        if self.state != State::TemporaryBuffer && !self.exhausted() {
            let c = self.current();
            crate::text::lemma_char_range(c);
            let m = self.advance();
            match m.latest_token {
                Some(HtmlTokenView::StartTag { tag, self_closing, attributes }) => {
                    assert(is_folded(tag.push(ascii_lower(c)))) by {
                        assert forall|i: int| 0 <= i < tag.push(ascii_lower(c)).len() implies !crate::text::is_ascii_upper(
                            #[trigger] tag.push(ascii_lower(c))[i],
                        ) by {
                            if i < tag.len() {
                                assert(tag.push(ascii_lower(c))[i] == tag[i]);
                            }
                        }
                    }
                    if attributes.len() > 0 {
                        let last = attributes.last();
                        assert(is_folded(last.name));
                        assert(is_folded(last.name.push(ascii_lower(c)))) by {
                            assert forall|i: int|
                                0 <= i < last.name.push(ascii_lower(c)).len() implies !crate::text::is_ascii_upper(
                                #[trigger] last.name.push(ascii_lower(c))[i],
                            ) by {
                                if i < last.name.len() {
                                    assert(last.name.push(ascii_lower(c))[i] == last.name[i]);
                                }
                            }
                        }
                    }
                },
                Some(HtmlTokenView::EndTag { tag }) => {
                    assert(is_folded(tag.push(ascii_lower(c)))) by {
                        assert forall|i: int| 0 <= i < tag.push(ascii_lower(c)).len() implies !crate::text::is_ascii_upper(
                            #[trigger] tag.push(ascii_lower(c))[i],
                        ) by {
                            if i < tag.len() {
                                assert(tag.push(ascii_lower(c))[i] == tag[i]);
                            }
                        }
                    }
                },
                _ => {},
            }
        }
    }

    /// Every tag that the machine hands out has a folded name and folded
    /// attribute names, whatever the case of the input.
    pub proof fn lemma_names_are_folded(self, i: int)
        requires
            self.wf(),
            self.pending_folded(),
            0 <= i < self.emissions().len(),
        ensures
            self.emissions()[i] matches Ok(t) ==> names_folded(t),
        decreases
            (if self.finished { 0int } else { 1int }),
            self.remaining(),
            self.rank(),
    {
        if !self.finished {
            self.lemma_step();
            self.lemma_step_folds();
            let (next, out) = self.step();
            match out {
                Some(e) => {
                    if i > 0 {
                        assert(self.emissions()[i] == next.emissions()[i - 1]);
                        next.lemma_names_are_folded(i - 1);
                    }
                },
                None => {
                    next.lemma_names_are_folded(i);
                },
            }
        }
    }
}

impl HtmlTokenizer {
    /// Everything that the tokenizer still hands out, in order.
    pub fn collect(&mut self) -> (list: Vec<Result<HtmlToken, TokenizerError>>)
        ensures
            emissions_view(list@) == old(self)@.emissions(),
    {
        let mut list: Vec<Result<HtmlToken, TokenizerError>> = Vec::new();
        let mut done = false;
        assert(emissions_view(list@) + self@.emissions() =~= self@.emissions());
        while !done
            invariant
                !done ==> emissions_view(list@) + self@.emissions() == old(self)@.emissions(),
                done ==> emissions_view(list@) == old(self)@.emissions(),
            decreases
                (if done { 0int } else { 1int }),
                (if self@.finished { 0int } else { 1int }),
                self@.remaining(),
                self@.rank(),
        {
            let ghost before = emissions_view(list@);
            let ghost t0 = self@;
            proof {
                if t0.wf() {
                    t0.lemma_run_emissions();
                }
            }
            match self.next() {
                Some(r) => {
                    let ghost e = emission_view(Some(r))->0;
                    list.push(r);
                    assert(emissions_view(list@) =~= before + seq![e]);
                    assert(before + (seq![e] + self@.emissions()) =~= (before + seq![e])
                        + self@.emissions());
                },
                None => {
                    assert(t0.emissions() =~= Seq::empty());
                    assert(before + t0.emissions() =~= before);
                    done = true;
                },
            }
        }
        list
    }
}

} // verus!
