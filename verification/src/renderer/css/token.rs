//! The style-sheet tokenizer: strings and a handful of punctuation marks.

use vstd::prelude::*;
use crate::text::chars_of;
use crate::text::push_char;

verus! {

#[derive(Debug, PartialEq, Eq)]
pub enum CssToken {
    HashToken(String),
    Delim(char),
    Colon,
    SemiColon,
    OpenParenthesis,
    CloseParenthesis,
    OpenCurly,
    CloseCurly,
    Ident(String),
    StringToken(String),
    AtKeyword(String),
}

/// What a style-sheet token is, over sequences of characters.
pub enum CssTokenView {
    HashToken(Seq<char>),
    Delim(char),
    Colon,
    SemiColon,
    OpenParenthesis,
    CloseParenthesis,
    OpenCurly,
    CloseCurly,
    Ident(Seq<char>),
    StringToken(Seq<char>),
    AtKeyword(Seq<char>),
}

impl View for CssToken {
    type V = CssTokenView;

    open spec fn view(&self) -> CssTokenView {
        match *self {
            CssToken::HashToken(s) => CssTokenView::HashToken(s@),
            CssToken::Delim(c) => CssTokenView::Delim(c),
            CssToken::Colon => CssTokenView::Colon,
            CssToken::SemiColon => CssTokenView::SemiColon,
            CssToken::OpenParenthesis => CssTokenView::OpenParenthesis,
            CssToken::CloseParenthesis => CssTokenView::CloseParenthesis,
            CssToken::OpenCurly => CssTokenView::OpenCurly,
            CssToken::CloseCurly => CssTokenView::CloseCurly,
            CssToken::Ident(s) => CssTokenView::Ident(s@),
            CssToken::StringToken(s) => CssTokenView::StringToken(s@),
            CssToken::AtKeyword(s) => CssTokenView::AtKeyword(s@),
        }
    }
}

/// A character that starts no token.
#[derive(Debug, Copy, Clone, PartialEq, Eq)]
pub struct CssTokenizerError {
    pub character: char,
}

/// What one call of the tokenizer hands out.
pub type CssEmission = Option<Result<CssTokenView, CssTokenizerError>>;

/// `c` opens and closes a string.
pub open spec fn is_css_quote(c: char) -> bool {
    c == '"' || c == '\''
}

/// The position of the first quote at or after `from`, or the length of the
/// input where there is none.
pub open spec fn string_end(input: Seq<char>, from: int) -> int
    decreases input.len() - from,
{
    if 0 <= from < input.len() && !is_css_quote(input[from]) {
        string_end(input, from + 1)
    } else if from < input.len() {
        from
    } else {
        input.len() as int
    }
}

/// The token that the single character `c` is, if it is one.
pub open spec fn mark(c: char) -> Option<CssTokenView> {
    if c == '(' {
        Some(CssTokenView::OpenParenthesis)
    } else if c == ')' {
        Some(CssTokenView::CloseParenthesis)
    } else if c == ',' || c == '.' {
        Some(CssTokenView::Delim(c))
    } else if c == ':' {
        Some(CssTokenView::Colon)
    } else if c == '{' {
        Some(CssTokenView::OpenCurly)
    } else if c == '}' {
        Some(CssTokenView::CloseCurly)
    } else {
        None
    }
}

/// The first token at or after `pos` and the position behind it. Spaces
/// and line ends are skipped. A string runs from behind its quote to the
/// next quote of either kind, or to the end of the input. A character that
/// starts no token is an error, and scanning resumes behind it.
pub open spec fn css_lex(input: Seq<char>, pos: int) -> (CssEmission, int)
    decreases input.len() - pos,
{
    if !(0 <= pos < input.len()) {
        (None, pos)
    } else {
        let c = input[pos];
        if c == ' ' || c == '\n' {
            css_lex(input, pos + 1)
        } else if is_css_quote(c) {
            let end = string_end(input, pos + 1);
            (
                Some(Ok(CssTokenView::StringToken(input.subrange(pos + 1, end)))),
                if end < input.len() {
                    end + 1
                } else {
                    end
                },
            )
        } else {
            match mark(c) {
                Some(t) => (Some(Ok(t)), pos + 1),
                None => (Some(Err(CssTokenizerError { character: c })), pos + 1),
            }
        }
    }
}

#[derive(Debug, Clone, PartialEq)]
pub struct CssTokenizer {
    pos: usize,
    input: Vec<char>,
}

impl CssTokenizer {
    /// A tokenizer at the start of `css`.
    pub fn new(css: String) -> (t: Self)
        ensures
            t.input() == css@,
            t.position() == 0,
    {
        Self { pos: 0, input: chars_of(css.as_str()) }
    }

    /// The characters that the tokenizer reads.
    pub closed spec fn input(&self) -> Seq<char> {
        self.input@
    }

    /// How many characters the tokenizer has read.
    pub closed spec fn position(&self) -> int {
        self.pos as int
    }

    /// Reads a string: from the position, which is behind the opening
    /// quote, up to the next quote or the end of the input.
    fn consume_string_token(&mut self) -> (s: String)
        requires
            old(self).pos <= old(self).input@.len(),
        ensures
            final(self).input == old(self).input,
            final(self).pos == string_end(old(self).input@, old(self).pos as int),
            old(self).pos <= final(self).pos <= old(self).input@.len(),
            s@ == old(self).input@.subrange(old(self).pos as int, final(self).pos as int),
    {
        let mut s = String::new();
        let ghost start = self.pos as int;
        while self.pos < self.input.len() && self.input[self.pos] != '"' && self.input[self.pos]
            != '\''
            invariant
                self.input == old(self).input,
                start == old(self).pos,
                start <= self.pos <= self.input@.len(),
                string_end(self.input@, self.pos as int) == string_end(self.input@, start),
                s@ == self.input@.subrange(start, self.pos as int),
            decreases self.input@.len() - self.pos,
        {
            push_char(&mut s, self.input[self.pos]);
            assert(self.input@.subrange(start, self.pos + 1) =~= self.input@.subrange(
                start,
                self.pos as int,
            ).push(self.input@[self.pos as int]));
            self.pos += 1;
        }
        s
    }

    /// The next token, or the error that stands in its place; `None` where
    /// the input has run out.
    pub fn next(&mut self) -> (r: Option<Result<CssToken, CssTokenizerError>>)
        ensures
            final(self).input() == old(self).input(),
            (match r {
                Some(Ok(t)) => Some(Ok(t@)),
                Some(Err(e)) => Some(Err(e)),
                None => None,
            }, final(self).position()) == css_lex(old(self).input(), old(self).position()),
    {
        while self.pos < self.input.len()
            invariant
                self.input == old(self).input,
                css_lex(self.input@, self.pos as int) == css_lex(
                    old(self).input@,
                    old(self).pos as int,
                ),
            decreases self.input@.len() - self.pos,
        {
            let c = self.input[self.pos];
            self.pos += 1;
            let token = match c {
                '"' | '\'' => {
                    let value = self.consume_string_token();
                    if self.pos < self.input.len() {
                        self.pos += 1;
                    }
                    CssToken::StringToken(value)
                },
                '(' => CssToken::OpenParenthesis,
                ')' => CssToken::CloseParenthesis,
                ',' => CssToken::Delim(','),
                '.' => CssToken::Delim('.'),
                ':' => CssToken::Colon,
                '{' => CssToken::OpenCurly,
                '}' => CssToken::CloseCurly,
                ' ' | '\n' => {
                    continue ;
                },
                _ => {
                    return Some(Err(CssTokenizerError { character: c }));
                },
            };
            return Some(Ok(token));
        }
        None
    }
}

} // verus!
