//! The script lexer: characters in, tokens out, one at a time.
//!
//! [`lex`] says which token starts at a position of the input and where it
//! ends; [`JsLexer::next`] computes exactly that.

use vstd::prelude::*;
use crate::text::char_digit_value;
use crate::text::char_is_alpha;
use crate::text::char_is_digit;
use crate::text::chars_of;
use crate::text::digit_value;
use crate::text::is_ascii_alpha;
use crate::text::is_ascii_digit;
use crate::text::push_char;
use crate::text::str_equal;

verus! {

#[derive(Debug, Eq, PartialEq)]
pub enum Token {
    /// One of the characters that [`is_punctuator`] accepts.
    Punctuator(char),
    /// A run of decimal digits, as a number.
    Number(u64),
    /// A name that is no keyword.
    Identifier(String),
    /// One of `var`, `function` and `return`.
    Keyword(String),
    /// The text between two quotes.
    StringLiteral(String),
}

/// What a token is, over sequences of characters.
pub enum TokenView {
    Punctuator(char),
    Number(u64),
    Identifier(Seq<char>),
    Keyword(Seq<char>),
    StringLiteral(Seq<char>),
}

impl View for Token {
    type V = TokenView;

    open spec fn view(&self) -> TokenView {
        match *self {
            Token::Punctuator(c) => TokenView::Punctuator(c),
            Token::Number(n) => TokenView::Number(n),
            Token::Identifier(s) => TokenView::Identifier(s@),
            Token::Keyword(s) => TokenView::Keyword(s@),
            Token::StringLiteral(s) => TokenView::StringLiteral(s@),
        }
    }
}

impl Clone for Token {
    fn clone(&self) -> (r: Self)
        ensures
            r@ == self@,
    {
        match self {
            Token::Punctuator(c) => Token::Punctuator(*c),
            Token::Number(n) => Token::Number(*n),
            Token::Identifier(s) => Token::Identifier(s.clone()),
            Token::Keyword(s) => Token::Keyword(s.clone()),
            Token::StringLiteral(s) => Token::StringLiteral(s.clone()),
        }
    }
}

/// The views of a list of tokens, in order.
pub open spec fn tokens_view(tokens: Seq<Token>) -> Seq<TokenView> {
    Seq::new(tokens.len(), |i: int| tokens[i]@)
}

/// The characters that are tokens by themselves.
pub open spec fn is_punctuator(c: char) -> bool {
    c == '+' || c == '-' || c == '*' || c == '/' || c == '%' || c == '(' || c == ')' || c == '{'
        || c == '}' || c == ';' || c == ',' || c == '=' || c == '.'
}

/// The characters that open and close a string literal.
pub open spec fn is_quote(c: char) -> bool {
    c == '"' || c == '\''
}

/// The characters that can start an identifier.
pub open spec fn is_identifier_start(c: char) -> bool {
    is_ascii_alpha(c) || c == '_' || c == '$'
}

/// The characters that can continue an identifier.
pub open spec fn is_identifier_part(c: char) -> bool {
    is_identifier_start(c) || is_ascii_digit(c)
}

/// The names that are keywords.
pub open spec fn is_keyword(name: Seq<char>) -> bool {
    name == "var"@ || name == "function"@ || name == "return"@
}

/// The kinds of character runs that the lexer scans.
pub enum Run {
    /// Decimal digits.
    Digits,
    /// Characters that continue an identifier.
    Name,
    /// Anything but the given quote.
    Quoted(char),
}

impl Run {
    /// Whether `c` belongs to a run of this kind.
    pub open spec fn has(self, c: char) -> bool {
        match self {
            Run::Digits => is_ascii_digit(c),
            Run::Name => is_identifier_part(c),
            Run::Quoted(q) => c != q,
        }
    }

    fn holds(&self, c: char) -> (r: bool)
        ensures
            r == self.has(c),
    {
        match self {
            Run::Digits => char_is_digit(c),
            Run::Name => char_is_alpha(c) || c == '_' || c == '$' || char_is_digit(c),
            Run::Quoted(q) => c != *q,
        }
    }
}

/// The end of the run of kind `run` that starts at `pos`: the first position
/// from `pos` on whose character is not of the run, or the end of the input.
pub open spec fn run_end(input: Seq<char>, pos: int, run: Run) -> int
    decreases input.len() - pos,
{
    if 0 <= pos < input.len() && run.has(input[pos]) {
        run_end(input, pos + 1, run)
    } else {
        pos
    }
}

/// The number that a run of digits writes in decimal, cut off at the
/// largest `u64`.
pub open spec fn decimal_value(digits: Seq<char>) -> nat
    decreases digits.len(),
{
    if digits.len() == 0 {
        0
    } else {
        let v = decimal_value(digits.drop_last()) * 10 + digit_value(digits.last());
        if v > u64::MAX {
            u64::MAX as nat
        } else {
            v
        }
    }
}

/// The token that a name stands for: a keyword where the name is one, else
/// an identifier.
pub open spec fn name_token(name: Seq<char>) -> TokenView {
    if is_keyword(name) {
        TokenView::Keyword(name)
    } else {
        TokenView::Identifier(name)
    }
}

/// The first token at or after `pos`, and the position behind it. Spaces
/// and every character that starts no token are skipped. A string literal
/// ends at the quote that opened it, or where the input ends.
pub open spec fn lex(input: Seq<char>, pos: int) -> (Option<TokenView>, int)
    decreases input.len() - pos,
{
    if !(0 <= pos < input.len()) {
        (None, pos)
    } else {
        let c = input[pos];
        if is_ascii_digit(c) {
            let end = run_end(input, pos, Run::Digits);
            (Some(TokenView::Number(decimal_value(input.subrange(pos, end)) as u64)), end)
        } else if is_punctuator(c) {
            (Some(TokenView::Punctuator(c)), pos + 1)
        } else if is_quote(c) {
            let end = run_end(input, pos + 1, Run::Quoted(c));
            (
                Some(TokenView::StringLiteral(input.subrange(pos + 1, end))),
                if end < input.len() {
                    end + 1
                } else {
                    end
                },
            )
        } else if is_identifier_start(c) {
            let end = run_end(input, pos, Run::Name);
            (Some(name_token(input.subrange(pos, end))), end)
        } else {
            lex(input, pos + 1)
        }
    }
}

/// A run ends at or after its start and within the input, holds only
/// characters of its kind, and stops at a character that is not.
pub proof fn lemma_run_end(input: Seq<char>, pos: int, run: Run)
    requires
        0 <= pos <= input.len(),
    ensures
        pos <= run_end(input, pos, run) <= input.len(),
        forall|i: int| pos <= i < run_end(input, pos, run) ==> run.has(#[trigger] input[i]),
        run_end(input, pos, run) < input.len() ==> !run.has(input[run_end(input, pos, run)]),
    decreases input.len() - pos,
{
    if pos < input.len() && run.has(input[pos]) {
        lemma_run_end(input, pos + 1, run);
    }
}

/// A token ends behind the position where the search for it began, and
/// within the input; where there is none, the search ends where the input
/// ends.
pub proof fn lemma_lex_advances(input: Seq<char>, pos: int)
    requires
        0 <= pos <= input.len(),
    ensures
        lex(input, pos).0 is Some ==> pos < lex(input, pos).1 <= input.len(),
        lex(input, pos).0 is None ==> lex(input, pos).1 == input.len(),
    decreases input.len() - pos,
{
    if pos < input.len() {
        let c = input[pos];
        if is_ascii_digit(c) {
            lemma_run_end(input, pos, Run::Digits);
        } else if is_punctuator(c) {
        } else if is_quote(c) {
            lemma_run_end(input, pos + 1, Run::Quoted(c));
        } else if is_identifier_start(c) {
            lemma_run_end(input, pos, Run::Name);
        } else {
            lemma_lex_advances(input, pos + 1);
        }
    }
}

/// All the tokens from `pos` on, in order.
pub open spec fn lex_all(input: Seq<char>, pos: int) -> Seq<TokenView>
    decreases input.len() - pos,
{
    let (token, end) = lex(input, pos);
    match token {
        Some(t) => if pos < end <= input.len() {
            seq![t] + lex_all(input, end)
        } else {
            seq![t]
        },
        None => Seq::empty(),
    }
}

pub struct JsLexer {
    pos: usize,
    input: Vec<char>,
}

impl JsLexer {
    /// A lexer at the start of `js`.
    pub fn new(js: String) -> (l: Self)
        ensures
            l.input() == js@,
            l.position() == 0,
    {
        Self { pos: 0, input: chars_of(js.as_str()) }
    }

    /// The characters that the lexer reads.
    pub closed spec fn input(&self) -> Seq<char> {
        self.input@
    }

    /// How many characters the lexer has read.
    pub closed spec fn position(&self) -> int {
        self.pos as int
    }

    /// Moves behind the run of kind `run` that starts at the position.
    fn skip_run(&mut self, run: &Run)
        requires
            old(self).pos <= old(self).input@.len(),
        ensures
            final(self).input == old(self).input,
            final(self).pos == run_end(old(self).input@, old(self).pos as int, *run),
            old(self).pos <= final(self).pos <= old(self).input@.len(),
    {
        proof {
            lemma_run_end(self.input@, self.pos as int, *run);
        }
        while self.pos < self.input.len() && run.holds(self.input[self.pos])
            invariant
                self.input == old(self).input,
                old(self).pos <= self.pos <= self.input@.len(),
                run_end(self.input@, self.pos as int, *run) == run_end(
                    old(self).input@,
                    old(self).pos as int,
                    *run,
                ),
            decreases self.input@.len() - self.pos,
        {
            self.pos += 1;
        }
    }

    /// The characters from `from` up to the position, as a string.
    fn text_since(&self, from: usize) -> (s: String)
        requires
            from <= self.pos <= self.input@.len(),
        ensures
            s@ == self.input@.subrange(from as int, self.pos as int),
    {
        let mut s = String::new();
        let mut i = from;
        while i < self.pos
            invariant
                from <= i <= self.pos <= self.input@.len(),
                s@ == self.input@.subrange(from as int, i as int),
            decreases self.pos - i,
        {
            push_char(&mut s, self.input[i]);
            assert(self.input@.subrange(from as int, i + 1) =~= self.input@.subrange(
                from as int,
                i as int,
            ).push(self.input@[i as int]));
            i += 1;
        }
        s
    }

    /// The number written by the digits from `from` up to the position.
    fn number_since(&self, from: usize) -> (n: u64)
        requires
            from <= self.pos <= self.input@.len(),
            forall|i: int| from <= i < self.pos ==> is_ascii_digit(#[trigger] self.input@[i]),
        ensures
            n == decimal_value(self.input@.subrange(from as int, self.pos as int)),
    {
        let mut n: u64 = 0;
        let mut i = from;
        while i < self.pos
            invariant
                from <= i <= self.pos <= self.input@.len(),
                forall|i: int| from <= i < self.pos ==> is_ascii_digit(#[trigger] self.input@[i]),
                n == decimal_value(self.input@.subrange(from as int, i as int)),
            decreases self.pos - i,
        {
            let d = char_digit_value(self.input[i]);
            assert(self.input@.subrange(from as int, i + 1).drop_last() =~= self.input@.subrange(
                from as int,
                i as int,
            ));
            n = if n > (u64::MAX - d) / 10 {
                u64::MAX
            } else {
                n * 10 + d
            };
            i += 1;
        }
        n
    }

    /// The next token, or `None` where no token is left.
    pub fn next(&mut self) -> (t: Option<Token>)
        ensures
            final(self).input() == old(self).input(),
            (match t {
                Some(t) => Some(t@),
                None => None,
            }, final(self).position()) == lex(old(self).input(), old(self).position()),
    {
        while self.pos < self.input.len()
            invariant
                self.input == old(self).input,
                lex(self.input@, self.pos as int) == lex(old(self).input@, old(self).pos as int),
            decreases self.input@.len() - self.pos,
        {
            let c = self.input[self.pos];
            let start = self.pos;
            if char_is_digit(c) {
                proof {
                    lemma_run_end(self.input@, self.pos as int, Run::Digits);
                }
                self.skip_run(&Run::Digits);
                return Some(Token::Number(self.number_since(start)));
            } else if c == '+' || c == '-' || c == '*' || c == '/' || c == '%' || c == '('
                || c == ')' || c == '{' || c == '}' || c == ';' || c == ',' || c == '=' || c
                == '.' {
                self.pos += 1;
                return Some(Token::Punctuator(c));
            } else if c == '"' || c == '\'' {
                self.pos += 1;
                self.skip_run(&Run::Quoted(c));
                let text = self.text_since(start + 1);
                if self.pos < self.input.len() {
                    self.pos += 1;
                }
                return Some(Token::StringLiteral(text));
            } else if char_is_alpha(c) || c == '_' || c == '$' {
                self.skip_run(&Run::Name);
                let name = self.text_since(start);
                if str_equal(name.as_str(), "var") || str_equal(name.as_str(), "function")
                    || str_equal(name.as_str(), "return") {
                    return Some(Token::Keyword(name));
                }
                return Some(Token::Identifier(name));
            } else {
                self.pos += 1;
            }
        }
        None
    }

    /// All the tokens that are left, in order.
    pub fn collect(&mut self) -> (tokens: Vec<Token>)
        ensures
            final(self).input() == old(self).input(),
            tokens_view(tokens@) == lex_all(old(self).input(), old(self).position()),
    {
        let mut tokens: Vec<Token> = Vec::new();
        let ghost start = self.pos as int;
        if self.pos > self.input.len() {
            assert(tokens_view(tokens@) =~= Seq::<TokenView>::empty());
            return tokens;
        }
        assert(tokens_view(tokens@) + lex_all(self.input@, start) =~= lex_all(self.input@, start));
        loop
            invariant
                self.input@ == old(self).input@,
                self.pos <= self.input@.len(),
                start == old(self).pos,
                lex_all(self.input@, start) == tokens_view(tokens@) + lex_all(
                    self.input@,
                    self.pos as int,
                ),
            decreases self.input@.len() - self.pos,
        {
            proof {
                lemma_lex_advances(self.input@, self.pos as int);
            }
            let ghost before = tokens_view(tokens@);
            match self.next() {
                Some(t) => {
                    tokens.push(t);
                    assert(tokens_view(tokens@) =~= before + seq![t@]);
                    assert(before + (seq![t@] + lex_all(self.input@, self.pos as int)) =~= (before
                        + seq![t@]) + lex_all(self.input@, self.pos as int));
                },
                None => {
                    assert(tokens_view(tokens@) + Seq::<TokenView>::empty() =~= tokens_view(
                        tokens@,
                    ));
                    return tokens;
                },
            }
        }
    }
}

} // verus!
