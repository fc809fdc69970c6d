//! The script syntax tree and the recursive-descent parser that builds it.
//!
//! The grammar is written down once as functions over a sequence of tokens
//! ([`parse_program`] and the functions it rests on); the executable parser
//! is proved to return what they return.

use std::rc::Rc;
use vstd::prelude::*;
use crate::renderer::js::token::JsLexer;
use crate::renderer::js::token::Token;
use crate::renderer::js::token::TokenView;
use crate::renderer::js::token::lex_all;
use crate::renderer::js::token::tokens_view;

verus! {

/// What a syntax tree is, over sequences of characters. A part that the
/// source left out is `None`.
pub enum AstView {
    ExpressionStatement(Option<Box<AstView>>),
    AdditiveExpression { operator: char, left: Option<Box<AstView>>, right: Option<Box<AstView>> },
    AssignmentExpression {
        operator: char,
        left: Option<Box<AstView>>,
        right: Option<Box<AstView>>,
    },
    MemberExpression { object: Option<Box<AstView>>, property: Option<Box<AstView>> },
    NumericLiteral(u64),
    VariableDeclaration { declarations: Seq<Option<Box<AstView>>> },
    VariableDeclarator { id: Option<Box<AstView>>, init: Option<Box<AstView>> },
    Identifier(Seq<char>),
    StringLiteral(Seq<char>),
    BlockStatement { body: Seq<Option<Box<AstView>>> },
    ReturnStatement { argument: Option<Box<AstView>> },
    FunctionDeclaration {
        id: Option<Box<AstView>>,
        params: Seq<Option<Box<AstView>>>,
        body: Option<Box<AstView>>,
    },
    CallExpression { callee: Option<Box<AstView>>, arguments: Seq<Option<Box<AstView>>> },
}

/// A part of a tree that may be absent.
pub type Part = Option<Box<AstView>>;

#[derive(Debug, Clone, PartialEq, Eq)]
pub enum Node {
    ExpressionStatement(Option<Rc<Node>>),
    AdditiveExpression { operator: char, left: Option<Rc<Node>>, right: Option<Rc<Node>> },
    AssignmentExpression { operator: char, left: Option<Rc<Node>>, right: Option<Rc<Node>> },
    MemberExpression { object: Option<Rc<Node>>, property: Option<Rc<Node>> },
    NumericLiteral(u64),
    VariableDeclaration { declarations: Vec<Option<Rc<Node>>> },
    VariableDeclarator { id: Option<Rc<Node>>, init: Option<Rc<Node>> },
    Identifier(String),
    StringLiteral(String),
    BlockStatement { body: Vec<Option<Rc<Node>>> },
    ReturnStatement { argument: Option<Rc<Node>> },
    FunctionDeclaration {
        id: Option<Rc<Node>>,
        params: Vec<Option<Rc<Node>>>,
        body: Option<Rc<Node>>,
    },
    CallExpression { callee: Option<Rc<Node>>, arguments: Vec<Option<Rc<Node>>> },
}

/// The view of a part of a tree.
pub open spec fn part_view(n: Option<Rc<Node>>) -> Part
    decreases n,
{
    match n {
        Some(rc) => Some(Box::new(node_view(*rc))),
        None => None,
    }
}

/// The views of a list of parts, in order.
pub open spec fn parts_view(parts: Seq<Option<Rc<Node>>>) -> Seq<Part>
    decreases parts,
{
    Seq::new(
        parts.len(),
        |i: int|
            if 0 <= i < parts.len() {
                part_view(parts[i])
            } else {
                None
            },
    )
}

/// The view of a tree.
pub open spec fn node_view(n: Node) -> AstView
    decreases n,
{
    match n {
        Node::ExpressionStatement(e) => AstView::ExpressionStatement(part_view(e)),
        Node::AdditiveExpression { operator, left, right } => AstView::AdditiveExpression {
            operator,
            left: part_view(left),
            right: part_view(right),
        },
        Node::AssignmentExpression { operator, left, right } => AstView::AssignmentExpression {
            operator,
            left: part_view(left),
            right: part_view(right),
        },
        Node::MemberExpression { object, property } => AstView::MemberExpression {
            object: part_view(object),
            property: part_view(property),
        },
        Node::NumericLiteral(v) => AstView::NumericLiteral(v),
        Node::VariableDeclaration { declarations } => AstView::VariableDeclaration {
            declarations: parts_view(declarations@),
        },
        Node::VariableDeclarator { id, init } => AstView::VariableDeclarator {
            id: part_view(id),
            init: part_view(init),
        },
        Node::Identifier(s) => AstView::Identifier(s@),
        Node::StringLiteral(s) => AstView::StringLiteral(s@),
        Node::BlockStatement { body } => AstView::BlockStatement { body: parts_view(body@) },
        Node::ReturnStatement { argument } => AstView::ReturnStatement {
            argument: part_view(argument),
        },
        Node::FunctionDeclaration { id, params, body } => AstView::FunctionDeclaration {
            id: part_view(id),
            params: parts_view(params@),
            body: part_view(body),
        },
        Node::CallExpression { callee, arguments } => AstView::CallExpression {
            callee: part_view(callee),
            arguments: parts_view(arguments@),
        },
    }
}

impl View for Node {
    type V = AstView;

    open spec fn view(&self) -> AstView {
        node_view(*self)
    }
}

impl Node {
    pub fn new_expression_statement(expression: Option<Rc<Self>>) -> (r: Option<Rc<Self>>)
        ensures
            part_view(r) == Some(Box::new(AstView::ExpressionStatement(part_view(expression)))),
    {
        Some(Rc::new(Node::ExpressionStatement(expression)))
    }

    pub fn new_additive_expression(
        operator: char,
        left: Option<Rc<Node>>,
        right: Option<Rc<Node>>,
    ) -> (r: Option<Rc<Self>>)
        ensures
            part_view(r) == Some(
                Box::new(
                    AstView::AdditiveExpression {
                        operator,
                        left: part_view(left),
                        right: part_view(right),
                    },
                ),
            ),
    {
        Some(Rc::new(Node::AdditiveExpression { operator, left, right }))
    }

    pub fn new_assignment_expression(
        operator: char,
        left: Option<Rc<Node>>,
        right: Option<Rc<Node>>,
    ) -> (r: Option<Rc<Self>>)
        ensures
            part_view(r) == Some(
                Box::new(
                    AstView::AssignmentExpression {
                        operator,
                        left: part_view(left),
                        right: part_view(right),
                    },
                ),
            ),
    {
        Some(Rc::new(Node::AssignmentExpression { operator, left, right }))
    }

    pub fn new_member_expression(object: Option<Rc<Self>>, property: Option<Rc<Self>>) -> (r:
        Option<Rc<Self>>)
        ensures
            part_view(r) == Some(
                Box::new(
                    AstView::MemberExpression {
                        object: part_view(object),
                        property: part_view(property),
                    },
                ),
            ),
    {
        Some(Rc::new(Node::MemberExpression { object, property }))
    }

    pub fn new_numeric_literal(value: u64) -> (r: Option<Rc<Self>>)
        ensures
            part_view(r) == Some(Box::new(AstView::NumericLiteral(value))),
    {
        Some(Rc::new(Node::NumericLiteral(value)))
    }

    pub fn new_variable_declarator(id: Option<Rc<Self>>, init: Option<Rc<Self>>) -> (r: Option<
        Rc<Self>,
    >)
        ensures
            part_view(r) == Some(
                Box::new(AstView::VariableDeclarator { id: part_view(id), init: part_view(init) }),
            ),
    {
        Some(Rc::new(Node::VariableDeclarator { id, init }))
    }

    pub fn new_variable_declaration(declarations: Vec<Option<Rc<Self>>>) -> (r: Option<Rc<Self>>)
        ensures
            part_view(r) == Some(
                Box::new(AstView::VariableDeclaration { declarations: parts_view(declarations@) }),
            ),
    {
        Some(Rc::new(Node::VariableDeclaration { declarations }))
    }

    pub fn new_identifier(name: String) -> (r: Option<Rc<Self>>)
        ensures
            part_view(r) == Some(Box::new(AstView::Identifier(name@))),
    {
        Some(Rc::new(Node::Identifier(name)))
    }

    pub fn new_string_literal(value: String) -> (r: Option<Rc<Self>>)
        ensures
            part_view(r) == Some(Box::new(AstView::StringLiteral(value@))),
    {
        Some(Rc::new(Node::StringLiteral(value)))
    }

    pub fn new_block_statement(body: Vec<Option<Rc<Self>>>) -> (r: Option<Rc<Self>>)
        ensures
            part_view(r) == Some(Box::new(AstView::BlockStatement { body: parts_view(body@) })),
    {
        Some(Rc::new(Node::BlockStatement { body }))
    }

    pub fn new_return_statement(argument: Option<Rc<Self>>) -> (r: Option<Rc<Self>>)
        ensures
            part_view(r) == Some(
                Box::new(AstView::ReturnStatement { argument: part_view(argument) }),
            ),
    {
        Some(Rc::new(Node::ReturnStatement { argument }))
    }

    pub fn new_function_declaration(
        id: Option<Rc<Self>>,
        params: Vec<Option<Rc<Self>>>,
        body: Option<Rc<Self>>,
    ) -> (r: Option<Rc<Self>>)
        ensures
            part_view(r) == Some(
                Box::new(
                    AstView::FunctionDeclaration {
                        id: part_view(id),
                        params: parts_view(params@),
                        body: part_view(body),
                    },
                ),
            ),
    {
        Some(Rc::new(Node::FunctionDeclaration { id, params, body }))
    }

    pub fn new_call_expression(callee: Option<Rc<Self>>, arguments: Vec<Option<Rc<Self>>>) -> (r:
        Option<Rc<Self>>)
        ensures
            part_view(r) == Some(
                Box::new(
                    AstView::CallExpression {
                        callee: part_view(callee),
                        arguments: parts_view(arguments@),
                    },
                ),
            ),
    {
        Some(Rc::new(Node::CallExpression { callee, arguments }))
    }
}

/// The views of the statements of a program, in order.
pub open spec fn body_view(body: Seq<Rc<Node>>) -> Seq<AstView> {
    Seq::new(body.len(), |i: int| node_view(*body[i]))
}

#[derive(Debug, Clone, PartialEq, Eq)]
pub struct Program {
    body: Vec<Rc<Node>>,
}

impl View for Program {
    type V = Seq<AstView>;

    closed spec fn view(&self) -> Seq<AstView> {
        body_view(self.body@)
    }
}

impl Program {
    /// A program without statements.
    pub fn new() -> (p: Self)
        ensures
            p@ == Seq::<AstView>::empty(),
    {
        let p = Self { body: Vec::new() };
        assert(p@ =~= Seq::<AstView>::empty());
        p
    }

    pub fn set_body(&mut self, body: Vec<Rc<Node>>)
        ensures
            final(self)@ == body_view(body@),
    {
        self.body = body;
    }

    pub fn body(&self) -> (b: &Vec<Rc<Node>>)
        ensures
            body_view(b@) == self@,
    {
        &self.body
    }
}

impl Default for Program {
    fn default() -> (p: Self)
        ensures
            p@ == Seq::<AstView>::empty(),
    {
        Self::new()
    }
}


/// A token where the grammar cannot go on: it is not what had to stand there.
#[derive(Debug, PartialEq, Eq)]
pub struct ScriptParseError {
    pub token: Token,
}

/// What parsing one construct gives: the part that was read, or the token
/// that could not be read; and the position behind what was consumed.
pub type Parsed = (Result<Part, TokenView>, int);

/// What parsing a list gives.
pub type ParsedList = (Result<Seq<Part>, TokenView>, int);

/// `ts[p]` is the punctuator `c`.
pub open spec fn at_punctuator(ts: Seq<TokenView>, p: int, c: char) -> bool {
    0 <= p < ts.len() && ts[p] == TokenView::Punctuator(c)
}

/// `ts[p]` is the keyword `k`.
pub open spec fn at_keyword(ts: Seq<TokenView>, p: int, k: Seq<char>) -> bool {
    0 <= p < ts.len() && ts[p] == TokenView::Keyword(k)
}

/// An identifier, a string or a number. Any other token is an error; where
/// the tokens have run out, nothing is read.
pub open spec fn parse_primary(ts: Seq<TokenView>, p: int) -> Parsed {
    if !(0 <= p < ts.len()) {
        (Ok(None), p)
    } else {
        match ts[p] {
            TokenView::Identifier(s) => (Ok(Some(Box::new(AstView::Identifier(s)))), p + 1),
            TokenView::StringLiteral(s) => (Ok(Some(Box::new(AstView::StringLiteral(s)))), p + 1),
            TokenView::Number(n) => (Ok(Some(Box::new(AstView::NumericLiteral(n)))), p + 1),
            t => (Err(t), p + 1),
        }
    }
}

/// An identifier. Any other token is consumed and gives nothing.
pub open spec fn parse_identifier(ts: Seq<TokenView>, p: int) -> (Part, int) {
    if !(0 <= p < ts.len()) {
        (None, p)
    } else {
        match ts[p] {
            TokenView::Identifier(s) => (Some(Box::new(AstView::Identifier(s))), p + 1),
            _ => (None, p + 1),
        }
    }
}

/// The accesses `.name` that follow `object`, applied from left to right.
pub open spec fn parse_member_tail(ts: Seq<TokenView>, p: int, object: Part) -> (Part, int)
    decreases ts.len() - p,
{
    if at_punctuator(ts, p, '.') {
        let (property, end) = parse_identifier(ts, p + 1);
        parse_member_tail(
            ts,
            end,
            Some(Box::new(AstView::MemberExpression { object, property })),
        )
    } else {
        (object, p)
    }
}

/// A primary expression and the accesses that follow it.
pub open spec fn parse_member(ts: Seq<TokenView>, p: int) -> Parsed {
    let (object, end) = parse_primary(ts, p);
    match object {
        Ok(object) => {
            let (e, end) = parse_member_tail(ts, end, object);
            (Ok(e), end)
        },
        Err(t) => (Err(t), end),
    }
}

/// The arguments of a call, behind its `(`, up to and including its `)`;
/// `acc` holds those read so far. Commas separate and are skipped.
pub open spec fn parse_arguments(ts: Seq<TokenView>, p: int, acc: Seq<Part>) -> ParsedList
    decreases ts.len() - p, 4int,
{
    if !(0 <= p < ts.len()) {
        (Ok(acc), p)
    } else if at_punctuator(ts, p, ')') {
        (Ok(acc), p + 1)
    } else if at_punctuator(ts, p, ',') {
        parse_arguments(ts, p + 1, acc)
    } else {
        let (a, end) = parse_assignment(ts, p);
        match a {
            Ok(a) => if p < end <= ts.len() {
                parse_arguments(ts, end, acc.push(a))
            } else {
                (Ok(acc.push(a)), end)
            },
            Err(t) => (Err(t), end),
        }
    }
}

/// A member expression, and the call that it is the callee of, if any.
pub open spec fn parse_left_hand_side(ts: Seq<TokenView>, p: int) -> Parsed
    decreases ts.len() - p, 1int,
{
    let (e, end) = parse_member(ts, p);
    match e {
        Ok(callee) => if at_punctuator(ts, end, '(') && end >= p {
            let (arguments, end) = parse_arguments(ts, end + 1, Seq::empty());
            match arguments {
                Ok(arguments) => (
                    Ok(Some(Box::new(AstView::CallExpression { callee, arguments }))),
                    end,
                ),
                Err(t) => (Err(t), end),
            }
        } else {
            (Ok(callee), end)
        },
        Err(t) => (Err(t), end),
    }
}

/// A sum or difference. What stands right of the operator is read as a
/// whole assignment expression, so a chain groups to the right.
pub open spec fn parse_additive(ts: Seq<TokenView>, p: int) -> Parsed
    decreases ts.len() - p, 2int,
{
    let (e, end) = parse_left_hand_side(ts, p);
    match e {
        Ok(left) => if (at_punctuator(ts, end, '+') || at_punctuator(ts, end, '-')) && end >= p {
            let operator = ts[end]->Punctuator_0;
            let (right, end) = parse_assignment(ts, end + 1);
            match right {
                Ok(right) => (
                    Ok(Some(Box::new(AstView::AdditiveExpression { operator, left, right }))),
                    end,
                ),
                Err(t) => (Err(t), end),
            }
        } else {
            (Ok(left), end)
        },
        Err(t) => (Err(t), end),
    }
}

/// An additive expression, and what is assigned to it, if anything.
pub open spec fn parse_assignment(ts: Seq<TokenView>, p: int) -> Parsed
    decreases ts.len() - p, 3int,
{
    let (e, end) = parse_additive(ts, p);
    match e {
        Ok(left) => if at_punctuator(ts, end, '=') && end >= p {
            let (right, end) = parse_assignment(ts, end + 1);
            match right {
                Ok(right) => (
                    Ok(
                        Some(
                            Box::new(AstView::AssignmentExpression { operator: '=', left, right }),
                        ),
                    ),
                    end,
                ),
                Err(t) => (Err(t), end),
            }
        } else {
            (Ok(left), end)
        },
        Err(t) => (Err(t), end),
    }
}

/// What a declared variable starts with: the expression behind `=`. Any
/// other token is consumed and gives nothing.
pub open spec fn parse_initialiser(ts: Seq<TokenView>, p: int) -> Parsed {
    if !(0 <= p < ts.len()) {
        (Ok(None), p)
    } else if at_punctuator(ts, p, '=') {
        parse_assignment(ts, p + 1)
    } else {
        (Ok(None), p + 1)
    }
}

/// A declaration of one variable, behind its `var`.
pub open spec fn parse_variable_declaration(ts: Seq<TokenView>, p: int) -> Parsed {
    let (id, end) = parse_identifier(ts, p);
    let (init, end) = parse_initialiser(ts, end);
    match init {
        Ok(init) => (
            Ok(
                Some(
                    Box::new(
                        AstView::VariableDeclaration {
                            declarations: seq![
                                Some(Box::new(AstView::VariableDeclarator { id, init })),
                            ],
                        },
                    ),
                ),
            ),
            end,
        ),
        Err(t) => (Err(t), end),
    }
}

/// The position behind the `;` at `p`, or `p` where there is none.
pub open spec fn skip_semicolon(ts: Seq<TokenView>, p: int) -> int {
    if at_punctuator(ts, p, ';') {
        p + 1
    } else {
        p
    }
}

/// A statement: a declaration behind `var`, a return behind `return`, else
/// an expression; and the `;` that may follow.
pub open spec fn parse_statement(ts: Seq<TokenView>, p: int) -> Parsed {
    if !(0 <= p < ts.len()) {
        (Ok(None), p)
    } else {
        let (node, end): Parsed = if at_keyword(ts, p, "var"@) {
            parse_variable_declaration(ts, p + 1)
        } else if at_keyword(ts, p, "return"@) {
            let (argument, end) = parse_assignment(ts, p + 1);
            match argument {
                Ok(argument) => (Ok(Some(Box::new(AstView::ReturnStatement { argument }))), end),
                Err(t) => (Err(t), end),
            }
        } else {
            let (e, end) = parse_assignment(ts, p);
            match e {
                Ok(e) => (Ok(Some(Box::new(AstView::ExpressionStatement(e)))), end),
                Err(t) => (Err(t), end),
            }
        };
        match node {
            Ok(n) => (Ok(n), skip_semicolon(ts, end)),
            Err(t) => (Err(t), end),
        }
    }
}

/// The parameters of a function, behind its `(`, up to and including its
/// `)`; `acc` holds those read so far.
pub open spec fn parse_parameters(ts: Seq<TokenView>, p: int, acc: Seq<Part>) -> (Seq<Part>, int)
    decreases ts.len() - p,
{
    if !(0 <= p < ts.len()) {
        (acc, p)
    } else if at_punctuator(ts, p, ')') {
        (acc, p + 1)
    } else if at_punctuator(ts, p, ',') {
        parse_parameters(ts, p + 1, acc)
    } else {
        parse_parameters(ts, p + 1, acc.push(parse_identifier(ts, p).0))
    }
}

/// The parameter list of a function. A token other than `(` at its start is
/// an error; where the tokens have run out, the list is empty.
pub open spec fn parse_parameter_list(ts: Seq<TokenView>, p: int) -> ParsedList {
    if !(0 <= p < ts.len()) {
        (Ok(Seq::empty()), p)
    } else if at_punctuator(ts, p, '(') {
        let (params, end) = parse_parameters(ts, p + 1, Seq::empty());
        (Ok(params), end)
    } else {
        (Err(ts[p]), p + 1)
    }
}

/// The statements of a function body, behind its `{`, up to and including
/// its `}`; `acc` holds those read so far.
pub open spec fn parse_block(ts: Seq<TokenView>, p: int, acc: Seq<Part>) -> Parsed
    decreases ts.len() - p, 2int,
{
    if !(0 <= p < ts.len()) {
        (Ok(Some(Box::new(AstView::BlockStatement { body: acc }))), p)
    } else if at_punctuator(ts, p, '}') {
        (Ok(Some(Box::new(AstView::BlockStatement { body: acc }))), p + 1)
    } else {
        let (s, end) = parse_source_element(ts, p);
        match s {
            Ok(s) => if p < end <= ts.len() {
                parse_block(ts, end, acc.push(s))
            } else {
                (Ok(Some(Box::new(AstView::BlockStatement { body: acc.push(s) }))), end)
            },
            Err(t) => (Err(t), end),
        }
    }
}

/// The body of a function. A token other than `{` at its start is an error;
/// where the tokens have run out, there is no body.
pub open spec fn parse_function_body(ts: Seq<TokenView>, p: int) -> Parsed
    decreases ts.len() - p, 2int,
{
    if !(0 <= p < ts.len()) {
        (Ok(None), p)
    } else if at_punctuator(ts, p, '{') {
        parse_block(ts, p + 1, Seq::empty())
    } else {
        (Err(ts[p]), p + 1)
    }
}

/// A function declaration, behind its `function`.
pub open spec fn parse_function_declaration(ts: Seq<TokenView>, p: int) -> Parsed
    decreases ts.len() - p, 3int,
{
    let (id, end) = parse_identifier(ts, p);
    let (params, end) = parse_parameter_list(ts, end);
    match params {
        Ok(params) => if p <= end <= ts.len() {
            let (body, end) = parse_function_body(ts, end);
            match body {
                Ok(body) => (
                    Ok(Some(Box::new(AstView::FunctionDeclaration { id, params, body }))),
                    end,
                ),
                Err(t) => (Err(t), end),
            }
        } else {
            (Ok(None), end)
        },
        Err(t) => (Err(t), end),
    }
}

/// A function declaration behind `function`, else a statement.
pub open spec fn parse_source_element(ts: Seq<TokenView>, p: int) -> Parsed
    decreases ts.len() - p, 1int,
{
    if !(0 <= p < ts.len()) {
        (Ok(None), p)
    } else if at_keyword(ts, p, "function"@) {
        parse_function_declaration(ts, p + 1)
    } else {
        parse_statement(ts, p)
    }
}

/// The statements of a program from `p` on; `acc` holds those read so far.
/// Reading stops where the tokens have run out, and fails at the first
/// token that cannot be read.
pub open spec fn parse_program(ts: Seq<TokenView>, p: int, acc: Seq<AstView>) -> Result<
    Seq<AstView>,
    TokenView,
>
    decreases ts.len() - p,
{
    let (s, end) = parse_source_element(ts, p);
    match s {
        Ok(Some(s)) => if p < end <= ts.len() {
            parse_program(ts, end, acc.push(*s))
        } else {
            Ok(acc.push(*s))
        },
        Ok(None) => Ok(acc),
        Err(t) => Err(t),
    }
}


/// Reading that began at `p` ended at `end`: not before `p`, not behind the
/// last token, and behind `p` where a token stood at `p`.
pub open spec fn advanced(ts: Seq<TokenView>, p: int, end: int) -> bool {
    p <= end <= ts.len() && (p < ts.len() ==> p < end)
}

pub proof fn lemma_member_tail_advances(ts: Seq<TokenView>, p: int, object: Part)
    requires
        0 <= p <= ts.len(),
    ensures
        p <= parse_member_tail(ts, p, object).1 <= ts.len(),
    decreases ts.len() - p,
{
    if at_punctuator(ts, p, '.') {
        let (property, end) = parse_identifier(ts, p + 1);
        lemma_member_tail_advances(
            ts,
            end,
            Some(Box::new(AstView::MemberExpression { object, property })),
        );
    }
}

pub proof fn lemma_member_advances(ts: Seq<TokenView>, p: int)
    requires
        0 <= p <= ts.len(),
    ensures
        advanced(ts, p, parse_member(ts, p).1),
{
    let (object, end) = parse_primary(ts, p);
    if object is Ok {
        lemma_member_tail_advances(ts, end, object->Ok_0);
    }
}

pub proof fn lemma_arguments_advance(ts: Seq<TokenView>, p: int, acc: Seq<Part>)
    requires
        0 <= p <= ts.len(),
    ensures
        advanced(ts, p, parse_arguments(ts, p, acc).1),
    decreases ts.len() - p, 4int,
{
    if p < ts.len() && !at_punctuator(ts, p, ')') {
        if at_punctuator(ts, p, ',') {
            lemma_arguments_advance(ts, p + 1, acc);
        } else {
            lemma_assignment_advances(ts, p);
            let (a, end) = parse_assignment(ts, p);
            if a is Ok {
                lemma_arguments_advance(ts, end, acc.push(a->Ok_0));
            }
        }
    }
}

pub proof fn lemma_left_hand_side_advances(ts: Seq<TokenView>, p: int)
    requires
        0 <= p <= ts.len(),
    ensures
        advanced(ts, p, parse_left_hand_side(ts, p).1),
    decreases ts.len() - p, 1int,
{
    lemma_member_advances(ts, p);
    let (e, end) = parse_member(ts, p);
    if e is Ok && at_punctuator(ts, end, '(') {
        lemma_arguments_advance(ts, end + 1, Seq::empty());
    }
}

pub proof fn lemma_additive_advances(ts: Seq<TokenView>, p: int)
    requires
        0 <= p <= ts.len(),
    ensures
        advanced(ts, p, parse_additive(ts, p).1),
    decreases ts.len() - p, 2int,
{
    lemma_left_hand_side_advances(ts, p);
    let (e, end) = parse_left_hand_side(ts, p);
    if e is Ok && (at_punctuator(ts, end, '+') || at_punctuator(ts, end, '-')) {
        lemma_assignment_advances(ts, end + 1);
    }
}

pub proof fn lemma_assignment_advances(ts: Seq<TokenView>, p: int)
    requires
        0 <= p <= ts.len(),
    ensures
        advanced(ts, p, parse_assignment(ts, p).1),
    decreases ts.len() - p, 3int,
{
    lemma_additive_advances(ts, p);
    let (e, end) = parse_additive(ts, p);
    if e is Ok && at_punctuator(ts, end, '=') {
        lemma_assignment_advances(ts, end + 1);
    }
}

pub proof fn lemma_statement_advances(ts: Seq<TokenView>, p: int)
    requires
        0 <= p <= ts.len(),
    ensures
        advanced(ts, p, parse_statement(ts, p).1),
{
    if p < ts.len() {
        if at_keyword(ts, p, "var"@) {
            let (id, end) = parse_identifier(ts, p + 1);
            if at_punctuator(ts, end, '=') {
                lemma_assignment_advances(ts, end + 1);
            }
        } else if at_keyword(ts, p, "return"@) {
            lemma_assignment_advances(ts, p + 1);
        } else {
            lemma_assignment_advances(ts, p);
        }
    }
}

pub proof fn lemma_parameters_advance(ts: Seq<TokenView>, p: int, acc: Seq<Part>)
    requires
        0 <= p <= ts.len(),
    ensures
        advanced(ts, p, parse_parameters(ts, p, acc).1),
    decreases ts.len() - p,
{
    if p < ts.len() && !at_punctuator(ts, p, ')') {
        if at_punctuator(ts, p, ',') {
            lemma_parameters_advance(ts, p + 1, acc);
        } else {
            lemma_parameters_advance(ts, p + 1, acc.push(parse_identifier(ts, p).0));
        }
    }
}

pub proof fn lemma_block_advances(ts: Seq<TokenView>, p: int, acc: Seq<Part>)
    requires
        0 <= p <= ts.len(),
    ensures
        advanced(ts, p, parse_block(ts, p, acc).1),
    decreases ts.len() - p, 2int,
{
    if p < ts.len() && !at_punctuator(ts, p, '}') {
        lemma_source_element_advances(ts, p);
        let (s, end) = parse_source_element(ts, p);
        if s is Ok {
            lemma_block_advances(ts, end, acc.push(s->Ok_0));
        }
    }
}

pub proof fn lemma_function_declaration_advances(ts: Seq<TokenView>, p: int)
    requires
        0 <= p <= ts.len(),
    ensures
        advanced(ts, p, parse_function_declaration(ts, p).1),
    decreases ts.len() - p, 3int,
{
    let (id, end) = parse_identifier(ts, p);
    if at_punctuator(ts, end, '(') {
        lemma_parameters_advance(ts, end + 1, Seq::empty());
    }
    let (params, end) = parse_parameter_list(ts, end);
    if params is Ok {
        if at_punctuator(ts, end, '{') {
            lemma_block_advances(ts, end + 1, Seq::empty());
        }
    }
}

pub proof fn lemma_source_element_advances(ts: Seq<TokenView>, p: int)
    requires
        0 <= p <= ts.len(),
    ensures
        advanced(ts, p, parse_source_element(ts, p).1),
    decreases ts.len() - p, 1int,
{
    if p < ts.len() {
        if at_keyword(ts, p, "function"@) {
            lemma_function_declaration_advances(ts, p + 1);
        } else {
            lemma_statement_advances(ts, p);
        }
    }
}

/// The view of what an executable parsing function returns.
pub open spec fn parsed_view(r: Result<Option<Rc<Node>>, ScriptParseError>) -> Result<
    Part,
    TokenView,
> {
    match r {
        Ok(n) => Ok(part_view(n)),
        Err(e) => Err(e.token@),
    }
}

/// The view of a list that an executable parsing function returns.
pub open spec fn parsed_list_view(r: Result<Vec<Option<Rc<Node>>>, ScriptParseError>) -> Result<
    Seq<Part>,
    TokenView,
> {
    match r {
        Ok(v) => Ok(parts_view(v@)),
        Err(e) => Err(e.token@),
    }
}

/// `parts_view` of a list with one more part.
pub proof fn lemma_parts_view_push(parts: Seq<Option<Rc<Node>>>, n: Option<Rc<Node>>)
    ensures
        parts_view(parts.push(n)) == parts_view(parts).push(part_view(n)),
{
    assert(parts_view(parts.push(n)) =~= parts_view(parts).push(part_view(n)));
}

pub struct JsParser {
    tokens: Vec<Token>,
    pos: usize,
}

impl JsParser {
    /// A parser over all the tokens that `t` has left.
    pub fn new(t: JsLexer) -> (p: Self)
        ensures
            p.tokens() == lex_all(t.input(), t.position()),
            p.position() == 0,
    {
        let mut t = t;
        Self { tokens: t.collect(), pos: 0 }
    }

    /// The tokens that the parser reads.
    pub closed spec fn tokens(&self) -> Seq<TokenView> {
        tokens_view(self.tokens@)
    }

    /// How many tokens the parser has consumed.
    pub closed spec fn position(&self) -> int {
        self.pos as int
    }

    /// Nothing but the position differs between the two parsers.
    pub closed spec fn same_tokens(&self, other: &Self) -> bool {
        self.tokens == other.tokens && self.pos <= self.tokens@.len()
    }

    fn peek_punctuator(&self, c: char) -> (r: bool)
        ensures
            r == at_punctuator(self.tokens(), self.position(), c),
            r ==> self.pos < self.tokens@.len() && self.pos < usize::MAX,
    {
        if self.pos < self.tokens.len() {
            match &self.tokens[self.pos] {
                Token::Punctuator(d) => *d == c,
                _ => false,
            }
        } else {
            false
        }
    }

    fn peek_keyword(&self, k: &str) -> (r: bool)
        ensures
            r == at_keyword(self.tokens(), self.position(), k@),
            r ==> self.pos < self.tokens@.len() && self.pos < usize::MAX,
    {
        if self.pos < self.tokens.len() {
            match &self.tokens[self.pos] {
                Token::Keyword(s) => crate::text::str_equal(s.as_str(), k),
                _ => false,
            }
        } else {
            false
        }
    }

    fn primary_expression(&mut self) -> (r: Result<Option<Rc<Node>>, ScriptParseError>)
        requires
            old(self).pos <= old(self).tokens@.len(),
        ensures
            final(self).same_tokens(old(self)),
            (parsed_view(r), final(self).position()) == parse_primary(
                old(self).tokens(),
                old(self).position(),
            ),
    {
        if self.pos >= self.tokens.len() {
            return Ok(None);
        }
        let t = self.tokens[self.pos].clone();
        self.pos += 1;
        match t {
            Token::Identifier(value) => Ok(Node::new_identifier(value)),
            Token::StringLiteral(value) => Ok(Node::new_string_literal(value)),
            Token::Number(value) => Ok(Node::new_numeric_literal(value)),
            t => Err(ScriptParseError { token: t }),
        }
    }

    fn identifier(&mut self) -> (r: Option<Rc<Node>>)
        requires
            old(self).pos <= old(self).tokens@.len(),
        ensures
            final(self).same_tokens(old(self)),
            (part_view(r), final(self).position()) == parse_identifier(
                old(self).tokens(),
                old(self).position(),
            ),
    {
        if self.pos >= self.tokens.len() {
            return None;
        }
        let t = self.tokens[self.pos].clone();
        self.pos += 1;
        match t {
            Token::Identifier(name) => Node::new_identifier(name),
            _ => None,
        }
    }

    fn member_expression(&mut self) -> (r: Result<Option<Rc<Node>>, ScriptParseError>)
        requires
            old(self).pos <= old(self).tokens@.len(),
        ensures
            final(self).same_tokens(old(self)),
            (parsed_view(r), final(self).position()) == parse_member(
                old(self).tokens(),
                old(self).position(),
            ),
    {
        let mut expr = match self.primary_expression() {
            Ok(e) => e,
            Err(e) => {
                return Err(e);
            },
        };
        let ghost start = self.pos as int;
        let ghost first = part_view(expr);
        while self.peek_punctuator('.')
            invariant
                self.same_tokens(old(self)),
                parse_member_tail(self.tokens(), self.pos as int, part_view(expr))
                    == parse_member_tail(self.tokens(), start, first),
            decreases self.tokens@.len() - self.pos,
        {
            self.pos += 1;
            let property = self.identifier();
            expr = Node::new_member_expression(expr, property);
        }
        Ok(expr)
    }

    fn arguments(&mut self) -> (r: Result<Vec<Option<Rc<Node>>>, ScriptParseError>)
        requires
            old(self).pos <= old(self).tokens@.len(),
        ensures
            final(self).same_tokens(old(self)),
            (parsed_list_view(r), final(self).position()) == parse_arguments(
                old(self).tokens(),
                old(self).position(),
                Seq::empty(),
            ),
        decreases old(self).tokens@.len() - old(self).pos, 4int,
    {
        let mut arguments: Vec<Option<Rc<Node>>> = Vec::new();
        assert(parts_view(arguments@) =~= Seq::empty());
        loop
            invariant
                self.same_tokens(old(self)),
                old(self).pos <= self.pos,
                parse_arguments(self.tokens(), self.pos as int, parts_view(arguments@))
                    == parse_arguments(old(self).tokens(), old(self).pos as int, Seq::empty()),
            decreases self.tokens@.len() - self.pos,
        {
            if self.pos >= self.tokens.len() {
                return Ok(arguments);
            } else if self.peek_punctuator(')') {
                self.pos += 1;
                return Ok(arguments);
            } else if self.peek_punctuator(',') {
                self.pos += 1;
            } else {
                proof {
                    lemma_assignment_advances(self.tokens(), self.pos as int);
                }
                match self.assignment_expression() {
                    Ok(a) => {
                        proof {
                            lemma_parts_view_push(arguments@, a);
                        }
                        arguments.push(a);
                    },
                    Err(e) => {
                        return Err(e);
                    },
                }
            }
        }
    }

    fn left_hand_side_expression(&mut self) -> (r: Result<Option<Rc<Node>>, ScriptParseError>)
        requires
            old(self).pos <= old(self).tokens@.len(),
        ensures
            final(self).same_tokens(old(self)),
            (parsed_view(r), final(self).position()) == parse_left_hand_side(
                old(self).tokens(),
                old(self).position(),
            ),
        decreases old(self).tokens@.len() - old(self).pos, 1int,
    {
        proof {
            lemma_member_advances(self.tokens(), self.pos as int);
        }
        let expr = match self.member_expression() {
            Ok(e) => e,
            Err(e) => {
                return Err(e);
            },
        };
        if self.peek_punctuator('(') {
            self.pos += 1;
            match self.arguments() {
                Ok(arguments) => Ok(Node::new_call_expression(expr, arguments)),
                Err(e) => Err(e),
            }
        } else {
            Ok(expr)
        }
    }

    fn additive_expression(&mut self) -> (r: Result<Option<Rc<Node>>, ScriptParseError>)
        requires
            old(self).pos <= old(self).tokens@.len(),
        ensures
            final(self).same_tokens(old(self)),
            (parsed_view(r), final(self).position()) == parse_additive(
                old(self).tokens(),
                old(self).position(),
            ),
        decreases old(self).tokens@.len() - old(self).pos, 2int,
    {
        proof {
            lemma_left_hand_side_advances(self.tokens(), self.pos as int);
        }
        let left = match self.left_hand_side_expression() {
            Ok(e) => e,
            Err(e) => {
                return Err(e);
            },
        };
        let plus = self.peek_punctuator('+');
        if plus || self.peek_punctuator('-') {
            self.pos += 1;
            match self.assignment_expression() {
                Ok(right) => Ok(
                    Node::new_additive_expression(if plus { '+' } else { '-' }, left, right),
                ),
                Err(e) => Err(e),
            }
        } else {
            Ok(left)
        }
    }

    fn assignment_expression(&mut self) -> (r: Result<Option<Rc<Node>>, ScriptParseError>)
        requires
            old(self).pos <= old(self).tokens@.len(),
        ensures
            final(self).same_tokens(old(self)),
            (parsed_view(r), final(self).position()) == parse_assignment(
                old(self).tokens(),
                old(self).position(),
            ),
        decreases old(self).tokens@.len() - old(self).pos, 3int,
    {
        proof {
            lemma_additive_advances(self.tokens(), self.pos as int);
        }
        let expr = match self.additive_expression() {
            Ok(e) => e,
            Err(e) => {
                return Err(e);
            },
        };
        if self.peek_punctuator('=') {
            self.pos += 1;
            match self.assignment_expression() {
                Ok(right) => Ok(Node::new_assignment_expression('=', expr, right)),
                Err(e) => Err(e),
            }
        } else {
            Ok(expr)
        }
    }

    fn initialiser(&mut self) -> (r: Result<Option<Rc<Node>>, ScriptParseError>)
        requires
            old(self).pos <= old(self).tokens@.len(),
        ensures
            final(self).same_tokens(old(self)),
            (parsed_view(r), final(self).position()) == parse_initialiser(
                old(self).tokens(),
                old(self).position(),
            ),
    {
        if self.pos >= self.tokens.len() {
            Ok(None)
        } else if self.peek_punctuator('=') {
            self.pos += 1;
            self.assignment_expression()
        } else {
            self.pos += 1;
            Ok(None)
        }
    }

    fn variable_declaration(&mut self) -> (r: Result<Option<Rc<Node>>, ScriptParseError>)
        requires
            old(self).pos <= old(self).tokens@.len(),
        ensures
            final(self).same_tokens(old(self)),
            (parsed_view(r), final(self).position()) == parse_variable_declaration(
                old(self).tokens(),
                old(self).position(),
            ),
    {
        let ident = self.identifier();
        let init = match self.initialiser() {
            Ok(init) => init,
            Err(e) => {
                return Err(e);
            },
        };
        let declarator = Node::new_variable_declarator(ident, init);
        let mut declarations: Vec<Option<Rc<Node>>> = Vec::new();
        declarations.push(declarator);
        assert(parts_view(declarations@) =~= seq![part_view(declarator)]);
        Ok(Node::new_variable_declaration(declarations))
    }

    fn statement(&mut self) -> (r: Result<Option<Rc<Node>>, ScriptParseError>)
        requires
            old(self).pos <= old(self).tokens@.len(),
        ensures
            final(self).same_tokens(old(self)),
            (parsed_view(r), final(self).position()) == parse_statement(
                old(self).tokens(),
                old(self).position(),
            ),
    {
        if self.pos >= self.tokens.len() {
            return Ok(None);
        }
        proof {
            lemma_statement_advances(self.tokens(), self.pos as int);
        }
        let node = if self.peek_keyword("var") {
            self.pos += 1;
            self.variable_declaration()
        } else if self.peek_keyword("return") {
            self.pos += 1;
            match self.assignment_expression() {
                Ok(argument) => Ok(Node::new_return_statement(argument)),
                Err(e) => Err(e),
            }
        } else {
            match self.assignment_expression() {
                Ok(e) => Ok(Node::new_expression_statement(e)),
                Err(e) => Err(e),
            }
        };
        match node {
            Ok(n) => {
                if self.peek_punctuator(';') {
                    self.pos += 1;
                }
                Ok(n)
            },
            Err(e) => Err(e),
        }
    }

    fn function_body(&mut self) -> (r: Result<Option<Rc<Node>>, ScriptParseError>)
        requires
            old(self).pos <= old(self).tokens@.len(),
        ensures
            final(self).same_tokens(old(self)),
            (parsed_view(r), final(self).position()) == parse_function_body(
                old(self).tokens(),
                old(self).position(),
            ),
        decreases old(self).tokens@.len() - old(self).pos, 2int,
    {
        if self.pos >= self.tokens.len() {
            return Ok(None);
        }
        if !self.peek_punctuator('{') {
            let t = self.tokens[self.pos].clone();
            self.pos += 1;
            return Err(ScriptParseError { token: t });
        }
        self.pos += 1;
        let ghost start = self.pos as int;
        let mut body: Vec<Option<Rc<Node>>> = Vec::new();
        assert(parts_view(body@) =~= Seq::empty());
        loop
            invariant
                self.same_tokens(old(self)),
                old(self).pos < self.pos,
                start == old(self).pos + 1,
                at_punctuator(old(self).tokens(), old(self).pos as int, '{'),
                parse_block(self.tokens(), self.pos as int, parts_view(body@)) == parse_block(
                    self.tokens(),
                    start,
                    Seq::empty(),
                ),
            decreases self.tokens@.len() - self.pos,
        {
            if self.pos >= self.tokens.len() {
                return Ok(Node::new_block_statement(body));
            } else if self.peek_punctuator('}') {
                self.pos += 1;
                return Ok(Node::new_block_statement(body));
            } else {
                proof {
                    lemma_source_element_advances(self.tokens(), self.pos as int);
                }
                match self.source_element() {
                    Ok(s) => {
                        proof {
                            lemma_parts_view_push(body@, s);
                        }
                        body.push(s);
                    },
                    Err(e) => {
                        return Err(e);
                    },
                }
            }
        }
    }

    fn parameter_list(&mut self) -> (r: Result<Vec<Option<Rc<Node>>>, ScriptParseError>)
        requires
            old(self).pos <= old(self).tokens@.len(),
        ensures
            final(self).same_tokens(old(self)),
            (parsed_list_view(r), final(self).position()) == parse_parameter_list(
                old(self).tokens(),
                old(self).position(),
            ),
    {
        let mut params: Vec<Option<Rc<Node>>> = Vec::new();
        assert(parts_view(params@) =~= Seq::empty());
        if self.pos >= self.tokens.len() {
            return Ok(params);
        }
        if !self.peek_punctuator('(') {
            let t = self.tokens[self.pos].clone();
            self.pos += 1;
            return Err(ScriptParseError { token: t });
        }
        self.pos += 1;
        let ghost start = self.pos as int;
        loop
            invariant
                self.same_tokens(old(self)),
                start == old(self).pos + 1,
                at_punctuator(old(self).tokens(), old(self).pos as int, '('),
                parse_parameters(self.tokens(), self.pos as int, parts_view(params@))
                    == parse_parameters(self.tokens(), start, Seq::empty()),
            decreases self.tokens@.len() - self.pos,
        {
            if self.pos >= self.tokens.len() {
                return Ok(params);
            } else if self.peek_punctuator(')') {
                self.pos += 1;
                return Ok(params);
            } else if self.peek_punctuator(',') {
                self.pos += 1;
            } else {
                let id = self.identifier();
                proof {
                    lemma_parts_view_push(params@, id);
                }
                params.push(id);
            }
        }
    }

    fn function_declaration(&mut self) -> (r: Result<Option<Rc<Node>>, ScriptParseError>)
        requires
            old(self).pos <= old(self).tokens@.len(),
        ensures
            final(self).same_tokens(old(self)),
            (parsed_view(r), final(self).position()) == parse_function_declaration(
                old(self).tokens(),
                old(self).position(),
            ),
        decreases old(self).tokens@.len() - old(self).pos, 3int,
    {
        let ghost p = self.pos as int;
        let id = self.identifier();
        proof {
            let end = parse_identifier(self.tokens(), p).1;
            if at_punctuator(self.tokens(), end, '(') {
                lemma_parameters_advance(self.tokens(), end + 1, Seq::empty());
            }
        }
        let params = match self.parameter_list() {
            Ok(params) => params,
            Err(e) => {
                return Err(e);
            },
        };
        match self.function_body() {
            Ok(body) => Ok(Node::new_function_declaration(id, params, body)),
            Err(e) => Err(e),
        }
    }

    fn source_element(&mut self) -> (r: Result<Option<Rc<Node>>, ScriptParseError>)
        requires
            old(self).pos <= old(self).tokens@.len(),
        ensures
            final(self).same_tokens(old(self)),
            (parsed_view(r), final(self).position()) == parse_source_element(
                old(self).tokens(),
                old(self).position(),
            ),
        decreases old(self).tokens@.len() - old(self).pos, 1int,
    {
        if self.pos >= self.tokens.len() {
            return Ok(None);
        }
        if self.peek_keyword("function") {
            self.pos += 1;
            return self.function_declaration();
        }
        self.statement()
    }

    /// The program that the tokens from the position on spell out, or the
    /// error that carries the first token that could not be read.
    pub fn parse_ast(&mut self) -> (r: Result<Program, ScriptParseError>)
        ensures
            final(self).tokens() == old(self).tokens(),
            match parse_program(old(self).tokens(), old(self).position(), Seq::empty()) {
                Ok(body) => r is Ok && r->Ok_0@ == body,
                Err(t) => r is Err && r->Err_0.token@ == t,
            },
    {
        let mut program = Program::new();
        let mut body: Vec<Rc<Node>> = Vec::new();
        assert(body_view(body@) =~= Seq::empty());
        if self.pos > self.tokens.len() {
            return Ok(program);
        }
        loop
            invariant
                self.tokens == old(self).tokens,
                self.pos <= self.tokens@.len(),
                parse_program(self.tokens(), self.pos as int, body_view(body@)) == parse_program(
                    old(self).tokens(),
                    old(self).pos as int,
                    Seq::empty(),
                ),
            decreases self.tokens@.len() - self.pos,
        {
            proof {
                lemma_source_element_advances(self.tokens(), self.pos as int);
            }
            match self.source_element() {
                Ok(Some(n)) => {
                    assert(body_view(body@.push(n)) =~= body_view(body@).push(node_view(*n)));
                    body.push(n);
                },
                Ok(None) => {
                    program.set_body(body);
                    return Ok(program);
                },
                Err(e) => {
                    return Err(e);
                },
            }
        }
    }
}


/// `t` is a token that is an expression by itself.
pub open spec fn is_operand(t: TokenView) -> bool {
    t is Identifier || t is StringLiteral || t is Number
}

/// The expression that an operand token is.
pub open spec fn operand(t: TokenView) -> Part {
    match t {
        TokenView::Identifier(s) => Some(Box::new(AstView::Identifier(s))),
        TokenView::StringLiteral(s) => Some(Box::new(AstView::StringLiteral(s))),
        TokenView::Number(n) => Some(Box::new(AstView::NumericLiteral(n))),
        _ => None,
    }
}

/// `c` is one of the two additive operators.
pub open spec fn is_additive_operator(c: char) -> bool {
    c == '+' || c == '-'
}

/// A chain of two additive operators groups to the right: `a op b op c` is
/// read as `a op (b op c)`.
pub proof fn lemma_additive_groups_right(
    a: TokenView,
    first: char,
    b: TokenView,
    second: char,
    c: TokenView,
)
    requires
        is_operand(a),
        is_operand(b),
        is_operand(c),
        is_additive_operator(first),
        is_additive_operator(second),
    ensures
        parse_program(
            seq![a, TokenView::Punctuator(first), b, TokenView::Punctuator(second), c],
            0,
            Seq::empty(),
        ) == Ok::<Seq<AstView>, TokenView>(
            seq![
                AstView::ExpressionStatement(
                    Some(
                        Box::new(
                            AstView::AdditiveExpression {
                                operator: first,
                                left: operand(a),
                                right: Some(
                                    Box::new(
                                        AstView::AdditiveExpression {
                                            operator: second,
                                            left: operand(b),
                                            right: operand(c),
                                        },
                                    ),
                                ),
                            },
                        ),
                    ),
                ),
            ],
        ),
{
    let ts = seq![a, TokenView::Punctuator(first), b, TokenView::Punctuator(second), c];
    reveal_with_fuel(parse_assignment, 4);
    reveal_with_fuel(parse_additive, 4);
    reveal_with_fuel(parse_left_hand_side, 4);
    reveal_with_fuel(parse_member_tail, 2);
    reveal_with_fuel(parse_program, 3);
    reveal_strlit("var");
    reveal_strlit("return");
    reveal_strlit("function");
    assert(parse_member(ts, 4) == (Ok::<Part, TokenView>(operand(c)), 5int));
    assert(parse_assignment(ts, 4) == (Ok::<Part, TokenView>(operand(c)), 5int));
    assert(parse_member(ts, 2) == (Ok::<Part, TokenView>(operand(b)), 3int));
    let inner: Part = Some(
        Box::new(
            AstView::AdditiveExpression { operator: second, left: operand(b), right: operand(c) },
        ),
    );
    assert(parse_additive(ts, 2) == (Ok::<Part, TokenView>(inner), 5int));
    assert(parse_assignment(ts, 2) == (Ok::<Part, TokenView>(inner), 5int));
    assert(parse_member(ts, 0) == (Ok::<Part, TokenView>(operand(a)), 1int));
    let outer: Part = Some(
        Box::new(AstView::AdditiveExpression { operator: first, left: operand(a), right: inner }),
    );
    assert(parse_additive(ts, 0) == (Ok::<Part, TokenView>(outer), 5int));
    assert(parse_assignment(ts, 0) == (Ok::<Part, TokenView>(outer), 5int));
    assert(parse_statement(ts, 0) == (
        Ok::<Part, TokenView>(Some(Box::new(AstView::ExpressionStatement(outer)))),
        5int,
    ));
    assert(parse_source_element(ts, 5) == (Ok::<Part, TokenView>(None), 5int));
    assert(Seq::<AstView>::empty().push(AstView::ExpressionStatement(outer)) =~= seq![
        AstView::ExpressionStatement(outer),
    ]);
}

} // verus!
