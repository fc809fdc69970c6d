//! The script interpreter: values, scopes, hoisted functions, and a
//! tree-walking evaluator.
//!
//! [`eval`] says what a syntax tree evaluates to and what it does to the
//! scopes; the executable evaluator is proved to compute exactly that.

use std::rc::Rc;
use vstd::prelude::*;
use vstd::string::StringExecFns;
use crate::renderer::dom::api::Query;
use crate::renderer::dom::api::document_order;
use crate::renderer::dom::api::first_picked;
use crate::renderer::dom::api::get_element_by_id;
use crate::renderer::dom::node::NodeView;
use crate::renderer::dom::node::Window;
use crate::renderer::js::ast::AstView;
use crate::renderer::js::ast::Node;
use crate::renderer::js::ast::Part;
use crate::renderer::js::ast::Program;
use crate::renderer::js::ast::ScriptParseError;
use crate::renderer::js::token::TokenView;
use crate::renderer::js::ast::body_view;
use crate::renderer::js::ast::node_view;
use crate::renderer::js::ast::part_view;
use crate::renderer::js::ast::parts_view;
use crate::text::push_char;
use crate::text::str_equal;

verus! {

/// How many calls of script functions may be in progress at once.
pub const MAX_CALL_DEPTH: usize = 128;

/// The name under which scripts look an element up by its identifier.
pub open spec fn lookup_binding_name() -> Seq<char> {
    "document.getElementById"@
}

/// What a value is, over sequences of characters.
pub enum ValueView {
    Number(u64),
    StringLiteral(Seq<char>),
    /// A node of the document tree, by its index, and a property of it.
    HtmlElement { object: usize, property: Option<Seq<char>> },
}

#[derive(Debug, PartialEq)]
pub enum RuntimeValue {
    Number(u64),
    StringLiteral(String),
    /// A node of the document tree, by its index, and a property of it.
    HtmlElement { object: usize, property: Option<String> },
}

impl View for RuntimeValue {
    type V = ValueView;

    open spec fn view(&self) -> ValueView {
        match *self {
            RuntimeValue::Number(n) => ValueView::Number(n),
            RuntimeValue::StringLiteral(s) => ValueView::StringLiteral(s@),
            RuntimeValue::HtmlElement { object, property } => ValueView::HtmlElement {
                object,
                property: match property {
                    Some(p) => Some(p@),
                    None => None,
                },
            },
        }
    }
}

impl Clone for RuntimeValue {
    fn clone(&self) -> (r: Self)
        ensures
            r@ == self@,
    {
        match self {
            RuntimeValue::Number(n) => RuntimeValue::Number(*n),
            RuntimeValue::StringLiteral(s) => RuntimeValue::StringLiteral(s.clone()),
            RuntimeValue::HtmlElement { object, property } => RuntimeValue::HtmlElement {
                object: *object,
                property: match property {
                    Some(p) => Some(p.clone()),
                    None => None,
                },
            },
        }
    }
}

/// The view of a value that may be absent.
pub open spec fn value_option_view(v: Option<RuntimeValue>) -> Option<ValueView> {
    match v {
        Some(v) => Some(v@),
        None => None,
    }
}

/// A copy of a value that may be absent.
pub fn clone_value(v: &Option<RuntimeValue>) -> (r: Option<RuntimeValue>)
    ensures
        value_option_view(r) == value_option_view(*v),
{
    match v {
        Some(v) => Some(v.clone()),
        None => None,
    }
}

/// The character that writes the digit `d`.
pub open spec fn digit_char(d: nat) -> char {
    ((d % 10) as u8 + 48u8) as char
}

/// A number written in decimal, without leading zeros.
pub open spec fn decimal_digits(n: nat) -> Seq<char>
    decreases n,
{
    if n < 10 {
        seq![digit_char(n)]
    } else {
        decimal_digits(n / 10).push(digit_char(n % 10))
    }
}

/// Appends `n`, written in decimal, to `s`.
pub fn push_decimal(s: &mut String, n: u64)
    ensures
        final(s)@ == old(s)@ + decimal_digits(n as nat),
    decreases n,
{
    if n >= 10 {
        push_decimal(s, n / 10);
    }
    let d = ((n % 10) as u8 + 48u8) as char;
    push_char(s, d);
    assert(s@ =~= old(s)@ + decimal_digits(n as nat));
}

/// The text that stands for a value where text is asked for: a number in
/// decimal, a string as it is, and for an element a description that names
/// its node and, after a dot, its property.
pub open spec fn render(v: ValueView) -> Seq<char> {
    match v {
        ValueView::Number(n) => decimal_digits(n as nat),
        ValueView::StringLiteral(s) => s,
        ValueView::HtmlElement { object, property } => {
            let node = "HtmlElement("@ + decimal_digits(object as nat) + ")"@;
            match property {
                Some(p) => node + "."@ + p,
                None => node,
            }
        },
    }
}

/// The sum of two values: of two numbers their sum, cut to 64 bits; of any
/// other two the text of the first followed by the text of the second.
pub open spec fn add_values(l: ValueView, r: ValueView) -> ValueView {
    match (l, r) {
        (ValueView::Number(a), ValueView::Number(b)) => ValueView::Number(
            ((a + b) % 0x1_0000_0000_0000_0000) as u64,
        ),
        _ => ValueView::StringLiteral(render(l) + render(r)),
    }
}

/// The difference of two values: of two numbers their difference, cut to 64
/// bits; of any other two the number zero.
pub open spec fn sub_values(l: ValueView, r: ValueView) -> ValueView {
    match (l, r) {
        (ValueView::Number(a), ValueView::Number(b)) => ValueView::Number(
            ((a - b) % 0x1_0000_0000_0000_0000) as u64,
        ),
        _ => ValueView::Number(0),
    }
}

impl RuntimeValue {
    /// The text of the value.
    pub fn to_string(&self) -> (s: String)
        ensures
            s@ == render(self@),
    {
        match self {
            RuntimeValue::Number(n) => {
                let mut s = String::new();
                push_decimal(&mut s, *n);
                assert(s@ =~= decimal_digits(*n as nat));
                s
            },
            RuntimeValue::StringLiteral(v) => v.clone(),
            RuntimeValue::HtmlElement { object, property } => {
                let mut s = String::new();
                s.append("HtmlElement(");
                push_decimal(&mut s, *object as u64);
                s.append(")");
                match property {
                    Some(p) => {
                        s.append(".");
                        s.append(p.as_str());
                    },
                    None => {},
                }
                assert(s@ =~= render(self@));
                s
            },
        }
    }

    /// The sum of the two values.
    pub fn add(self, rhs: RuntimeValue) -> (r: RuntimeValue)
        ensures
            r@ == add_values(self@, rhs@),
    {
        match (&self, &rhs) {
            (RuntimeValue::Number(a), RuntimeValue::Number(b)) => RuntimeValue::Number(
                a.wrapping_add(*b),
            ),
            _ => {
                let mut s = self.to_string();
                let t = rhs.to_string();
                s.append(t.as_str());
                RuntimeValue::StringLiteral(s)
            },
        }
    }

    /// The difference of the two values.
    pub fn sub(self, rhs: RuntimeValue) -> (r: RuntimeValue)
        ensures
            r@ == sub_values(self@, rhs@),
    {
        match (&self, &rhs) {
            (RuntimeValue::Number(a), RuntimeValue::Number(b)) => RuntimeValue::Number(
                a.wrapping_sub(*b),
            ),
            _ => RuntimeValue::Number(0),
        }
    }
}

/// A name and what it is bound to; a name can be bound to no value.
pub type Binding = (Seq<char>, Option<ValueView>);

/// The scopes of a running script, outermost first.
pub type EnvView = Seq<Seq<Binding>>;

/// What `name` is bound to in one scope: the first binding of that name.
pub open spec fn scope_lookup(scope: Seq<Binding>, name: Seq<char>) -> Option<Option<ValueView>>
    decreases scope.len(),
{
    if scope.len() == 0 {
        None
    } else if scope[0].0 == name {
        Some(scope[0].1)
    } else {
        scope_lookup(scope.drop_first(), name)
    }
}

/// Where the first binding of `name` stands in a scope.
pub open spec fn scope_index(scope: Seq<Binding>, name: Seq<char>) -> Option<int>
    decreases scope.len(),
{
    if scope.len() == 0 {
        None
    } else if scope[0].0 == name {
        Some(0)
    } else {
        match scope_index(scope.drop_first(), name) {
            Some(i) => Some(i + 1),
            None => None,
        }
    }
}

/// What `name` is bound to: the binding in the innermost scope that has one.
pub open spec fn env_lookup(env: EnvView, name: Seq<char>) -> Option<Option<ValueView>>
    decreases env.len(),
{
    if env.len() == 0 {
        None
    } else {
        match scope_lookup(env.last(), name) {
            Some(v) => Some(v),
            None => env_lookup(env.drop_last(), name),
        }
    }
}

/// The scopes with a new binding at the end of the innermost one. Where
/// there is no scope yet, one is opened for it.
pub open spec fn env_declare(env: EnvView, name: Seq<char>, value: Option<ValueView>) -> EnvView {
    if env.len() == 0 {
        seq![seq![(name, value)]]
    } else {
        env.update(env.len() - 1, env.last().push((name, value)))
    }
}

/// The scope with the first binding of `name` taken out and a binding to
/// `value` put at its end; unchanged where the scope does not bind `name`.
pub open spec fn scope_assign(scope: Seq<Binding>, name: Seq<char>, value: Option<ValueView>) -> Seq<
    Binding,
> {
    match scope_index(scope, name) {
        Some(i) => scope.remove(i).push((name, value)),
        None => scope,
    }
}

/// The scopes with `name` bound anew in the innermost scope that binds it;
/// unchanged where no scope does.
pub open spec fn env_assign(env: EnvView, name: Seq<char>, value: Option<ValueView>) -> EnvView
    decreases env.len(),
{
    if env.len() == 0 {
        env
    } else if scope_index(env.last(), name) is Some {
        env.update(env.len() - 1, scope_assign(env.last(), name, value))
    } else {
        env_assign(env.drop_last(), name, value).push(env.last())
    }
}

/// The first binding of a name in a scope stands within the scope and has
/// that name; and a scope binds a name exactly when the name has an index.
pub proof fn lemma_scope_index(scope: Seq<Binding>, name: Seq<char>)
    ensures
        scope_index(scope, name) matches Some(i) ==> 0 <= i < scope.len() && scope[i].0 == name
            && scope_lookup(scope, name) == Some(scope[i].1),
        scope_index(scope, name) is None <==> scope_lookup(scope, name) is None,
    decreases scope.len(),
{
    if scope.len() > 0 && scope[0].0 != name {
        lemma_scope_index(scope.drop_first(), name);
    }
}

/// The view of one scope.
pub open spec fn scope_view(scope: Seq<(String, Option<RuntimeValue>)>) -> Seq<Binding> {
    Seq::new(scope.len(), |i: int| (scope[i].0@, value_option_view(scope[i].1)))
}

/// The view of a stack of scopes.
pub open spec fn scopes_view(scopes: Seq<Vec<(String, Option<RuntimeValue>)>>) -> EnvView {
    Seq::new(scopes.len(), |i: int| scope_view(scopes[i]@))
}

#[derive(Debug)]
pub struct Environment {
    scopes: Vec<Vec<(String, Option<RuntimeValue>)>>,
}

impl View for Environment {
    type V = EnvView;

    closed spec fn view(&self) -> EnvView {
        scopes_view(self.scopes@)
    }
}

impl Environment {
    /// The scopes of a script that has not run yet: one scope, empty.
    pub fn new() -> (e: Self)
        ensures
            e@ == seq![Seq::<Binding>::empty()],
    {
        let mut scopes: Vec<Vec<(String, Option<RuntimeValue>)>> = Vec::new();
        scopes.push(Vec::new());
        let e = Environment { scopes };
        assert(e@ =~~= seq![Seq::<Binding>::empty()]);
        e
    }

    /// Opens a new innermost scope.
    pub fn enter(&mut self)
        ensures
            final(self)@ == old(self)@.push(Seq::<Binding>::empty()),
    {
        self.scopes.push(Vec::new());
        assert(self@ =~~= old(self)@.push(Seq::<Binding>::empty()));
    }

    /// Closes the innermost scope, if there is one.
    pub fn leave(&mut self)
        ensures
            final(self)@ == if old(self)@.len() > 0 {
                old(self)@.drop_last()
            } else {
                old(self)@
            },
    {
        let _ = self.scopes.pop();
        assert(self@ =~~= if old(self)@.len() > 0 {
            old(self)@.drop_last()
        } else {
            old(self)@
        });
    }

    /// Where the first binding of `name` stands in scope `k`.
    fn find_in_scope(&self, k: usize, name: &str) -> (r: Option<usize>)
        requires
            k < self@.len(),
        ensures
            match r {
                Some(i) => scope_index(self@[k as int], name@) == Some(i as int) && i
                    < self.scopes@[k as int]@.len(),
                None => scope_index(self@[k as int], name@) is None,
            },
    {
        let scope = &self.scopes[k];
        let ghost view = scope_view(scope@);
        let mut i: usize = 0;
        assert(view.skip(0) =~= view);
        while i < scope.len()
            invariant
                i <= scope.len(),
                k < self@.len(),
                scope@ == self.scopes@[k as int]@,
                view == scope_view(scope@),
                view == self@[k as int],
                scope_index(view, name@) == match scope_index(view.skip(i as int), name@) {
                    Some(j) => Some(j + i),
                    None => None,
                },
            decreases scope.len() - i,
        {
            assert(view.skip(i as int)[0] == view[i as int]);
            assert(view[i as int].0 == scope@[i as int].0@);
            assert(view.skip(i as int).drop_first() =~= view.skip(i + 1));
            if str_equal(scope[i].0.as_str(), name) {
                assert(view.skip(i as int).len() > 0);
                assert(view.skip(i as int)[0].0 == name@);
                assert(scope_index(view.skip(i as int), name@) == Some(0int));
                assert(scope_index(view, name@) == Some(i as int));
                return Some(i);
            }
            i += 1;
        }
        assert(view.skip(i as int).len() == 0);
        None
    }

    /// What `name` is bound to: `None` where no scope binds it, else what
    /// the innermost scope that binds it says, which may be no value.
    pub fn lookup(&self, name: &str) -> (r: Option<Option<RuntimeValue>>)
        ensures
            match env_lookup(self@, name@) {
                Some(v) => r is Some && value_option_view(r->Some_0) == v,
                None => r is None,
            },
    {
        let mut k = self.scopes.len();
        assert(self@.take(k as int) =~= self@);
        while k > 0
            invariant
                k <= self.scopes@.len(),
                env_lookup(self@, name@) == env_lookup(self@.take(k as int), name@),
            decreases k,
        {
            k -= 1;
            assert(self@.take(k + 1).last() == self@[k as int]);
            assert(self@.take(k + 1).drop_last() =~= self@.take(k as int));
            proof {
                lemma_scope_index(self@[k as int], name@);
            }
            match self.find_in_scope(k, name) {
                Some(i) => {
                    assert(self@[k as int][i as int].1 == value_option_view(
                        self.scopes@[k as int]@[i as int].1,
                    ));
                    return Some(clone_value(&self.scopes[k][i].1));
                },
                None => {},
            }
        }
        None
    }

    /// The value that `name` is bound to; `None` where it is bound to no
    /// value or not bound at all.
    pub fn get_variable(&self, name: String) -> (r: Option<RuntimeValue>)
        ensures
            value_option_view(r) == match env_lookup(self@, name@) {
                Some(v) => v,
                None => None,
            },
    {
        match self.lookup(name.as_str()) {
            Some(v) => v,
            None => None,
        }
    }

    /// Binds `name` to `value` at the end of the innermost scope.
    pub fn add_variable(&mut self, name: String, value: Option<RuntimeValue>)
        ensures
            final(self)@ == env_declare(old(self)@, name@, value_option_view(value)),
    {
        let k = self.scopes.len();
        if k == 0 {
            let mut scope: Vec<(String, Option<RuntimeValue>)> = Vec::new();
            scope.push((name, value));
            self.scopes.push(scope);
        } else {
            self.scopes[k - 1].push((name, value));
        }
        assert(self@ =~~= env_declare(old(self)@, name@, value_option_view(value)));
    }

    /// Binds `name` anew to `value` in the innermost scope that binds it;
    /// nothing changes where no scope does.
    pub fn update_variable(&mut self, name: String, value: Option<RuntimeValue>)
        ensures
            final(self)@ == env_assign(old(self)@, name@, value_option_view(value)),
    {
        let mut k = self.scopes.len();
        assert(self@.take(k as int) =~= self@);
        assert(self@.skip(k as int) =~= Seq::<Seq<Binding>>::empty());
        while k > 0
            invariant
                k <= self.scopes@.len(),
                self.scopes == old(self).scopes,
                env_assign(self@, name@, value_option_view(value)) == env_assign(
                    self@.take(k as int),
                    name@,
                    value_option_view(value),
                ) + self@.skip(k as int),
            decreases k,
        {
            k -= 1;
            let ghost prefix = self@.take(k + 1);
            assert(prefix.last() == self@[k as int]);
            assert(prefix.drop_last() =~= self@.take(k as int));
            match self.find_in_scope(k, name.as_str()) {
                Some(i) => {
                    proof {
                        lemma_scope_index(self@[k as int], name@);
                    }
                    let ghost before = self@;
                    let ghost target = scope_assign(
                        before[k as int],
                        name@,
                        value_option_view(value),
                    );
                    let _ = self.scopes[k].remove(i);
                    assert(scope_view(self.scopes@[k as int]@) =~= before[k as int].remove(
                        i as int,
                    ));
                    let ghost binding = (name@, value_option_view(value));
                    assert(scope_index(before[k as int], name@) == Some(i as int));
                    assert(target == before[k as int].remove(i as int).push(binding));
                    self.scopes[k].push((name, value));
                    assert(scope_view(self.scopes@[k as int]@) =~= before[k as int].remove(
                        i as int,
                    ).push(binding));
                    assert forall|j: int| 0 <= j < before.len() && j != k implies self@[j]
                        == before[j] by {
                        assert(self.scopes@[j] == old(self).scopes@[j]);
                    }
                    assert(self@ =~= prefix.update(k as int, target) + before.skip(k + 1));
                    return ;
                },
                None => {
                    assert(env_assign(self@.take(k as int), name@, value_option_view(value)).push(
                        self@[k as int],
                    ) + self@.skip(k + 1) =~= env_assign(
                        self@.take(k as int),
                        name@,
                        value_option_view(value),
                    ) + self@.skip(k as int));
                },
            }
        }
        assert(self@.skip(0) =~= self@);
    }
}


/// A call that hands over another number of arguments than the function
/// that it calls has parameters.
#[derive(Debug, PartialEq, Eq)]
pub struct ScriptArityError {
    pub function: String,
    pub expected: usize,
    pub found: usize,
}

/// What can go wrong with a script.
#[derive(Debug, PartialEq, Eq)]
pub enum ScriptError {
    /// The source could not be parsed.
    Parse(ScriptParseError),
    /// A call with the wrong number of arguments.
    Arity(ScriptArityError),
    /// A call of a name that is bound to nothing that can be called.
    UnboundHostBinding(String),
    /// More calls in progress than [`MAX_CALL_DEPTH`].
    CallDepthExceeded,
}

/// What a script error is, over sequences of characters.
pub enum ScriptErrorView {
    Parse(TokenView),
    Arity { function: Seq<char>, expected: nat, found: nat },
    UnboundHostBinding(Seq<char>),
    CallDepthExceeded,
}

impl View for ScriptError {
    type V = ScriptErrorView;

    open spec fn view(&self) -> ScriptErrorView {
        match *self {
            ScriptError::Parse(e) => ScriptErrorView::Parse(e.token@),
            ScriptError::Arity(e) => ScriptErrorView::Arity {
                function: e.function@,
                expected: e.expected as nat,
                found: e.found as nat,
            },
            ScriptError::UnboundHostBinding(name) => ScriptErrorView::UnboundHostBinding(name@),
            ScriptError::CallDepthExceeded => ScriptErrorView::CallDepthExceeded,
        }
    }
}

/// What a declared function is: its name, its parameters and its body.
pub struct FunctionView {
    pub id: Seq<char>,
    pub params: Seq<Part>,
    pub body: Part,
}

/// Another handle on a shared syntax tree.
///
/// Trusted: the body is `Rc::clone`, which std documents as making another
/// pointer to the same allocation; the contract says that the tree behind
/// the new handle is the tree behind the old one.
#[verifier::external_body]
pub(crate) fn share(n: &Rc<Node>) -> (r: Rc<Node>)
    ensures
        *r == **n,
{
    Rc::clone(n)
}

/// Another handle on a part of a tree.
pub fn share_part(n: &Option<Rc<Node>>) -> (r: Option<Rc<Node>>)
    ensures
        r == *n,
{
    match n {
        Some(rc) => Some(share(rc)),
        None => None,
    }
}

/// Other handles on a list of parts.
pub fn share_parts(parts: &Vec<Option<Rc<Node>>>) -> (r: Vec<Option<Rc<Node>>>)
    ensures
        r@ == parts@,
{
    let mut r: Vec<Option<Rc<Node>>> = Vec::new();
    let mut i: usize = 0;
    while i < parts.len()
        invariant
            i <= parts.len(),
            r@ == parts@.take(i as int),
        decreases parts.len() - i,
    {
        r.push(share_part(&parts[i]));
        assert(r@ =~= parts@.take(i + 1));
        i += 1;
    }
    assert(parts@.take(i as int) =~= parts@);
    r
}

#[derive(Debug, Clone, PartialEq, Eq)]
pub struct Function {
    id: String,
    params: Vec<Option<Rc<Node>>>,
    body: Option<Rc<Node>>,
}

impl View for Function {
    type V = FunctionView;

    closed spec fn view(&self) -> FunctionView {
        FunctionView { id: self.id@, params: parts_view(self.params@), body: part_view(self.body) }
    }
}

impl Function {
    pub fn new(id: String, params: Vec<Option<Rc<Node>>>, body: Option<Rc<Node>>) -> (f: Self)
        ensures
            f@ == (FunctionView { id: id@, params: parts_view(params@), body: part_view(body) }),
    {
        Self { id, params, body }
    }
}

/// The views of a list of functions, in order.
pub open spec fn functions_view(functions: Seq<Function>) -> Seq<FunctionView> {
    Seq::new(functions.len(), |i: int| functions[i]@)
}

/// Where the function named `name` stands in the list: the last of that
/// name, so that a later declaration replaces an earlier one.
pub open spec fn function_index(functions: Seq<FunctionView>, name: Seq<char>) -> Option<int>
    decreases functions.len(),
{
    if functions.len() == 0 {
        None
    } else if functions.last().id == name {
        Some(functions.len() - 1)
    } else {
        function_index(functions.drop_last(), name)
    }
}

/// The function that a top-level statement declares, if it declares one: a
/// function declaration whose name is an identifier.
pub open spec fn declared_function(statement: AstView) -> Option<FunctionView> {
    match statement {
        AstView::FunctionDeclaration { id: Some(name), params, body } => match *name {
            AstView::Identifier(id) => Some(FunctionView { id, params, body }),
            _ => None,
        },
        _ => None,
    }
}

/// The functions that the first `n` statements of a program declare, in
/// order.
pub open spec fn hoisted(body: Seq<AstView>, n: int) -> Seq<FunctionView>
    decreases n,
{
    if n <= 0 || n > body.len() {
        Seq::empty()
    } else {
        match declared_function(body[n - 1]) {
            Some(f) => hoisted(body, n - 1).push(f),
            None => hoisted(body, n - 1),
        }
    }
}

/// What a script runs against: its declared functions and the document.
pub struct Context {
    pub functions: Seq<FunctionView>,
    pub dom: Seq<NodeView>,
}

/// What evaluation gives: a value, no value, or an error; and the scopes
/// as evaluation left them.
pub type Outcome = (Result<Option<ValueView>, ScriptErrorView>, EnvView);

/// The scopes without the innermost one.
pub open spec fn env_leave(env: EnvView) -> EnvView {
    if env.len() > 0 {
        env.drop_last()
    } else {
        env
    }
}

/// What the additive operator `operator` makes of two values; no value for
/// any other operator.
pub open spec fn combine(operator: char, l: ValueView, r: ValueView) -> Option<ValueView> {
    if operator == '+' {
        Some(add_values(l, r))
    } else if operator == '-' {
        Some(sub_values(l, r))
    } else {
        None
    }
}

/// What looking an element up by the text of `v` gives: the first element
/// of the document, in document order, whose identifier is that text.
pub open spec fn lookup_element(dom: Seq<NodeView>, v: ValueView) -> Option<ValueView> {
    match first_picked(dom, document_order(dom, Some(0usize)), Query::Id(render(v))) {
        Some(n) => Some(ValueView::HtmlElement { object: n, property: None }),
        None => None,
    }
}

/// What a part of a tree evaluates to; a part that is absent gives no
/// value.
pub open spec fn eval_part(part: Part, env: EnvView, ctx: Context, depth: nat) -> Outcome
    decreases depth, part, 2int,
{
    match part {
        Some(node) => eval(*node, env, ctx, depth),
        None => (Ok(None), env),
    }
}

/// The declarations from index `i` on, evaluated in order; the first error
/// ends the evaluation.
pub open spec fn eval_declarations(
    list: Seq<Part>,
    i: int,
    env: EnvView,
    ctx: Context,
    depth: nat,
) -> Outcome
    decreases depth, list, list.len() - i,
{
    if !(0 <= i < list.len()) {
        (Ok(None), env)
    } else {
        let (r, env1) = eval_part(list[i], env, ctx, depth);
        match r {
            Ok(_) => eval_declarations(list, i + 1, env1, ctx, depth),
            Err(e) => (Err(e), env1),
        }
    }
}

/// `part` is a return statement.
pub open spec fn is_return(part: Part) -> bool {
    match part {
        Some(node) => *node is ReturnStatement,
        None => false,
    }
}

/// The statements of a block from index `i` on, evaluated in order. The
/// first return statement ends the evaluation and gives its value to the
/// block; a block without one gives no value.
pub open spec fn eval_block(list: Seq<Part>, i: int, env: EnvView, ctx: Context, depth: nat) -> Outcome
    decreases depth, list, list.len() - i,
{
    if !(0 <= i < list.len()) {
        (Ok(None), env)
    } else {
        let (r, env1) = eval_part(list[i], env, ctx, depth);
        if is_return(list[i]) {
            (r, env1)
        } else {
            match r {
                Ok(_) => eval_block(list, i + 1, env1, ctx, depth),
                Err(e) => (Err(e), env1),
            }
        }
    }
}

/// The arguments from index `i` on, each evaluated and bound to the
/// parameter at its place as a new binding of the innermost scope. An
/// argument whose parameter is no identifier is evaluated and not bound.
pub open spec fn bind_arguments(
    params: Seq<Part>,
    arguments: Seq<Part>,
    i: int,
    env: EnvView,
    ctx: Context,
    depth: nat,
) -> (Option<ScriptErrorView>, EnvView)
    decreases depth, arguments, arguments.len() - i,
{
    if !(0 <= i < arguments.len()) {
        (None, env)
    } else {
        let (r, env1) = eval_part(arguments[i], env, ctx, depth);
        match r {
            Ok(v) => {
                let env2 = if i < params.len() {
                    match params[i] {
                        Some(p) => match *p {
                            AstView::Identifier(name) => env_declare(env1, name, v),
                            _ => env1,
                        },
                        None => env1,
                    }
                } else {
                    env1
                };
                bind_arguments(params, arguments, i + 1, env2, ctx, depth)
            },
            Err(e) => (Some(e), env1),
        }
    }
}

/// The name that a call calls: for a callee of the form `object.property`
/// the texts of the two joined by a dot, for any other callee the text of
/// its value; no name where a value is missing.
pub open spec fn callee_name(callee: Part, env: EnvView, ctx: Context, depth: nat) -> (
    Result<Option<Seq<char>>, ScriptErrorView>,
    EnvView,
)
    decreases depth, callee, 3int,
{
    match callee {
        Some(node) => match *node {
            AstView::MemberExpression { object, property } => {
                let (o, env1) = eval_part(object, env, ctx, depth);
                match o {
                    Ok(Some(o)) => {
                        let (p, env2) = eval_part(property, env1, ctx, depth);
                        match p {
                            Ok(Some(p)) => (Ok(Some(render(o) + "."@ + render(p))), env2),
                            Ok(None) => (Ok(None), env2),
                            Err(e) => (Err(e), env2),
                        }
                    },
                    Ok(None) => (Ok(None), env1),
                    Err(e) => (Err(e), env1),
                }
            },
            _ => {
                let (v, env1) = eval_part(callee, env, ctx, depth);
                match v {
                    Ok(Some(v)) => (Ok(Some(render(v))), env1),
                    Ok(None) => (Ok(None), env1),
                    Err(e) => (Err(e), env1),
                }
            },
        },
        None => (Ok(None), env),
    }
}

/// What a call of `name` gives where `name` names a host binding, and
/// `None` where it names none. The one host binding looks an element up:
/// it takes one argument and gives the element that [`lookup_element`]
/// finds for the text of its value.
pub open spec fn browser_api_call(
    name: Seq<char>,
    arguments: Seq<Part>,
    env: EnvView,
    ctx: Context,
    depth: nat,
) -> Option<Outcome>
    decreases depth, arguments, arguments.len() + 1,
{
    if name == lookup_binding_name() {
        if arguments.len() != 1 {
            Some(
                (
                    Err(
                        ScriptErrorView::Arity {
                            function: name,
                            expected: 1,
                            found: arguments.len(),
                        },
                    ),
                    env,
                ),
            )
        } else {
            let (a, env1) = eval_part(arguments[0], env, ctx, depth);
            match a {
                Ok(Some(v)) => Some((Ok(lookup_element(ctx.dom, v)), env1)),
                Ok(None) => Some((Ok(None), env1)),
                Err(e) => Some((Err(e), env1)),
            }
        }
    } else {
        None
    }
}

/// What a call of the name `name` gives, in scopes whose innermost one was
/// opened for the call.
///
/// A host binding is tried first. Any other name must be that of a
/// declared function with as many parameters as there are arguments; its
/// body is evaluated with the arguments bound to the parameters, one level
/// deeper.
pub open spec fn eval_named_call(
    name: Seq<char>,
    arguments: Seq<Part>,
    env: EnvView,
    ctx: Context,
    depth: nat,
) -> Outcome
    decreases depth, arguments, arguments.len() + 2,
{
    match browser_api_call(name, arguments, env, ctx, depth) {
        Some(outcome) => outcome,
        None => match function_index(ctx.functions, name) {
            Some(k) => {
                let f = ctx.functions[k];
                if arguments.len() != f.params.len() {
                    (
                        Err(
                            ScriptErrorView::Arity {
                                function: name,
                                expected: f.params.len(),
                                found: arguments.len(),
                            },
                        ),
                        env,
                    )
                } else if depth == 0 {
                    (Err(ScriptErrorView::CallDepthExceeded), env)
                } else {
                    let (e, env1) = bind_arguments(f.params, arguments, 0, env, ctx, depth);
                    match e {
                        Some(e) => (Err(e), env1),
                        None => eval_part(f.body, env1, ctx, (depth - 1) as nat),
                    }
                }
            },
            None => (Err(ScriptErrorView::UnboundHostBinding(name)), env),
        },
    }
}

/// What a syntax tree evaluates to in the scopes `env`, and the scopes
/// afterwards. `depth` is how many more calls of script functions may nest.
pub open spec fn eval(node: AstView, env: EnvView, ctx: Context, depth: nat) -> Outcome
    decreases depth, node, 1int,
{
    match node {
        AstView::ExpressionStatement(e) => eval_part(e, env, ctx, depth),
        AstView::AdditiveExpression { operator, left, right } => {
            let (l, env1) = eval_part(left, env, ctx, depth);
            match l {
                Ok(Some(l)) => {
                    let (r, env2) = eval_part(right, env1, ctx, depth);
                    match r {
                        Ok(Some(r)) => (Ok(combine(operator, l, r)), env2),
                        Ok(None) => (Ok(None), env2),
                        Err(e) => (Err(e), env2),
                    }
                },
                Ok(None) => (Ok(None), env1),
                Err(e) => (Err(e), env1),
            }
        },
        AstView::AssignmentExpression { operator, left, right } => {
            if operator != '=' {
                (Ok(None), env)
            } else {
                match left {
                    Some(target) => match *target {
                        AstView::Identifier(name) => {
                            let (v, env1) = eval_part(right, env, ctx, depth);
                            match v {
                                Ok(v) => (Ok(None), env_assign(env1, name, v)),
                                Err(e) => (Err(e), env1),
                            }
                        },
                        _ => (Ok(None), env),
                    },
                    None => (Ok(None), env),
                }
            }
        },
        AstView::MemberExpression { .. } => (Ok(None), env),
        AstView::NumericLiteral(n) => (Ok(Some(ValueView::Number(n))), env),
        AstView::VariableDeclaration { declarations } => eval_declarations(
            declarations,
            0,
            env,
            ctx,
            depth,
        ),
        AstView::VariableDeclarator { id, init } => match id {
            Some(target) => match *target {
                AstView::Identifier(name) => {
                    let (v, env1) = eval_part(init, env, ctx, depth);
                    match v {
                        Ok(v) => (Ok(None), env_declare(env1, name, v)),
                        Err(e) => (Err(e), env1),
                    }
                },
                _ => (Ok(None), env),
            },
            None => (Ok(None), env),
        },
        AstView::Identifier(name) => (
            Ok(
                match env_lookup(env, name) {
                    Some(v) => v,
                    None => Some(ValueView::StringLiteral(name)),
                },
            ),
            env,
        ),
        AstView::StringLiteral(s) => (Ok(Some(ValueView::StringLiteral(s))), env),
        AstView::BlockStatement { body } => eval_block(body, 0, env, ctx, depth),
        AstView::ReturnStatement { argument } => eval_part(argument, env, ctx, depth),
        AstView::FunctionDeclaration { .. } => (Ok(None), env),
        AstView::CallExpression { callee, arguments } => {
            let (name, env1) = callee_name(
                callee,
                env.push(Seq::<Binding>::empty()),
                ctx,
                depth,
            );
            match name {
                Ok(Some(name)) => {
                    let (r, env2) = eval_named_call(name, arguments, env1, ctx, depth);
                    (r, env_leave(env2))
                },
                Ok(None) => (Ok(None), env_leave(env1)),
                Err(e) => (Err(e), env_leave(env1)),
            }
        },
    }
}


/// The view of what the executable evaluator returns.
pub open spec fn outcome_view(r: Result<Option<RuntimeValue>, ScriptError>) -> Result<
    Option<ValueView>,
    ScriptErrorView,
> {
    match r {
        Ok(v) => Ok(value_option_view(v)),
        Err(e) => Err(e@),
    }
}

/// The context that a list of functions and a window make.
pub open spec fn context(functions: Seq<Function>, dom: Seq<NodeView>) -> Context {
    Context { functions: functions_view(functions), dom }
}

/// Where the function named `name` stands in the list.
fn find_function(functions: &Vec<Function>, name: &str) -> (r: Option<usize>)
    ensures
        match r {
            Some(k) => function_index(functions_view(functions@), name@) == Some(k as int) && k
                < functions@.len(),
            None => function_index(functions_view(functions@), name@) is None,
        },
{
    let ghost all = functions_view(functions@);
    let mut k = functions.len();
    assert(all.take(k as int) =~= all);
    while k > 0
        invariant
            k <= functions@.len(),
            all == functions_view(functions@),
            function_index(all, name@) == function_index(all.take(k as int), name@),
        decreases k,
    {
        k -= 1;
        assert(all.take(k + 1).last() == functions@[k as int]@);
        assert(all.take(k + 1).drop_last() =~= all.take(k as int));
        if str_equal(functions[k].id.as_str(), name) {
            return Some(k);
        }
    }
    None
}

fn eval_declarations_from(
    list: &Vec<Option<Rc<Node>>>,
    start: usize,
    env: &mut Environment,
    functions: &Vec<Function>,
    dom: &Window,
    depth: usize,
) -> (r: Result<Option<RuntimeValue>, ScriptError>)
    ensures
        (outcome_view(r), final(env)@) == eval_declarations(
            parts_view(list@),
            start as int,
            old(env)@,
            context(functions@, dom@),
            depth as nat,
        ),
    decreases depth, *list, list@.len() - start,
{
    if start >= list.len() {
        return Ok(None);
    }
    match eval_node(&list[start], env, functions, dom, depth) {
        Ok(_) => eval_declarations_from(list, start + 1, env, functions, dom, depth),
        Err(e) => Err(e),
    }
}

fn eval_block_from(
    list: &Vec<Option<Rc<Node>>>,
    start: usize,
    env: &mut Environment,
    functions: &Vec<Function>,
    dom: &Window,
    depth: usize,
) -> (r: Result<Option<RuntimeValue>, ScriptError>)
    ensures
        (outcome_view(r), final(env)@) == eval_block(
            parts_view(list@),
            start as int,
            old(env)@,
            context(functions@, dom@),
            depth as nat,
        ),
    decreases depth, *list, list@.len() - start,
{
    if start >= list.len() {
        return Ok(None);
    }
    let last = match &list[start] {
        Some(rc) => match &**rc {
            Node::ReturnStatement { .. } => true,
            _ => false,
        },
        None => false,
    };
    let r = eval_node(&list[start], env, functions, dom, depth);
    if last {
        return r;
    }
    match r {
        Ok(_) => eval_block_from(list, start + 1, env, functions, dom, depth),
        Err(e) => Err(e),
    }
}

fn bind_arguments_from(
    params: &Vec<Option<Rc<Node>>>,
    arguments: &Vec<Option<Rc<Node>>>,
    start: usize,
    env: &mut Environment,
    functions: &Vec<Function>,
    dom: &Window,
    depth: usize,
) -> (r: Option<ScriptError>)
    ensures
        (match r {
            Some(e) => Some(e@),
            None => None,
        }, final(env)@) == bind_arguments(
            parts_view(params@),
            parts_view(arguments@),
            start as int,
            old(env)@,
            context(functions@, dom@),
            depth as nat,
        ),
    decreases depth, *arguments, arguments@.len() - start,
{
    if start >= arguments.len() {
        return None;
    }
    match eval_node(&arguments[start], env, functions, dom, depth) {
        Ok(v) => {
            if start < params.len() {
                match &params[start] {
                    Some(p) => match &**p {
                        Node::Identifier(name) => {
                            env.add_variable(name.clone(), v);
                        },
                        _ => {},
                    },
                    None => {},
                }
            }
            bind_arguments_from(params, arguments, start + 1, env, functions, dom, depth)
        },
        Err(e) => Some(e),
    }
}

fn callee_name_of(
    callee: &Option<Rc<Node>>,
    env: &mut Environment,
    functions: &Vec<Function>,
    dom: &Window,
    depth: usize,
) -> (r: Result<Option<String>, ScriptError>)
    ensures
        (match r {
            Ok(Some(name)) => Ok(Some(name@)),
            Ok(None) => Ok(None),
            Err(e) => Err(e@),
        }, final(env)@) == callee_name(
            part_view(*callee),
            old(env)@,
            context(functions@, dom@),
            depth as nat,
        ),
    decreases depth, *callee, 3int,
{
    match callee {
        Some(rc) => match &**rc {
            Node::MemberExpression { object, property } => {
                match eval_node(object, env, functions, dom, depth) {
                    Ok(Some(o)) => match eval_node(property, env, functions, dom, depth) {
                        Ok(Some(p)) => {
                            let mut name = o.to_string();
                            name.append(".");
                            let tail = p.to_string();
                            name.append(tail.as_str());
                            Ok(Some(name))
                        },
                        Ok(None) => Ok(None),
                        Err(e) => Err(e),
                    },
                    Ok(None) => Ok(None),
                    Err(e) => Err(e),
                }
            },
            _ => match eval_node(callee, env, functions, dom, depth) {
                Ok(Some(v)) => Ok(Some(v.to_string())),
                Ok(None) => Ok(None),
                Err(e) => Err(e),
            },
        },
        None => Ok(None),
    }
}

/// Calls the host binding that `name` names; `None` where it names none.
fn call_browser_api(
    name: &String,
    arguments: &Vec<Option<Rc<Node>>>,
    env: &mut Environment,
    functions: &Vec<Function>,
    dom: &Window,
    depth: usize,
) -> (r: Option<Result<Option<RuntimeValue>, ScriptError>>)
    ensures
        match browser_api_call(
            name@,
            parts_view(arguments@),
            old(env)@,
            context(functions@, dom@),
            depth as nat,
        ) {
            Some(outcome) => r is Some && (outcome_view(r->Some_0), final(env)@) == outcome,
            None => r is None && final(env)@ == old(env)@,
        },
    decreases depth, *arguments, arguments@.len() + 1,
{
    if !str_equal(name.as_str(), "document.getElementById") {
        return None;
    }
    if arguments.len() != 1 {
        return Some(
            Err(
                ScriptError::Arity(
                    ScriptArityError {
                        function: name.clone(),
                        expected: 1,
                        found: arguments.len(),
                    },
                ),
            ),
        );
    }
    Some(
        match eval_node(&arguments[0], env, functions, dom, depth) {
            Ok(Some(v)) => {
                let text = v.to_string();
                match get_element_by_id(dom, Some(0), text.as_str()) {
                    Some(n) => Ok(Some(RuntimeValue::HtmlElement { object: n, property: None })),
                    None => Ok(None),
                }
            },
            Ok(None) => Ok(None),
            Err(e) => Err(e),
        },
    )
}

fn eval_named_call_of(
    name: String,
    arguments: &Vec<Option<Rc<Node>>>,
    env: &mut Environment,
    functions: &Vec<Function>,
    dom: &Window,
    depth: usize,
) -> (r: Result<Option<RuntimeValue>, ScriptError>)
    ensures
        (outcome_view(r), final(env)@) == eval_named_call(
            name@,
            parts_view(arguments@),
            old(env)@,
            context(functions@, dom@),
            depth as nat,
        ),
    decreases depth, *arguments, arguments@.len() + 2,
{
    match call_browser_api(&name, arguments, env, functions, dom, depth) {
        Some(r) => {
            return r;
        },
        None => {},
    }
    match find_function(functions, name.as_str()) {
        Some(k) => {
            let f = &functions[k];
            if arguments.len() != f.params.len() {
                Err(
                    ScriptError::Arity(
                        ScriptArityError {
                            function: name,
                            expected: f.params.len(),
                            found: arguments.len(),
                        },
                    ),
                )
            } else if depth == 0 {
                Err(ScriptError::CallDepthExceeded)
            } else {
                match bind_arguments_from(&f.params, arguments, 0, env, functions, dom, depth) {
                    Some(e) => Err(e),
                    None => eval_node(&f.body, env, functions, dom, depth - 1),
                }
            }
        },
        None => Err(ScriptError::UnboundHostBinding(name)),
    }
}

/// Evaluates a part of a tree in the scopes `env`, with the functions and
/// the document given. The result and the scopes afterwards are those of
/// [`eval_part`].
pub fn eval_node(
    node: &Option<Rc<Node>>,
    env: &mut Environment,
    functions: &Vec<Function>,
    dom: &Window,
    depth: usize,
) -> (r: Result<Option<RuntimeValue>, ScriptError>)
    ensures
        (outcome_view(r), final(env)@) == eval_part(
            part_view(*node),
            old(env)@,
            context(functions@, dom@),
            depth as nat,
        ),
    decreases depth, *node, 2int,
{
    let rc = match node {
        Some(rc) => rc,
        None => {
            return Ok(None);
        },
    };
    proof {
        reveal_with_fuel(node_view, 2);
        reveal_with_fuel(part_view, 2);
    }
    let ghost want = eval(rc@, env@, context(functions@, dom@), depth as nat);
    match &**rc {
        Node::ExpressionStatement(e) => eval_node(e, env, functions, dom, depth),
        Node::AdditiveExpression { operator, left, right } => {
            match eval_node(left, env, functions, dom, depth) {
                Ok(Some(l)) => match eval_node(right, env, functions, dom, depth) {
                    Ok(Some(r)) => {
                        if *operator == '+' {
                            Ok(Some(l.add(r)))
                        } else if *operator == '-' {
                            Ok(Some(l.sub(r)))
                        } else {
                            Ok(None)
                        }
                    },
                    Ok(None) => Ok(None),
                    Err(e) => Err(e),
                },
                Ok(None) => Ok(None),
                Err(e) => Err(e),
            }
        },
        Node::AssignmentExpression { operator, left, right } => {
            if *operator != '=' {
                return Ok(None);
            }
            let r = match left {
                Some(target) => match &**target {
                    Node::Identifier(name) => match eval_node(right, env, functions, dom, depth) {
                        Ok(v) => {
                            env.update_variable(name.clone(), v);
                            Ok(None)
                        },
                        Err(e) => Err(e),
                    },
                    _ => Ok(None),
                },
                None => Ok(None),
            };
            assert((outcome_view(r), env@) == want);
            r
        },
        Node::MemberExpression { .. } => Ok(None),
        Node::NumericLiteral(value) => Ok(Some(RuntimeValue::Number(*value))),
        Node::VariableDeclaration { declarations } => eval_declarations_from(
            declarations,
            0,
            env,
            functions,
            dom,
            depth,
        ),
        Node::VariableDeclarator { id, init } => {
            let r = match id {
                Some(target) => match &**target {
                    Node::Identifier(name) => match eval_node(init, env, functions, dom, depth) {
                        Ok(v) => {
                            env.add_variable(name.clone(), v);
                            Ok(None)
                        },
                        Err(e) => Err(e),
                    },
                    _ => Ok(None),
                },
                None => Ok(None),
            };
            assert((outcome_view(r), env@) == want);
            r
        },
        Node::Identifier(name) => match env.lookup(name.as_str()) {
            Some(v) => Ok(v),
            None => Ok(Some(RuntimeValue::StringLiteral(name.clone()))),
        },
        Node::StringLiteral(value) => Ok(Some(RuntimeValue::StringLiteral(value.clone()))),
        Node::BlockStatement { body } => eval_block_from(body, 0, env, functions, dom, depth),
        Node::ReturnStatement { argument } => eval_node(argument, env, functions, dom, depth),
        Node::FunctionDeclaration { .. } => Ok(None),
        Node::CallExpression { callee, arguments } => {
            env.enter();
            let r = match callee_name_of(callee, env, functions, dom, depth) {
                Ok(Some(name)) => eval_named_call_of(name, arguments, env, functions, dom, depth),
                Ok(None) => Ok(None),
                Err(e) => Err(e),
            };
            env.leave();
            r
        },
    }
}


/// The statements of a program from index `i` on, evaluated in order; `acc`
/// holds what the earlier ones gave. The first error ends the run.
pub open spec fn run_statements(
    body: Seq<AstView>,
    i: int,
    env: EnvView,
    ctx: Context,
    acc: Seq<Option<ValueView>>,
) -> (Result<Seq<Option<ValueView>>, ScriptErrorView>, EnvView)
    decreases body.len() - i,
{
    if !(0 <= i < body.len()) {
        (Ok(acc), env)
    } else {
        let (r, env1) = eval(body[i], env, ctx, MAX_CALL_DEPTH as nat);
        match r {
            Ok(v) => run_statements(body, i + 1, env1, ctx, acc.push(v)),
            Err(e) => (Err(e), env1),
        }
    }
}

/// The views of a list of values that may be absent.
pub open spec fn values_view(values: Seq<Option<RuntimeValue>>) -> Seq<Option<ValueView>> {
    Seq::new(values.len(), |i: int| value_option_view(values[i]))
}

/// The functions that the statements of `program` declare, in order.
pub fn hoist(program: &Program) -> (functions: Vec<Function>)
    ensures
        functions_view(functions@) == hoisted(program@, program@.len() as int),
{
    let body = program.body();
    let ghost views = body_view(body@);
    let mut functions: Vec<Function> = Vec::new();
    let mut i: usize = 0;
    assert(functions_view(functions@) =~= hoisted(views, 0));
    while i < body.len()
        invariant
            i <= body.len(),
            views == body_view(body@),
            functions_view(functions@) == hoisted(views, i as int),
        decreases body.len() - i,
    {
        proof {
            reveal_with_fuel(node_view, 2);
            reveal_with_fuel(part_view, 2);
        }
        let ghost before = functions_view(functions@);
        assert(views[i as int] == node_view(*body@[i as int]));
        match &*body[i] {
            Node::FunctionDeclaration { id: Some(name), params, body: block } => match &**name {
                Node::Identifier(id) => {
                    let f = Function::new(id.clone(), share_parts(params), share_part(block));
                    functions.push(f);
                    assert(functions_view(functions@) =~= before.push(f@));
                },
                _ => {},
            },
            _ => {},
        }
        i += 1;
    }
    functions
}

#[derive(Debug)]
pub struct JsRuntime {
    dom: Window,
    env: Environment,
    functions: Vec<Function>,
}

impl JsRuntime {
    /// A runtime over the document `dom`, with one empty scope and no
    /// functions.
    pub fn new(dom: Window) -> (r: Self)
        ensures
            r.dom_view() == dom@,
            r.env_view() == seq![Seq::<Binding>::empty()],
            r.functions() == Seq::<FunctionView>::empty(),
    {
        let r = Self { dom, env: Environment::new(), functions: Vec::new() };
        assert(r.functions() =~= Seq::<FunctionView>::empty());
        r
    }

    /// The document that scripts query.
    pub closed spec fn dom_view(&self) -> Seq<NodeView> {
        self.dom@
    }

    /// The scopes of the runtime.
    pub closed spec fn env_view(&self) -> EnvView {
        self.env@
    }

    /// The functions that the runtime knows.
    pub closed spec fn functions(&self) -> Seq<FunctionView> {
        functions_view(self.functions@)
    }

    /// The document that scripts query.
    pub fn dom(&self) -> (w: &Window)
        ensures
            w@ == self.dom_view(),
    {
        &self.dom
    }

    /// Gives the document back.
    pub fn into_dom(self) -> (w: Window)
        ensures
            w@ == self.dom_view(),
    {
        self.dom
    }

    /// The scopes of the runtime.
    pub fn env(&self) -> (e: &Environment)
        ensures
            e@ == self.env_view(),
    {
        &self.env
    }

    /// Evaluates one part of a tree in the scopes of the runtime, with the
    /// functions that it knows.
    pub fn eval(&mut self, node: &Option<Rc<Node>>) -> (r: Result<Option<RuntimeValue>, ScriptError>)
        ensures
            final(self).dom_view() == old(self).dom_view(),
            final(self).functions() == old(self).functions(),
            (outcome_view(r), final(self).env_view()) == eval_part(
                part_view(*node),
                old(self).env_view(),
                Context { functions: old(self).functions(), dom: old(self).dom_view() },
                MAX_CALL_DEPTH as nat,
            ),
    {
        eval_node(node, &mut self.env, &self.functions, &self.dom, MAX_CALL_DEPTH)
    }

    /// Runs a program: hoists the functions that it declares, then
    /// evaluates its statements in order in a fresh scope. Returns what each
    /// statement gave, or the first error.
    pub fn execute(&mut self, program: &Program) -> (r: Result<
        Vec<Option<RuntimeValue>>,
        ScriptError,
    >)
        ensures
            final(self).dom_view() == old(self).dom_view(),
            final(self).functions() == hoisted(program@, program@.len() as int),
            (match r {
                Ok(values) => Ok(values_view(values@)),
                Err(e) => Err(e@),
            }, final(self).env_view()) == run_statements(
                program@,
                0,
                seq![Seq::<Binding>::empty()],
                Context {
                    functions: hoisted(program@, program@.len() as int),
                    dom: old(self).dom_view(),
                },
                Seq::empty(),
            ),
    {
        self.functions = hoist(program);
        self.env = Environment::new();
        let body = program.body();
        let ghost views = body_view(body@);
        let ghost ctx = Context { functions: self.functions(), dom: self.dom_view() };
        let ghost start = self.env@;
        let mut values: Vec<Option<RuntimeValue>> = Vec::new();
        let mut i: usize = 0;
        assert(values_view(values@) =~= Seq::empty());
        while i < body.len()
            invariant
                i <= body.len(),
                views == body_view(body@),
                views == program@,
                start == seq![Seq::<Binding>::empty()],
                self.dom_view() == old(self).dom_view(),
                self.functions() == hoisted(program@, program@.len() as int),
                ctx == (Context { functions: self.functions(), dom: self.dom_view() }),
                run_statements(views, i as int, self.env@, ctx, values_view(values@))
                    == run_statements(views, 0, start, ctx, Seq::empty()),
            decreases body.len() - i,
        {
            let ghost before = values_view(values@);
            assert(views[i as int] == node_view(*body@[i as int]));
            let node = Some(share(&body[i]));
            match eval_node(&node, &mut self.env, &self.functions, &self.dom, MAX_CALL_DEPTH) {
                Ok(v) => {
                    values.push(v);
                    assert(values_view(values@) =~= before.push(value_option_view(v)));
                },
                Err(e) => {
                    return Err(e);
                },
            }
            i += 1;
        }
        Ok(values)
    }
}


/// A call of a declared function with another number of arguments than
/// the function has parameters is an arity error, whatever the arguments
/// are; nothing is evaluated and the scopes stay as they were.
pub proof fn lemma_arity_mismatch(
    name: Seq<char>,
    arguments: Seq<Part>,
    env: EnvView,
    ctx: Context,
    depth: nat,
)
    requires
        name != lookup_binding_name(),
        function_index(ctx.functions, name) is Some,
        arguments.len() != ctx.functions[function_index(ctx.functions, name)->0].params.len(),
    ensures
        eval_named_call(name, arguments, env, ctx, depth) == (
            Err::<Option<ValueView>, ScriptErrorView>(
                ScriptErrorView::Arity {
                    function: name,
                    expected: ctx.functions[function_index(ctx.functions, name)->0].params.len(),
                    found: arguments.len(),
                },
            ),
            env,
        ),
{
}

/// A call leaves as many scopes behind as it found: the scope that it
/// opens is closed again, also where the call fails.
/// `env_assign` keeps the number of scopes.
pub proof fn lemma_assign_keeps_scopes(env: EnvView, name: Seq<char>, value: Option<ValueView>)
    ensures
        env_assign(env, name, value).len() == env.len(),
    decreases env.len(),
{
    if env.len() > 0 && scope_index(env.last(), name) is None {
        lemma_assign_keeps_scopes(env.drop_last(), name, value);
    }
}

/// Evaluation keeps the number of scopes, provided there is one to begin
/// with: declarations and assignments change what scopes hold, and every
/// scope that a call opens is closed when the call ends.
pub proof fn lemma_eval_keeps_scopes(node: AstView, env: EnvView, ctx: Context, depth: nat)
    requires
        env.len() > 0,
    ensures
        eval(node, env, ctx, depth).1.len() == env.len(),
    decreases depth, node, 1int,
{
    match node {
        AstView::ExpressionStatement(e) => {
            lemma_part_keeps_scopes(e, env, ctx, depth);
        },
        AstView::AdditiveExpression { operator, left, right } => {
            lemma_part_keeps_scopes(left, env, ctx, depth);
            let (l, env1) = eval_part(left, env, ctx, depth);
            lemma_part_keeps_scopes(right, env1, ctx, depth);
        },
        AstView::AssignmentExpression { operator, left, right } => {
            lemma_part_keeps_scopes(right, env, ctx, depth);
            let (v, env1) = eval_part(right, env, ctx, depth);
            match (left, v) {
                (Some(target), Ok(v)) => match *target {
                    AstView::Identifier(name) => {
                        lemma_assign_keeps_scopes(env1, name, v);
                    },
                    _ => {},
                },
                _ => {},
            }
        },
        AstView::VariableDeclaration { declarations } => {
            lemma_declarations_keep_scopes(declarations, 0, env, ctx, depth);
        },
        AstView::VariableDeclarator { id, init } => {
            lemma_part_keeps_scopes(init, env, ctx, depth);
        },
        AstView::BlockStatement { body } => {
            lemma_block_keeps_scopes(body, 0, env, ctx, depth);
        },
        AstView::ReturnStatement { argument } => {
            lemma_part_keeps_scopes(argument, env, ctx, depth);
        },
        AstView::CallExpression { callee, arguments } => {
            let opened = env.push(Seq::<Binding>::empty());
            lemma_callee_keeps_scopes(callee, opened, ctx, depth);
            let (name, env1) = callee_name(callee, opened, ctx, depth);
            match name {
                Ok(Some(name)) => {
                    lemma_named_call_keeps_scopes(name, arguments, env1, ctx, depth);
                },
                _ => {},
            }
        },
        _ => {},
    }
}

proof fn lemma_part_keeps_scopes(part: Part, env: EnvView, ctx: Context, depth: nat)
    requires
        env.len() > 0,
    ensures
        eval_part(part, env, ctx, depth).1.len() == env.len(),
    decreases depth, part, 2int,
{
    match part {
        Some(node) => {
            lemma_eval_keeps_scopes(*node, env, ctx, depth);
        },
        None => {},
    }
}

proof fn lemma_declarations_keep_scopes(
    list: Seq<Part>,
    i: int,
    env: EnvView,
    ctx: Context,
    depth: nat,
)
    requires
        env.len() > 0,
    ensures
        eval_declarations(list, i, env, ctx, depth).1.len() == env.len(),
    decreases depth, list, list.len() - i,
{
    if 0 <= i < list.len() {
        lemma_part_keeps_scopes(list[i], env, ctx, depth);
        let (r, env1) = eval_part(list[i], env, ctx, depth);
        if r is Ok {
            lemma_declarations_keep_scopes(list, i + 1, env1, ctx, depth);
        }
    }
}

proof fn lemma_block_keeps_scopes(list: Seq<Part>, i: int, env: EnvView, ctx: Context, depth: nat)
    requires
        env.len() > 0,
    ensures
        eval_block(list, i, env, ctx, depth).1.len() == env.len(),
    decreases depth, list, list.len() - i,
{
    if 0 <= i < list.len() {
        lemma_part_keeps_scopes(list[i], env, ctx, depth);
        let (r, env1) = eval_part(list[i], env, ctx, depth);
        if !is_return(list[i]) && r is Ok {
            lemma_block_keeps_scopes(list, i + 1, env1, ctx, depth);
        }
    }
}

proof fn lemma_bind_keeps_scopes(
    params: Seq<Part>,
    arguments: Seq<Part>,
    i: int,
    env: EnvView,
    ctx: Context,
    depth: nat,
)
    requires
        env.len() > 0,
    ensures
        bind_arguments(params, arguments, i, env, ctx, depth).1.len() == env.len(),
    decreases depth, arguments, arguments.len() - i,
{
    if 0 <= i < arguments.len() {
        lemma_part_keeps_scopes(arguments[i], env, ctx, depth);
        let (r, env1) = eval_part(arguments[i], env, ctx, depth);
        match r {
            Ok(v) => {
                let env2 = if i < params.len() {
                    match params[i] {
                        Some(p) => match *p {
                            AstView::Identifier(name) => env_declare(env1, name, v),
                            _ => env1,
                        },
                        None => env1,
                    }
                } else {
                    env1
                };
                lemma_bind_keeps_scopes(params, arguments, i + 1, env2, ctx, depth);
            },
            Err(_) => {},
        }
    }
}

proof fn lemma_callee_keeps_scopes(callee: Part, env: EnvView, ctx: Context, depth: nat)
    requires
        env.len() > 0,
    ensures
        callee_name(callee, env, ctx, depth).1.len() == env.len(),
    decreases depth, callee, 3int,
{
    match callee {
        Some(node) => match *node {
            AstView::MemberExpression { object, property } => {
                lemma_part_keeps_scopes(object, env, ctx, depth);
                let (o, env1) = eval_part(object, env, ctx, depth);
                lemma_part_keeps_scopes(property, env1, ctx, depth);
            },
            _ => {
                lemma_part_keeps_scopes(callee, env, ctx, depth);
            },
        },
        None => {},
    }
}

proof fn lemma_named_call_keeps_scopes(
    name: Seq<char>,
    arguments: Seq<Part>,
    env: EnvView,
    ctx: Context,
    depth: nat,
)
    requires
        env.len() > 0,
    ensures
        eval_named_call(name, arguments, env, ctx, depth).1.len() == env.len(),
    decreases depth, arguments, arguments.len() + 2,
{
    if name == lookup_binding_name() {
        if arguments.len() == 1 {
            lemma_part_keeps_scopes(arguments[0], env, ctx, depth);
        }
    } else {
        match function_index(ctx.functions, name) {
            Some(k) => {
                let f = ctx.functions[k];
                if arguments.len() == f.params.len() && depth > 0 {
                    lemma_bind_keeps_scopes(f.params, arguments, 0, env, ctx, depth);
                    let (e, env1) = bind_arguments(f.params, arguments, 0, env, ctx, depth);
                    if e is None {
                        lemma_part_keeps_scopes(f.body, env1, ctx, (depth - 1) as nat);
                    }
                }
            },
            None => {},
        }
    }
}


impl Default for JsRuntime {
    fn default() -> (r: Self)
        ensures
            r.dom_view() == crate::renderer::dom::node::initial_tree(),
            r.env_view() == seq![Seq::<Binding>::empty()],
            r.functions() == Seq::<FunctionView>::empty(),
    {
        Self::new(Window::new())
    }
}

} // verus!
