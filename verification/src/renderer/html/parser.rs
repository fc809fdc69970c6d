//! The tree builder: tokens in, document tree out.
//!
//! [`BuilderView::apply`] says what one token does to the tree under
//! construction and [`construct`] what a whole input gives; the executable
//! builder is proved to build exactly that tree.

use vstd::prelude::*;
use crate::renderer::dom::node::Element;
use crate::renderer::dom::node::ElementKind;
use crate::renderer::dom::node::ElementView;
use crate::renderer::dom::node::NodeKind;
use crate::renderer::dom::node::NodeKindView;
use crate::renderer::dom::node::NodeView;
use crate::renderer::dom::node::UnrecognizedElement;
use crate::renderer::dom::node::Window;
use crate::renderer::dom::node::append_child;
use crate::renderer::dom::node::append_text;
use crate::renderer::dom::node::can_append;
use crate::renderer::dom::node::element_kind_of;
use crate::renderer::dom::node::initial_tree;
use crate::renderer::dom::node::lemma_append_child_wf;
use crate::renderer::dom::node::lemma_append_text_wf;
use crate::renderer::dom::node::tree_wf;
use crate::renderer::html::attribute::Attribute;
use crate::renderer::html::attribute::AttributeView;
use crate::renderer::html::token::HtmlToken;
use crate::renderer::html::token::HtmlTokenView;
use crate::renderer::html::token::HtmlTokenizer;
use crate::renderer::html::token::State;
use crate::renderer::html::token::TokenizerError;
use crate::renderer::html::token::TokenizerView;
use crate::renderer::html::token::attributes_view;
use crate::renderer::js::ast::JsParser;
use crate::renderer::js::ast::parse_program;
use crate::renderer::js::runtime::Binding;
use crate::renderer::js::runtime::Context;
use crate::renderer::js::runtime::JsRuntime;
use crate::renderer::js::runtime::ScriptError;
use crate::renderer::js::runtime::ScriptErrorView;
use crate::renderer::js::runtime::hoisted;
use crate::renderer::js::runtime::run_statements;
use crate::renderer::js::token::JsLexer;
use crate::renderer::js::token::lex_all;
use crate::text::string_of;

verus! {

/// Something in a document that could not be used. Construction goes on
/// behind each of them.
#[derive(Debug, PartialEq, Eq)]
pub enum Issue {
    /// The tokenizer met a character that it could not act on.
    Tokenizer(TokenizerError),
    /// A start tag named no known kind of element; the tag was skipped.
    UnrecognizedElement(UnrecognizedElement),
    /// A script could not be parsed or failed while it ran; the rest of the
    /// script was not run.
    Script(ScriptError),
}

/// What an issue is, over sequences of characters.
pub enum IssueView {
    Tokenizer(TokenizerError),
    UnrecognizedElement(Seq<char>),
    Script(ScriptErrorView),
}

impl View for Issue {
    type V = IssueView;

    open spec fn view(&self) -> IssueView {
        match *self {
            Issue::Tokenizer(e) => IssueView::Tokenizer(e),
            Issue::UnrecognizedElement(e) => IssueView::UnrecognizedElement(e.name@),
            Issue::Script(e) => IssueView::Script(e@),
        }
    }
}

/// The views of a list of issues, in order.
pub open spec fn issues_view(issues: Seq<Issue>) -> Seq<IssueView> {
    Seq::new(issues.len(), |i: int| issues[i]@)
}

/// What running the script `source` against the document gives: the error
/// that ended it, or `None` where it ran to its end.
pub open spec fn script_issue(source: Seq<char>, dom: Seq<NodeView>) -> Option<ScriptErrorView> {
    match parse_program(lex_all(source, 0), 0, Seq::empty()) {
        Ok(body) => match run_statements(
            body,
            0,
            seq![Seq::<Binding>::empty()],
            Context { functions: hoisted(body, body.len() as int), dom },
            Seq::empty(),
        ).0 {
            Ok(_) => None,
            Err(e) => Some(e),
        },
        Err(t) => Some(ScriptErrorView::Parse(t)),
    }
}

/// Lexes, parses and runs the script `source` against the document `dom`,
/// and gives the document back with the error that ended the script, if
/// any. A script reads the document and does not change it.
pub fn run_script(source: String, dom: Window) -> (r: (Window, Option<ScriptError>))
    ensures
        r.0@ == dom@,
        (match r.1 {
            Some(e) => Some(e@),
            None => None,
        }) == script_issue(source@, dom@),
{
    let lexer = JsLexer::new(source);
    let mut parser = JsParser::new(lexer);
    match parser.parse_ast() {
        Ok(program) => {
            let mut runtime = JsRuntime::new(dom);
            let outcome = runtime.execute(&program);
            let dom = runtime.into_dom();
            match outcome {
                Ok(_) => (dom, None),
                Err(e) => (dom, Some(e)),
            }
        },
        Err(e) => (dom, Some(ScriptError::Parse(e))),
    }
}

/// The characters between tags that start no text while no body is open.
pub open spec fn is_blank(c: char) -> bool {
    c == ' ' || c == '\n'
}

/// The nearest element of kind `kind` on the way from node `from` up to the
/// document, `from` itself included.
pub open spec fn nearest_open(nodes: Seq<NodeView>, from: usize, kind: ElementKind) -> Option<usize>
    decreases from,
{
    if from >= nodes.len() {
        None
    } else if nodes[from as int].kind matches NodeKindView::Element(e) && e.kind == kind {
        Some(from)
    } else {
        match nodes[from as int].parent {
            Some(p) => if p < from {
                nearest_open(nodes, p, kind)
            } else {
                None
            },
            None => None,
        }
    }
}

/// The state of the tree builder as plain values.
pub struct BuilderView {
    /// The tree built so far.
    pub nodes: Seq<NodeView>,
    /// The insertion point: the node that receives new children.
    pub current: usize,
    /// The text node that the next character extends, if the last token was
    /// a character that went into the tree.
    pub text: Option<usize>,
    /// The source of the script element that is open, if one is.
    pub script: Option<Seq<char>>,
    /// What could not be used, in the order met.
    pub issues: Seq<IssueView>,
}

impl BuilderView {
    /// The builder before the first token: the document alone.
    pub open spec fn initial() -> BuilderView {
        BuilderView {
            nodes: initial_tree(),
            current: 0,
            text: None,
            script: None,
            issues: Seq::empty(),
        }
    }

    /// The builder with one more issue.
    pub open spec fn with_issue(self, issue: IssueView) -> BuilderView {
        BuilderView { issues: self.issues.push(issue), ..self }
    }

    /// The builder with a new node holding `kind` as the last child of the
    /// insertion point, and that node as the new insertion point. Nothing
    /// changes where the tree cannot take the node.
    pub open spec fn descend(self, kind: NodeKindView) -> BuilderView {
        if can_append(self.nodes, self.current) && !(kind is Document) {
            BuilderView {
                nodes: append_child(self.nodes, self.current, kind),
                current: self.nodes.len() as usize,
                ..self
            }
        } else {
            self
        }
    }

    /// The kind of element at the insertion point, if an element is there.
    pub open spec fn current_kind(self) -> Option<ElementKind> {
        if self.current < self.nodes.len() {
            match self.nodes[self.current as int].kind {
                NodeKindView::Element(e) => Some(e.kind),
                _ => None,
            }
        } else {
            None
        }
    }

    /// The insertion point is the document itself.
    pub open spec fn at_document(self) -> bool {
        self.current < self.nodes.len() && self.nodes[self.current as int].kind is Document
    }

    /// An element without attributes.
    pub open spec fn bare(kind: ElementKind) -> NodeKindView {
        NodeKindView::Element(ElementView { kind, attributes: Seq::empty() })
    }

    /// The builder made ready for content of kind `kind` (`None` for text):
    /// below the document an `html` element is opened for anything but an
    /// `html` element, and below an `html` element a `body` element for
    /// anything but `html`, `head` and `body`.
    pub open spec fn scaffold(self, kind: Option<ElementKind>) -> BuilderView {
        let a = if self.at_document() && kind != Some(ElementKind::Html) {
            self.descend(Self::bare(ElementKind::Html))
        } else {
            self
        };
        if a.current_kind() == Some(ElementKind::Html) && kind != Some(ElementKind::Html) && kind
            != Some(ElementKind::Head) && kind != Some(ElementKind::Body) {
            a.descend(Self::bare(ElementKind::Body))
        } else {
            a
        }
    }

    /// What a start tag does. A tag of unknown name is recorded and skipped.
    /// Any other tag becomes an element, the last child of the insertion
    /// point; unless the tag closes itself, the element is the new
    /// insertion point, and a script element starts collecting its source.
    pub open spec fn start_tag(
        self,
        tag: Seq<char>,
        self_closing: bool,
        attributes: Seq<AttributeView>,
    ) -> BuilderView {
        let b = BuilderView { text: None, ..self };
        match element_kind_of(tag) {
            Some(kind) => {
                let s = b.scaffold(Some(kind));
                let entered = s.descend(NodeKindView::Element(ElementView { kind, attributes }));
                if !can_append(s.nodes, s.current) {
                    s
                } else if self_closing {
                    BuilderView { current: s.current, ..entered }
                } else if kind == ElementKind::Script {
                    BuilderView { script: Some(Seq::empty()), ..entered }
                } else {
                    entered
                }
            },
            None => b.with_issue(IssueView::UnrecognizedElement(tag)),
        }
    }

    /// What an end tag does: the nearest open element of its kind is
    /// closed, and its parent is the new insertion point. Where the closed
    /// element is a script whose source was being collected, the script
    /// is run, and the error that ended it, if any, is recorded. An end tag
    /// that matches no open element changes nothing.
    pub open spec fn end_tag(self, tag: Seq<char>) -> BuilderView {
        let b = BuilderView { text: None, ..self };
        match element_kind_of(tag) {
            Some(kind) => match nearest_open(b.nodes, b.current, kind) {
                Some(e) => {
                    let closed = BuilderView {
                        current: match b.nodes[e as int].parent {
                            Some(p) => p,
                            None => 0,
                        },
                        script: None,
                        ..b
                    };
                    if kind == ElementKind::Script && b.script is Some {
                        match script_issue(b.script->0, b.nodes) {
                            Some(issue) => closed.with_issue(IssueView::Script(issue)),
                            None => closed,
                        }
                    } else {
                        closed
                    }
                },
                None => b,
            },
            None => b,
        }
    }

    /// What a character does. A blank while no body is open is dropped.
    /// Any other character goes to the text node that the character before
    /// it went to, or starts a new text node at the insertion point; inside
    /// a script element it is also added to the source of the script.
    pub open spec fn character(self, c: char) -> BuilderView {
        if is_blank(c) && (self.at_document() || self.current_kind() == Some(ElementKind::Html)) {
            BuilderView { text: None, ..self }
        } else {
            let noted = BuilderView {
                script: match self.script {
                    Some(source) => Some(source.push(c)),
                    None => None,
                },
                ..self
            };
            match noted.text {
                Some(t) => BuilderView { nodes: append_text(noted.nodes, t, c), ..noted },
                None => {
                    let s = noted.scaffold(None);
                    if can_append(s.nodes, s.current) {
                        BuilderView {
                            nodes: append_child(s.nodes, s.current, NodeKindView::Text(seq![c])),
                            text: Some(s.nodes.len() as usize),
                            ..s
                        }
                    } else {
                        s
                    }
                },
            }
        }
    }

    /// What the end of the input does: every open element is closed.
    pub open spec fn end_of_file(self) -> BuilderView {
        BuilderView { current: 0, text: None, script: None, ..self }
    }

    /// What one token does to the builder.
    pub open spec fn apply(self, token: HtmlTokenView) -> BuilderView {
        match token {
            HtmlTokenView::StartTag { tag, self_closing, attributes } => self.start_tag(
                tag,
                self_closing,
                attributes,
            ),
            HtmlTokenView::EndTag { tag } => self.end_tag(tag),
            HtmlTokenView::Char(c) => self.character(c),
            HtmlTokenView::Eof => self.end_of_file(),
        }
    }

    /// The builder holds a tree, and its insertion point is a node of that
    /// tree. The text node that it extends, if any, holds text and is the
    /// last child of the insertion point, which is then neither the
    /// document nor an `html` element.
    pub open spec fn wf(self) -> bool {
        &&& tree_wf(self.nodes)
        &&& self.current < self.nodes.len()
        &&& (self.text matches Some(t) ==> {
            &&& t < self.nodes.len()
            &&& self.nodes[t as int].kind is Text
            &&& self.nodes[self.current as int].last_child == Some(t)
            &&& !self.at_document()
            &&& self.current_kind() != Some(ElementKind::Html)
        })
    }
}

/// The tokenizer as the builder leaves it after a token: in raw-text mode
/// where the token has opened a script element, else as it was.
pub open spec fn after_token(t: TokenizerView, before: BuilderView, after: BuilderView) -> TokenizerView {
    if after.script is Some && before.script is None {
        t.goto(State::ScriptData)
    } else {
        t
    }
}

/// What the builder `b` has built when the tokenizer `t` has run to the
/// end of its input: every token is applied in turn, every tokenizer error
/// is recorded, and a script element puts the tokenizer into raw-text mode.
pub open spec fn construct(t: TokenizerView, b: BuilderView) -> BuilderView
    decreases
        (if t.finished { 0int } else { 1int }),
        t.remaining(),
        t.rank(),
{
    if t.finished || !t.wf() {
        b
    } else {
        let (t1, out) = t.step();
        match out {
            Some(Ok(token)) => {
                let b1 = b.apply(token);
                construct(after_token(t1, b, b1), b1)
            },
            Some(Err(e)) => construct(t1, b.with_issue(IssueView::Tokenizer(e))),
            None => construct(t1, b),
        }
    }
}


/// What one call of the tokenizer contributes to the construction: the
/// construction from `t` on is the construction from where the call leaves
/// the tokenizer, with the builder that has taken in what the call handed
/// out.
pub proof fn lemma_construct_run(t: TokenizerView, b: BuilderView)
    requires
        t.wf(),
    ensures
        construct(t, b) == match t.run().1 {
            Some(Ok(token)) => construct(
                after_token(t.run().0, b, b.apply(token)),
                b.apply(token),
            ),
            Some(Err(e)) => construct(t.run().0, b.with_issue(IssueView::Tokenizer(e))),
            None => b,
        },
    decreases
        (if t.finished { 0int } else { 1int }),
        t.remaining(),
        t.rank(),
{
    if !t.finished {
        t.lemma_step();
        let (t1, out) = t.step();
        if out is None {
            lemma_construct_run(t1, b);
        }
    }
}

/// A start tag of unknown name is recorded and changes nothing else: the
/// tree and the insertion point stay as they were, and construction goes
/// on with the next token.
pub proof fn lemma_unknown_element_is_skipped(
    b: BuilderView,
    tag: Seq<char>,
    self_closing: bool,
    attributes: Seq<AttributeView>,
)
    requires
        element_kind_of(tag) is None,
    ensures
        b.start_tag(tag, self_closing, attributes) == (BuilderView {
            text: None,
            issues: b.issues.push(IssueView::UnrecognizedElement(tag)),
            ..b
        }),
{
}

/// No token takes a node out of the tree or changes what an element is: a
/// node that is in the tree stays at its index, an element stays the
/// element it was, and text only grows.
pub proof fn lemma_apply_keeps_nodes(b: BuilderView, token: HtmlTokenView, i: int)
    requires
        b.wf(),
        0 <= i < b.nodes.len(),
    ensures
        i < b.apply(token).nodes.len(),
        b.nodes[i].kind is Document ==> b.apply(token).nodes[i].kind is Document,
        b.nodes[i].kind is Element ==> b.apply(token).nodes[i].kind == b.nodes[i].kind,
        b.nodes[i].kind is Text ==> b.apply(token).nodes[i].kind is Text,
        b.apply(token).nodes[i].parent == b.nodes[i].parent,
{
    let cleared = BuilderView { text: None, ..b };
    match token {
        HtmlTokenView::StartTag { tag, self_closing, attributes } => {
            match element_kind_of(tag) {
                Some(kind) => {
                    lemma_scaffold_keeps_nodes(cleared, Some(kind), i);
                    let s = cleared.scaffold(Some(kind));
                    lemma_scaffold_wf(cleared, Some(kind));
                    lemma_append_child_wf(
                        s.nodes,
                        s.current,
                        NodeKindView::Element(ElementView { kind, attributes }),
                    );
                },
                None => {},
            }
        },
        HtmlTokenView::EndTag { tag } => {},
        HtmlTokenView::Char(c) => {
            if !(is_blank(c) && (b.at_document() || b.current_kind() == Some(ElementKind::Html))) {
                let noted = BuilderView {
                    script: match b.script {
                        Some(source) => Some(source.push(c)),
                        None => None,
                    },
                    ..b
                };
                match noted.text {
                    Some(t) => {},
                    None => {
                        lemma_scaffold_keeps_nodes(noted, None, i);
                        lemma_scaffold_wf(noted, None);
                        let s = noted.scaffold(None);
                        lemma_append_child_wf(s.nodes, s.current, NodeKindView::Text(seq![c]));
                    },
                }
            }
        },
        HtmlTokenView::Eof => {},
    }
}

proof fn lemma_scaffold_keeps_nodes(b: BuilderView, kind: Option<ElementKind>, i: int)
    requires
        b.wf(),
        0 <= i < b.nodes.len(),
    ensures
        i < b.scaffold(kind).nodes.len(),
        b.scaffold(kind).nodes[i].kind == b.nodes[i].kind,
        b.scaffold(kind).nodes[i].parent == b.nodes[i].parent,
{
    lemma_append_child_wf(b.nodes, b.current, BuilderView::bare(ElementKind::Html));
    let a = if b.at_document() && kind != Some(ElementKind::Html) {
        b.descend(BuilderView::bare(ElementKind::Html))
    } else {
        b
    };
    lemma_append_child_wf(a.nodes, a.current, BuilderView::bare(ElementKind::Body));
}

/// Consecutive characters go into one text node: a character behind one
/// that went into the tree extends the text node of that one.
pub proof fn lemma_characters_coalesce(b: BuilderView, first: char, second: char)
    requires
        b.wf(),
        b.character(first).text is Some,
    ensures
        b.character(first).character(second).nodes == append_text(
            b.character(first).nodes,
            b.character(first).text->0,
            second,
        ),
        b.character(first).character(second).text == b.character(first).text,
        b.character(first).character(second).current == b.character(first).current,
{
    lemma_apply_wf(b, HtmlTokenView::Char(first));
}

/// Making the builder ready for content keeps it well formed.
pub proof fn lemma_scaffold_wf(b: BuilderView, kind: Option<ElementKind>)
    requires
        b.wf(),
    ensures
        b.scaffold(kind).wf(),
{
    lemma_append_child_wf(b.nodes, b.current, BuilderView::bare(ElementKind::Html));
    let a = if b.at_document() && kind != Some(ElementKind::Html) {
        b.descend(BuilderView::bare(ElementKind::Html))
    } else {
        b
    };
    lemma_append_child_wf(a.nodes, a.current, BuilderView::bare(ElementKind::Body));
}

/// The nearest open element of a kind is a node of the tree.
pub proof fn lemma_nearest_open(nodes: Seq<NodeView>, from: usize, kind: ElementKind)
    ensures
        nearest_open(nodes, from, kind) matches Some(e) ==> e < nodes.len() && e <= from,
    decreases from,
{
    if from < nodes.len() {
        if !(nodes[from as int].kind matches NodeKindView::Element(e) && e.kind == kind) {
            match nodes[from as int].parent {
                Some(p) => if p < from {
                    lemma_nearest_open(nodes, p, kind);
                },
                None => {},
            }
        }
    }
}

/// Every token leaves a well-formed builder well formed: the tree stays a
/// tree whatever the input holds.
pub proof fn lemma_apply_wf(b: BuilderView, token: HtmlTokenView)
    requires
        b.wf(),
    ensures
        b.apply(token).wf(),
{
    let cleared = BuilderView { text: None, ..b };
    match token {
        HtmlTokenView::StartTag { tag, self_closing, attributes } => {
            match element_kind_of(tag) {
                Some(kind) => {
                    lemma_scaffold_wf(cleared, Some(kind));
                    let s = cleared.scaffold(Some(kind));
                    lemma_append_child_wf(
                        s.nodes,
                        s.current,
                        NodeKindView::Element(ElementView { kind, attributes }),
                    );
                },
                None => {},
            }
        },
        HtmlTokenView::EndTag { tag } => {
            match element_kind_of(tag) {
                Some(kind) => {
                    lemma_nearest_open(cleared.nodes, cleared.current, kind);
                    match nearest_open(cleared.nodes, cleared.current, kind) {
                        Some(e) => {
                            assert(crate::renderer::dom::node::node_wf(cleared.nodes, e as int));
                        },
                        None => {},
                    }
                },
                None => {},
            }
        },
        HtmlTokenView::Char(c) => {
            if !(is_blank(c) && (b.at_document() || b.current_kind() == Some(ElementKind::Html))) {
                let noted = BuilderView {
                    script: match b.script {
                        Some(source) => Some(source.push(c)),
                        None => None,
                    },
                    ..b
                };
                match noted.text {
                    Some(t) => {
                        lemma_append_text_wf(noted.nodes, t, c);
                    },
                    None => {
                        lemma_scaffold_wf(noted, None);
                        let s = noted.scaffold(None);
                        lemma_append_child_wf(s.nodes, s.current, NodeKindView::Text(seq![c]));
                    },
                }
            }
        },
        HtmlTokenView::Eof => {},
    }
}

/// Construction from a well-formed builder ends with a well-formed builder.
pub proof fn lemma_construct_wf(t: TokenizerView, b: BuilderView)
    requires
        b.wf(),
    ensures
        construct(t, b).wf(),
    decreases
        (if t.finished { 0int } else { 1int }),
        t.remaining(),
        t.rank(),
{
    if !(t.finished || !t.wf()) {
        t.lemma_step();
        let (t1, out) = t.step();
        match out {
            Some(Ok(token)) => {
                lemma_apply_wf(b, token);
                let b1 = b.apply(token);
                lemma_construct_wf(after_token(t1, b, b1), b1);
            },
            Some(Err(e)) => {
                lemma_construct_wf(t1, b.with_issue(IssueView::Tokenizer(e)));
            },
            None => {
                lemma_construct_wf(t1, b);
            },
        }
    }
}

#[derive(Debug)]
pub struct HtmlParser {
    window: Window,
    t: HtmlTokenizer,
    current: usize,
    text: Option<usize>,
    script: Option<Vec<char>>,
    issues: Vec<Issue>,
}

impl HtmlParser {
    /// A tree builder that will read its tokens from `t`.
    pub fn new(t: HtmlTokenizer) -> (p: Self)
        ensures
            p.tokenizer() == t@,
            p.builder() == BuilderView::initial(),
    {
        let p = Self {
            window: Window::new(),
            t,
            current: 0,
            text: None,
            script: None,
            issues: Vec::new(),
        };
        assert(p.builder().issues =~= Seq::empty());
        p
    }

    /// The state of the tokenizer that the builder reads from.
    pub closed spec fn tokenizer(&self) -> TokenizerView {
        self.t@
    }

    /// The state of the builder.
    pub closed spec fn builder(&self) -> BuilderView {
        BuilderView {
            nodes: self.window@,
            current: self.current,
            text: self.text,
            script: match self.script {
                Some(source) => Some(source@),
                None => None,
            },
            issues: issues_view(self.issues@),
        }
    }

    /// What could not be used so far, in the order met.
    pub fn issues(&self) -> (r: &Vec<Issue>)
        ensures
            issues_view(r@) == self.builder().issues,
    {
        &self.issues
    }

    /// Moves what could not be used so far into `into`, which it replaces.
    pub fn take_issues(&mut self, into: &mut Vec<Issue>)
        ensures
            issues_view(final(into)@) == old(self).builder().issues,
            final(self).builder() == (BuilderView {
                issues: issues_view(old(into)@),
                ..old(self).builder()
            }),
            final(self).tokenizer() == old(self).tokenizer(),
    {
        core::mem::swap(&mut self.issues, into);
    }

    fn record(&mut self, issue: Issue)
        ensures
            final(self).builder() == old(self).builder().with_issue(issue@),
            final(self).t == old(self).t,
    {
        let ghost before = issues_view(self.issues@);
        self.issues.push(issue);
        assert(issues_view(self.issues@) =~= before.push(issue@));
    }

    fn descend(&mut self, kind: NodeKind)
        ensures
            final(self).builder() == old(self).builder().descend(kind@),
            final(self).t == old(self).t,
    {
        match self.window.append_child(self.current, kind) {
            Some(id) => {
                self.current = id;
            },
            None => {},
        }
    }

    fn current_kind(&self) -> (r: Option<ElementKind>)
        ensures
            r == self.builder().current_kind(),
    {
        match self.window.get(self.current) {
            Some(n) => n.element_kind(),
            None => None,
        }
    }

    fn at_document(&self) -> (r: bool)
        ensures
            r == self.builder().at_document(),
    {
        match self.window.get(self.current) {
            Some(n) => n.is_document(),
            None => false,
        }
    }

    fn is_kind(kind: &Option<ElementKind>, other: ElementKind) -> (r: bool)
        ensures
            r == (*kind == Some(other)),
    {
        match kind {
            Some(k) => k.same(&other),
            None => false,
        }
    }

    fn bare(kind: ElementKind) -> (r: NodeKind)
        ensures
            r@ == BuilderView::bare(kind),
    {
        let attributes: Vec<Attribute> = Vec::new();
        assert(attributes_view(attributes@) =~= Seq::empty());
        NodeKind::Element(Element::of_kind(kind, attributes))
    }

    fn scaffold(&mut self, kind: Option<ElementKind>)
        ensures
            final(self).builder() == old(self).builder().scaffold(kind),
            final(self).t == old(self).t,
    {
        if self.at_document() && !Self::is_kind(&kind, ElementKind::Html) {
            self.descend(Self::bare(ElementKind::Html));
        }
        if Self::is_kind(&self.current_kind(), ElementKind::Html) && !Self::is_kind(
            &kind,
            ElementKind::Html,
        ) && !Self::is_kind(&kind, ElementKind::Head) && !Self::is_kind(&kind, ElementKind::Body) {
            self.descend(Self::bare(ElementKind::Body));
        }
    }

    fn start_tag(&mut self, tag: String, self_closing: bool, attributes: Vec<Attribute>)
        ensures
            final(self).builder() == old(self).builder().start_tag(
                tag@,
                self_closing,
                attributes_view(attributes@),
            ),
            final(self).t == old(self).t,
    {
        self.text = None;
        match Element::new(tag.as_str(), attributes) {
            Ok(element) => {
                let kind = element.kind();
                self.scaffold(Some(kind));
                let parent = self.current;
                let ghost s = self.builder();
                self.descend(NodeKind::Element(element));
                if self.current != parent {
                    if self_closing {
                        self.current = parent;
                    } else if kind.same(&ElementKind::Script) {
                        self.script = Some(Vec::new());
                    }
                }
            },
            Err(e) => {
                self.record(Issue::UnrecognizedElement(e));
            },
        }
    }

    fn nearest_open(&self, kind: ElementKind) -> (r: Option<usize>)
        ensures
            r == nearest_open(self.builder().nodes, self.builder().current, kind),
    {
        let mut from = self.current;
        loop
            invariant
                nearest_open(self.window@, from, kind) == nearest_open(
                    self.window@,
                    self.current,
                    kind,
                ),
            decreases from,
        {
            match self.window.get(from) {
                Some(n) => {
                    if Self::is_kind(&n.element_kind(), kind) {
                        return Some(from);
                    }
                    match n.parent() {
                        Some(p) => {
                            if p < from {
                                from = p;
                            } else {
                                return None;
                            }
                        },
                        None => {
                            return None;
                        },
                    }
                },
                None => {
                    return None;
                },
            }
        }
    }

    fn end_tag(&mut self, tag: String)
        ensures
            final(self).builder() == old(self).builder().end_tag(tag@),
            final(self).t == old(self).t,
    {
        self.text = None;
        let kind = match ElementKind::from_str(tag.as_str()) {
            Ok(kind) => kind,
            Err(_) => {
                return ;
            },
        };
        let e = match self.nearest_open(kind) {
            Some(e) => e,
            None => {
                return ;
            },
        };
        proof {
            lemma_nearest_open(self.window@, self.current, kind);
        }
        self.current = match self.window.node(e).parent() {
            Some(p) => p,
            None => 0,
        };
        let source = self.script.take();
        if kind.same(&ElementKind::Script) {
            match source {
                Some(source) => {
                    let mut dom = Window::new();
                    core::mem::swap(&mut dom, &mut self.window);
                    let (dom, issue) = run_script(string_of(&source), dom);
                    self.window = dom;
                    match issue {
                        Some(e) => {
                            self.record(Issue::Script(e));
                        },
                        None => {},
                    }
                },
                None => {},
            }
        }
    }

    fn character(&mut self, c: char)
        ensures
            final(self).builder() == old(self).builder().character(c),
            final(self).t == old(self).t,
    {
        if (c == ' ' || c == '\n') && (self.at_document() || Self::is_kind(
            &self.current_kind(),
            ElementKind::Html,
        )) {
            self.text = None;
            return ;
        }
        match &mut self.script {
            Some(source) => {
                source.push(c);
            },
            None => {},
        }
        match self.text {
            Some(t) => {
                self.window.append_text(t, c);
            },
            None => {
                self.scaffold(None);
                let mut text = String::new();
                crate::text::push_char(&mut text, c);
                assert(text@ =~= seq![c]);
                self.text = self.window.append_child(self.current, NodeKind::Text(text));
            },
        }
    }

    fn apply(&mut self, token: HtmlToken)
        ensures
            final(self).builder() == old(self).builder().apply(token@),
            final(self).t == old(self).t,
    {
        match token {
            HtmlToken::StartTag { tag, self_closing, attributes } => {
                self.start_tag(tag, self_closing, attributes);
            },
            HtmlToken::EndTag { tag } => {
                self.end_tag(tag);
            },
            HtmlToken::Char(c) => {
                self.character(c);
            },
            HtmlToken::Eof => {
                self.current = 0;
                self.text = None;
                self.script = None;
            },
        }
    }

    /// Reads the tokenizer to the end of its input and returns the document
    /// built from it. What could not be used on the way is kept, and can be
    /// read with [`HtmlParser::issues`].
    pub fn construct_tree(&mut self) -> (window: Window)
        ensures
            window@ == construct(old(self).tokenizer(), old(self).builder()).nodes,
            final(self).builder().issues == construct(
                old(self).tokenizer(),
                old(self).builder(),
            ).issues,
            old(self).builder().wf() ==> tree_wf(window@),
    {
        proof {
            if self.builder().wf() {
                lemma_construct_wf(self.tokenizer(), self.builder());
            }
        }
        let mut done = false;
        while !done
            invariant
                construct(self.t@, self.builder()) == construct(
                    old(self).tokenizer(),
                    old(self).builder(),
                ),
                done ==> construct(self.t@, self.builder()) == self.builder(),
                old(self).builder().wf() ==> construct(
                    old(self).tokenizer(),
                    old(self).builder(),
                ).wf(),
            decreases
                (if done { 0int } else { 1int }),
                (if self.t@.finished { 0int } else { 1int }),
                self.t@.remaining(),
                self.t@.rank(),
        {
            let ghost t0 = self.t@;
            let ghost b0 = self.builder();
            proof {
                if t0.wf() {
                    t0.lemma_run_emissions();
                    lemma_construct_run(t0, b0);
                }
            }
            match self.t.next() {
                Some(Ok(token)) => {
                    let raw = self.script.is_none();
                    self.apply(token);
                    if raw && self.script.is_some() {
                        self.t.switch_context(State::ScriptData);
                    }
                },
                Some(Err(e)) => {
                    self.record(Issue::Tokenizer(e));
                },
                None => {
                    done = true;
                },
            }
        }
        let mut window = Window::new();
        core::mem::swap(&mut window, &mut self.window);
        window
    }
}

} // verus!
