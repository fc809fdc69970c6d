use saba_core::renderer::dom::api::get_element_by_id;
use saba_core::renderer::dom::api::get_target_element_node;
use saba_core::renderer::dom::node::Element;
use saba_core::renderer::dom::node::ElementKind;
use saba_core::renderer::dom::node::Node;
use saba_core::renderer::dom::node::NodeKind;
use saba_core::renderer::dom::node::UnrecognizedElement;
use saba_core::renderer::dom::node::Window;
use saba_core::renderer::html::attribute::Attribute;
use saba_core::renderer::html::parser::run_script;
use saba_core::renderer::html::parser::HtmlParser;
use saba_core::renderer::html::parser::Issue;
use saba_core::renderer::html::token::HtmlTokenizer;
use saba_core::renderer::html::token::State;
use saba_core::renderer::html::token::TokenizerError;
use saba_core::renderer::js::ast::ScriptParseError;
use saba_core::renderer::js::runtime::ScriptArityError;
use saba_core::renderer::js::runtime::ScriptError;
use saba_core::renderer::js::token::Token;
use saba_core::utils::convert_dom_to_string;

fn build(input: &str) -> (Window, Vec<Issue>) {
    let mut parser = HtmlParser::new(HtmlTokenizer::new(input.chars().collect()));
    let window = parser.construct_tree();
    let mut issues = Vec::new();
    parser.take_issues(&mut issues);
    (window, issues)
}

fn children(window: &Window, id: usize) -> Vec<usize> {
    let mut out = Vec::new();
    let mut next = window.node(id).first_child();
    while let Some(c) = next {
        out.push(c);
        next = window.node(c).next_sibling();
    }
    out
}

fn kind_of(window: &Window, id: usize) -> Option<ElementKind> {
    window.node(id).element_kind()
}

fn check_links(window: &Window) {
    assert!(window.node(0).is_document());
    assert_eq!(window.node(0).parent(), None);
    for id in 0..window.len() {
        let node = window.node(id);
        let kids = children(window, id);
        assert_eq!(node.first_child(), kids.first().copied());
        assert_eq!(node.last_child(), kids.last().copied());
        let mut previous = None;
        for k in &kids {
            assert_eq!(window.node(*k).parent(), Some(id));
            assert_eq!(window.node(*k).previous_sibling(), previous);
            assert!(*k > id);
            previous = Some(*k);
        }
        if id > 0 {
            let parent = node.parent().expect("every node but the document has a parent");
            assert!(children(window, parent).contains(&id));
        }
    }
}

#[test]
fn paragraph_lands_in_an_implied_body() {
    let (window, issues) = build("<p>hi</p>");
    assert!(issues.is_empty());
    check_links(&window);
    assert_eq!(window.document(), 0);
    let html = children(&window, 0);
    assert_eq!(html.len(), 1);
    assert_eq!(kind_of(&window, html[0]), Some(ElementKind::Html));
    let body = get_target_element_node(&window, Some(0), ElementKind::Body).unwrap();
    assert_eq!(children(&window, html[0]), vec![body]);
    let paragraphs = children(&window, body);
    assert_eq!(paragraphs.len(), 1);
    assert_eq!(kind_of(&window, paragraphs[0]), Some(ElementKind::P));
    let texts = children(&window, paragraphs[0]);
    assert_eq!(texts.len(), 1);
    assert_eq!(window.node(texts[0]).text(), Some("hi".to_string()));
    assert_eq!(window.len(), 5);
}

#[test]
fn full_document() {
    let (window, issues) =
        build("<html>\n<head></head>\n<body>\n<h1 id=\"t\">T</h1><p>a <a href=\"x\">b</a> c</p></body>\n</html>\n");
    assert!(issues.is_empty());
    check_links(&window);
    assert_eq!(
        convert_dom_to_string(&window, Some(0)),
        "\nDocument\n  Element(html)\n    Element(head)\n    Element(body)\n      Text(\n)\n      Element(h1)\n        Text(T)\n      Element(p)\n        Text(a )\n        Element(a)\n          Text(b)\n        Text( c)\n"
    );
}

#[test]
fn unknown_element_is_recorded_and_skipped() {
    let (window, issues) = build("<bogus><p>x</p></bogus>");
    assert_eq!(
        issues,
        vec![Issue::UnrecognizedElement(UnrecognizedElement { name: "bogus".to_string() })]
    );
    check_links(&window);
    assert_eq!(
        convert_dom_to_string(&window, Some(0)),
        "\nDocument\n  Element(html)\n    Element(body)\n      Element(p)\n        Text(x)\n"
    );
}

#[test]
fn unmatched_end_tag_is_ignored() {
    let (window, issues) = build("<p>a</h1>b</p>");
    assert!(issues.is_empty());
    assert_eq!(
        convert_dom_to_string(&window, Some(0)),
        "\nDocument\n  Element(html)\n    Element(body)\n      Element(p)\n        Text(a)\n        Text(b)\n"
    );
}

#[test]
fn end_tag_closes_the_nearest_open_element_of_its_kind() {
    let (window, _) = build("<body><p>a<a>b</p>c</body>");
    assert_eq!(
        convert_dom_to_string(&window, Some(0)),
        "\nDocument\n  Element(html)\n    Element(body)\n      Element(p)\n        Text(a)\n        Element(a)\n          Text(b)\n      Text(c)\n"
    );
}

#[test]
fn self_closing_element_takes_no_children() {
    let (window, _) = build("<body><p/>x</body>");
    assert_eq!(
        convert_dom_to_string(&window, Some(0)),
        "\nDocument\n  Element(html)\n    Element(body)\n      Element(p)\n      Text(x)\n"
    );
}

#[test]
fn open_elements_are_closed_at_the_end() {
    let (window, issues) = build("<html><body><p>x");
    assert!(issues.is_empty());
    check_links(&window);
    assert_eq!(window.len(), 5);
}

#[test]
fn tokenizer_error_is_recorded_and_construction_goes_on() {
    let (window, issues) = build("<p>a</p/>b");
    assert_eq!(
        issues,
        vec![Issue::Tokenizer(TokenizerError {
            state: State::SelfClosingStartTag,
            character: '>'
        })]
    );
    assert_eq!(
        convert_dom_to_string(&window, Some(0)),
        "\nDocument\n  Element(html)\n    Element(body)\n      Element(p)\n        Text(ab)\n"
    );
}

#[test]
fn script_text_is_raw_and_the_script_runs() {
    let (window, issues) = build("<body><script>var a = 1 < 2;</script><p>x</p></body>");
    assert_eq!(issues, Vec::<Issue>::new());
    assert_eq!(
        convert_dom_to_string(&window, Some(0)),
        "\nDocument\n  Element(html)\n    Element(body)\n      Element(script)\n        Text(var a = 1 < 2;)\n      Element(p)\n        Text(x)\n"
    );
}

#[test]
fn failing_script_is_recorded_and_the_document_completed() {
    let (window, issues) = build(
        "<body><script>function foo() { return 42; } foo(1);</script><script>1 + ;</script><script>nothing()</script><p>x</p></body>",
    );
    assert_eq!(
        issues,
        vec![
            Issue::Script(ScriptError::Arity(ScriptArityError {
                function: "foo".to_string(),
                expected: 0,
                found: 1
            })),
            Issue::Script(ScriptError::Parse(ScriptParseError { token: Token::Punctuator(';') })),
            Issue::Script(ScriptError::UnboundHostBinding("nothing".to_string())),
        ]
    );
    check_links(&window);
    let p = get_target_element_node(&window, Some(0), ElementKind::P).unwrap();
    assert_eq!(window.node(children(&window, p)[0]).text(), Some("x".to_string()));
}

#[test]
fn script_sees_the_document_built_so_far() {
    let (_, issues) = build(
        "<body><p id=\"a\">x</p><script>function f(e) { return e; } f(document.getElementById(\"a\"), 1)</script></body>",
    );
    assert_eq!(
        issues,
        vec![Issue::Script(ScriptError::Arity(ScriptArityError {
            function: "f".to_string(),
            expected: 1,
            found: 2
        }))]
    );
}

#[test]
fn run_script_gives_the_document_back() {
    let mut window = Window::new();
    let html = window.append_child(0, NodeKind::Element(Element::of_kind(ElementKind::Html, vec![])));
    assert_eq!(html, Some(1));
    let (window, issue) = run_script("1 + 1".to_string(), window);
    assert_eq!(issue, None);
    assert_eq!(window.len(), 2);
    let (_, issue) = run_script("f()".to_string(), window);
    assert_eq!(issue, Some(ScriptError::UnboundHostBinding("f".to_string())));
}

#[test]
fn blanks_between_tags_start_no_body() {
    let (window, _) = build("  \n<html> \n <head> </head>\n</html>\n");
    assert_eq!(
        convert_dom_to_string(&window, Some(0)),
        "\nDocument\n  Element(html)\n    Element(head)\n      Text( )\n"
    );
}

#[test]
fn text_alone_implies_html_and_body() {
    let (window, _) = build("hi");
    assert_eq!(
        convert_dom_to_string(&window, Some(0)),
        "\nDocument\n  Element(html)\n    Element(body)\n      Text(hi)\n"
    );
}

#[test]
fn element_knows_its_kind_and_attributes() {
    let attributes = vec![
        Attribute::new("id".to_string(), "a".to_string()),
        Attribute::new("class".to_string(), "c".to_string()),
        Attribute::new("id".to_string(), "b".to_string()),
    ];
    let element = Element::new("p", attributes.clone()).unwrap();
    assert_eq!(element.kind(), ElementKind::P);
    assert!(element.is_block_element());
    assert_eq!(element.attributes(), attributes);
    assert_eq!(element.get_attribute("id"), Some("a".to_string()));
    assert_eq!(element.get_attribute("class"), Some("c".to_string()));
    assert_eq!(element.get_attribute("href"), None);
    assert!(!Element::new("a", vec![]).unwrap().is_block_element());
    assert!(Element::new("body", vec![]).unwrap().is_block_element());
    assert!(Element::new("h1", vec![]).unwrap().is_block_element());
    assert!(Element::new("h2", vec![]).unwrap().is_block_element());
    assert!(!Element::new("html", vec![]).unwrap().is_block_element());
}

#[test]
fn element_of_unknown_name_is_an_error() {
    assert_eq!(
        Element::new("bogus", vec![]),
        Err(UnrecognizedElement { name: "bogus".to_string() })
    );
    assert_eq!(Element::new("P", vec![]), Err(UnrecognizedElement { name: "P".to_string() }));
    assert_eq!(Element::new("", vec![]), Err(UnrecognizedElement { name: "".to_string() }));
}

#[test]
fn element_kind_names_round_trip() {
    let kinds = [
        (ElementKind::Html, "html"),
        (ElementKind::Head, "head"),
        (ElementKind::Style, "style"),
        (ElementKind::Script, "script"),
        (ElementKind::Body, "body"),
        (ElementKind::P, "p"),
        (ElementKind::H1, "h1"),
        (ElementKind::H2, "h2"),
        (ElementKind::A, "a"),
    ];
    for (kind, name) in kinds {
        assert_eq!(kind.name(), name);
        assert_eq!(ElementKind::from_str(name), Ok(kind));
        assert!(kind.same(&kind));
    }
    assert!(!ElementKind::P.same(&ElementKind::A));
}

#[test]
fn node_holds_its_kind_and_links() {
    let mut node = Node::new(NodeKind::Text("t".to_string()));
    assert_eq!(node.text(), Some("t".to_string()));
    assert_eq!(node.get_element(), None);
    assert_eq!(node.element_kind(), None);
    assert!(!node.is_document());
    assert_eq!(node.parent(), None);
    node.set_parent(Some(1));
    node.set_first_child(Some(2));
    node.set_last_child(Some(3));
    node.set_previous_sibling(Some(4));
    node.set_next_sibling(Some(5));
    assert_eq!(node.parent(), Some(1));
    assert_eq!(node.first_child(), Some(2));
    assert_eq!(node.last_child(), Some(3));
    assert_eq!(node.previous_sibling(), Some(4));
    assert_eq!(node.next_sibling(), Some(5));
    let copy = node.clone();
    assert_eq!(copy.next_sibling(), Some(5));
    assert!(matches!(node.kind(), NodeKind::Text(_)));
    let element = Node::new(NodeKind::Element(Element::new("a", vec![]).unwrap()));
    assert_eq!(element.element_kind(), Some(ElementKind::A));
    assert_eq!(element.get_element(), Some(Element::new("a", vec![]).unwrap()));
    assert!(element.same_kind(&Node::new(NodeKind::Element(
        Element::new("a", vec![Attribute::new("x".to_string(), "y".to_string())]).unwrap()
    ))));
    assert!(!element.same_kind(&node));
    assert!(node.same_kind(&Node::new(NodeKind::Text("other".to_string()))));
    assert!(Node::new(NodeKind::Document).same_kind(&Node::new(NodeKind::Document)));
}

#[test]
fn window_appends_children_in_order() {
    let mut window = Window::new();
    assert_eq!(window.len(), 1);
    let a = window.append_child(0, NodeKind::Element(Element::new("html", vec![]).unwrap()));
    let b = window.append_child(1, NodeKind::Text("x".to_string()));
    let c = window.append_child(1, NodeKind::Text("y".to_string()));
    assert_eq!((a, b, c), (Some(1), Some(2), Some(3)));
    assert_eq!(window.append_child(9, NodeKind::Text("z".to_string())), None);
    assert_eq!(window.append_child(1, NodeKind::Document), None);
    assert_eq!(window.len(), 4);
    check_links(&window);
    assert_eq!(children(&window, 1), vec![2, 3]);
    window.append_text(2, '!');
    window.append_text(1, '!');
    window.append_text(9, '!');
    assert_eq!(window.node(2).text(), Some("x!".to_string()));
    assert!(window.get(4).is_none());
    assert!(window.get(3).is_some());
    let copy = window.clone();
    assert_eq!(copy.len(), 4);
    assert_eq!(Window::default().len(), 1);
}

#[test]
fn queries_follow_document_order() {
    let (window, _) = build(
        "<body><p id=\"x\"><a id=\"y\">1</a></p><h1 id=\"y\">2</h1><h2 id=\"x\">3</h2></body>",
    );
    let x = get_element_by_id(&window, Some(0), "x").unwrap();
    let y = get_element_by_id(&window, Some(0), "y").unwrap();
    assert_eq!(kind_of(&window, x), Some(ElementKind::P));
    assert_eq!(kind_of(&window, y), Some(ElementKind::A));
    assert_eq!(get_element_by_id(&window, Some(0), "z"), None);
    assert_eq!(get_element_by_id(&window, None, "x"), None);
    let h1 = get_target_element_node(&window, Some(0), ElementKind::H1).unwrap();
    assert_eq!(get_element_by_id(&window, Some(h1), "y"), Some(h1));
    assert_eq!(get_target_element_node(&window, Some(0), ElementKind::Style), None);
}
