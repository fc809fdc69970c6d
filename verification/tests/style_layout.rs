use saba_core::display_item::DisplayItem;
use saba_core::error::Error;
use saba_core::http::HttpResponse;
use saba_core::renderer::css::token::CssToken;
use saba_core::renderer::css::token::CssTokenizer;
use saba_core::renderer::css::token::CssTokenizerError;
use saba_core::renderer::dom::node::Element;
use saba_core::renderer::dom::node::Node;
use saba_core::renderer::dom::node::NodeKind;
use saba_core::renderer::dom::node::Window;
use saba_core::renderer::html::parser::Issue;
use saba_core::renderer::layout::computed_style::Color;
use saba_core::renderer::layout::computed_style::ComputedStyle;
use saba_core::renderer::layout::computed_style::DisplayType;
use saba_core::renderer::layout::computed_style::FontSize;
use saba_core::renderer::layout::computed_style::TextDecoration;
use saba_core::renderer::layout::layout_object::LayoutObject;
use saba_core::renderer::layout::layout_object::LayoutObjectKind;
use saba_core::renderer::layout::layout_object::LayoutPoint;
use saba_core::renderer::layout::layout_object::LayoutSize;
use saba_core::renderer::layout::layout_view::LayoutView;
use saba_core::renderer::page::Page;

fn element(name: &str) -> Node {
    Node::new(NodeKind::Element(Element::new(name, vec![]).unwrap()))
}

#[test]
fn color_from_name() {
    let red = Color::from_name("red").unwrap();
    assert_eq!(red.code(), "#FF0000");
    assert_eq!(red.code_u32(), 0xFF0000);
    assert_eq!(Color::from_name("orange").unwrap().code_u32(), 0xFFA500);
    assert_eq!(Color::from_name("lightgray").unwrap().code_u32(), 0xD3D3D3);
    assert_eq!(Color::from_name("green").unwrap().code(), "#00FF00");
    assert_eq!(Color::from_name("white").unwrap(), Color::white());
    assert_eq!(Color::from_name("black").unwrap(), Color::black());
    assert_eq!(
        Color::from_name("pink"),
        Err(Error::UnexpectedInput("color name \"pink\" is not supported yet".to_string()))
    );
}

#[test]
fn color_from_code() {
    assert_eq!(Color::from_code("#FF0000").unwrap(), Color::from_name("red").unwrap());
    assert_eq!(Color::from_code("#008000").unwrap().code_u32(), 0x008000);
    assert_eq!(Color::from_code("#000080").unwrap().code_u32(), 128);
    assert_eq!(
        Color::from_code("FF0000"),
        Err(Error::UnexpectedInput("invalid color code FF0000".to_string()))
    );
    assert_eq!(
        Color::from_code("#FF00000"),
        Err(Error::UnexpectedInput("invalid color code #FF00000".to_string()))
    );
    assert_eq!(
        Color::from_code(""),
        Err(Error::UnexpectedInput("invalid color code ".to_string()))
    );
    assert_eq!(
        Color::from_code("#123456"),
        Err(Error::UnexpectedInput("color code \"#123456\" is not supported yet".to_string()))
    );
    assert_eq!(
        Color::from_code("#ff0000"),
        Err(Error::UnexpectedInput("color code \"#ff0000\" is not supported yet".to_string()))
    );
}

#[test]
fn white_and_black() {
    assert_eq!(Color::white().code_u32(), 0xFFFFFF);
    assert_eq!(Color::black().code_u32(), 0);
    assert!(Color::white().same(&Color::white()));
    assert!(!Color::white().same(&Color::black()));
    assert_eq!(Color::white().clone(), Color::white());
}

#[test]
fn display_type_from_name() {
    assert_eq!(DisplayType::from_str_display("block"), Ok(DisplayType::Block));
    assert_eq!(DisplayType::from_str_display("inline"), Ok(DisplayType::Inline));
    assert_eq!(DisplayType::from_str_display("none"), Ok(DisplayType::DisplayNone));
    assert_eq!(
        DisplayType::from_str_display("flex"),
        Err(Error::UnexpectedInput("display type \"flex\" is not supported yet".to_string()))
    );
    assert_eq!(
        Error::UnexpectedInput("m".to_string()).message(),
        "m"
    );
}

#[test]
fn defaults_by_node() {
    assert_eq!(DisplayType::default(&Node::new(NodeKind::Document)), DisplayType::Block);
    assert_eq!(DisplayType::default(&element("p")), DisplayType::Block);
    assert_eq!(DisplayType::default(&element("a")), DisplayType::Inline);
    assert_eq!(
        DisplayType::default(&Node::new(NodeKind::Text("t".to_string()))),
        DisplayType::Inline
    );
    assert_eq!(TextDecoration::default(&element("a")), TextDecoration::Underline);
    assert_eq!(TextDecoration::default(&element("p")), TextDecoration::NoDecoration);
    assert_eq!(FontSize::default(&element("h1")), FontSize::XXLarge);
    assert_eq!(FontSize::default(&element("h2")), FontSize::XLarge);
    assert_eq!(FontSize::default(&element("p")), FontSize::Medium);
    assert_eq!(FontSize::default(&Node::new(NodeKind::Document)), FontSize::Medium);
}

#[test]
fn style_setters_and_getters() {
    let mut style = ComputedStyle::new();
    assert!(!style.is_complete());
    assert!(!style.is_inheritable());
    style.set_background_color(Color::from_name("red").unwrap());
    style.set_color(Color::from_name("blue").unwrap());
    style.set_display(DisplayType::DisplayNone);
    style.set_height(3);
    style.set_width(-4);
    assert_eq!(style.background_color(), Color::from_name("red").unwrap());
    assert_eq!(style.color(), Color::from_name("blue").unwrap());
    assert_eq!(style.display(), DisplayType::DisplayNone);
    assert_eq!(style.height(), 3);
    assert_eq!(style.width(), -4);
    style.set_font_size_default(&element("h2"));
    assert_eq!(style.font_size(), FontSize::XLarge);
    assert_eq!(style.set_text_decoration_default(&element("a")), TextDecoration::Underline);
    assert_eq!(style.text_decoration(), TextDecoration::Underline);
    style.set_display_type_default(&element("a"));
    assert_eq!(style.display(), DisplayType::Inline);
    assert!(style.is_complete());
    assert_eq!(style.clone(), style);
    assert_eq!(ComputedStyle::default(), ComputedStyle::new());
}

#[test]
fn defaulting_without_parent() {
    let mut style = ComputedStyle::new();
    style.defaulting(&element("h1"), None);
    assert_eq!(style.background_color(), Color::white());
    assert_eq!(style.color(), Color::black());
    assert_eq!(style.display(), DisplayType::Block);
    assert_eq!(style.font_size(), FontSize::XXLarge);
    assert_eq!(style.text_decoration(), TextDecoration::NoDecoration);
    assert_eq!(style.height(), 0);
    assert_eq!(style.width(), 0);
}

#[test]
fn defaulting_inherits_what_differs_from_the_initial_value() {
    let mut parent = ComputedStyle::new();
    parent.set_background_color(Color::from_name("red").unwrap());
    parent.set_color(Color::black());
    parent.defaulting(&element("a"), None);
    assert_eq!(parent.text_decoration(), TextDecoration::Underline);

    let mut child = ComputedStyle::new();
    child.set_width(7);
    child.defaulting(&element("h2"), Some(parent.clone()));
    assert_eq!(child.background_color(), Color::from_name("red").unwrap());
    assert_eq!(child.color(), Color::black());
    assert_eq!(child.text_decoration(), TextDecoration::Underline);
    assert_eq!(child.font_size(), FontSize::XLarge);
    assert_eq!(child.display(), DisplayType::Block);
    assert_eq!(child.width(), 7);
    assert_eq!(child.height(), 0);

    let mut own = ComputedStyle::new();
    own.set_background_color(Color::from_name("blue").unwrap());
    own.defaulting(&element("p"), Some(parent));
    assert_eq!(own.background_color(), Color::from_name("blue").unwrap());
}

#[test]
fn layout_point_and_size() {
    let mut point = LayoutPoint::new(1, 2);
    assert_eq!((point.x(), point.y()), (1, 2));
    point.set_x(3);
    point.set_y(-4);
    assert_eq!(point, LayoutPoint::new(3, -4));
    let mut size = LayoutSize::new(5, 6);
    assert_eq!((size.width(), size.height()), (5, 6));
    size.set_width(7);
    size.set_height(8);
    assert_eq!(size, LayoutSize::new(7, 8));
}

#[test]
fn layout_object_starts_as_a_block_at_the_origin() {
    let mut object = LayoutObject::new(&element("p"), Some(3));
    assert_eq!(object.kind(), LayoutObjectKind::Block);
    assert!(matches!(object.node_kind(), NodeKind::Element(_)));
    assert_eq!(object.parent(), Some(3));
    assert_eq!(object.first_child(), None);
    assert_eq!(object.next_sibling(), None);
    assert_eq!(object.style(), ComputedStyle::new());
    assert_eq!(object.point(), LayoutPoint::new(0, 0));
    assert_eq!(object.size(), LayoutSize::new(0, 0));
    object.set_first_child(Some(1));
    object.set_next_sibling(Some(2));
    assert_eq!(object.first_child(), Some(1));
    assert_eq!(object.next_sibling(), Some(2));
}

#[test]
fn layout_view_finds_the_body_and_holds_no_object() {
    let mut window = Window::new();
    let view = LayoutView::new(&window, 0);
    assert_eq!(view.body(), None);
    assert!(view.root().is_none());
    window.append_child(0, NodeKind::Element(Element::new("html", vec![]).unwrap()));
    window.append_child(1, NodeKind::Element(Element::new("head", vec![]).unwrap()));
    window.append_child(1, NodeKind::Element(Element::new("body", vec![]).unwrap()));
    let view = LayoutView::new(&window, 0);
    assert_eq!(view.body(), Some(3));
    assert!(view.root().is_none());
}

#[test]
fn display_item_kinds() {
    let rect = DisplayItem::Rect {
        style: ComputedStyle::new(),
        layout_point: LayoutPoint::new(0, 0),
        layout_size: LayoutSize::new(1, 1),
    };
    let text = DisplayItem::Text {
        style: ComputedStyle::new(),
        layout_point: LayoutPoint::new(0, 0),
        text: "t".to_string(),
    };
    let img = DisplayItem::Img {
        src: "s".to_string(),
        style: ComputedStyle::new(),
        layout_point: LayoutPoint::new(0, 0),
    };
    assert!(rect.is_rect() && !rect.is_text());
    assert!(text.is_text() && !text.is_rect());
    assert!(!img.is_rect() && !img.is_text());
}

#[test]
fn css_tokens() {
    let mut tokenizer = CssTokenizer::new("p { a: \"x y\", 'z' } (.)".to_string());
    let mut tokens = Vec::new();
    while let Some(t) = tokenizer.next() {
        tokens.push(t);
    }
    assert_eq!(
        tokens,
        vec![
            Err(CssTokenizerError { character: 'p' }),
            Ok(CssToken::OpenCurly),
            Err(CssTokenizerError { character: 'a' }),
            Ok(CssToken::Colon),
            Ok(CssToken::StringToken("x y".to_string())),
            Ok(CssToken::Delim(',')),
            Ok(CssToken::StringToken("z".to_string())),
            Ok(CssToken::CloseCurly),
            Ok(CssToken::OpenParenthesis),
            Ok(CssToken::Delim('.')),
            Ok(CssToken::CloseParenthesis),
        ]
    );
}

#[test]
fn css_string_without_end() {
    let mut tokenizer = CssTokenizer::new(" \n\"open".to_string());
    assert_eq!(tokenizer.next(), Some(Ok(CssToken::StringToken("open".to_string()))));
    assert_eq!(tokenizer.next(), None);
    let mut tokenizer = CssTokenizer::new("'".to_string());
    assert_eq!(tokenizer.next(), Some(Ok(CssToken::StringToken("".to_string()))));
    assert_eq!(tokenizer.next(), None);
}

#[test]
fn page_builds_the_document_of_a_response() {
    let mut page = Page::new();
    assert!(page.frame().is_none());
    let response = HttpResponse::new(
        "HTTP/1.1".to_string(),
        200,
        "OK".to_string(),
        vec![],
        "<html><body><h1>T</h1><bogus></body></html>".to_string(),
    );
    let outline = page.receive_response(response);
    assert_eq!(
        outline,
        "\nDocument\n  Element(html)\n    Element(body)\n      Element(h1)\n        Text(T)\n"
    );
    assert_eq!(page.frame().unwrap().len(), 5);
    assert_eq!(page.issues().len(), 1);
    assert!(matches!(page.issues()[0], Issue::UnrecognizedElement(_)));
    page.set_display_items(vec![]);
    page.set_layout_view(LayoutView::new(&Window::new(), 0));
    page.set_frame(Window::new());
    assert_eq!(page.frame().unwrap().len(), 1);
    assert!(Page::default().frame().is_none());
}
