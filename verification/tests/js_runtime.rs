use saba_core::renderer::dom::node::Window;
use saba_core::renderer::html::parser::HtmlParser;
use saba_core::renderer::html::token::HtmlTokenizer;
use saba_core::renderer::js::ast::JsParser;
use saba_core::renderer::js::runtime::Environment;
use saba_core::renderer::js::runtime::JsRuntime;
use saba_core::renderer::js::runtime::RuntimeValue;
use saba_core::renderer::js::runtime::ScriptArityError;
use saba_core::renderer::js::runtime::ScriptError;
use saba_core::renderer::js::token::JsLexer;

fn run(input: &str) -> Result<Vec<Option<RuntimeValue>>, ScriptError> {
    run_in(Window::new(), input)
}

fn run_in(dom: Window, input: &str) -> Result<Vec<Option<RuntimeValue>>, ScriptError> {
    let lexer = JsLexer::new(input.to_string());
    let mut parser = JsParser::new(lexer);
    let ast = parser.parse_ast().unwrap();
    let mut runtime = JsRuntime::new(dom);
    runtime.execute(&ast)
}

fn text(s: &str) -> Option<RuntimeValue> {
    Some(RuntimeValue::StringLiteral(s.to_string()))
}

#[test]
fn runtime_test_num() {
    let dom = Window::new();
    let input = "42".to_string();
    let lexer = JsLexer::new(input);
    let mut parser = JsParser::new(lexer);
    let ast = parser.parse_ast().unwrap();
    let mut runtime = JsRuntime::new(dom);
    let expected = [Some(RuntimeValue::Number(42))];
    let mut i = 0;
    for node in ast.body() {
        let result = runtime.eval(&Some(node.clone()));
        assert_eq!(Ok(expected[i].clone()), result);
        i += 1;
    }
    assert_eq!(i, 1);
}

#[test]
fn runtime_test_add_nums() {
    let dom = Window::new();
    let input = "1 + 2".to_string();
    let lexer = JsLexer::new(input);
    let mut parser = JsParser::new(lexer);
    let ast = parser.parse_ast().unwrap();
    let mut runtime = JsRuntime::new(dom);
    let expected = [Some(RuntimeValue::Number(3))];
    let mut i = 0;

    for node in ast.body() {
        let result = runtime.eval(&Some(node.clone()));
        assert_eq!(Ok(expected[i].clone()), result);
        i += 1;
    }
    assert_eq!(i, 1);
}

#[test]
fn test_sub_nums() {
    let dom = Window::new();
    let input = "2 - 1".to_string();
    let lexer = JsLexer::new(input);
    let mut parser = JsParser::new(lexer);
    let ast = parser.parse_ast().unwrap();
    let mut runtime = JsRuntime::new(dom);
    let expected = [Some(RuntimeValue::Number(1))];
    let mut i = 0;

    for node in ast.body() {
        let result = runtime.eval(&Some(node.clone()));
        assert_eq!(Ok(expected[i].clone()), result);
        i += 1;
    }
    assert_eq!(i, 1);
}

#[test]
fn runtime_test_assign_variable() {
    let dom = Window::new();
    let input = "var foo=42;".to_string();
    let lexer = JsLexer::new(input);
    let mut parser = JsParser::new(lexer);
    let ast = parser.parse_ast().unwrap();
    let mut runtime = JsRuntime::new(dom);
    let expected: [Option<RuntimeValue>; 1] = [None];
    let mut i = 0;

    for node in ast.body() {
        let result = runtime.eval(&Some(node.clone()));
        assert_eq!(Ok(expected[i].clone()), result);
        i += 1;
    }
    assert_eq!(i, 1);
}

#[test]
fn runtime_test_add_variable_and_num() {
    let dom = Window::new();
    let input = "var foo=42; foo+1".to_string();
    let lexer = JsLexer::new(input);
    let mut parser = JsParser::new(lexer);
    let ast = parser.parse_ast().unwrap();
    let mut runtime = JsRuntime::new(dom);
    let expected = [None, Some(RuntimeValue::Number(43))];
    let mut i = 0;

    for node in ast.body() {
        let result = runtime.eval(&Some(node.clone()));
        assert_eq!(Ok(expected[i].clone()), result);
        i += 1;
    }
    assert_eq!(i, 2);
}

#[test]
fn test_reassign_variable() {
    let dom = Window::new();
    let input = "var foo=42; foo=1; foo".to_string();
    let lexer = JsLexer::new(input);
    let mut parser = JsParser::new(lexer);
    let ast = parser.parse_ast().unwrap();
    let mut runtime = JsRuntime::new(dom);
    let expected = [None, None, Some(RuntimeValue::Number(1))];
    let mut i = 0;

    for node in ast.body() {
        let result = runtime.eval(&Some(node.clone()));
        assert_eq!(Ok(expected[i].clone()), result);
        i += 1;
    }
    assert_eq!(i, 3);
}

#[test]
fn execute_returns_what_each_statement_gave() {
    assert_eq!(run("42"), Ok(vec![Some(RuntimeValue::Number(42))]));
    assert_eq!(run("1 + 2"), Ok(vec![Some(RuntimeValue::Number(3))]));
    assert_eq!(run("2 - 1"), Ok(vec![Some(RuntimeValue::Number(1))]));
    assert_eq!(run("var foo=42; foo+1"), Ok(vec![None, Some(RuntimeValue::Number(43))]));
    assert_eq!(
        run("var foo=42; foo=1; foo"),
        Ok(vec![None, None, Some(RuntimeValue::Number(1))])
    );
    assert_eq!(run(""), Ok(vec![]));
}

#[test]
fn string_concatenation_reflects_right_grouping() {
    assert_eq!(run("\"a\"+1+2"), Ok(vec![text("a3")]));
    assert_eq!(run("1+2+\"a\""), Ok(vec![text("12a")]));
    assert_eq!(run("1+\"a\"+2"), Ok(vec![text("1a2")]));
}

#[test]
fn addition_of_mixed_values_concatenates_their_text() {
    assert_eq!(run("\"n=\" + 10"), Ok(vec![text("n=10")]));
    assert_eq!(run("0 + \"\""), Ok(vec![text("0")]));
    assert_eq!(run("18446744073709551615 + \"\""), Ok(vec![text("18446744073709551615")]));
}

#[test]
fn subtraction_of_mixed_values_is_zero() {
    assert_eq!(run("\"a\" - 1"), Ok(vec![Some(RuntimeValue::Number(0))]));
    assert_eq!(run("5 - \"a\""), Ok(vec![Some(RuntimeValue::Number(0))]));
}

#[test]
fn arithmetic_wraps_at_64_bits() {
    assert_eq!(run("18446744073709551615 + 1"), Ok(vec![Some(RuntimeValue::Number(0))]));
    assert_eq!(run("1 - 2"), Ok(vec![Some(RuntimeValue::Number(u64::MAX))]));
}

#[test]
fn unbound_identifier_is_its_own_name() {
    assert_eq!(run("foo"), Ok(vec![text("foo")]));
}

#[test]
fn identifier_bound_to_no_value_gives_no_value() {
    assert_eq!(run("var a; a"), Ok(vec![None, None]));
}

#[test]
fn member_expression_gives_no_value() {
    assert_eq!(run("a.b"), Ok(vec![None]));
}

#[test]
fn assignment_to_unbound_name_changes_nothing() {
    assert_eq!(run("a = 1; a"), Ok(vec![None, text("a")]));
}

#[test]
fn function_call_returns_the_returned_value() {
    assert_eq!(
        run("function foo() { return 42; } foo() + 1"),
        Ok(vec![None, Some(RuntimeValue::Number(43))])
    );
}

#[test]
fn function_can_be_called_before_its_declaration() {
    assert_eq!(
        run("var a = foo(); a; function foo() { return 7; }"),
        Ok(vec![None, Some(RuntimeValue::Number(7)), None])
    );
}

#[test]
fn arguments_are_bound_to_parameters() {
    assert_eq!(
        run("function add(a, b) { return a+b; } add(1, 2)"),
        Ok(vec![None, Some(RuntimeValue::Number(3))])
    );
}

#[test]
fn parameter_shadows_an_outer_variable() {
    assert_eq!(
        run("var a = 1; function f(a) { return a; } f(2); a"),
        Ok(vec![None, None, Some(RuntimeValue::Number(2)), Some(RuntimeValue::Number(1))])
    );
}

#[test]
fn return_ends_the_block() {
    assert_eq!(
        run("var x = 1; function f() { x = 2; return x; x = 3; } f(); x"),
        Ok(vec![None, None, Some(RuntimeValue::Number(2)), Some(RuntimeValue::Number(2))])
    );
}

#[test]
fn block_without_return_gives_no_value() {
    assert_eq!(run("function f() { 1; } f()"), Ok(vec![None, None]));
}

#[test]
fn local_declaration_does_not_leak_out_of_the_call() {
    assert_eq!(
        run("function f() { var y = 5; return y; } f(); y"),
        Ok(vec![None, Some(RuntimeValue::Number(5)), text("y")])
    );
}

#[test]
fn assignment_reaches_the_nearest_scope_that_binds_the_name() {
    assert_eq!(
        run("var x = 1; function f() { x = 2; } f(); x"),
        Ok(vec![None, None, None, Some(RuntimeValue::Number(2))])
    );
}

#[test]
fn callee_sees_the_scopes_of_its_caller() {
    assert_eq!(
        run("function g() { return v; } function f() { var v = 9; return g(); } f()"),
        Ok(vec![None, None, Some(RuntimeValue::Number(9))])
    );
}

#[test]
fn later_declaration_of_a_name_replaces_the_earlier() {
    assert_eq!(
        run("function f() { return 1; } function f() { return 2; } f()"),
        Ok(vec![None, None, Some(RuntimeValue::Number(2))])
    );
}

#[test]
fn arity_mismatch_is_an_error() {
    assert_eq!(
        run("function foo() { return 42; } foo(1)"),
        Err(ScriptError::Arity(ScriptArityError {
            function: "foo".to_string(),
            expected: 0,
            found: 1
        }))
    );
    assert_eq!(
        run("function foo(a, b) { return a; } foo(1)"),
        Err(ScriptError::Arity(ScriptArityError {
            function: "foo".to_string(),
            expected: 2,
            found: 1
        }))
    );
}

#[test]
fn call_of_an_unknown_name_is_an_error() {
    assert_eq!(run("nothing()"), Err(ScriptError::UnboundHostBinding("nothing".to_string())));
    assert_eq!(run("a.b()"), Err(ScriptError::UnboundHostBinding("a.b".to_string())));
}

#[test]
fn endless_recursion_is_an_error() {
    assert_eq!(run("function f() { return f(); } f()"), Err(ScriptError::CallDepthExceeded));
}

#[test]
fn error_ends_the_run() {
    assert_eq!(run("1; nothing(); 2"), Err(ScriptError::UnboundHostBinding("nothing".to_string())));
}

fn document_with_ids() -> Window {
    let input = "<html><body><p id=\"a\">x</p><h1 id=\"b\" id=\"c\">y</h1></body></html>";
    let mut parser = HtmlParser::new(HtmlTokenizer::new(input.chars().collect()));
    parser.construct_tree()
}

#[test]
fn element_lookup_finds_the_element() {
    let dom = document_with_ids();
    let result = run_in(dom, "document.getElementById(\"b\")");
    // document 0, html 1, body 2, p 3, text 4, h1 5
    assert_eq!(result, Ok(vec![Some(RuntimeValue::HtmlElement { object: 5, property: None })]));
}

#[test]
fn element_lookup_uses_the_first_id_attribute() {
    assert_eq!(run_in(document_with_ids(), "document.getElementById(\"c\")"), Ok(vec![None]));
}

#[test]
fn element_lookup_of_an_unknown_id_gives_no_value() {
    assert_eq!(run_in(document_with_ids(), "document.getElementById(\"zz\")"), Ok(vec![None]));
}

#[test]
fn element_lookup_takes_one_argument() {
    assert_eq!(
        run_in(document_with_ids(), "document.getElementById()"),
        Err(ScriptError::Arity(ScriptArityError {
            function: "document.getElementById".to_string(),
            expected: 1,
            found: 0
        }))
    );
}

#[test]
fn element_renders_as_a_description() {
    assert_eq!(
        run_in(document_with_ids(), "document.getElementById(\"a\") + \"!\""),
        Ok(vec![text("HtmlElement(3)!")])
    );
}

#[test]
fn runtime_value_text() {
    assert_eq!(RuntimeValue::Number(0).to_string(), "0");
    assert_eq!(RuntimeValue::Number(1203).to_string(), "1203");
    assert_eq!(RuntimeValue::StringLiteral("x y".to_string()).to_string(), "x y");
    assert_eq!(
        RuntimeValue::HtmlElement { object: 12, property: Some("id".to_string()) }.to_string(),
        "HtmlElement(12).id"
    );
}

#[test]
fn runtime_value_add_and_sub() {
    assert_eq!(RuntimeValue::Number(2).add(RuntimeValue::Number(3)), RuntimeValue::Number(5));
    assert_eq!(RuntimeValue::Number(3).sub(RuntimeValue::Number(2)), RuntimeValue::Number(1));
    assert_eq!(
        RuntimeValue::StringLiteral("a".to_string()).add(RuntimeValue::Number(3)),
        RuntimeValue::StringLiteral("a3".to_string())
    );
    assert_eq!(
        RuntimeValue::StringLiteral("a".to_string()).sub(RuntimeValue::Number(3)),
        RuntimeValue::Number(0)
    );
}

#[test]
fn environment_scopes() {
    let mut env = Environment::new();
    assert_eq!(env.get_variable("a".to_string()), None);
    assert_eq!(env.lookup("a"), None);
    env.add_variable("a".to_string(), Some(RuntimeValue::Number(1)));
    env.add_variable("b".to_string(), None);
    assert_eq!(env.get_variable("a".to_string()), Some(RuntimeValue::Number(1)));
    assert_eq!(env.lookup("b"), Some(None));
    assert_eq!(env.get_variable("b".to_string()), None);
    env.enter();
    assert_eq!(env.get_variable("a".to_string()), Some(RuntimeValue::Number(1)));
    env.add_variable("a".to_string(), Some(RuntimeValue::Number(2)));
    assert_eq!(env.get_variable("a".to_string()), Some(RuntimeValue::Number(2)));
    env.update_variable("a".to_string(), Some(RuntimeValue::Number(3)));
    assert_eq!(env.get_variable("a".to_string()), Some(RuntimeValue::Number(3)));
    env.update_variable("b".to_string(), Some(RuntimeValue::Number(4)));
    env.leave();
    assert_eq!(env.get_variable("a".to_string()), Some(RuntimeValue::Number(1)));
    assert_eq!(env.get_variable("b".to_string()), Some(RuntimeValue::Number(4)));
    env.update_variable("zz".to_string(), Some(RuntimeValue::Number(4)));
    assert_eq!(env.lookup("zz"), None);
}

#[test]
fn first_binding_of_a_name_in_a_scope_is_found() {
    let mut env = Environment::new();
    env.add_variable("a".to_string(), Some(RuntimeValue::Number(1)));
    env.add_variable("a".to_string(), Some(RuntimeValue::Number(2)));
    assert_eq!(env.get_variable("a".to_string()), Some(RuntimeValue::Number(1)));
    env.update_variable("a".to_string(), Some(RuntimeValue::Number(3)));
    assert_eq!(env.get_variable("a".to_string()), Some(RuntimeValue::Number(2)));
}

#[test]
fn default_runtime_runs_against_an_empty_document() {
    let mut runtime = JsRuntime::default();
    assert_eq!(runtime.dom().len(), 1);
    let lexer = JsLexer::new("document.getElementById(\"a\")".to_string());
    let ast = JsParser::new(lexer).parse_ast().unwrap();
    assert_eq!(runtime.execute(&ast), Ok(vec![None]));
    assert_eq!(runtime.env().lookup("a"), None);
    assert_eq!(runtime.into_dom().len(), 1);
}
