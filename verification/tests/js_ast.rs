use saba_core::renderer::js::ast::JsParser;
use saba_core::renderer::js::ast::Node;
use saba_core::renderer::js::ast::Program;
use saba_core::renderer::js::ast::ScriptParseError;
use saba_core::renderer::js::token::JsLexer;
use saba_core::renderer::js::token::Token;
use std::rc::Rc;

fn parse(input: &str) -> Result<Program, ScriptParseError> {
    let lexer = JsLexer::new(input.to_string());
    let mut parser = JsParser::new(lexer);
    parser.parse_ast()
}

fn number(n: u64) -> Option<Rc<Node>> {
    Some(Rc::new(Node::NumericLiteral(n)))
}

fn identifier(name: &str) -> Option<Rc<Node>> {
    Some(Rc::new(Node::Identifier(name.to_string())))
}

fn program_of(body: Vec<Rc<Node>>) -> Program {
    let mut program = Program::new();
    program.set_body(body);
    program
}

#[test]
fn test_empty() {
    let input = "".to_string();
    let lexer = JsLexer::new(input);
    let mut parser = JsParser::new(lexer);
    let expected = Program::new();
    assert_eq!(Ok(expected), parser.parse_ast());
}

#[test]
fn ast_test_num() {
    let input = "42".to_string();
    let lexer = JsLexer::new(input);
    let mut parser = JsParser::new(lexer);
    let mut expected = Program::new();
    let mut body = Vec::new();
    body.push(Rc::new(Node::ExpressionStatement(Some(Rc::new(
        Node::NumericLiteral(42),
    )))));
    expected.set_body(body);
    assert_eq!(Ok(expected), parser.parse_ast());
}

#[test]
fn ast_test_add_nums() {
    let input = "1 + 2".to_string();
    let lexer = JsLexer::new(input);
    let mut parser = JsParser::new(lexer);
    let mut expected = Program::new();
    let mut body = Vec::new();
    body.push(Rc::new(Node::ExpressionStatement(Some(Rc::new(
        Node::AdditiveExpression {
            operator: '+',
            left: Some(Rc::new(Node::NumericLiteral(1))),
            right: Some(Rc::new(Node::NumericLiteral(2))),
        },
    )))));
    expected.set_body(body);
    assert_eq!(Ok(expected), parser.parse_ast());
}

#[test]
fn ast_test_assign_variable() {
    let input = "var foo=\"bar\";".to_string();
    let lexer = JsLexer::new(input);
    let mut parser = JsParser::new(lexer);
    let mut expected = Program::new();
    let mut body = Vec::new();
    body.push(Rc::new(Node::VariableDeclaration {
        declarations: [Some(Rc::new(Node::VariableDeclarator {
            id: Some(Rc::new(Node::Identifier("foo".to_string()))),
            init: Some(Rc::new(Node::StringLiteral("bar".to_string()))),
        }))]
        .to_vec(),
    }));
    expected.set_body(body);
    assert_eq!(Ok(expected), parser.parse_ast());
}

#[test]
fn ast_test_add_variable_and_num() {
    let input = "var foo=42; var result=foo+1;".to_string();
    let lexer = JsLexer::new(input);
    let mut parser = JsParser::new(lexer);
    let mut expected = Program::new();
    let mut body = Vec::new();
    body.push(Rc::new(Node::VariableDeclaration {
        declarations: [Some(Rc::new(Node::VariableDeclarator {
            id: Some(Rc::new(Node::Identifier("foo".to_string()))),
            init: Some(Rc::new(Node::NumericLiteral(42))),
        }))]
        .to_vec(),
    }));
    body.push(Rc::new(Node::VariableDeclaration {
        declarations: [Some(Rc::new(Node::VariableDeclarator {
            id: Some(Rc::new(Node::Identifier("result".to_string()))),
            init: Some(Rc::new(Node::AdditiveExpression {
                operator: '+',
                left: Some(Rc::new(Node::Identifier("foo".to_string()))),
                right: Some(Rc::new(Node::NumericLiteral(1))),
            })),
        }))]
        .to_vec(),
    }));
    expected.set_body(body);
    assert_eq!(Ok(expected), parser.parse_ast());
}

#[test]
fn test_define_function() {
    let input = "function foo() { return 42; }".to_string();
    let lexer = JsLexer::new(input);
    let mut parser = JsParser::new(lexer);
    let mut expected = Program::new();
    let mut body = Vec::new();
    body.push(Rc::new(Node::FunctionDeclaration {
        id: Some(Rc::new(Node::Identifier("foo".to_string()))),
        params: [].to_vec(),
        body: Some(Rc::new(Node::BlockStatement {
            body: [Some(Rc::new(Node::ReturnStatement {
                argument: Some(Rc::new(Node::NumericLiteral(42))),
            }))]
            .to_vec(),
        })),
    }));
    expected.set_body(body);
    assert_eq!(Ok(expected), parser.parse_ast());
}

#[test]
fn test_add_function_add_num() {
    let input = "function foo() { return 42; } var result = foo() + 1;".to_string();
    let lexer = JsLexer::new(input);
    let mut parser = JsParser::new(lexer);
    let mut expected = Program::new();
    let mut body = Vec::new();
    body.push(Rc::new(Node::FunctionDeclaration {
        id: Some(Rc::new(Node::Identifier("foo".to_string()))),
        params: [].to_vec(),
        body: Some(Rc::new(Node::BlockStatement {
            body: [Some(Rc::new(Node::ReturnStatement {
                argument: Some(Rc::new(Node::NumericLiteral(42))),
            }))]
            .to_vec(),
        })),
    }));
    body.push(Rc::new(Node::VariableDeclaration {
        declarations: [Some(Rc::new(Node::VariableDeclarator {
            id: Some(Rc::new(Node::Identifier("result".to_string()))),
            init: Some(Rc::new(Node::AdditiveExpression {
                operator: '+',
                left: Some(Rc::new(Node::CallExpression {
                    callee: Some(Rc::new(Node::Identifier("foo".to_string()))),
                    arguments: [].to_vec(),
                })),
                right: Some(Rc::new(Node::NumericLiteral(1))),
            })),
        }))]
        .to_vec(),
    }));
    expected.set_body(body);
    assert_eq!(Ok(expected), parser.parse_ast());
}

#[test]
fn test_define_function_with_args() {
    let input = "function foo(a, b) { return a+b; }".to_string();
    let lexer = JsLexer::new(input);
    let mut parser = JsParser::new(lexer);
    let mut expected = Program::new();
    let mut body = Vec::new();
    body.push(Rc::new(Node::FunctionDeclaration {
        id: Some(Rc::new(Node::Identifier("foo".to_string()))),
        params: [
            Some(Rc::new(Node::Identifier("a".to_string()))),
            Some(Rc::new(Node::Identifier("b".to_string()))),
        ]
        .to_vec(),
        body: Some(Rc::new(Node::BlockStatement {
            body: [Some(Rc::new(Node::ReturnStatement {
                argument: Some(Rc::new(Node::AdditiveExpression {
                    operator: '+',
                    left: Some(Rc::new(Node::Identifier("a".to_string()))),
                    right: Some(Rc::new(Node::Identifier("b".to_string()))),
                })),
            }))]
            .to_vec(),
        })),
    }));
    expected.set_body(body);
    assert_eq!(Ok(expected), parser.parse_ast());
}

#[test]
fn additive_chain_groups_to_the_right() {
    let expected = program_of(vec![Rc::new(Node::ExpressionStatement(Some(Rc::new(
        Node::AdditiveExpression {
            operator: '+',
            left: number(1),
            right: Some(Rc::new(Node::AdditiveExpression {
                operator: '-',
                left: number(2),
                right: number(3),
            })),
        },
    ))))]);
    assert_eq!(Ok(expected), parse("1+2-3"));
}

#[test]
fn assignment_is_right_associative() {
    let expected = program_of(vec![Rc::new(Node::ExpressionStatement(Some(Rc::new(
        Node::AssignmentExpression {
            operator: '=',
            left: identifier("a"),
            right: Some(Rc::new(Node::AssignmentExpression {
                operator: '=',
                left: identifier("b"),
                right: number(1),
            })),
        },
    ))))]);
    assert_eq!(Ok(expected), parse("a = b = 1"));
}

#[test]
fn member_access_applies_from_left_to_right() {
    let expected = program_of(vec![Rc::new(Node::ExpressionStatement(Some(Rc::new(
        Node::MemberExpression {
            object: Some(Rc::new(Node::MemberExpression {
                object: identifier("a"),
                property: identifier("b"),
            })),
            property: identifier("c"),
        },
    ))))]);
    assert_eq!(Ok(expected), parse("a.b.c"));
}

#[test]
fn call_with_arguments_skips_commas() {
    let expected = program_of(vec![Rc::new(Node::ExpressionStatement(Some(Rc::new(
        Node::CallExpression {
            callee: identifier("f"),
            arguments: vec![number(1), identifier("x")],
        },
    ))))]);
    assert_eq!(Ok(expected), parse("f(1,, x,)"));
}

#[test]
fn host_binding_call_parses_as_member_callee() {
    let expected = program_of(vec![Rc::new(Node::ExpressionStatement(Some(Rc::new(
        Node::CallExpression {
            callee: Some(Rc::new(Node::MemberExpression {
                object: identifier("document"),
                property: identifier("getElementById"),
            })),
            arguments: vec![Some(Rc::new(Node::StringLiteral("target".to_string())))],
        },
    ))))]);
    assert_eq!(Ok(expected), parse("document.getElementById(\"target\")"));
}

#[test]
fn missing_operand_is_a_parse_error_with_the_token() {
    assert_eq!(
        Err(ScriptParseError { token: Token::Punctuator(';') }),
        parse("1 + ;")
    );
    assert_eq!(
        Err(ScriptParseError { token: Token::Punctuator(')') }),
        parse("var a = )")
    );
}

#[test]
fn missing_parenthesis_of_function_is_a_parse_error() {
    assert_eq!(
        Err(ScriptParseError { token: Token::Punctuator('{') }),
        parse("function foo { return 1; }")
    );
}

#[test]
fn missing_brace_of_function_is_a_parse_error() {
    assert_eq!(
        Err(ScriptParseError { token: Token::Keyword("return".to_string()) }),
        parse("function foo() return 1;")
    );
}

#[test]
fn expression_that_ends_early_has_an_absent_operand() {
    let expected = program_of(vec![Rc::new(Node::ExpressionStatement(Some(Rc::new(
        Node::AdditiveExpression { operator: '+', left: number(1), right: None },
    ))))]);
    assert_eq!(Ok(expected), parse("1 +"));
}

#[test]
fn declaration_without_initialiser() {
    let expected = program_of(vec![Rc::new(Node::VariableDeclaration {
        declarations: vec![Some(Rc::new(Node::VariableDeclarator {
            id: identifier("a"),
            init: None,
        }))],
    })]);
    assert_eq!(Ok(expected), parse("var a;"));
}

#[test]
fn node_builders_make_the_node_they_name() {
    assert_eq!(Node::new_numeric_literal(7), number(7));
    assert_eq!(Node::new_identifier("x".to_string()), identifier("x"));
    assert_eq!(
        Node::new_string_literal("s".to_string()),
        Some(Rc::new(Node::StringLiteral("s".to_string())))
    );
    assert_eq!(
        Node::new_expression_statement(number(1)),
        Some(Rc::new(Node::ExpressionStatement(number(1))))
    );
    assert_eq!(
        Node::new_additive_expression('-', number(2), number(1)),
        Some(Rc::new(Node::AdditiveExpression { operator: '-', left: number(2), right: number(1) }))
    );
    assert_eq!(
        Node::new_assignment_expression('=', identifier("a"), number(1)),
        Some(Rc::new(Node::AssignmentExpression {
            operator: '=',
            left: identifier("a"),
            right: number(1)
        }))
    );
    assert_eq!(
        Node::new_member_expression(identifier("a"), identifier("b")),
        Some(Rc::new(Node::MemberExpression { object: identifier("a"), property: identifier("b") }))
    );
    assert_eq!(
        Node::new_variable_declarator(identifier("a"), number(1)),
        Some(Rc::new(Node::VariableDeclarator { id: identifier("a"), init: number(1) }))
    );
    assert_eq!(
        Node::new_variable_declaration(vec![None]),
        Some(Rc::new(Node::VariableDeclaration { declarations: vec![None] }))
    );
    assert_eq!(
        Node::new_block_statement(vec![number(1)]),
        Some(Rc::new(Node::BlockStatement { body: vec![number(1)] }))
    );
    assert_eq!(
        Node::new_return_statement(number(1)),
        Some(Rc::new(Node::ReturnStatement { argument: number(1) }))
    );
    assert_eq!(
        Node::new_function_declaration(identifier("f"), vec![identifier("a")], None),
        Some(Rc::new(Node::FunctionDeclaration {
            id: identifier("f"),
            params: vec![identifier("a")],
            body: None
        }))
    );
    assert_eq!(
        Node::new_call_expression(identifier("f"), vec![number(1)]),
        Some(Rc::new(Node::CallExpression { callee: identifier("f"), arguments: vec![number(1)] }))
    );
}

#[test]
fn program_body_is_what_was_set() {
    let mut program = Program::default();
    assert_eq!(program.body().len(), 0);
    program.set_body(vec![Rc::new(Node::NumericLiteral(1))]);
    assert_eq!(program.body(), &vec![Rc::new(Node::NumericLiteral(1))]);
}
