use lisp_front::ast::ASTNode;
use lisp_front::parser::Parser;
use lisp_front::parser_error::ParseError;
use lisp_front::scanner::read_str_scan;
use lisp_front::token::Token;
use lisp_front::token::TokenType;

fn parse_lisp_code(code: &str) -> Result<ASTNode, Vec<ParseError>> {
    let tokens = read_str_scan(code.to_string()).unwrap();
    let mut parser = Parser::new(tokens);
    parser.parse()
}

#[test]
fn test_simple_function_definition() {
    let code = r#"
            (def add
              (fn (x y)
                (+ x y)))
        "#;

    let result = parse_lisp_code(code);

    assert!(result.is_ok());

    let expected_ast = ASTNode::Program(vec![ASTNode::Variable(
        "add".to_string(),
        Box::new(ASTNode::FuncDef(
            vec![
                ASTNode::Symbol("x".to_string()),
                ASTNode::Symbol("y".to_string()),
            ],
            vec![ASTNode::List(vec![
                ASTNode::Symbol("+".to_string()),
                ASTNode::Symbol("x".to_string()),
                ASTNode::Symbol("y".to_string()),
            ])],
        )),
    )]);

    assert_eq!(result.unwrap(), expected_ast);
}

#[test]
fn test_function_call() {
    let code = r#"
            (add 10 20)
        "#;

    let result = parse_lisp_code(code);

    assert!(result.is_ok());

    let expected_ast = ASTNode::Program(vec![ASTNode::List(vec![
        ASTNode::Symbol("add".to_string()),
        ASTNode::Int32(10),
        ASTNode::Int32(20),
    ])]);

    assert_eq!(result.unwrap(), expected_ast);
}

#[test]
fn test_macro_call() {
    let code = r#"
            (log "Hello, World!")
        "#;

    let result = parse_lisp_code(code);

    assert!(result.is_ok());

    let expected_ast = ASTNode::Program(vec![ASTNode::List(vec![
        ASTNode::Symbol("log".to_string()),
        ASTNode::StringLiteral("Hello, World!".to_string()),
    ])]);

    assert_eq!(result.unwrap(), expected_ast);
}

#[test]
fn test_nested_expressions() {
    let code = r#"
            (def calculate (fn (a b c)
                (+ a (* b c))))
        "#;

    let result = parse_lisp_code(code);

    println!("{:?}", result);
    assert!(result.is_ok());

    let expected_ast = ASTNode::Program(vec![ASTNode::Variable(
        "calculate".to_string(),
        Box::new(ASTNode::FuncDef(
            vec![
                ASTNode::Symbol("a".to_string()),
                ASTNode::Symbol("b".to_string()),
                ASTNode::Symbol("c".to_string()),
            ],
            vec![ASTNode::List(vec![
                ASTNode::Symbol("+".to_string()),
                ASTNode::Symbol("a".to_string()),
                ASTNode::List(vec![
                    ASTNode::Symbol("*".to_string()),
                    ASTNode::Symbol("b".to_string()),
                    ASTNode::Symbol("c".to_string()),
                ]),
            ])],
        )),
    )]);

    assert_eq!(result.unwrap(), expected_ast);
}

#[test]
fn test_quote_expression() {
    let code = r#"
            '(1 2 3)
        "#;

    let result = parse_lisp_code(code);

    assert!(result.is_ok());

    let expected_ast = ASTNode::Program(vec![ASTNode::Quote(Box::new(ASTNode::List(vec![
        ASTNode::Int32(1),
        ASTNode::Int32(2),
        ASTNode::Int32(3),
    ])))]);

    assert_eq!(result.unwrap(), expected_ast);
}

#[test]
fn test_parsing_errors() {
    let code = r#"
            (def incomplete-fn (fn (x y)
                (+ x y)
        "#;

    let result = parse_lisp_code(code);

    assert!(result.is_err());

    let errors = result.unwrap_err();

    assert_eq!(errors.len(), 1);
    assert!(errors[0]
        .message
        .contains("Expected ')' to close function body"));
}

#[test]
fn test_empty_program() {
    let result = parse_lisp_code("");
    assert!(result.is_ok());
    assert_eq!(result.unwrap(), ASTNode::Program(vec![]));
}

#[test]
fn test_def_bare_value() {
    let result = parse_lisp_code("(def x 10)");
    assert!(result.is_ok());
    let expected = ASTNode::Program(vec![ASTNode::Variable(
        "x".to_string(),
        Box::new(ASTNode::Int32(10)),
    )]);
    assert_eq!(result.unwrap(), expected);
}

#[test]
fn test_atoms_parse_to_literal_nodes() {
    let result = parse_lisp_code("(vals 3.5 #t #\\z :key \"s\")");
    assert!(result.is_ok());
    let expected = ASTNode::Program(vec![ASTNode::List(vec![
        ASTNode::Symbol("vals".to_string()),
        ASTNode::Float32("3.5".to_string()),
        ASTNode::Bool(true),
        ASTNode::Character('z'),
        ASTNode::Keyword("key".to_string()),
        ASTNode::StringLiteral("s".to_string()),
    ])]);
    assert_eq!(result.unwrap(), expected);
}

#[test]
fn test_macro_definition_registers_table_entry() {
    let tokens = read_str_scan("(macro log (msg) (println msg))".to_string()).unwrap();
    let mut parser = Parser::new(tokens);
    let result = parser.parse();

    assert!(result.is_ok());
    assert_eq!(
        result.unwrap(),
        ASTNode::Program(vec![ASTNode::MacroDef("log".to_string())])
    );

    let entry = parser.get_macro(&"log".to_string()).unwrap();
    assert_eq!(entry.name, "log".to_string());
    assert_eq!(entry.params, vec![ASTNode::Symbol("msg".to_string())]);
    assert_eq!(
        entry.body,
        vec![ASTNode::List(vec![
            ASTNode::Symbol("println".to_string()),
            ASTNode::Symbol("msg".to_string()),
        ])]
    );
}

#[test]
fn test_macro_first_definition_wins() {
    let tokens = read_str_scan("(macro m (a) a) (macro m (a) (+ a 1))".to_string()).unwrap();
    let mut parser = Parser::new(tokens);
    let result = parser.parse();

    assert!(result.is_ok());
    assert_eq!(
        result.unwrap(),
        ASTNode::Program(vec![
            ASTNode::MacroDef("m".to_string()),
            ASTNode::MacroDef("m".to_string()),
        ])
    );

    let entry = parser.get_macro(&"m".to_string()).unwrap();
    assert_eq!(entry.params, vec![ASTNode::Symbol("a".to_string())]);
    assert_eq!(entry.body, vec![ASTNode::Symbol("a".to_string())]);
}

#[test]
fn test_macro_missing_arg_list() {
    let result = parse_lisp_code("(macro m x)");
    assert!(result.is_err());
    let errors = result.unwrap_err();
    assert!(errors[0]
        .message
        .contains("Expected '(' to start argument list"));
}

#[test]
fn test_macro_unclosed_arg_list() {
    let result = parse_lisp_code("(macro m (x");
    assert!(result.is_err());
    let errors = result.unwrap_err();
    assert_eq!(errors.len(), 1);
    assert!(errors[0]
        .message
        .contains("Expected ')' to close argument list"));
}

#[test]
fn test_macro_unclosed_body() {
    let result = parse_lisp_code("(macro m (x) y");
    assert!(result.is_err());
    let errors = result.unwrap_err();
    assert_eq!(errors.len(), 1);
    assert!(errors[0].message.contains("Expected ')' to close macro body"));
}

#[test]
fn test_def_expects_fn_after_paren() {
    let result = parse_lisp_code("(def f (10))");
    assert!(result.is_err());
    let errors = result.unwrap_err();
    assert!(errors[0].message.contains("Expected 'fn' after '('"));
}

#[test]
fn test_def_expects_symbol_name() {
    let result = parse_lisp_code("(def 5)");
    assert!(result.is_err());
    let errors = result.unwrap_err();
    assert!(errors[0].message.contains("Expected symbol"));
}

#[test]
fn test_stray_right_paren_is_unexpected_token() {
    let result = parse_lisp_code(")");
    assert!(result.is_err());
    let errors = result.unwrap_err();
    assert_eq!(errors.len(), 1);
    assert!(errors[0].message.contains("Unexpected token"));
}

#[test]
fn test_unclosed_list() {
    let result = parse_lisp_code("(a b");
    assert!(result.is_err());
    let errors = result.unwrap_err();
    assert_eq!(errors.len(), 1);
    assert!(errors[0].message.contains("Expected ')' at the end of list"));
}

#[test]
fn test_keyword_quote_wraps_expression_in_list() {
    let result = parse_lisp_code("(:quote x)");
    assert!(result.is_ok());
    let expected = ASTNode::Program(vec![ASTNode::List(vec![ASTNode::Quote(Box::new(
        ASTNode::Symbol("x".to_string()),
    ))])]);
    assert_eq!(result.unwrap(), expected);
}

#[test]
fn test_quasiquote_defers_template() {
    let tokens = vec![
        Token { token_type: TokenType::LeftParen, line: 1, column: 1 },
        Token { token_type: TokenType::Symbol("f".to_string()), line: 1, column: 2 },
        Token { token_type: TokenType::ReaderMacro("`".to_string()), line: 1, column: 4 },
        Token { token_type: TokenType::Symbol("x".to_string()), line: 1, column: 5 },
        Token { token_type: TokenType::RightParen, line: 1, column: 6 },
    ];
    let mut parser = Parser::new(tokens);
    let result = parser.parse();

    assert!(result.is_ok());
    let expected = ASTNode::Program(vec![ASTNode::List(vec![
        ASTNode::Symbol("f".to_string()),
        ASTNode::Quote(Box::new(ASTNode::MacroTemplate(0))),
    ])]);
    assert_eq!(result.unwrap(), expected);

    let template = parser.get_template(0).unwrap();
    assert_eq!(*template, ASTNode::Symbol("x".to_string()));
    assert!(parser.get_template(1).is_none());
}

#[test]
fn test_unquote_is_unsupported() {
    let tokens = vec![
        Token { token_type: TokenType::ReaderMacro(",".to_string()), line: 1, column: 1 },
        Token { token_type: TokenType::Symbol("x".to_string()), line: 1, column: 2 },
    ];
    let mut parser = Parser::new(tokens);
    let result = parser.parse();

    assert!(result.is_err());
    let errors = result.unwrap_err();
    assert!(errors[0].message.contains("Unsupported construct: unquote"));
}

#[test]
fn test_splice_is_unsupported() {
    let tokens = vec![
        Token { token_type: TokenType::ReaderMacro("@".to_string()), line: 1, column: 1 },
        Token { token_type: TokenType::Symbol("x".to_string()), line: 1, column: 2 },
    ];
    let mut parser = Parser::new(tokens);
    let result = parser.parse();

    assert!(result.is_err());
    let errors = result.unwrap_err();
    assert!(errors[0].message.contains("Unsupported construct: splice"));
}

#[test]
fn test_error_carries_token_position() {
    let result = parse_lisp_code("(def 5)");
    let errors = result.unwrap_err();
    assert_eq!(errors[0].line, 1);
    assert_eq!(errors[0].column, 7);
}

#[test]
fn test_error_at_end_of_input_is_zero_zero() {
    let result = parse_lisp_code("(a b");
    let errors = result.unwrap_err();
    assert_eq!(errors[0].line, 0);
    assert_eq!(errors[0].column, 0);
}

#[test]
fn test_errors_accumulate_across_top_level_forms() {
    let result = parse_lisp_code(") )");
    assert!(result.is_err());
    let errors = result.unwrap_err();
    assert_eq!(errors.len(), 2);
    assert!(errors[0].message.contains("Unexpected token"));
    assert!(errors[1].message.contains("Unexpected token"));
}

#[test]
fn test_parse_error_new() {
    let e = ParseError::new("boom", 3, 9);
    assert_eq!(e.message, "boom".to_string());
    assert_eq!(e.line, 3);
    assert_eq!(e.column, 9);
}
