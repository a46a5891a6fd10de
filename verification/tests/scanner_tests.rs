use lisp_front::scanner::read_str_scan;
use lisp_front::token::TokenType;

#[test]
fn test_basic_symbols_and_keywords() {
    let input = "(def add (fn (x y) (+ x y)))".to_string();
    let result = read_str_scan(input);

    assert!(result.is_ok());

    let tokens = result.unwrap();
    assert_eq!(tokens.len(), 16);

    assert_eq!(tokens[0].token_type, TokenType::LeftParen);
    assert_eq!(tokens[1].token_type, TokenType::Var);
    assert_eq!(tokens[2].token_type, TokenType::Symbol("add".to_string()));
    assert_eq!(tokens[3].token_type, TokenType::LeftParen);
    assert_eq!(tokens[4].token_type, TokenType::Func);
    assert_eq!(tokens[5].token_type, TokenType::LeftParen);
    assert_eq!(tokens[6].token_type, TokenType::Symbol("x".to_string()));
    assert_eq!(tokens[7].token_type, TokenType::Symbol("y".to_string()));
    assert_eq!(tokens[8].token_type, TokenType::RightParen);
    assert_eq!(tokens[9].token_type, TokenType::LeftParen);
    assert_eq!(tokens[10].token_type, TokenType::Symbol("+".to_string()));
    assert_eq!(tokens[11].token_type, TokenType::Symbol("x".to_string()));
    assert_eq!(tokens[12].token_type, TokenType::Symbol("y".to_string()));
    assert_eq!(tokens[13].token_type, TokenType::RightParen);
    assert_eq!(tokens[14].token_type, TokenType::RightParen);
    assert_eq!(tokens[15].token_type, TokenType::RightParen);
}

#[test]
fn test_strings_and_keywords() {
    let input = r#"(def str "Hello, World!")"#.to_string();
    let result = read_str_scan(input);

    assert!(result.is_ok());

    let tokens = result.unwrap();
    assert_eq!(tokens.len(), 5);

    assert_eq!(tokens[0].token_type, TokenType::LeftParen);
    assert_eq!(tokens[1].token_type, TokenType::Var);
    assert_eq!(tokens[2].token_type, TokenType::Symbol("str".to_string()));
    assert_eq!(
        tokens[3].token_type,
        TokenType::String("Hello, World!".to_string())
    );
    assert_eq!(tokens[4].token_type, TokenType::RightParen);
}

#[test]
fn test_numbers_and_booleans() {
    let input = "(def values (list 42 3.14 #t #f))".to_string();
    let result = read_str_scan(input);

    assert!(result.is_ok());

    let tokens = result.unwrap();
    assert_eq!(tokens.len(), 11);

    assert_eq!(tokens[0].token_type, TokenType::LeftParen);
    assert_eq!(tokens[1].token_type, TokenType::Var);
    assert_eq!(tokens[2].token_type, TokenType::Symbol("values".to_string()));
    assert_eq!(tokens[3].token_type, TokenType::LeftParen);
    assert_eq!(tokens[4].token_type, TokenType::Symbol("list".to_string()));
    assert_eq!(tokens[5].token_type, TokenType::Int32(42));
    assert_eq!(tokens[6].token_type, TokenType::Float32("3.14".to_string()));
    assert_eq!(tokens[7].token_type, TokenType::Bool(true));
    assert_eq!(tokens[8].token_type, TokenType::Bool(false));
    assert_eq!(tokens[9].token_type, TokenType::RightParen);
    assert_eq!(tokens[10].token_type, TokenType::RightParen);
}

#[test]
fn test_string_with_escape_sequences() {
    let input = r#"(print "said \"d\" and then \n new line")"#.to_string();
    let result = read_str_scan(input);

    assert!(result.is_ok());

    let tokens = result.unwrap();
    assert_eq!(tokens.len(), 4);

    assert_eq!(tokens[0].token_type, TokenType::LeftParen);
    assert_eq!(tokens[1].token_type, TokenType::Symbol("print".to_string()));
    assert_eq!(
        tokens[2].token_type,
        TokenType::String("said \"d\" and then \n new line".to_string())
    );
    assert_eq!(tokens[3].token_type, TokenType::RightParen);
}

#[test]
fn test_character_literal() {
    let input = r"(def char #\a)".to_string();
    let result = read_str_scan(input);

    assert!(result.is_ok());

    let tokens = result.unwrap();
    assert_eq!(tokens.len(), 5);

    assert_eq!(tokens[0].token_type, TokenType::LeftParen);
    assert_eq!(tokens[1].token_type, TokenType::Var);
    assert_eq!(tokens[2].token_type, TokenType::Symbol("char".to_string()));
    assert_eq!(tokens[3].token_type, TokenType::Character('a'));
    assert_eq!(tokens[4].token_type, TokenType::RightParen);
}

#[test]
fn test_unterminated_string_error() {
    let input = r#"(print "Hello, World)"#.to_string();
    let result = read_str_scan(input);

    assert!(result.is_err());

    let errors = result.unwrap_err();
    assert_eq!(errors.len(), 1);
    assert!(errors[0].contains("Unterminated string"));
}

#[test]
fn test_unexpected_character_error() {
    let input = "(def x @)".to_string();
    let result = read_str_scan(input);

    assert!(result.is_err());

    let errors = result.unwrap_err();
    assert_eq!(errors.len(), 1);
    assert!(errors[0].contains("Unexpected character '@'"));
}

#[test]
fn test_macro_definition() {
    let input = "(macro log (msg) `(println ,msg))".to_string();
    let result = read_str_scan(input);

    assert!(result.is_ok());

    let tokens = result.unwrap();
    assert_eq!(tokens.len(), 13);

    assert_eq!(tokens[0].token_type, TokenType::LeftParen);
    assert_eq!(tokens[1].token_type, TokenType::Macro);
    assert_eq!(tokens[2].token_type, TokenType::Symbol("log".to_string()));
    assert_eq!(tokens[3].token_type, TokenType::LeftParen);
    assert_eq!(tokens[4].token_type, TokenType::Symbol("msg".to_string()));
    assert_eq!(tokens[5].token_type, TokenType::RightParen);
    assert_eq!(tokens[6].token_type, TokenType::Symbol("`".to_string()));
    assert_eq!(tokens[7].token_type, TokenType::LeftParen);
    assert_eq!(tokens[8].token_type, TokenType::Symbol("println".to_string()));
    assert_eq!(tokens[9].token_type, TokenType::Symbol(",".to_string()));
    assert_eq!(tokens[10].token_type, TokenType::Symbol("msg".to_string()));
    assert_eq!(tokens[11].token_type, TokenType::RightParen);
    assert_eq!(tokens[12].token_type, TokenType::RightParen);
}

#[test]
fn test_empty_input() {
    let result = read_str_scan("".to_string());
    assert!(result.is_ok());
    assert_eq!(result.unwrap().len(), 0);
}

#[test]
fn test_integer_literal() {
    let result = read_str_scan("42".to_string());
    assert!(result.is_ok());
    let tokens = result.unwrap();
    assert_eq!(tokens.len(), 1);
    assert_eq!(tokens[0].token_type, TokenType::Int32(42));
    assert_eq!(tokens[0].line, 1);
    assert_eq!(tokens[0].column, 1);
}

#[test]
fn test_float_literal() {
    let result = read_str_scan("3.5".to_string());
    assert!(result.is_ok());
    let tokens = result.unwrap();
    assert_eq!(tokens.len(), 1);
    assert_eq!(tokens[0].token_type, TokenType::Float32("3.5".to_string()));
}

#[test]
fn test_large_float_is_not_an_error() {
    let result = read_str_scan("99999999999999999999999999999999999999999.5".to_string());
    assert!(result.is_ok());
    let tokens = result.unwrap();
    assert_eq!(tokens.len(), 1);
    assert_eq!(
        tokens[0].token_type,
        TokenType::Float32("99999999999999999999999999999999999999999.5".to_string())
    );
}

#[test]
fn test_integer_overflow_error() {
    let result = read_str_scan("99999999999".to_string());
    assert!(result.is_err());
    let errors = result.unwrap_err();
    assert_eq!(errors.len(), 1);
    assert_eq!(
        errors[0],
        "Invalid integer number at line 1: number too large to fit in target type"
    );
}

#[test]
fn test_unterminated_string_exact_message() {
    let result = read_str_scan(r#"(print "Hello, World)"#.to_string());
    let errors = result.unwrap_err();
    assert_eq!(errors.len(), 1);
    assert_eq!(errors[0], "Unterminated string starting at line 1, column 8");
}

#[test]
fn test_unknown_escape_error() {
    let result = read_str_scan("\"a\\qb\"".to_string());
    assert!(result.is_err());
    let errors = result.unwrap_err();
    assert_eq!(errors.len(), 1);
    assert_eq!(errors[0], "Unknown escape sequence \\q at line 1, column 3");
}

#[test]
fn test_incomplete_escape_error() {
    let result = read_str_scan("\"a\\".to_string());
    assert!(result.is_err());
    let errors = result.unwrap_err();
    assert_eq!(errors.len(), 2);
    assert_eq!(errors[0], "Incomplete escape sequence at line 1, column 3");
    assert_eq!(errors[1], "Unterminated string starting at line 1, column 1");
}

#[test]
fn test_invalid_character_literal_error() {
    let result = read_str_scan("#\\".to_string());
    assert!(result.is_err());
    let errors = result.unwrap_err();
    assert_eq!(errors.len(), 1);
    assert_eq!(errors[0], "Invalid character literal at line 1 column 1");
}

#[test]
fn test_hash_alone_error() {
    let result = read_str_scan("#x".to_string());
    assert!(result.is_err());
    let errors = result.unwrap_err();
    assert_eq!(errors.len(), 1);
    assert!(errors[0].contains("Unexpected character '#' at line 1 column 1"));
}

#[test]
fn test_keyword_atom() {
    let result = read_str_scan(":name x".to_string());
    let tokens = result.unwrap();
    assert_eq!(tokens.len(), 2);
    assert_eq!(tokens[0].token_type, TokenType::Keyword("name".to_string()));
    assert_eq!(tokens[1].token_type, TokenType::Symbol("x".to_string()));
}

#[test]
fn test_keyword_stops_at_paren() {
    let result = read_str_scan("(:key)".to_string());
    let tokens = result.unwrap();
    assert_eq!(tokens.len(), 3);
    assert_eq!(tokens[0].token_type, TokenType::LeftParen);
    assert_eq!(tokens[1].token_type, TokenType::Keyword("key".to_string()));
    assert_eq!(tokens[2].token_type, TokenType::RightParen);
}

#[test]
fn test_one_and_two_character_operators() {
    let result = read_str_scan("!= ! == = >= > <= <".to_string());
    let tokens = result.unwrap();
    assert_eq!(tokens.len(), 8);
    assert_eq!(tokens[0].token_type, TokenType::BangEqual);
    assert_eq!(tokens[1].token_type, TokenType::Bang);
    assert_eq!(tokens[2].token_type, TokenType::Symbol("==".to_string()));
    assert_eq!(tokens[3].token_type, TokenType::Symbol("=".to_string()));
    assert_eq!(tokens[4].token_type, TokenType::Symbol(">=".to_string()));
    assert_eq!(tokens[5].token_type, TokenType::Symbol(">".to_string()));
    assert_eq!(tokens[6].token_type, TokenType::Symbol("<=".to_string()));
    assert_eq!(tokens[7].token_type, TokenType::Symbol("<".to_string()));
}

#[test]
fn test_braces_and_quote_marker() {
    let result = read_str_scan("{'x}".to_string());
    let tokens = result.unwrap();
    assert_eq!(tokens.len(), 4);
    assert_eq!(tokens[0].token_type, TokenType::LeftBrace);
    assert_eq!(tokens[1].token_type, TokenType::Quote);
    assert_eq!(tokens[2].token_type, TokenType::Symbol("x".to_string()));
    assert_eq!(tokens[3].token_type, TokenType::RightBrace);
}

#[test]
fn test_slash_and_star_are_single_symbols() {
    let result = read_str_scan("*/x".to_string());
    let tokens = result.unwrap();
    assert_eq!(tokens.len(), 3);
    assert_eq!(tokens[0].token_type, TokenType::Symbol("*".to_string()));
    assert_eq!(tokens[1].token_type, TokenType::Symbol("/".to_string()));
    assert_eq!(tokens[2].token_type, TokenType::Symbol("x".to_string()));
}

#[test]
fn test_reserved_words() {
    let result = read_str_scan("def fn macro quote true false other".to_string());
    let tokens = result.unwrap();
    assert_eq!(tokens.len(), 7);
    assert_eq!(tokens[0].token_type, TokenType::Var);
    assert_eq!(tokens[1].token_type, TokenType::Func);
    assert_eq!(tokens[2].token_type, TokenType::Macro);
    assert_eq!(tokens[3].token_type, TokenType::Quote);
    assert_eq!(tokens[4].token_type, TokenType::Bool(true));
    assert_eq!(tokens[5].token_type, TokenType::Bool(false));
    assert_eq!(tokens[6].token_type, TokenType::Symbol("other".to_string()));
}

#[test]
fn test_line_and_column_positions() {
    let result = read_str_scan("ab cd\nx".to_string());
    let tokens = result.unwrap();
    assert_eq!(tokens.len(), 3);
    assert_eq!(tokens[0].line, 1);
    assert_eq!(tokens[0].column, 1);
    assert_eq!(tokens[1].line, 1);
    assert_eq!(tokens[1].column, 4);
    assert_eq!(tokens[2].line, 2);
    assert_eq!(tokens[2].column, 1);
}

#[test]
fn test_columns_advance_inside_strings() {
    let result = read_str_scan("\"ab\" x".to_string());
    let tokens = result.unwrap();
    assert_eq!(tokens.len(), 2);
    assert_eq!(tokens[0].column, 1);
    assert_eq!(tokens[1].column, 6);
}

#[test]
fn test_multiple_independent_errors() {
    let result = read_str_scan("@ $\n99999999999".to_string());
    assert!(result.is_err());
    let errors = result.unwrap_err();
    assert_eq!(errors.len(), 3);
    assert!(errors[0].contains("Unexpected character '@' at line 1 column 1"));
    assert!(errors[1].contains("Unexpected character '$' at line 1 column 3"));
    assert!(errors[2].contains("Invalid integer number at line 2"));
}

#[test]
fn test_symbolic_identifier_with_suffix() {
    let result = read_str_scan("set! x1y".to_string());
    let tokens = result.unwrap();
    assert_eq!(tokens.len(), 2);
    assert_eq!(tokens[0].token_type, TokenType::Symbol("set!".to_string()));
    assert_eq!(tokens[1].token_type, TokenType::Symbol("x1y".to_string()));
}
