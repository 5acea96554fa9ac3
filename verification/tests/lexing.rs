use atomic_lang::ast::{Diag, OutputLine, Token};
use atomic_lang::executor::execute;
use atomic_lang::lexer::lexer;
use atomic_lang::parser::parser;

#[test]
fn keywords_map_to_tokens() {
    let lexed = lexer("print add subtract multiply divide mod");
    assert_eq!(
        lexed.tokens,
        vec![
            Token::Print,
            Token::Add,
            Token::Subtract,
            Token::Multiply,
            Token::Divide,
            Token::Modulus,
        ]
    );
    assert!(lexed.diags.is_empty());
}

#[test]
fn multi_word_string_preserves_spacing() {
    let lexed = lexer("print \"hello world\"");
    assert_eq!(
        lexed.tokens,
        vec![Token::Print, Token::StrLit("hello world".to_string())]
    );
    let parsed = parser(&lexed.tokens);
    let outcome = execute(&parsed.ast);
    assert_eq!(
        outcome.outputs,
        vec![OutputLine::Text("hello world".to_string())]
    );
    assert_eq!(outcome.outputs[0].render(), "hello world");
}

#[test]
fn three_word_string() {
    let lexed = lexer("print \"a b c\"");
    assert_eq!(
        lexed.tokens,
        vec![Token::Print, Token::StrLit("a b c".to_string())]
    );
}

#[test]
fn unterminated_string_consumes_rest() {
    let lexed = lexer("print \"a b");
    assert_eq!(
        lexed.tokens,
        vec![Token::Print, Token::StrLit("a b".to_string())]
    );
    assert!(lexed.diags.is_empty());
}

#[test]
fn closed_first_word_string_still_scans_on() {
    let lexed = lexer("print \"done\" add 1 2");
    assert_eq!(
        lexed.tokens,
        vec![Token::Print, Token::StrLit("done\" add 1 2".to_string())]
    );
}

#[test]
fn unknown_token_reported() {
    let lexed = lexer("add 1 2\n@#!");
    assert_eq!(
        lexed.tokens,
        vec![Token::Add, Token::Number(1), Token::Number(2)]
    );
    assert_eq!(lexed.diags, vec![Diag::UnknownToken("@#!".to_string())]);
    assert_eq!(lexed.diags[0].render(), "Unknown token: @#!");
}

#[test]
fn number_words_become_numbers() {
    let lexed = lexer("42 -7 +9");
    assert_eq!(
        lexed.tokens,
        vec![Token::Number(42), Token::Number(-7), Token::Number(9)]
    );
}

#[test]
fn stray_operands_are_silently_ignored_by_parser() {
    let lexed = lexer("42 foo \"s\"");
    let parsed = parser(&lexed.tokens);
    assert!(parsed.ast.is_empty());
    assert!(parsed.diags.is_empty());
}

#[test]
fn alphabetic_word_becomes_identifier() {
    let lexed = lexer("foo");
    assert_eq!(lexed.tokens, vec![Token::Identifier("foo".to_string())]);
}

#[test]
fn let_with_identifier_and_number() {
    let lexed = lexer("let x = 5");
    assert_eq!(
        lexed.tokens,
        vec![
            Token::Let,
            Token::Identifier("x".to_string()),
            Token::Number(5),
        ]
    );
}

#[test]
fn let_with_non_numeric_value() {
    let lexed = lexer("let x = abc");
    assert_eq!(lexed.tokens, vec![Token::Let]);
    assert_eq!(lexed.diags, vec![Diag::InvalidAssignment]);
    assert_eq!(
        lexed.diags[0].render(),
        "Syntax Error: Invalid variable assignment syntax"
    );
}

#[test]
fn let_missing_equals_leaves_rest() {
    let lexed = lexer("let x 5");
    assert_eq!(lexed.tokens, vec![Token::Let, Token::Number(5)]);
    assert_eq!(lexed.diags, vec![Diag::InvalidAssignment]);
}

#[test]
fn numeric_bounds_accepted() {
    let lexed = lexer("let a = 2147483647\nlet b = -2147483648");
    assert_eq!(
        lexed.tokens,
        vec![
            Token::Let,
            Token::Identifier("a".to_string()),
            Token::Number(2147483647),
            Token::Let,
            Token::Identifier("b".to_string()),
            Token::Number(-2147483648),
        ]
    );
    assert!(lexed.diags.is_empty());
}

#[test]
fn numeric_overflow_rejected() {
    let lexed = lexer("let c = 2147483648");
    assert_eq!(lexed.tokens, vec![Token::Let]);
    assert_eq!(lexed.diags, vec![Diag::InvalidAssignment]);
}

#[test]
fn plus_signed_assignment_value() {
    let lexed = lexer("let d = +12");
    assert_eq!(
        lexed.tokens,
        vec![Token::Let, Token::Identifier("d".to_string()), Token::Number(12)]
    );
}

#[test]
fn mixed_word_is_unknown() {
    let lexed = lexer("abc123");
    assert!(lexed.tokens.is_empty());
    assert_eq!(lexed.diags, vec![Diag::UnknownToken("abc123".to_string())]);
}
