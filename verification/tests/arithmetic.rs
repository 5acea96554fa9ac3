use atomic_lang::ast::{BinOp, OutputLine};
use atomic_lang::executor::execute;
use atomic_lang::lexer::lexer;
use atomic_lang::parser::parser;

fn output_lines(src: &str) -> Vec<String> {
    let lexed = lexer(src);
    let parsed = parser(&lexed.tokens);
    let outcome = execute(&parsed.ast);
    outcome.outputs.iter().map(|o| o.render()).collect()
}

#[test]
fn add_exact() {
    assert_eq!(output_lines("add 5 3"), vec!["5 + 3 = 8"]);
}

#[test]
fn subtract_negative_result() {
    assert_eq!(output_lines("subtract 3 5"), vec!["3 - 5 = -2"]);
}

#[test]
fn multiply_exact() {
    assert_eq!(output_lines("multiply 6 7"), vec!["6 * 7 = 42"]);
}

#[test]
fn divide_truncates_toward_zero() {
    assert_eq!(output_lines("divide -7 2"), vec!["-7 / 2 = -3"]);
    assert_eq!(output_lines("divide 7 -2"), vec!["7 / -2 = -3"]);
    assert_eq!(output_lines("divide -7 -2"), vec!["-7 / -2 = 3"]);
    assert_eq!(output_lines("divide 7 2"), vec!["7 / 2 = 3"]);
}

#[test]
fn modulus_sign_follows_dividend() {
    assert_eq!(output_lines("mod -7 2"), vec!["-7 % 2 = -1"]);
    assert_eq!(output_lines("mod 7 -2"), vec!["7 % -2 = 1"]);
    assert_eq!(output_lines("mod 10 4"), vec!["10 % 4 = 2"]);
}

#[test]
fn add_wraps_around() {
    assert_eq!(
        output_lines("add 2147483647 1"),
        vec!["2147483647 + 1 = -2147483648"]
    );
}

#[test]
fn subtract_wraps_around() {
    assert_eq!(
        output_lines("subtract -2147483648 1"),
        vec!["-2147483648 - 1 = 2147483647"]
    );
}

#[test]
fn multiply_wraps_around() {
    assert_eq!(output_lines("multiply 65536 65536"), vec!["65536 * 65536 = 0"]);
}

#[test]
fn divide_min_by_minus_one_wraps() {
    assert_eq!(
        output_lines("divide -2147483648 -1"),
        vec!["-2147483648 / -1 = -2147483648"]
    );
}

#[test]
fn modulus_min_by_minus_one_is_zero() {
    assert_eq!(
        output_lines("mod -2147483648 -1"),
        vec!["-2147483648 % -1 = 0"]
    );
}

#[test]
fn operands_resolved_from_variables() {
    assert_eq!(
        output_lines("let a = 10\nlet b = 4\nmod a b"),
        vec!["Variable a set to 10", "Variable b set to 4", "10 % 4 = 2"]
    );
}

#[test]
fn arith_output_structure() {
    let lexed = lexer("add 2 2");
    let parsed = parser(&lexed.tokens);
    let outcome = execute(&parsed.ast);
    assert_eq!(outcome.outputs, vec![OutputLine::Arith(BinOp::Add, 2, 2, 4)]);
}

#[test]
fn division_by_variable_holding_zero() {
    let lexed = lexer("let z = 0\ndivide 5 z");
    let parsed = parser(&lexed.tokens);
    let outcome = execute(&parsed.ast);
    assert_eq!(
        outcome.outputs,
        vec![OutputLine::VarSet("z".to_string(), 0)]
    );
    assert_eq!(outcome.diags.len(), 1);
}
