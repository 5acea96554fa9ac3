use atomic_lang::ast::{Diag, OutputLine, Value};
use atomic_lang::environment::Environment;
use atomic_lang::executor::{execute, resolve_value, ExecOutcome};
use atomic_lang::lexer::lexer;
use atomic_lang::parser::parser;

fn run(src: &str) -> (ExecOutcome, Vec<Diag>, Vec<Diag>) {
    let lexed = lexer(src);
    let parsed = parser(&lexed.tokens);
    let outcome = execute(&parsed.ast);
    (outcome, lexed.diags, parsed.diags)
}

fn rendered(outcome: &ExecOutcome) -> Vec<String> {
    outcome.outputs.iter().map(|o| o.render()).collect()
}

#[test]
fn end_to_end_let_add_print() {
    let (outcome, lex_diags, parse_diags) = run("let x = 5\nadd x 3\nprint \"done\"");
    assert!(lex_diags.is_empty());
    assert!(parse_diags.is_empty());
    assert!(outcome.diags.is_empty());
    assert_eq!(
        rendered(&outcome),
        vec!["Variable x set to 5", "5 + 3 = 8", "done"]
    );
    assert_eq!(outcome.env.get("x"), 5);
}

#[test]
fn divide_by_zero_reports_once() {
    let (outcome, lex_diags, parse_diags) = run("divide 10 0");
    assert!(lex_diags.is_empty());
    assert!(parse_diags.is_empty());
    assert!(outcome.outputs.is_empty());
    assert_eq!(outcome.diags, vec![Diag::DivisionByZero]);
    assert_eq!(outcome.diags[0].render(), "Error: Division by zero");
}

#[test]
fn modulus_by_zero_reports_once() {
    let (outcome, _, _) = run("mod 7 0");
    assert!(outcome.outputs.is_empty());
    assert_eq!(outcome.diags, vec![Diag::ModulusByZero]);
    assert_eq!(outcome.diags[0].render(), "Error: Modulus by zero");
}

#[test]
fn execution_continues_after_zero_division() {
    let (outcome, _, _) = run("divide 10 0\nprint \"after\"");
    assert_eq!(outcome.outputs, vec![OutputLine::Text("after".to_string())]);
    assert_eq!(outcome.diags, vec![Diag::DivisionByZero]);
}

#[test]
fn undefined_variable_defaults_to_zero() {
    let (outcome, _, _) = run("add y 1");
    assert_eq!(rendered(&outcome), vec!["0 + 1 = 1"]);
    assert!(outcome.diags.is_empty());
}

#[test]
fn malformed_let_alone() {
    let (outcome, lex_diags, parse_diags) = run("let y");
    assert_eq!(lex_diags, vec![Diag::InvalidAssignment]);
    assert_eq!(parse_diags, vec![Diag::ExpectedLetOperands]);
    assert!(outcome.outputs.is_empty());
    assert_eq!(outcome.env.get("y"), 0);
}

#[test]
fn malformed_let_recovers() {
    let (outcome, lex_diags, parse_diags) = run("let y\nlet z = 4\nprint \"ok\"");
    assert_eq!(lex_diags, vec![Diag::InvalidAssignment]);
    assert_eq!(parse_diags, vec![Diag::ExpectedLetOperands]);
    assert_eq!(outcome.outputs, vec![OutputLine::Text("ok".to_string())]);
}

#[test]
fn let_sets_variable() {
    let (outcome, _, _) = run("let x = 5");
    assert_eq!(outcome.env.get("x"), 5);
    assert_eq!(rendered(&outcome), vec!["Variable x set to 5"]);
}

#[test]
fn reassignment_shadows() {
    let (outcome, _, _) = run("let x = 1\nlet x = 2\nadd x 0");
    assert_eq!(outcome.env.get("x"), 2);
    assert_eq!(
        rendered(&outcome),
        vec!["Variable x set to 1", "Variable x set to 2", "2 + 0 = 2"]
    );
}

#[test]
fn variable_persists_across_statements() {
    let (outcome, _, _) = run("let x = 7\nsubtract x 2\nadd x x");
    assert_eq!(
        rendered(&outcome),
        vec!["Variable x set to 7", "7 - 2 = 5", "7 + 7 = 14"]
    );
}

#[test]
fn resolve_value_reads_literals_and_variables() {
    let mut env = Environment::new();
    env.set("x".to_string(), 9);
    assert_eq!(resolve_value(&Value::Number(-4), &env), -4);
    assert_eq!(resolve_value(&Value::Variable("x".to_string()), &env), 9);
    assert_eq!(resolve_value(&Value::Variable("missing".to_string()), &env), 0);
}

#[test]
fn print_without_string_is_dropped() {
    let (outcome, lex_diags, parse_diags) = run("print 5\nprint \"ok\"");
    assert!(lex_diags.is_empty());
    assert_eq!(parse_diags, vec![Diag::ExpectedString]);
    assert_eq!(outcome.outputs, vec![OutputLine::Text("ok".to_string())]);
}

#[test]
fn operator_without_operands_is_dropped() {
    let (outcome, _, parse_diags) = run("add 1");
    assert_eq!(parse_diags, vec![Diag::ExpectedOperand]);
    assert!(outcome.outputs.is_empty());
}

#[test]
fn operator_with_bad_operand_is_dropped() {
    let (outcome, _, parse_diags) = run("add print 2");
    assert_eq!(parse_diags, vec![Diag::ExpectedOperand]);
    assert!(outcome.outputs.is_empty());
}
