//! The data model: tokens, statement nodes, operand values, diagnostics
//! and output lines, each with a mathematical view for contracts.

use vstd::prelude::*;

verus! {

/// One lexical unit of an Atomic program.
#[derive(Debug, Clone, PartialEq, Eq)]
pub enum Token {
    Print,
    Add,
    Subtract,
    Multiply,
    Divide,
    Modulus,
    Let,
    Identifier(String),
    Number(i32),
    StrLit(String),
}

/// The view of a token: text fields become character sequences.
pub enum SpecToken {
    Print,
    Add,
    Subtract,
    Multiply,
    Divide,
    Modulus,
    Let,
    Identifier(Seq<char>),
    Number(i32),
    StrLit(Seq<char>),
}

impl DeepView for Token {
    type V = SpecToken;

    open spec fn deep_view(&self) -> SpecToken {
        match self {
            Token::Print => SpecToken::Print,
            Token::Add => SpecToken::Add,
            Token::Subtract => SpecToken::Subtract,
            Token::Multiply => SpecToken::Multiply,
            Token::Divide => SpecToken::Divide,
            Token::Modulus => SpecToken::Modulus,
            Token::Let => SpecToken::Let,
            Token::Identifier(name) => SpecToken::Identifier(name@),
            Token::Number(n) => SpecToken::Number(*n),
            Token::StrLit(text) => SpecToken::StrLit(text@),
        }
    }
}

/// An operand of an arithmetic statement: a literal or a variable name,
/// resolved only at execution time.
#[derive(Debug, Clone, PartialEq, Eq)]
pub enum Value {
    Number(i32),
    Variable(String),
}

pub enum SpecValue {
    Number(i32),
    Variable(Seq<char>),
}

impl DeepView for Value {
    type V = SpecValue;

    open spec fn deep_view(&self) -> SpecValue {
        match self {
            Value::Number(n) => SpecValue::Number(*n),
            Value::Variable(name) => SpecValue::Variable(name@),
        }
    }
}

/// One of the five binary operators.
#[derive(Debug, Clone, Copy, PartialEq, Eq, Structural)]
pub enum BinOp {
    Add,
    Subtract,
    Multiply,
    Divide,
    Modulus,
}

/// One parsed statement. The program is a sequence of these, in
/// execution order.
#[derive(Debug, Clone, PartialEq, Eq)]
pub enum AstNode {
    Print(String),
    Add(Value, Value),
    Subtract(Value, Value),
    Multiply(Value, Value),
    Divide(Value, Value),
    Modulus(Value, Value),
    Let(String, i32),
}

pub enum SpecNode {
    Print(Seq<char>),
    Add(SpecValue, SpecValue),
    Subtract(SpecValue, SpecValue),
    Multiply(SpecValue, SpecValue),
    Divide(SpecValue, SpecValue),
    Modulus(SpecValue, SpecValue),
    Let(Seq<char>, i32),
}

impl DeepView for AstNode {
    type V = SpecNode;

    open spec fn deep_view(&self) -> SpecNode {
        match self {
            AstNode::Print(text) => SpecNode::Print(text@),
            AstNode::Add(a, b) => SpecNode::Add(a.deep_view(), b.deep_view()),
            AstNode::Subtract(a, b) => SpecNode::Subtract(a.deep_view(), b.deep_view()),
            AstNode::Multiply(a, b) => SpecNode::Multiply(a.deep_view(), b.deep_view()),
            AstNode::Divide(a, b) => SpecNode::Divide(a.deep_view(), b.deep_view()),
            AstNode::Modulus(a, b) => SpecNode::Modulus(a.deep_view(), b.deep_view()),
            AstNode::Let(name, value) => SpecNode::Let(name@, *value),
        }
    }
}

/// A non-fatal error report. The pipeline never aborts: every stage
/// records a diagnostic and goes on with the rest of its input.
#[derive(Debug, Clone, PartialEq, Eq)]
pub enum Diag {
    /// The lexer saw `let` not followed by `<word> = <number>`.
    InvalidAssignment,
    /// The lexer saw a word that fits no token shape.
    UnknownToken(String),
    /// The parser saw `print` not followed by a string literal.
    ExpectedString,
    /// The parser saw `let` not followed by an identifier and a number.
    ExpectedLetOperands,
    /// The parser saw an operator whose operand is neither a number nor
    /// an identifier.
    ExpectedOperand,
    /// A division whose right operand is zero.
    DivisionByZero,
    /// A modulus whose right operand is zero.
    ModulusByZero,
}

pub enum SpecDiag {
    InvalidAssignment,
    UnknownToken(Seq<char>),
    ExpectedString,
    ExpectedLetOperands,
    ExpectedOperand,
    DivisionByZero,
    ModulusByZero,
}

impl DeepView for Diag {
    type V = SpecDiag;

    open spec fn deep_view(&self) -> SpecDiag {
        match self {
            Diag::InvalidAssignment => SpecDiag::InvalidAssignment,
            Diag::UnknownToken(word) => SpecDiag::UnknownToken(word@),
            Diag::ExpectedString => SpecDiag::ExpectedString,
            Diag::ExpectedLetOperands => SpecDiag::ExpectedLetOperands,
            Diag::ExpectedOperand => SpecDiag::ExpectedOperand,
            Diag::DivisionByZero => SpecDiag::DivisionByZero,
            Diag::ModulusByZero => SpecDiag::ModulusByZero,
        }
    }
}

/// One line the executor writes to standard output.
#[derive(Debug, Clone, PartialEq, Eq)]
pub enum OutputLine {
    /// The text of a print statement, verbatim.
    Text(String),
    /// The confirmation written by a `let` statement.
    VarSet(String, i32),
    /// The result line of an arithmetic statement: operator, resolved
    /// left and right operands, and the computed result.
    Arith(BinOp, i32, i32, i32),
}

pub enum SpecOutput {
    Text(Seq<char>),
    VarSet(Seq<char>, i32),
    Arith(BinOp, i32, i32, i32),
}

impl DeepView for OutputLine {
    type V = SpecOutput;

    open spec fn deep_view(&self) -> SpecOutput {
        match self {
            OutputLine::Text(text) => SpecOutput::Text(text@),
            OutputLine::VarSet(name, value) => SpecOutput::VarSet(name@, *value),
            OutputLine::Arith(op, left, right, result) => SpecOutput::Arith(
                *op,
                *left,
                *right,
                *result,
            ),
        }
    }
}

} // verus!
