//! Rendering output lines and diagnostics as the text the interpreter
//! writes to its two channels.

use vstd::prelude::*;
use vstd::string::*;
use crate::ast::{BinOp, Diag, OutputLine, SpecDiag, SpecOutput};
use crate::numerals::i32_dec;

verus! {

/// The symbol an operator prints in its result line.
pub open spec fn op_symbol(op: BinOp) -> Seq<char> {
    match op {
        BinOp::Add => "+"@,
        BinOp::Subtract => "-"@,
        BinOp::Multiply => "*"@,
        BinOp::Divide => "/"@,
        BinOp::Modulus => "%"@,
    }
}

/// The text of one output line.
pub open spec fn render_output_spec(o: SpecOutput) -> Seq<char> {
    match o {
        SpecOutput::Text(text) => text,
        SpecOutput::VarSet(name, value) => "Variable "@ + name + " set to "@ + i32_dec(
            value as int,
        ),
        SpecOutput::Arith(op, left, right, result) => i32_dec(left as int) + " "@ + op_symbol(op)
            + " "@ + i32_dec(right as int) + " = "@ + i32_dec(result as int),
    }
}

/// The text of one diagnostic.
pub open spec fn render_diag_spec(d: SpecDiag) -> Seq<char> {
    match d {
        SpecDiag::InvalidAssignment => "Syntax Error: Invalid variable assignment syntax"@,
        SpecDiag::UnknownToken(word) => "Unknown token: "@ + word,
        SpecDiag::ExpectedString => "Syntax Error: Expected a string after 'print'"@,
        SpecDiag::ExpectedLetOperands => "Syntax Error: Expected variable name and value after 'let'"@,
        SpecDiag::ExpectedOperand => "Syntax Error: Expected a number or variable after operation"@,
        SpecDiag::DivisionByZero => "Error: Division by zero"@,
        SpecDiag::ModulusByZero => "Error: Modulus by zero"@,
    }
}

fn op_str(op: BinOp) -> (r: &'static str)
    ensures
        r@ == op_symbol(op),
{
    match op {
        BinOp::Add => "+",
        BinOp::Subtract => "-",
        BinOp::Multiply => "*",
        BinOp::Divide => "/",
        BinOp::Modulus => "%",
    }
}

impl OutputLine {
    /// The line as it is written to standard output.
    pub fn render(&self) -> (r: String)
        ensures
            r@ == render_output_spec(self.deep_view()),
    {
        match self {
            OutputLine::Text(text) => text.clone(),
            OutputLine::VarSet(name, value) => {
                let mut r = String::from_str("Variable ");
                r.append(name.as_str());
                r.append(" set to ");
                let digits = crate::numerals::i32_dec_str(*value);
                r.append(digits.as_str());
                r
            },
            OutputLine::Arith(op, left, right, result) => {
                let mut r = crate::numerals::i32_dec_str(*left);
                r.append(" ");
                r.append(op_str(*op));
                r.append(" ");
                let rd = crate::numerals::i32_dec_str(*right);
                r.append(rd.as_str());
                r.append(" = ");
                let res = crate::numerals::i32_dec_str(*result);
                r.append(res.as_str());
                r
            },
        }
    }
}

impl Diag {
    /// The message as it is written to the error channel.
    pub fn render(&self) -> (r: String)
        ensures
            r@ == render_diag_spec(self.deep_view()),
    {
        match self {
            Diag::InvalidAssignment => String::from_str(
                "Syntax Error: Invalid variable assignment syntax",
            ),
            Diag::UnknownToken(word) => {
                let mut r = String::from_str("Unknown token: ");
                r.append(word.as_str());
                r
            },
            Diag::ExpectedString => String::from_str(
                "Syntax Error: Expected a string after 'print'",
            ),
            Diag::ExpectedLetOperands => String::from_str(
                "Syntax Error: Expected variable name and value after 'let'",
            ),
            Diag::ExpectedOperand => String::from_str(
                "Syntax Error: Expected a number or variable after operation",
            ),
            Diag::DivisionByZero => String::from_str("Error: Division by zero"),
            Diag::ModulusByZero => String::from_str("Error: Modulus by zero"),
        }
    }
}

} // verus!
