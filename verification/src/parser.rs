//! The parser: a token sequence to an ordered sequence of statement
//! nodes, one forward pass with at most two tokens of lookahead. It
//! never fails; a malformed statement is reported and dropped, and
//! parsing resumes at the next unconsumed token.

use vstd::prelude::*;
use crate::ast::{AstNode, BinOp, Diag, SpecDiag, SpecNode, SpecToken, SpecValue, Token, Value};

verus! {

/// The operand a token resolves to: a literal number or a variable
/// reference; `None` for every other token.
pub open spec fn operand_value(t: SpecToken) -> Option<SpecValue> {
    match t {
        SpecToken::Number(n) => Some(SpecValue::Number(n)),
        SpecToken::Identifier(name) => Some(SpecValue::Variable(name)),
        _ => None,
    }
}

/// The operator a token stands for, if any.
pub open spec fn op_token(t: SpecToken) -> Option<BinOp> {
    match t {
        SpecToken::Add => Some(BinOp::Add),
        SpecToken::Subtract => Some(BinOp::Subtract),
        SpecToken::Multiply => Some(BinOp::Multiply),
        SpecToken::Divide => Some(BinOp::Divide),
        SpecToken::Modulus => Some(BinOp::Modulus),
        _ => None,
    }
}

/// The statement node for one operator and its two operands.
pub open spec fn make_op_node(op: BinOp, a: SpecValue, b: SpecValue) -> SpecNode {
    match op {
        BinOp::Add => SpecNode::Add(a, b),
        BinOp::Subtract => SpecNode::Subtract(a, b),
        BinOp::Multiply => SpecNode::Multiply(a, b),
        BinOp::Divide => SpecNode::Divide(a, b),
        BinOp::Modulus => SpecNode::Modulus(a, b),
    }
}

/// The nodes and diagnostics the parser emits for a token sequence.
///
/// `print` wants a string literal next; `let` wants an identifier and
/// a number; an operator wants two operand tokens, both consumed even
/// when the first is bad. A stray operand or string at statement
/// position is skipped silently.
pub open spec fn spec_parse(toks: Seq<SpecToken>) -> (Seq<SpecNode>, Seq<SpecDiag>)
    decreases toks.len(),
{
    if toks.len() == 0 {
        (Seq::empty(), Seq::empty())
    } else {
        match toks[0] {
            SpecToken::Print => {
                if toks.len() >= 2 {
                    match toks[1] {
                        SpecToken::StrLit(text) => {
                            let r = spec_parse(toks.skip(2));
                            (seq![SpecNode::Print(text)] + r.0, r.1)
                        },
                        _ => {
                            let r = spec_parse(toks.skip(2));
                            (r.0, seq![SpecDiag::ExpectedString] + r.1)
                        },
                    }
                } else {
                    let r = spec_parse(toks.skip(1));
                    (r.0, seq![SpecDiag::ExpectedString] + r.1)
                }
            },
            SpecToken::Let => {
                if toks.len() >= 3 {
                    match (toks[1], toks[2]) {
                        (SpecToken::Identifier(name), SpecToken::Number(value)) => {
                            let r = spec_parse(toks.skip(3));
                            (seq![SpecNode::Let(name, value)] + r.0, r.1)
                        },
                        _ => {
                            let r = spec_parse(toks.skip(3));
                            (r.0, seq![SpecDiag::ExpectedLetOperands] + r.1)
                        },
                    }
                } else {
                    (Seq::empty(), seq![SpecDiag::ExpectedLetOperands])
                }
            },
            SpecToken::Add => spec_parse_op(BinOp::Add, toks.skip(1)),
            SpecToken::Subtract => spec_parse_op(BinOp::Subtract, toks.skip(1)),
            SpecToken::Multiply => spec_parse_op(BinOp::Multiply, toks.skip(1)),
            SpecToken::Divide => spec_parse_op(BinOp::Divide, toks.skip(1)),
            SpecToken::Modulus => spec_parse_op(BinOp::Modulus, toks.skip(1)),
            _ => spec_parse(toks.skip(1)),
        }
    }
}

/// Parsing just after an operator token: `rest` is what follows it.
pub open spec fn spec_parse_op(op: BinOp, rest: Seq<SpecToken>) -> (Seq<SpecNode>, Seq<SpecDiag>)
    decreases rest.len(),
{
    if rest.len() == 0 {
        (Seq::empty(), seq![SpecDiag::ExpectedOperand])
    } else if rest.len() == 1 {
        let r = spec_parse(rest.skip(1));
        (r.0, seq![SpecDiag::ExpectedOperand] + r.1)
    } else {
        match (operand_value(rest[0]), operand_value(rest[1])) {
            (Some(a), Some(b)) => {
                let r = spec_parse(rest.skip(2));
                (seq![make_op_node(op, a, b)] + r.0, r.1)
            },
            _ => {
                let r = spec_parse(rest.skip(2));
                (r.0, seq![SpecDiag::ExpectedOperand] + r.1)
            },
        }
    }
}

fn op_of(t: &Token) -> (r: Option<BinOp>)
    ensures
        r == op_token(t.deep_view()),
{
    match t {
        Token::Add => Some(BinOp::Add),
        Token::Subtract => Some(BinOp::Subtract),
        Token::Multiply => Some(BinOp::Multiply),
        Token::Divide => Some(BinOp::Divide),
        Token::Modulus => Some(BinOp::Modulus),
        _ => None,
    }
}

fn operand_of(t: &Token) -> (r: Option<Value>)
    ensures
        match r {
            Some(v) => operand_value(t.deep_view()) == Some(v.deep_view()),
            None => operand_value(t.deep_view()) is None,
        },
{
    match t {
        Token::Number(n) => Some(Value::Number(*n)),
        Token::Identifier(name) => Some(Value::Variable(name.clone())),
        _ => None,
    }
}

fn node_for(op: BinOp, a: Value, b: Value) -> (r: AstNode)
    ensures
        r.deep_view() == make_op_node(op, a.deep_view(), b.deep_view()),
{
    match op {
        BinOp::Add => AstNode::Add(a, b),
        BinOp::Subtract => AstNode::Subtract(a, b),
        BinOp::Multiply => AstNode::Multiply(a, b),
        BinOp::Divide => AstNode::Divide(a, b),
        BinOp::Modulus => AstNode::Modulus(a, b),
    }
}

/// What the parser hands on: the program and the diagnostics it
/// emitted along the way.
pub struct ParseResult {
    pub ast: Vec<AstNode>,
    pub diags: Vec<Diag>,
}

/// Parses a token sequence, exactly as `spec_parse` describes.
pub fn parser(tokens: &Vec<Token>) -> (r: ParseResult)
    ensures
        r.ast.deep_view() == spec_parse(tokens.deep_view()).0,
        r.diags.deep_view() == spec_parse(tokens.deep_view()).1,
{
    let ghost tv = tokens.deep_view();
    let mut ast: Vec<AstNode> = Vec::new();
    let mut diags: Vec<Diag> = Vec::new();
    let n = tokens.len();
    let mut i: usize = 0;
    proof {
        assert(tv.skip(0) =~= tv);
        assert(ast.deep_view() =~= Seq::<SpecNode>::empty());
        assert(diags.deep_view() =~= Seq::<SpecDiag>::empty());
        assert(Seq::<SpecNode>::empty() + spec_parse(tv).0 =~= spec_parse(tv).0);
        assert(Seq::<SpecDiag>::empty() + spec_parse(tv).1 =~= spec_parse(tv).1);
    }
    while i < n
        invariant
            tv == tokens.deep_view(),
            n == tokens.len(),
            i <= n,
            spec_parse(tv).0 == ast.deep_view() + spec_parse(tv.skip(i as int)).0,
            spec_parse(tv).1 == diags.deep_view() + spec_parse(tv.skip(i as int)).1,
        decreases n - i,
    {
        let ghost rem = tv.skip(i as int);
        let ghost adv = ast.deep_view();
        let ghost ddv = diags.deep_view();
        proof {
            assert(rem[0] == tv[i as int]);
            assert(rem.drop_first() =~= tv.skip(i as int + 1));
        }
        match op_of(&tokens[i]) {
            Some(op) => {
                proof {
                    assert(spec_parse(rem) == spec_parse_op(op, rem.drop_first()));
                }
                if i + 1 >= n {
                    diags.push(Diag::ExpectedOperand);
                    i += 1;
                    proof {
                        assert(diags.deep_view() =~= ddv.push(SpecDiag::ExpectedOperand));
                        assert(tv.skip(i as int) =~= Seq::<SpecToken>::empty());
                        assert(spec_parse(tv).1 =~= diags.deep_view() + spec_parse(
                            tv.skip(i as int),
                        ).1);
                    }
                } else if i + 2 >= n {
                    proof {
                        assert(rem.drop_first().skip(1) =~= tv.skip(i as int + 2));
                    }
                    diags.push(Diag::ExpectedOperand);
                    i += 2;
                    proof {
                        assert(diags.deep_view() =~= ddv.push(SpecDiag::ExpectedOperand));
                        assert(ddv + (seq![SpecDiag::ExpectedOperand] + spec_parse(
                            tv.skip(i as int),
                        ).1) =~= diags.deep_view() + spec_parse(tv.skip(i as int)).1);
                    }
                } else {
                    proof {
                        assert(rem.drop_first()[0] == tv[i as int + 1]);
                        assert(rem.drop_first()[1] == tv[i as int + 2]);
                        assert(rem.drop_first().skip(2) =~= tv.skip(i as int + 3));
                    }
                    let first = operand_of(&tokens[i + 1]);
                    let second = operand_of(&tokens[i + 2]);
                    match (first, second) {
                        (Some(a), Some(b)) => {
                            let ghost nv = make_op_node(op, a.deep_view(), b.deep_view());
                            ast.push(node_for(op, a, b));
                            i += 3;
                            proof {
                                assert(ast.deep_view() =~= adv.push(nv));
                                assert(adv + (seq![nv] + spec_parse(tv.skip(i as int)).0)
                                    =~= ast.deep_view() + spec_parse(tv.skip(i as int)).0);
                            }
                        },
                        _ => {
                            diags.push(Diag::ExpectedOperand);
                            i += 3;
                            proof {
                                assert(diags.deep_view() =~= ddv.push(SpecDiag::ExpectedOperand));
                                assert(ddv + (seq![SpecDiag::ExpectedOperand] + spec_parse(
                                    tv.skip(i as int),
                                ).1) =~= diags.deep_view() + spec_parse(tv.skip(i as int)).1);
                            }
                        },
                    }
                }
            },
            None => {
                match &tokens[i] {
                    Token::Print => {
                        if i + 1 < n {
                            proof {
                                assert(rem[1] == tv[i as int + 1]);
                                assert(rem.skip(2) =~= tv.skip(i as int + 2));
                            }
                            match &tokens[i + 1] {
                                Token::StrLit(text) => {
                                    let ghost nv = SpecNode::Print(text@);
                                    ast.push(AstNode::Print(text.clone()));
                                    i += 2;
                                    proof {
                                        assert(ast.deep_view() =~= adv.push(nv));
                                        assert(adv + (seq![nv] + spec_parse(tv.skip(i as int)).0)
                                            =~= ast.deep_view() + spec_parse(tv.skip(i as int)).0);
                                    }
                                },
                                _ => {
                                    diags.push(Diag::ExpectedString);
                                    i += 2;
                                    proof {
                                        assert(diags.deep_view() =~= ddv.push(
                                            SpecDiag::ExpectedString,
                                        ));
                                        assert(ddv + (seq![SpecDiag::ExpectedString] + spec_parse(
                                            tv.skip(i as int),
                                        ).1) =~= diags.deep_view() + spec_parse(
                                            tv.skip(i as int),
                                        ).1);
                                    }
                                },
                            }
                        } else {
                            diags.push(Diag::ExpectedString);
                            i += 1;
                            proof {
                                assert(diags.deep_view() =~= ddv.push(SpecDiag::ExpectedString));
                                assert(ddv + (seq![SpecDiag::ExpectedString] + spec_parse(
                                    tv.skip(i as int),
                                ).1) =~= diags.deep_view() + spec_parse(tv.skip(i as int)).1);
                            }
                        }
                    },
                    Token::Let => {
                        if n - i > 2 {
                            proof {
                                assert(rem[1] == tv[i as int + 1]);
                                assert(rem[2] == tv[i as int + 2]);
                                assert(rem.skip(3) =~= tv.skip(i as int + 3));
                            }
                            let shapes_ok = matches!(&tokens[i + 1], Token::Identifier(_))
                                && matches!(&tokens[i + 2], Token::Number(_));
                            if shapes_ok {
                                let name = match &tokens[i + 1] {
                                    Token::Identifier(name) => name.clone(),
                                    _ => String::new(),
                                };
                                let value = match &tokens[i + 2] {
                                    Token::Number(value) => *value,
                                    _ => 0,
                                };
                                let ghost nv = SpecNode::Let(name@, value);
                                ast.push(AstNode::Let(name, value));
                                i += 3;
                                proof {
                                    assert(ast.deep_view() =~= adv.push(nv));
                                    assert(adv + (seq![nv] + spec_parse(tv.skip(i as int)).0)
                                        =~= ast.deep_view() + spec_parse(tv.skip(i as int)).0);
                                }
                            } else {
                                diags.push(Diag::ExpectedLetOperands);
                                i += 3;
                                proof {
                                    assert(diags.deep_view() =~= ddv.push(
                                        SpecDiag::ExpectedLetOperands,
                                    ));
                                    assert(ddv + (seq![SpecDiag::ExpectedLetOperands] + spec_parse(
                                        tv.skip(i as int),
                                    ).1) =~= diags.deep_view() + spec_parse(tv.skip(i as int)).1);
                                }
                            }
                        } else {
                            diags.push(Diag::ExpectedLetOperands);
                            i = n;
                            proof {
                                assert(diags.deep_view() =~= ddv.push(
                                    SpecDiag::ExpectedLetOperands,
                                ));
                                assert(tv.skip(n as int) =~= Seq::<SpecToken>::empty());
                                assert(spec_parse(tv).1 =~= diags.deep_view() + spec_parse(
                                    tv.skip(n as int),
                                ).1);
                            }
                        }
                    },
                    _ => {
                        i += 1;
                    },
                }
            },
        }
    }
    proof {
        assert(tv.skip(n as int) =~= Seq::<SpecToken>::empty());
        assert(spec_parse(tv).0 =~= ast.deep_view());
        assert(spec_parse(tv).1 =~= diags.deep_view());
    }
    ParseResult { ast, diags }
}

} // verus!
