//! The executor: runs the statement sequence strictly in order against
//! one fresh variable table. Every statement appends at most one output
//! line or one diagnostic; execution never stops early.

use vstd::prelude::*;
use crate::arith::{
    add_wrapping, div_wrapping, mul_wrapping, rem_wrapping, sub_wrapping, wrap_add_i32,
    wrap_div_i32, wrap_mul_i32, wrap_rem_i32, wrap_sub_i32,
};
use crate::ast::{AstNode, BinOp, Diag, OutputLine, SpecDiag, SpecNode, SpecOutput, SpecValue, Value};
use crate::environment::{lookup_or_zero, Environment};

verus! {

/// What an operand stands for: a literal is itself; a variable is its
/// value in the table, 0 when unassigned.
pub open spec fn spec_resolve(v: SpecValue, env: Map<Seq<char>, i32>) -> i32 {
    match v {
        SpecValue::Number(n) => n,
        SpecValue::Variable(name) => lookup_or_zero(env, name),
    }
}

/// Resolves an operand against the variable table.
pub fn resolve_value(value: &Value, env: &Environment) -> (r: i32)
    ensures
        r == spec_resolve(value.deep_view(), env@),
{
    match value {
        Value::Number(n) => *n,
        Value::Variable(name) => env.get(name.as_str()),
    }
}

/// One arithmetic statement: its output line, or its diagnostic when a
/// division or modulus has a zero right operand; the table never changes.
pub open spec fn arith_step(op: BinOp, a: SpecValue, b: SpecValue, env: Map<Seq<char>, i32>) -> (
    Seq<SpecOutput>,
    Seq<SpecDiag>,
) {
    let left = spec_resolve(a, env);
    let right = spec_resolve(b, env);
    match op {
        BinOp::Add => (
            seq![SpecOutput::Arith(BinOp::Add, left, right, wrap_add_i32(left, right))],
            Seq::empty(),
        ),
        BinOp::Subtract => (
            seq![SpecOutput::Arith(BinOp::Subtract, left, right, wrap_sub_i32(left, right))],
            Seq::empty(),
        ),
        BinOp::Multiply => (
            seq![SpecOutput::Arith(BinOp::Multiply, left, right, wrap_mul_i32(left, right))],
            Seq::empty(),
        ),
        BinOp::Divide => if right == 0 {
            (Seq::empty(), seq![SpecDiag::DivisionByZero])
        } else {
            (
                seq![SpecOutput::Arith(BinOp::Divide, left, right, wrap_div_i32(left, right))],
                Seq::empty(),
            )
        },
        BinOp::Modulus => if right == 0 {
            (Seq::empty(), seq![SpecDiag::ModulusByZero])
        } else {
            (
                seq![SpecOutput::Arith(BinOp::Modulus, left, right, wrap_rem_i32(left, right))],
                Seq::empty(),
            )
        },
    }
}

/// One statement: its output lines, its diagnostics, and the table it
/// leaves behind. Only `let` changes the table.
pub open spec fn spec_step(node: SpecNode, env: Map<Seq<char>, i32>) -> (
    Seq<SpecOutput>,
    Seq<SpecDiag>,
    Map<Seq<char>, i32>,
) {
    match node {
        SpecNode::Print(text) => (seq![SpecOutput::Text(text)], Seq::empty(), env),
        SpecNode::Let(name, value) => (
            seq![SpecOutput::VarSet(name, value)],
            Seq::empty(),
            env.insert(name, value),
        ),
        SpecNode::Add(a, b) => {
            let r = arith_step(BinOp::Add, a, b, env);
            (r.0, r.1, env)
        },
        SpecNode::Subtract(a, b) => {
            let r = arith_step(BinOp::Subtract, a, b, env);
            (r.0, r.1, env)
        },
        SpecNode::Multiply(a, b) => {
            let r = arith_step(BinOp::Multiply, a, b, env);
            (r.0, r.1, env)
        },
        SpecNode::Divide(a, b) => {
            let r = arith_step(BinOp::Divide, a, b, env);
            (r.0, r.1, env)
        },
        SpecNode::Modulus(a, b) => {
            let r = arith_step(BinOp::Modulus, a, b, env);
            (r.0, r.1, env)
        },
    }
}

/// Running a statement sequence from a given table: statements in
/// order, outputs and diagnostics in statement order.
pub open spec fn spec_execute(nodes: Seq<SpecNode>, env: Map<Seq<char>, i32>) -> (
    Seq<SpecOutput>,
    Seq<SpecDiag>,
    Map<Seq<char>, i32>,
)
    decreases nodes.len(),
{
    if nodes.len() == 0 {
        (Seq::empty(), Seq::empty(), env)
    } else {
        let s = spec_step(nodes[0], env);
        let r = spec_execute(nodes.drop_first(), s.2);
        (s.0 + r.0, s.1 + r.1, r.2)
    }
}

fn run_arith(
    op: BinOp,
    a: &Value,
    b: &Value,
    env: &Environment,
    outputs: &mut Vec<OutputLine>,
    diags: &mut Vec<Diag>,
)
    ensures
        final(outputs).deep_view() == old(outputs).deep_view() + arith_step(
            op,
            a.deep_view(),
            b.deep_view(),
            env@,
        ).0,
        final(diags).deep_view() == old(diags).deep_view() + arith_step(
            op,
            a.deep_view(),
            b.deep_view(),
            env@,
        ).1,
{
    let ghost odv = outputs.deep_view();
    let ghost ddv = diags.deep_view();
    let left = resolve_value(a, env);
    let right = resolve_value(b, env);
    match op {
        BinOp::Add => {
            outputs.push(OutputLine::Arith(BinOp::Add, left, right, add_wrapping(left, right)));
        },
        BinOp::Subtract => {
            outputs.push(OutputLine::Arith(BinOp::Subtract, left, right, sub_wrapping(left, right)));
        },
        BinOp::Multiply => {
            outputs.push(OutputLine::Arith(BinOp::Multiply, left, right, mul_wrapping(left, right)));
        },
        BinOp::Divide => {
            if right == 0 {
                diags.push(Diag::DivisionByZero);
            } else {
                outputs.push(OutputLine::Arith(BinOp::Divide, left, right, div_wrapping(left, right)));
            }
        },
        BinOp::Modulus => {
            if right == 0 {
                diags.push(Diag::ModulusByZero);
            } else {
                outputs.push(OutputLine::Arith(BinOp::Modulus, left, right, rem_wrapping(left, right)));
            }
        },
    }
    proof {
        let st = arith_step(op, a.deep_view(), b.deep_view(), env@);
        assert(outputs.deep_view() =~= odv + st.0);
        assert(diags.deep_view() =~= ddv + st.1);
    }
}

/// Everything one execution pass produces: the output lines, the
/// diagnostics, and the final variable table.
pub struct ExecOutcome {
    pub outputs: Vec<OutputLine>,
    pub diags: Vec<Diag>,
    pub env: Environment,
}

/// Executes a program against a fresh table, exactly as `spec_execute`
/// describes.
pub fn execute(program: &Vec<AstNode>) -> (r: ExecOutcome)
    ensures
        r.outputs.deep_view() == spec_execute(
            program.deep_view(),
            Map::<Seq<char>, i32>::empty(),
        ).0,
        r.diags.deep_view() == spec_execute(program.deep_view(), Map::<Seq<char>, i32>::empty()).1,
        r.env@ == spec_execute(program.deep_view(), Map::<Seq<char>, i32>::empty()).2,
{
    let ghost pv = program.deep_view();
    let ghost empty_env = Map::<Seq<char>, i32>::empty();
    let mut outputs: Vec<OutputLine> = Vec::new();
    let mut diags: Vec<Diag> = Vec::new();
    let mut env = Environment::new();
    let n = program.len();
    let mut i: usize = 0;
    proof {
        assert(pv.skip(0) =~= pv);
        assert(outputs.deep_view() =~= Seq::<SpecOutput>::empty());
        assert(diags.deep_view() =~= Seq::<SpecDiag>::empty());
        assert(Seq::<SpecOutput>::empty() + spec_execute(pv, empty_env).0 =~= spec_execute(
            pv,
            empty_env,
        ).0);
        assert(Seq::<SpecDiag>::empty() + spec_execute(pv, empty_env).1 =~= spec_execute(
            pv,
            empty_env,
        ).1);
    }
    while i < n
        invariant
            pv == program.deep_view(),
            n == program.len(),
            i <= n,
            spec_execute(pv, empty_env).0 == outputs.deep_view() + spec_execute(
                pv.skip(i as int),
                env@,
            ).0,
            spec_execute(pv, empty_env).1 == diags.deep_view() + spec_execute(
                pv.skip(i as int),
                env@,
            ).1,
            spec_execute(pv, empty_env).2 == spec_execute(pv.skip(i as int), env@).2,
        decreases n - i,
    {
        let ghost rem = pv.skip(i as int);
        let ghost env0 = env@;
        let ghost odv = outputs.deep_view();
        let ghost ddv = diags.deep_view();
        proof {
            assert(rem[0] == pv[i as int]);
            assert(rem.drop_first() =~= pv.skip(i as int + 1));
        }
        match &program[i] {
            AstNode::Print(text) => {
                outputs.push(OutputLine::Text(text.clone()));
                proof {
                    assert(outputs.deep_view() =~= odv + spec_step(rem[0], env0).0);
                }
            },
            AstNode::Let(name, value) => {
                env.set(name.clone(), *value);
                outputs.push(OutputLine::VarSet(name.clone(), *value));
                proof {
                    assert(outputs.deep_view() =~= odv + spec_step(rem[0], env0).0);
                }
            },
            AstNode::Add(a, b) => {
                run_arith(BinOp::Add, a, b, &env, &mut outputs, &mut diags);
            },
            AstNode::Subtract(a, b) => {
                run_arith(BinOp::Subtract, a, b, &env, &mut outputs, &mut diags);
            },
            AstNode::Multiply(a, b) => {
                run_arith(BinOp::Multiply, a, b, &env, &mut outputs, &mut diags);
            },
            AstNode::Divide(a, b) => {
                run_arith(BinOp::Divide, a, b, &env, &mut outputs, &mut diags);
            },
            AstNode::Modulus(a, b) => {
                run_arith(BinOp::Modulus, a, b, &env, &mut outputs, &mut diags);
            },
        }
        i += 1;
        proof {
            let st = spec_step(rem[0], env0);
            assert(env@ == st.2);
            assert(outputs.deep_view() =~= odv + st.0);
            assert(diags.deep_view() =~= ddv + st.1);
            assert(spec_execute(rem, env0).0 == st.0 + spec_execute(pv.skip(i as int), env@).0);
            assert(odv + (st.0 + spec_execute(pv.skip(i as int), env@).0) =~= outputs.deep_view()
                + spec_execute(pv.skip(i as int), env@).0);
            assert(ddv + (st.1 + spec_execute(pv.skip(i as int), env@).1) =~= diags.deep_view()
                + spec_execute(pv.skip(i as int), env@).1);
        }
    }
    proof {
        assert(pv.skip(n as int) =~= Seq::<SpecNode>::empty());
        assert(spec_execute(pv, empty_env).0 =~= outputs.deep_view());
        assert(spec_execute(pv, empty_env).1 =~= diags.deep_view());
    }
    ExecOutcome { outputs, diags, env }
}

} // verus!
