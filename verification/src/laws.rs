//! General facts about execution, stated over the same spec functions
//! the executable contracts use.

use vstd::prelude::*;
use crate::arith::{wrap_add_i32, wrap_div_i32, wrap_mul_i32, wrap_rem_i32, wrap_sub_i32};
use crate::ast::{BinOp, SpecDiag, SpecNode, SpecOutput, SpecValue};
use crate::environment::lookup_or_zero;
use crate::executor::{arith_step, spec_execute, spec_resolve, spec_step};
use crate::parser::make_op_node;

verus! {

/// The wrapping 32-bit result of one operator.
pub open spec fn apply_op(op: BinOp, a: i32, b: i32) -> i32 {
    match op {
        BinOp::Add => wrap_add_i32(a, b),
        BinOp::Subtract => wrap_sub_i32(a, b),
        BinOp::Multiply => wrap_mul_i32(a, b),
        BinOp::Divide => wrap_div_i32(a, b),
        BinOp::Modulus => wrap_rem_i32(a, b),
    }
}

/// `node` binds `name`.
pub open spec fn assigns(node: SpecNode, name: Seq<char>) -> bool {
    match node {
        SpecNode::Let(n, _) => n == name,
        _ => false,
    }
}

/// A `let` statement writes its confirmation line, reports nothing,
/// and afterwards the table holds exactly the assigned value under the
/// assigned name.
pub proof fn lemma_let_sets(name: Seq<char>, value: i32, env: Map<Seq<char>, i32>)
    ensures
        spec_step(SpecNode::Let(name, value), env).0 == seq![SpecOutput::VarSet(name, value)],
        spec_step(SpecNode::Let(name, value), env).1 == Seq::<SpecDiag>::empty(),
        spec_step(SpecNode::Let(name, value), env).2 == env.insert(name, value),
        lookup_or_zero(env.insert(name, value), name) == value,
        spec_resolve(SpecValue::Variable(name), env.insert(name, value)) == value,
{
}

/// Resolving a name the table does not hold yields 0; it is never an
/// error.
pub proof fn lemma_undefined_resolves_to_zero(name: Seq<char>, env: Map<Seq<char>, i32>)
    requires
        !env.dom().contains(name),
    ensures
        spec_resolve(SpecValue::Variable(name), env) == 0,
{
}

/// Executing statements none of which rebinds `name` leaves the value
/// `name` resolves to unchanged.
pub proof fn lemma_unassigned_name_stable(
    nodes: Seq<SpecNode>,
    env: Map<Seq<char>, i32>,
    name: Seq<char>,
)
    requires
        forall|j: int| 0 <= j < nodes.len() ==> !assigns(nodes[j], name),
    ensures
        lookup_or_zero(spec_execute(nodes, env).2, name) == lookup_or_zero(env, name),
        spec_resolve(SpecValue::Variable(name), spec_execute(nodes, env).2) == spec_resolve(
            SpecValue::Variable(name),
            env,
        ),
    decreases nodes.len(),
{
    if nodes.len() > 0 {
        let st = spec_step(nodes[0], env);
        assert(!assigns(nodes[0], name));
        assert(lookup_or_zero(st.2, name) == lookup_or_zero(env, name));
        assert forall|j: int| 0 <= j < nodes.drop_first().len() implies !assigns(
            nodes.drop_first()[j],
            name,
        ) by {
            assert(nodes.drop_first()[j] == nodes[j + 1]);
        }
        lemma_unassigned_name_stable(nodes.drop_first(), st.2, name);
    }
}

/// After `let name = value`, resolving `name` at any later point of
/// the program yields `value`, as long as no statement run in between
/// rebinds the name.
pub proof fn lemma_let_value_visible(
    name: Seq<char>,
    value: i32,
    nodes: Seq<SpecNode>,
    env: Map<Seq<char>, i32>,
    k: int,
)
    requires
        0 <= k <= nodes.len(),
        forall|j: int| 0 <= j < k ==> !assigns(nodes[j], name),
    ensures
        spec_resolve(
            SpecValue::Variable(name),
            spec_execute(nodes.take(k), env.insert(name, value)).2,
        ) == value,
{
    assert forall|j: int| 0 <= j < nodes.take(k).len() implies !assigns(
        nodes.take(k)[j],
        name,
    ) by {
        assert(nodes.take(k)[j] == nodes[j]);
    }
    lemma_unassigned_name_stable(nodes.take(k), env.insert(name, value), name);
}

/// An arithmetic statement on literal operands writes exactly one line
/// holding both operands and the wrapping 32-bit result, and reports
/// nothing, whenever the operator computes (for division and modulus,
/// when the right operand is not zero).
pub proof fn lemma_arith_literals(op: BinOp, a: i32, b: i32, env: Map<Seq<char>, i32>)
    requires
        (op == BinOp::Divide || op == BinOp::Modulus) ==> b != 0,
    ensures
        arith_step(op, SpecValue::Number(a), SpecValue::Number(b), env).0 == seq![
            SpecOutput::Arith(op, a, b, apply_op(op, a, b)),
        ],
        arith_step(op, SpecValue::Number(a), SpecValue::Number(b), env).1
            == Seq::<SpecDiag>::empty(),
{
}

/// Division or modulus with a zero right operand writes no result
/// line, reports exactly one diagnostic, leaves the table unchanged,
/// and execution continues with the rest of the program.
pub proof fn lemma_zero_divisor_continues(
    op: BinOp,
    a: SpecValue,
    nodes: Seq<SpecNode>,
    env: Map<Seq<char>, i32>,
)
    requires
        op == BinOp::Divide || op == BinOp::Modulus,
        nodes.len() > 0,
        nodes[0] == make_op_node(op, a, SpecValue::Number(0)),
    ensures
        spec_step(nodes[0], env).0 == Seq::<SpecOutput>::empty(),
        spec_step(nodes[0], env).1 == seq![
            if op == BinOp::Divide {
                SpecDiag::DivisionByZero
            } else {
                SpecDiag::ModulusByZero
            },
        ],
        spec_step(nodes[0], env).2 == env,
        spec_execute(nodes, env).0 == spec_execute(nodes.drop_first(), env).0,
        spec_execute(nodes, env).1 == seq![
            if op == BinOp::Divide {
                SpecDiag::DivisionByZero
            } else {
                SpecDiag::ModulusByZero
            },
        ] + spec_execute(nodes.drop_first(), env).1,
        spec_execute(nodes, env).2 == spec_execute(nodes.drop_first(), env).2,
{
    let st = spec_step(nodes[0], env);
    assert(st.0 =~= Seq::<SpecOutput>::empty());
    assert(spec_execute(nodes, env).0 =~= spec_execute(nodes.drop_first(), env).0);
}

} // verus!
