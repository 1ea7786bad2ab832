//! The meaning of the language, written as a specification-level
//! interpreter.
//!
//! `eval_node_spec` and its companions map a state and a syntax-tree node to
//! the state and result of evaluating that node.  Two budgets make the
//! definition total: `depth` falls by one for every level of nesting, and
//! `fuel` falls by one for every loop iteration.  When either runs out the
//! result is `RecursionLimitExceeded` — the executable evaluator enforces
//! the same budgets, so it returns exactly what these functions say.

use vstd::prelude::*;
use crate::ast::{Block, Node};
use crate::errors::RuntimeErrorSpec;
use crate::ops::{op_result, truthy};
use crate::state::{
    find_in_frames, frame_bind, frame_lookup, frame_set_value, Binding, OutputItemSpec,
    StateSpec,
};

verus! {

/// Evaluates one node.
pub open spec fn eval_node_spec(st: StateSpec, n: Node, depth: nat, fuel: nat) -> (
    StateSpec,
    Result<i64, RuntimeErrorSpec>,
)
    decreases fuel, depth, 3int, 0int,
{
    if depth == 0 {
        (st, Err(RuntimeErrorSpec::RecursionLimitExceeded))
    } else {
        match n {
            Node::NumberLiteral(v) => (st, Ok(v)),
            Node::BinaryOp(tag, l, r) => {
                let (st1, r1) = eval_node_spec(st, *l, (depth - 1) as nat, fuel);
                match r1 {
                    Err(e) => (st1, Err(e)),
                    Ok(lv) => {
                        let (st2, r2) = eval_node_spec(st1, *r, (depth - 1) as nat, fuel);
                        match r2 {
                            Err(e) => (st2, Err(e)),
                            Ok(rv) => (st2, op_result(tag, lv, rv)),
                        }
                    },
                }
            },
            Node::VariableRef(name) => match find_in_frames(st.frames, name@) {
                Some(kb) => (st, Ok(kb.1.value)),
                None => (st, Err(RuntimeErrorSpec::VariableNotFound(name@))),
            },
            Node::Bind(name, mutable, e) => {
                let (st1, r1) = eval_node_spec(st, *e, (depth - 1) as nat, fuel);
                match r1 {
                    Err(err) => (st1, Err(err)),
                    Ok(v) => (
                        StateSpec {
                            frames: st1.frames.update(
                                st1.frames.len() - 1,
                                frame_bind(
                                    st1.frames.last(),
                                    name@,
                                    Binding { mutable, value: v },
                                ),
                            ),
                            out: st1.out,
                        },
                        Ok(v),
                    ),
                }
            },
            Node::Assign(name, e) => match find_in_frames(st.frames, name@) {
                None => (st, Err(RuntimeErrorSpec::VariableNotFound(name@))),
                Some(kb) => {
                    if !kb.1.mutable {
                        (st, Err(RuntimeErrorSpec::ImmutableAssignment(name@)))
                    } else {
                        let (st1, r1) = eval_node_spec(st, *e, (depth - 1) as nat, fuel);
                        match r1 {
                            Err(err) => (st1, Err(err)),
                            Ok(v) => (
                                StateSpec {
                                    frames: st1.frames.update(
                                        kb.0,
                                        frame_set_value(st1.frames[kb.0], name@, v),
                                    ),
                                    out: st1.out,
                                },
                                Ok(v),
                            ),
                        }
                    }
                },
            },
            Node::If(cond, cons, alt) => {
                let (st1, r1) = eval_node_spec(st, *cond, (depth - 1) as nat, fuel);
                match r1 {
                    Err(e) => (st1, Err(e)),
                    Ok(cv) => if truthy(cv) {
                        eval_block_spec(st1, cons, depth, fuel)
                    } else {
                        eval_block_spec(st1, alt, depth, fuel)
                    },
                }
            },
            Node::While(cond, body) => eval_while_spec(st, *cond, body, depth, fuel),
            Node::For(init, cond, update, body) => {
                let (st1, r1) = eval_node_spec(st, *init, (depth - 1) as nat, fuel);
                match r1 {
                    Err(e) => (st1, Err(e)),
                    Ok(_) => eval_for_spec(st1, *cond, *update, body, depth, fuel),
                }
            },
            Node::Print(e) => {
                let (st1, r1) = eval_node_spec(st, *e, (depth - 1) as nat, fuel);
                match r1 {
                    Err(err) => (st1, Err(err)),
                    Ok(v) => (
                        StateSpec {
                            frames: st1.frames,
                            out: st1.out.push(OutputItemSpec::Value(v)),
                        },
                        Ok(0),
                    ),
                }
            },
            Node::PrintLiteral(t) => (
                StateSpec { frames: st.frames, out: st.out.push(OutputItemSpec::Text(t@)) },
                Ok(0),
            ),
            Node::Block(b) => eval_block_spec(st, b, depth, fuel),
            Node::Empty => (st, Ok(0)),
        }
    }
}

/// Evaluates a `while` loop: condition, then body, repeated while the
/// condition is truthy; yields zero when the condition turns falsy.
pub open spec fn eval_while_spec(
    st: StateSpec,
    cond: Node,
    body: Block,
    depth: nat,
    fuel: nat,
) -> (StateSpec, Result<i64, RuntimeErrorSpec>)
    decreases fuel, depth, 2int, 0int,
{
    if fuel == 0 || depth == 0 {
        (st, Err(RuntimeErrorSpec::RecursionLimitExceeded))
    } else {
        let (st1, r1) = eval_node_spec(st, cond, (depth - 1) as nat, fuel);
        match r1 {
            Err(e) => (st1, Err(e)),
            Ok(cv) => if !truthy(cv) {
                (st1, Ok(0))
            } else {
                let (st2, r2) = eval_block_spec(st1, body, depth, fuel);
                match r2 {
                    Err(e) => (st2, Err(e)),
                    Ok(_) => eval_while_spec(st2, cond, body, depth, (fuel - 1) as nat),
                }
            },
        }
    }
}

/// Evaluates the loop part of a `for` statement: condition, body, update,
/// repeated while the condition is truthy; yields zero when it turns falsy.
pub open spec fn eval_for_spec(
    st: StateSpec,
    cond: Node,
    update: Node,
    body: Block,
    depth: nat,
    fuel: nat,
) -> (StateSpec, Result<i64, RuntimeErrorSpec>)
    decreases fuel, depth, 2int, 0int,
{
    if fuel == 0 || depth == 0 {
        (st, Err(RuntimeErrorSpec::RecursionLimitExceeded))
    } else {
        let (st1, r1) = eval_node_spec(st, cond, (depth - 1) as nat, fuel);
        match r1 {
            Err(e) => (st1, Err(e)),
            Ok(cv) => if !truthy(cv) {
                (st1, Ok(0))
            } else {
                let (st2, r2) = eval_block_spec(st1, body, depth, fuel);
                match r2 {
                    Err(e) => (st2, Err(e)),
                    Ok(_) => {
                        let (st3, r3) = eval_node_spec(st2, update, (depth - 1) as nat, fuel);
                        match r3 {
                            Err(e) => (st3, Err(e)),
                            Ok(_) => eval_for_spec(
                                st3,
                                cond,
                                update,
                                body,
                                depth,
                                (fuel - 1) as nat,
                            ),
                        }
                    },
                }
            },
        }
    }
}

/// Evaluates a block: pushes a fresh frame, runs the statements in order,
/// and pops the frame again on both the success and the error path.  The
/// value is the last statement's value, zero for an empty block.
pub open spec fn eval_block_spec(st: StateSpec, b: Block, depth: nat, fuel: nat) -> (
    StateSpec,
    Result<i64, RuntimeErrorSpec>,
)
    decreases fuel, depth, 1int, 0int,
{
    if depth == 0 {
        (st, Err(RuntimeErrorSpec::RecursionLimitExceeded))
    } else {
        let pushed = StateSpec { frames: st.frames.push(Seq::empty()), out: st.out };
        let (st1, r) = eval_stmts_spec(pushed, b.stmts@, (depth - 1) as nat, fuel);
        (StateSpec { frames: st1.frames.drop_last(), out: st1.out }, r)
    }
}

/// Evaluates statements in order, stopping at the first error.
pub open spec fn eval_stmts_spec(st: StateSpec, stmts: Seq<Node>, depth: nat, fuel: nat) -> (
    StateSpec,
    Result<i64, RuntimeErrorSpec>,
)
    decreases fuel, depth, 4int, stmts.len(),
{
    if stmts.len() == 0 {
        (st, Ok(0))
    } else {
        let (st1, r1) = eval_node_spec(st, stmts[0], depth, fuel);
        match r1 {
            Err(e) => (st1, Err(e)),
            Ok(v) => if stmts.len() == 1 {
                (st1, Ok(v))
            } else {
                eval_stmts_spec(st1, stmts.skip(1), depth, fuel)
            },
        }
    }
}

/// A successful innermost-to-outermost search yields an index into the
/// frame stack.
pub proof fn lemma_find_bounds(frames: Seq<Seq<(Seq<u8>, Binding)>>, name: Seq<u8>)
    ensures
        match find_in_frames(frames, name) {
            Some(kb) => 0 <= kb.0 < frames.len(),
            None => true,
        },
    decreases frames.len(),
{
    if frames.len() > 0 {
        if frame_lookup(frames.last(), name) is None {
            lemma_find_bounds(frames.drop_last(), name);
        }
    }
}

/// Scope discipline for a single node: evaluation returns the frame stack
/// at its entry height, whatever the outcome.
pub proof fn lemma_node_frames(st: StateSpec, n: Node, depth: nat, fuel: nat)
    requires
        st.frames.len() >= 1,
    ensures
        eval_node_spec(st, n, depth, fuel).0.frames.len() == st.frames.len(),
    decreases fuel, depth, 3int, 0int,
{
    if depth == 0 {
    } else {
        match n {
            Node::NumberLiteral(_) => {},
            Node::BinaryOp(tag, l, r) => {
                lemma_node_frames(st, *l, (depth - 1) as nat, fuel);
                let st1 = eval_node_spec(st, *l, (depth - 1) as nat, fuel).0;
                lemma_node_frames(st1, *r, (depth - 1) as nat, fuel);
            },
            Node::VariableRef(_) => {},
            Node::Bind(name, mutable, e) => {
                lemma_node_frames(st, *e, (depth - 1) as nat, fuel);
            },
            Node::Assign(name, e) => {
                lemma_find_bounds(st.frames, name@);
                lemma_node_frames(st, *e, (depth - 1) as nat, fuel);
            },
            Node::If(cond, cons, alt) => {
                lemma_node_frames(st, *cond, (depth - 1) as nat, fuel);
                let st1 = eval_node_spec(st, *cond, (depth - 1) as nat, fuel).0;
                lemma_block_frames(st1, cons, depth, fuel);
                lemma_block_frames(st1, alt, depth, fuel);
            },
            Node::While(cond, body) => {
                lemma_while_frames(st, *cond, body, depth, fuel);
            },
            Node::For(init, cond, update, body) => {
                lemma_node_frames(st, *init, (depth - 1) as nat, fuel);
                let st1 = eval_node_spec(st, *init, (depth - 1) as nat, fuel).0;
                lemma_for_frames(st1, *cond, *update, body, depth, fuel);
            },
            Node::Print(e) => {
                lemma_node_frames(st, *e, (depth - 1) as nat, fuel);
            },
            Node::PrintLiteral(_) => {},
            Node::Block(b) => {
                lemma_block_frames(st, b, depth, fuel);
            },
            Node::Empty => {},
        }
    }
}

/// Scope discipline for a `while` loop.
pub proof fn lemma_while_frames(st: StateSpec, cond: Node, body: Block, depth: nat, fuel: nat)
    requires
        st.frames.len() >= 1,
    ensures
        eval_while_spec(st, cond, body, depth, fuel).0.frames.len() == st.frames.len(),
    decreases fuel, depth, 2int, 0int,
{
    if fuel == 0 || depth == 0 {
    } else {
        lemma_node_frames(st, cond, (depth - 1) as nat, fuel);
        let st1 = eval_node_spec(st, cond, (depth - 1) as nat, fuel).0;
        lemma_block_frames(st1, body, depth, fuel);
        let st2 = eval_block_spec(st1, body, depth, fuel).0;
        lemma_while_frames(st2, cond, body, depth, (fuel - 1) as nat);
    }
}

/// Scope discipline for the loop part of a `for` statement.
pub proof fn lemma_for_frames(
    st: StateSpec,
    cond: Node,
    update: Node,
    body: Block,
    depth: nat,
    fuel: nat,
)
    requires
        st.frames.len() >= 1,
    ensures
        eval_for_spec(st, cond, update, body, depth, fuel).0.frames.len() == st.frames.len(),
    decreases fuel, depth, 2int, 0int,
{
    if fuel == 0 || depth == 0 {
    } else {
        lemma_node_frames(st, cond, (depth - 1) as nat, fuel);
        let st1 = eval_node_spec(st, cond, (depth - 1) as nat, fuel).0;
        lemma_block_frames(st1, body, depth, fuel);
        let st2 = eval_block_spec(st1, body, depth, fuel).0;
        lemma_node_frames(st2, update, (depth - 1) as nat, fuel);
        let st3 = eval_node_spec(st2, update, (depth - 1) as nat, fuel).0;
        lemma_for_frames(st3, cond, update, body, depth, (fuel - 1) as nat);
    }
}

/// Scope cleanup: a block's frame is pushed on entry and popped again on
/// every exit path — after evaluating a block, successfully or with an
/// error partway through, the frame stack stands exactly at its entry
/// height, so a binding created inside the block is unreachable afterwards.
pub proof fn lemma_block_frames(st: StateSpec, b: Block, depth: nat, fuel: nat)
    ensures
        eval_block_spec(st, b, depth, fuel).0.frames.len() == st.frames.len(),
    decreases fuel, depth, 1int, 0int,
{
    if depth == 0 {
    } else {
        let pushed = StateSpec { frames: st.frames.push(Seq::empty()), out: st.out };
        lemma_stmts_frames(pushed, b.stmts@, (depth - 1) as nat, fuel);
    }
}

/// Scope discipline for a statement sequence.
pub proof fn lemma_stmts_frames(st: StateSpec, stmts: Seq<Node>, depth: nat, fuel: nat)
    requires
        st.frames.len() >= 1,
    ensures
        eval_stmts_spec(st, stmts, depth, fuel).0.frames.len() == st.frames.len(),
    decreases fuel, depth, 4int, stmts.len(),
{
    if stmts.len() == 0 {
    } else {
        lemma_node_frames(st, stmts[0], depth, fuel);
        let st1 = eval_node_spec(st, stmts[0], depth, fuel).0;
        lemma_stmts_frames(st1, stmts.skip(1), depth, fuel);
    }
}

/// The budgets only cut evaluation off, they never change it: a node whose
/// evaluation came to an answer within some budgets — any result other
/// than `RecursionLimitExceeded` — comes to exactly the same state and
/// answer under every larger depth and fuel budget.
pub proof fn lemma_node_budget(st: StateSpec, n: Node, d1: nat, f1: nat, d2: nat, f2: nat)
    requires
        d1 <= d2,
        f1 <= f2,
        eval_node_spec(st, n, d1, f1).1 != Err::<i64, RuntimeErrorSpec>(
            RuntimeErrorSpec::RecursionLimitExceeded,
        ),
    ensures
        eval_node_spec(st, n, d2, f2) == eval_node_spec(st, n, d1, f1),
    decreases f1, d1, 3int, 0int,
{
    match n {
        Node::NumberLiteral(_) => {},
        Node::BinaryOp(tag, l, r) => {
            lemma_node_budget(st, *l, (d1 - 1) as nat, f1, (d2 - 1) as nat, f2);
            let (st1, r1) = eval_node_spec(st, *l, (d1 - 1) as nat, f1);
            if r1 is Ok {
                lemma_node_budget(st1, *r, (d1 - 1) as nat, f1, (d2 - 1) as nat, f2);
            }
        },
        Node::VariableRef(_) => {},
        Node::Bind(name, mutable, e) => {
            lemma_node_budget(st, *e, (d1 - 1) as nat, f1, (d2 - 1) as nat, f2);
        },
        Node::Assign(name, e) => {
            match find_in_frames(st.frames, name@) {
                Some(kb) => {
                    if kb.1.mutable {
                        lemma_node_budget(st, *e, (d1 - 1) as nat, f1, (d2 - 1) as nat, f2);
                    }
                },
                None => {},
            }
        },
        Node::If(cond, cons, alt) => {
            lemma_node_budget(st, *cond, (d1 - 1) as nat, f1, (d2 - 1) as nat, f2);
            let (st1, r1) = eval_node_spec(st, *cond, (d1 - 1) as nat, f1);
            match r1 {
                Ok(cv) => {
                    if truthy(cv) {
                        lemma_block_budget(st1, cons, d1, f1, d2, f2);
                    } else {
                        lemma_block_budget(st1, alt, d1, f1, d2, f2);
                    }
                },
                Err(_) => {},
            }
        },
        Node::While(cond, body) => {
            lemma_while_budget(st, *cond, body, d1, f1, d2, f2);
        },
        Node::For(init, cond, update, body) => {
            lemma_node_budget(st, *init, (d1 - 1) as nat, f1, (d2 - 1) as nat, f2);
            let (st1, r1) = eval_node_spec(st, *init, (d1 - 1) as nat, f1);
            if r1 is Ok {
                lemma_for_budget(st1, *cond, *update, body, d1, f1, d2, f2);
            }
        },
        Node::Print(e) => {
            lemma_node_budget(st, *e, (d1 - 1) as nat, f1, (d2 - 1) as nat, f2);
        },
        Node::PrintLiteral(_) => {},
        Node::Block(b) => {
            lemma_block_budget(st, b, d1, f1, d2, f2);
        },
        Node::Empty => {},
    }
}

/// Budget monotonicity for a `while` loop.
pub proof fn lemma_while_budget(
    st: StateSpec,
    cond: Node,
    body: Block,
    d1: nat,
    f1: nat,
    d2: nat,
    f2: nat,
)
    requires
        d1 <= d2,
        f1 <= f2,
        eval_while_spec(st, cond, body, d1, f1).1 != Err::<i64, RuntimeErrorSpec>(
            RuntimeErrorSpec::RecursionLimitExceeded,
        ),
    ensures
        eval_while_spec(st, cond, body, d2, f2) == eval_while_spec(st, cond, body, d1, f1),
    decreases f1, d1, 2int, 0int,
{
    lemma_node_budget(st, cond, (d1 - 1) as nat, f1, (d2 - 1) as nat, f2);
    let (st1, r1) = eval_node_spec(st, cond, (d1 - 1) as nat, f1);
    match r1 {
        Ok(cv) => {
            if truthy(cv) {
                lemma_block_budget(st1, body, d1, f1, d2, f2);
                let (st2, r2) = eval_block_spec(st1, body, d1, f1);
                if r2 is Ok {
                    lemma_while_budget(st2, cond, body, d1, (f1 - 1) as nat, d2, (f2 - 1) as nat);
                }
            }
        },
        Err(_) => {},
    }
}

/// Budget monotonicity for the loop part of a `for` statement.
pub proof fn lemma_for_budget(
    st: StateSpec,
    cond: Node,
    update: Node,
    body: Block,
    d1: nat,
    f1: nat,
    d2: nat,
    f2: nat,
)
    requires
        d1 <= d2,
        f1 <= f2,
        eval_for_spec(st, cond, update, body, d1, f1).1 != Err::<i64, RuntimeErrorSpec>(
            RuntimeErrorSpec::RecursionLimitExceeded,
        ),
    ensures
        eval_for_spec(st, cond, update, body, d2, f2) == eval_for_spec(
            st,
            cond,
            update,
            body,
            d1,
            f1,
        ),
    decreases f1, d1, 2int, 0int,
{
    lemma_node_budget(st, cond, (d1 - 1) as nat, f1, (d2 - 1) as nat, f2);
    let (st1, r1) = eval_node_spec(st, cond, (d1 - 1) as nat, f1);
    match r1 {
        Ok(cv) => {
            if truthy(cv) {
                lemma_block_budget(st1, body, d1, f1, d2, f2);
                let (st2, r2) = eval_block_spec(st1, body, d1, f1);
                if r2 is Ok {
                    lemma_node_budget(st2, update, (d1 - 1) as nat, f1, (d2 - 1) as nat, f2);
                    let (st3, r3) = eval_node_spec(st2, update, (d1 - 1) as nat, f1);
                    if r3 is Ok {
                        lemma_for_budget(
                            st3,
                            cond,
                            update,
                            body,
                            d1,
                            (f1 - 1) as nat,
                            d2,
                            (f2 - 1) as nat,
                        );
                    }
                }
            }
        },
        Err(_) => {},
    }
}

/// Budget monotonicity for a block.  Together with the scope-discipline
/// lemmas this says the budgets of `evaluate` are benign: a program that
/// finishes within them has its one true result.
pub proof fn lemma_block_budget(st: StateSpec, b: Block, d1: nat, f1: nat, d2: nat, f2: nat)
    requires
        d1 <= d2,
        f1 <= f2,
        eval_block_spec(st, b, d1, f1).1 != Err::<i64, RuntimeErrorSpec>(
            RuntimeErrorSpec::RecursionLimitExceeded,
        ),
    ensures
        eval_block_spec(st, b, d2, f2) == eval_block_spec(st, b, d1, f1),
    decreases f1, d1, 1int, 0int,
{
    let pushed = StateSpec { frames: st.frames.push(Seq::empty()), out: st.out };
    lemma_stmts_budget(pushed, b.stmts@, (d1 - 1) as nat, f1, (d2 - 1) as nat, f2);
}

/// Budget monotonicity for a statement sequence.
pub proof fn lemma_stmts_budget(
    st: StateSpec,
    stmts: Seq<Node>,
    d1: nat,
    f1: nat,
    d2: nat,
    f2: nat,
)
    requires
        d1 <= d2,
        f1 <= f2,
        eval_stmts_spec(st, stmts, d1, f1).1 != Err::<i64, RuntimeErrorSpec>(
            RuntimeErrorSpec::RecursionLimitExceeded,
        ),
    ensures
        eval_stmts_spec(st, stmts, d2, f2) == eval_stmts_spec(st, stmts, d1, f1),
    decreases f1, d1, 4int, stmts.len(),
{
    if stmts.len() > 0 {
        lemma_node_budget(st, stmts[0], d1, f1, d2, f2);
        let (st1, r1) = eval_node_spec(st, stmts[0], d1, f1);
        if r1 is Ok && stmts.len() > 1 {
            lemma_stmts_budget(st1, stmts.skip(1), d1, f1, d2, f2);
        }
    }
}

/// `a` stands unchanged at the front of `b`.
pub open spec fn is_out_prefix(a: Seq<OutputItemSpec>, b: Seq<OutputItemSpec>) -> bool {
    a.len() <= b.len() && a == b.subrange(0, a.len() as int)
}

/// Prefixes compose.
proof fn lemma_prefix_trans(
    a: Seq<OutputItemSpec>,
    b: Seq<OutputItemSpec>,
    c: Seq<OutputItemSpec>,
)
    requires
        is_out_prefix(a, b),
        is_out_prefix(b, c),
    ensures
        is_out_prefix(a, c),
{
    assert(a =~= c.subrange(0, a.len() as int));
}

/// Appending keeps the old output a prefix.
proof fn lemma_prefix_push(a: Seq<OutputItemSpec>, x: OutputItemSpec)
    ensures
        is_out_prefix(a, a.push(x)),
{
    assert(a =~= a.push(x).subrange(0, a.len() as int));
}

/// Evaluating a node only appends to the output channel.
pub proof fn lemma_node_output(st: StateSpec, n: Node, depth: nat, fuel: nat)
    ensures
        is_out_prefix(st.out, eval_node_spec(st, n, depth, fuel).0.out),
    decreases fuel, depth, 3int, 0int,
{
    assert(st.out =~= st.out.subrange(0, st.out.len() as int));
    if depth == 0 {
    } else {
        match n {
            Node::NumberLiteral(_) => {},
            Node::BinaryOp(tag, l, r) => {
                lemma_node_output(st, *l, (depth - 1) as nat, fuel);
                let st1 = eval_node_spec(st, *l, (depth - 1) as nat, fuel).0;
                lemma_node_output(st1, *r, (depth - 1) as nat, fuel);
                let st2 = eval_node_spec(st1, *r, (depth - 1) as nat, fuel).0;
                lemma_prefix_trans(st.out, st1.out, st2.out);
            },
            Node::VariableRef(_) => {},
            Node::Bind(name, mutable, e) => {
                lemma_node_output(st, *e, (depth - 1) as nat, fuel);
            },
            Node::Assign(name, e) => {
                lemma_node_output(st, *e, (depth - 1) as nat, fuel);
            },
            Node::If(cond, cons, alt) => {
                lemma_node_output(st, *cond, (depth - 1) as nat, fuel);
                let st1 = eval_node_spec(st, *cond, (depth - 1) as nat, fuel).0;
                lemma_block_output(st1, cons, depth, fuel);
                lemma_block_output(st1, alt, depth, fuel);
                lemma_prefix_trans(st.out, st1.out, eval_block_spec(st1, cons, depth, fuel).0.out);
                lemma_prefix_trans(st.out, st1.out, eval_block_spec(st1, alt, depth, fuel).0.out);
            },
            Node::While(cond, body) => {
                lemma_while_output(st, *cond, body, depth, fuel);
            },
            Node::For(init, cond, update, body) => {
                lemma_node_output(st, *init, (depth - 1) as nat, fuel);
                let st1 = eval_node_spec(st, *init, (depth - 1) as nat, fuel).0;
                lemma_for_output(st1, *cond, *update, body, depth, fuel);
                lemma_prefix_trans(
                    st.out,
                    st1.out,
                    eval_for_spec(st1, *cond, *update, body, depth, fuel).0.out,
                );
            },
            Node::Print(e) => {
                lemma_node_output(st, *e, (depth - 1) as nat, fuel);
                let st1 = eval_node_spec(st, *e, (depth - 1) as nat, fuel).0;
                match eval_node_spec(st, *e, (depth - 1) as nat, fuel).1 {
                    Ok(v) => {
                        lemma_prefix_push(st1.out, OutputItemSpec::Value(v));
                        lemma_prefix_trans(
                            st.out,
                            st1.out,
                            st1.out.push(OutputItemSpec::Value(v)),
                        );
                    },
                    Err(_) => {},
                }
            },
            Node::PrintLiteral(t) => {
                lemma_prefix_push(st.out, OutputItemSpec::Text(t@));
            },
            Node::Block(b) => {
                lemma_block_output(st, b, depth, fuel);
            },
            Node::Empty => {},
        }
    }
}

/// A `while` loop only appends to the output channel.
pub proof fn lemma_while_output(st: StateSpec, cond: Node, body: Block, depth: nat, fuel: nat)
    ensures
        is_out_prefix(st.out, eval_while_spec(st, cond, body, depth, fuel).0.out),
    decreases fuel, depth, 2int, 0int,
{
    assert(st.out =~= st.out.subrange(0, st.out.len() as int));
    if fuel == 0 || depth == 0 {
    } else {
        lemma_node_output(st, cond, (depth - 1) as nat, fuel);
        let st1 = eval_node_spec(st, cond, (depth - 1) as nat, fuel).0;
        lemma_block_output(st1, body, depth, fuel);
        let st2 = eval_block_spec(st1, body, depth, fuel).0;
        lemma_while_output(st2, cond, body, depth, (fuel - 1) as nat);
        let st3 = eval_while_spec(st2, cond, body, depth, (fuel - 1) as nat).0;
        lemma_prefix_trans(st.out, st1.out, st2.out);
        lemma_prefix_trans(st.out, st2.out, st3.out);
    }
}

/// The loop part of a `for` statement only appends to the output channel.
pub proof fn lemma_for_output(
    st: StateSpec,
    cond: Node,
    update: Node,
    body: Block,
    depth: nat,
    fuel: nat,
)
    ensures
        is_out_prefix(st.out, eval_for_spec(st, cond, update, body, depth, fuel).0.out),
    decreases fuel, depth, 2int, 0int,
{
    assert(st.out =~= st.out.subrange(0, st.out.len() as int));
    if fuel == 0 || depth == 0 {
    } else {
        lemma_node_output(st, cond, (depth - 1) as nat, fuel);
        let st1 = eval_node_spec(st, cond, (depth - 1) as nat, fuel).0;
        lemma_block_output(st1, body, depth, fuel);
        let st2 = eval_block_spec(st1, body, depth, fuel).0;
        lemma_node_output(st2, update, (depth - 1) as nat, fuel);
        let st3 = eval_node_spec(st2, update, (depth - 1) as nat, fuel).0;
        lemma_for_output(st3, cond, update, body, depth, (fuel - 1) as nat);
        let st4 = eval_for_spec(st3, cond, update, body, depth, (fuel - 1) as nat).0;
        lemma_prefix_trans(st.out, st1.out, st2.out);
        lemma_prefix_trans(st.out, st2.out, st3.out);
        lemma_prefix_trans(st.out, st3.out, st4.out);
    }
}

/// Output is never retracted: whatever stood on the output channel when a
/// block's evaluation began still stands there, unchanged, when it ends —
/// also when the block failed partway through.
pub proof fn lemma_block_output(st: StateSpec, b: Block, depth: nat, fuel: nat)
    ensures
        is_out_prefix(st.out, eval_block_spec(st, b, depth, fuel).0.out),
    decreases fuel, depth, 1int, 0int,
{
    assert(st.out =~= st.out.subrange(0, st.out.len() as int));
    if depth == 0 {
    } else {
        let pushed = StateSpec { frames: st.frames.push(Seq::empty()), out: st.out };
        lemma_stmts_output(pushed, b.stmts@, (depth - 1) as nat, fuel);
    }
}

/// A statement sequence only appends to the output channel.
pub proof fn lemma_stmts_output(st: StateSpec, stmts: Seq<Node>, depth: nat, fuel: nat)
    ensures
        is_out_prefix(st.out, eval_stmts_spec(st, stmts, depth, fuel).0.out),
    decreases fuel, depth, 4int, stmts.len(),
{
    assert(st.out =~= st.out.subrange(0, st.out.len() as int));
    if stmts.len() == 0 {
    } else {
        lemma_node_output(st, stmts[0], depth, fuel);
        let st1 = eval_node_spec(st, stmts[0], depth, fuel).0;
        lemma_stmts_output(st1, stmts.skip(1), depth, fuel);
        let st2 = eval_stmts_spec(st1, stmts.skip(1), depth, fuel).0;
        lemma_prefix_trans(st.out, st1.out, st2.out);
    }
}

} // verus!
