//! The executable evaluator.
//!
//! Every function here is proved to return exactly the state and result of
//! the specification-level interpreter in `semantics`, for every program
//! and every starting state.  Loops never re-copy the tree: the condition,
//! update and body of a loop are evaluated by reference against the same
//! owned nodes on every iteration.

use vstd::prelude::*;
use crate::ast::{Block, Node};
use crate::errors::{res_view, RuntimeError};
use crate::ops::calc_op;
use crate::semantics::{
    eval_block_spec, eval_for_spec, eval_node_spec, eval_stmts_spec, eval_while_spec,
};
use crate::state::{blank_state, out_view, Binding, Context, OutputItem};

verus! {

/// The depth budget a plain `evaluate` call runs with: how deeply nested a
/// program may be before evaluation reports `RecursionLimitExceeded`
/// instead of exhausting the machine stack.
pub const DEFAULT_MAX_DEPTH: u64 = 256;

/// Evaluates one node.  Matches `eval_node_spec` exactly.
#[verifier::loop_isolation(false)]
fn eval_node(ctx: &mut Context, n: &Node, depth: u64, fuel: u64) -> (res: Result<
    i64,
    RuntimeError,
>)
    requires
        old(ctx)@.frames.len() >= 1,
    ensures
        final(ctx)@ == eval_node_spec(old(ctx)@, *n, depth as nat, fuel as nat).0,
        res_view(res) == eval_node_spec(old(ctx)@, *n, depth as nat, fuel as nat).1,
        final(ctx)@.frames.len() == old(ctx)@.frames.len(),
    decreases fuel, depth, 3int, 0int,
{
    if depth == 0 {
        return Err(RuntimeError::RecursionLimitExceeded);
    }
    match n {
        Node::NumberLiteral(v) => Ok(*v),
        Node::BinaryOp(tag, l, r) => {
            let lv = match eval_node(ctx, l, depth - 1, fuel) {
                Err(e) => {
                    return Err(e);
                },
                Ok(v) => v,
            };
            let rv = match eval_node(ctx, r, depth - 1, fuel) {
                Err(e) => {
                    return Err(e);
                },
                Ok(v) => v,
            };
            calc_op(*tag, lv, rv)
        },
        Node::VariableRef(name) => match ctx.find(name) {
            Some(kb) => Ok(kb.1.value),
            None => Err(RuntimeError::VariableNotFound(vstd::slice::slice_to_vec(
                name.as_slice(),
            ))),
        },
        Node::Bind(name, mutable, e) => {
            let v = match eval_node(ctx, e, depth - 1, fuel) {
                Err(err) => {
                    return Err(err);
                },
                Ok(v) => v,
            };
            ctx.bind_innermost(name, Binding { mutable: *mutable, value: v });
            Ok(v)
        },
        Node::Assign(name, e) => {
            let kb = match ctx.find(name) {
                None => {
                    return Err(RuntimeError::VariableNotFound(vstd::slice::slice_to_vec(
                        name.as_slice(),
                    )));
                },
                Some(kb) => kb,
            };
            if !kb.1.mutable {
                return Err(RuntimeError::ImmutableAssignment(vstd::slice::slice_to_vec(
                    name.as_slice(),
                )));
            }
            let v = match eval_node(ctx, e, depth - 1, fuel) {
                Err(err) => {
                    return Err(err);
                },
                Ok(v) => v,
            };
            ctx.set_value_in(kb.0, name, v);
            Ok(v)
        },
        Node::If(cond, cons, alt) => {
            let cv = match eval_node(ctx, cond, depth - 1, fuel) {
                Err(e) => {
                    return Err(e);
                },
                Ok(v) => v,
            };
            if cv > 0 {
                eval_block(ctx, cons, depth, fuel)
            } else {
                eval_block(ctx, alt, depth, fuel)
            }
        },
        Node::While(cond, body) => {
            let ghost st0 = ctx@;
            let mut f = fuel;
            loop
                invariant
                    ctx@.frames.len() == st0.frames.len(),
                    f <= fuel,
                    eval_while_spec(st0, *(*cond), *body, depth as nat, fuel as nat)
                        == eval_while_spec(ctx@, *(*cond), *body, depth as nat, f as nat),
                decreases f,
            {
                if f == 0 {
                    return Err(RuntimeError::RecursionLimitExceeded);
                }
                let cv = match eval_node(ctx, cond, depth - 1, f) {
                    Err(e) => {
                        return Err(e);
                    },
                    Ok(v) => v,
                };
                if cv <= 0 {
                    return Ok(0);
                }
                match eval_block(ctx, body, depth, f) {
                    Err(e) => {
                        return Err(e);
                    },
                    Ok(_) => {},
                }
                f = f - 1;
            }
        },
        Node::For(init, cond, update, body) => {
            match eval_node(ctx, init, depth - 1, fuel) {
                Err(e) => {
                    return Err(e);
                },
                Ok(_) => {},
            }
            let ghost st0 = ctx@;
            let mut f = fuel;
            loop
                invariant
                    ctx@.frames.len() == st0.frames.len(),
                    f <= fuel,
                    eval_for_spec(st0, *(*cond), *(*update), *body, depth as nat, fuel as nat)
                        == eval_for_spec(
                        ctx@,
                        *(*cond),
                        *(*update),
                        *body,
                        depth as nat,
                        f as nat,
                    ),
                decreases f,
            {
                if f == 0 {
                    return Err(RuntimeError::RecursionLimitExceeded);
                }
                let cv = match eval_node(ctx, cond, depth - 1, f) {
                    Err(e) => {
                        return Err(e);
                    },
                    Ok(v) => v,
                };
                if cv <= 0 {
                    return Ok(0);
                }
                match eval_block(ctx, body, depth, f) {
                    Err(e) => {
                        return Err(e);
                    },
                    Ok(_) => {},
                }
                match eval_node(ctx, update, depth - 1, f) {
                    Err(e) => {
                        return Err(e);
                    },
                    Ok(_) => {},
                }
                f = f - 1;
            }
        },
        Node::Print(e) => {
            let v = match eval_node(ctx, e, depth - 1, fuel) {
                Err(err) => {
                    return Err(err);
                },
                Ok(v) => v,
            };
            ctx.emit(OutputItem::Value(v));
            Ok(0)
        },
        Node::PrintLiteral(t) => {
            ctx.emit(OutputItem::Text(vstd::slice::slice_to_vec(t.as_slice())));
            Ok(0)
        },
        Node::Block(b) => eval_block(ctx, b, depth, fuel),
        Node::Empty => Ok(0),
    }
}

/// Evaluates a block.  Matches `eval_block_spec` exactly: the frame pushed
/// on entry is popped again on both the success and the error path.
#[verifier::loop_isolation(false)]
fn eval_block(ctx: &mut Context, b: &Block, depth: u64, fuel: u64) -> (res: Result<
    i64,
    RuntimeError,
>)
    ensures
        final(ctx)@ == eval_block_spec(old(ctx)@, *b, depth as nat, fuel as nat).0,
        res_view(res) == eval_block_spec(old(ctx)@, *b, depth as nat, fuel as nat).1,
        final(ctx)@.frames.len() == old(ctx)@.frames.len(),
    decreases fuel, depth, 1int, 0int,
{
    if depth == 0 {
        return Err(RuntimeError::RecursionLimitExceeded);
    }
    ctx.push_scope();
    let ghost stp = ctx@;
    let mut last: i64 = 0;
    let mut i: usize = 0;
    proof {
        assert(b.stmts@.skip(0) =~= b.stmts@);
    }
    while i < b.stmts.len()
        invariant
            i <= b.stmts@.len(),
            ctx@.frames.len() == stp.frames.len(),
            eval_stmts_spec(stp, b.stmts@, (depth - 1) as nat, fuel as nat) == (if i
                < b.stmts@.len() {
                eval_stmts_spec(
                    ctx@,
                    b.stmts@.skip(i as int),
                    (depth - 1) as nat,
                    fuel as nat,
                )
            } else {
                (ctx@, Ok::<i64, crate::errors::RuntimeErrorSpec>(last))
            }),
        decreases b.stmts@.len() - i,
    {
        proof {
            assert(b.stmts@.skip(i as int)[0] == b.stmts@[i as int]);
            assert(b.stmts@.skip(i as int).skip(1) =~= b.stmts@.skip(i as int + 1));
        }
        let r = eval_node(ctx, &b.stmts[i], depth - 1, fuel);
        match r {
            Err(e) => {
                ctx.pop_scope();
                return Err(e);
            },
            Ok(v) => {
                last = v;
            },
        }
        i += 1;
    }
    ctx.pop_scope();
    Ok(last)
}

/// Runs a program with explicit budgets: `depth` bounds how deeply nested
/// evaluation may go, `fuel` bounds how many loop iterations it may take;
/// exceeding either yields `RecursionLimitExceeded`.  Returns everything
/// the program wrote to the output channel — also when the run failed,
/// since output written before a failure is not retracted — together with
/// the program's result.
pub fn evaluate_with_limits(ast: &Block, depth: u64, fuel: u64) -> (r: (
    Vec<OutputItem>,
    Result<i64, RuntimeError>,
))
    ensures
        out_view(r.0) == eval_block_spec(blank_state(), *ast, depth as nat, fuel as nat).0.out,
        res_view(r.1) == eval_block_spec(blank_state(), *ast, depth as nat, fuel as nat).1,
{
    let mut ctx = Context { scopes: Vec::new(), output: Vec::new() };
    proof {
        assert(ctx@.frames =~= blank_state().frames);
        assert(ctx@.out =~= blank_state().out);
    }
    let res = eval_block(&mut ctx, ast, depth, fuel);
    (ctx.output, res)
}

/// Runs a program under the default budgets and returns the output channel
/// together with the result.
pub fn evaluate_with_output(ast: &Block) -> (r: (Vec<OutputItem>, Result<i64, RuntimeError>))
    ensures
        out_view(r.0) == eval_block_spec(
            blank_state(),
            *ast,
            DEFAULT_MAX_DEPTH as nat,
            u64::MAX as nat,
        ).0.out,
        res_view(r.1) == eval_block_spec(
            blank_state(),
            *ast,
            DEFAULT_MAX_DEPTH as nat,
            u64::MAX as nat,
        ).1,
{
    evaluate_with_limits(ast, DEFAULT_MAX_DEPTH, u64::MAX)
}

/// Runs a program: one fresh context, one global frame, and a purely
/// recursive walk of the tree.  The result is the last top-level
/// statement's value, or the first error raised anywhere in the run.
pub fn evaluate(ast: &Block) -> (r: Result<i64, RuntimeError>)
    ensures
        res_view(r) == eval_block_spec(
            blank_state(),
            *ast,
            DEFAULT_MAX_DEPTH as nat,
            u64::MAX as nat,
        ).1,
{
    let (_out, res) = evaluate_with_output(ast);
    res
}

} // verus!
