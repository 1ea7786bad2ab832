//! The scope stack and direct evaluation of hand-built trees.

use neo_script::ast::{Block, Node, OpTag};
use neo_script::eval::evaluate;
use neo_script::state::{Binding, Context};

#[test]
fn bindings_live_in_the_innermost_frame() {
    let mut ctx = Context::new();
    ctx.bind_innermost(&b"x".to_vec(), Binding { mutable: true, value: 7 });
    ctx.push_scope();
    ctx.bind_innermost(&b"x".to_vec(), Binding { mutable: false, value: 9 });
    let inner = ctx.current_scope().lookup(&b"x".to_vec());
    assert_eq!(inner, Some(Binding { mutable: false, value: 9 }));
    ctx.pop_scope();
    let outer = ctx.current_scope().lookup(&b"x".to_vec());
    assert_eq!(outer, Some(Binding { mutable: true, value: 7 }));
}

#[test]
fn find_searches_innermost_to_outermost() {
    let mut ctx = Context::new();
    ctx.bind_innermost(&b"a".to_vec(), Binding { mutable: true, value: 1 });
    ctx.push_scope();
    ctx.bind_innermost(&b"b".to_vec(), Binding { mutable: true, value: 2 });
    assert_eq!(ctx.find(&b"a".to_vec()), Some((0, Binding { mutable: true, value: 1 })));
    assert_eq!(ctx.find(&b"b".to_vec()), Some((1, Binding { mutable: true, value: 2 })));
    assert_eq!(ctx.find(&b"c".to_vec()), None);
}

#[test]
fn rebinding_overwrites_within_one_frame() {
    let mut ctx = Context::new();
    ctx.bind_innermost(&b"x".to_vec(), Binding { mutable: true, value: 1 });
    ctx.bind_innermost(&b"x".to_vec(), Binding { mutable: true, value: 2 });
    assert_eq!(ctx.current_scope().lookup(&b"x".to_vec()), Some(Binding {
        mutable: true,
        value: 2,
    }));
    assert_eq!(ctx.current_scope().entries.len(), 1);
}

#[test]
fn hand_built_tree_evaluates() {
    // let n = 6; n * 7;
    let ast = Block {
        stmts: vec![
            Node::Bind(b"n".to_vec(), true, Box::new(Node::NumberLiteral(6))),
            Node::BinaryOp(
                OpTag::Mul,
                Box::new(Node::VariableRef(b"n".to_vec())),
                Box::new(Node::NumberLiteral(7)),
            ),
        ],
    };
    assert_eq!(evaluate(&ast), Ok(42));
}

#[test]
fn empty_node_evaluates_to_zero() {
    let ast = Block { stmts: vec![Node::Empty] };
    assert_eq!(evaluate(&ast), Ok(0));
}
