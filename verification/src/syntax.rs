//! The specification-level form of the syntax tree.
//!
//! The grammar in `parser` is defined over these types: names and literal
//! text as byte sequences, statement lists as sequences.  `deep` maps an
//! executable tree to its specification form, so the parser's contract can
//! say exactly which tree a source text yields.

use vstd::prelude::*;
use crate::ast::{Block, Node};

verus! {

broadcast use vstd::seq::axiom_seq_index_decreases, vstd::std_specs::vec::axiom_vec_decreases_to_view;

/// A specification-level block.
pub struct BlockS {
    pub stmts: Seq<NodeS>,
}

/// A specification-level node.
pub enum NodeS {
    NumberLiteral(i64),
    BinaryOp(crate::ast::OpTag, Box<NodeS>, Box<NodeS>),
    VariableRef(Seq<u8>),
    Bind(Seq<u8>, bool, Box<NodeS>),
    Assign(Seq<u8>, Box<NodeS>),
    If(Box<NodeS>, BlockS, BlockS),
    While(Box<NodeS>, BlockS),
    For(Box<NodeS>, Box<NodeS>, Box<NodeS>, BlockS),
    Print(Box<NodeS>),
    PrintLiteral(Seq<u8>),
    Block(BlockS),
    Empty,
}

impl Node {
    /// The specification-level form of this node.
    pub open spec fn deep(self) -> NodeS
        decreases self,
    {
        match self {
            Node::NumberLiteral(v) => NodeS::NumberLiteral(v),
            Node::BinaryOp(t, l, r) => NodeS::BinaryOp(
                t,
                Box::new((*l).deep()),
                Box::new((*r).deep()),
            ),
            Node::VariableRef(n) => NodeS::VariableRef(n@),
            Node::Bind(n, m, e) => NodeS::Bind(n@, m, Box::new((*e).deep())),
            Node::Assign(n, e) => NodeS::Assign(n@, Box::new((*e).deep())),
            Node::If(c, t, f) => NodeS::If(Box::new((*c).deep()), t.deep(), f.deep()),
            Node::While(c, b) => NodeS::While(Box::new((*c).deep()), b.deep()),
            Node::For(i, c, u, b) => NodeS::For(
                Box::new((*i).deep()),
                Box::new((*c).deep()),
                Box::new((*u).deep()),
                b.deep(),
            ),
            Node::Print(e) => NodeS::Print(Box::new((*e).deep())),
            Node::PrintLiteral(t) => NodeS::PrintLiteral(t@),
            Node::Block(b) => NodeS::Block(b.deep()),
            Node::Empty => NodeS::Empty,
        }
    }
}

/// The specification-level form of a statement sequence.
pub open spec fn seq_deep(s: Seq<Node>) -> Seq<NodeS>
    decreases s,
{
    if s.len() == 0 {
        Seq::empty()
    } else {
        seq![s[0].deep()].add(seq_deep(s.drop_first()))
    }
}

impl Block {
    /// The specification-level form of this block.
    pub open spec fn deep(self) -> BlockS
        decreases self,
    {
        BlockS { stmts: seq_deep(self.stmts@) }
    }
}

/// `seq_deep` maps the sequence element by element.
pub proof fn lemma_seq_deep(s: Seq<Node>)
    ensures
        seq_deep(s).len() == s.len(),
        forall|i: int| 0 <= i < s.len() ==> seq_deep(s)[i] == s[i].deep(),
    decreases s.len(),
{
    if s.len() > 0 {
        lemma_seq_deep(s.drop_first());
    }
}

/// `seq_deep` maps a push to a push.
pub proof fn lemma_seq_deep_push(s: Seq<Node>, n: Node)
    ensures
        seq_deep(s.push(n)) == seq_deep(s).push(n.deep()),
{
    lemma_seq_deep(s.push(n));
    lemma_seq_deep(s);
    assert(seq_deep(s.push(n)) =~= seq_deep(s).push(n.deep()));
}

} // verus!
