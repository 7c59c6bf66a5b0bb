//! The expression tree that the parser builds and the generator walks.
use vstd::prelude::*;
use crate::lexer::{can_resolve, resolve, Lexer};
use crate::token::{Ident, NumType};

verus! {

#[derive(Debug, PartialEq, Eq, Structural, Clone, Copy)]
pub enum NodeKind {
    Assign,
    Equality,
    Nonequality,
    Less,
    LessOrEqual,
    Add,
    Sub,
    Mul,
    Div,
}

#[derive(Debug, PartialEq, Eq)]
pub enum Tree {
    /// A number literal.
    Num(NumType),
    /// A variable, by the offset of its slot below the frame base.
    Val(usize),
    /// A binary operation on two subtrees.
    Node(NodeKind, Box<Tree>, Box<Tree>),
}

impl Tree {
    pub fn new_tree(kind: NodeKind, lhs: Tree, rhs: Tree) -> (r: Tree)
        ensures
            r == Tree::Node(kind, Box::new(lhs), Box::new(rhs)),
    {
        Tree::Node(kind, Box::new(lhs), Box::new(rhs))
    }

    pub fn new_num(num: NumType) -> (r: Tree)
        ensures
            r == Tree::Num(num),
    {
        Tree::Num(num)
    }

    /// A variable reference: the lexer's table gives the name its slot.
    pub fn new_val(i: Ident, lexer: &mut Lexer) -> (r: Tree)
        requires
            old(lexer).wf(),
            can_resolve(old(lexer).names(), i.name@),
        ensures
            final(lexer).wf(),
            final(lexer).source() == old(lexer).source(),
            final(lexer).cursor() == old(lexer).cursor(),
            final(lexer).names() == resolve(old(lexer).names(), i.name@).1,
            r == Tree::Val(resolve(old(lexer).names(), i.name@).0 as usize),
    {
        Tree::Val(lexer.calc_offset(i))
    }
}

} // verus!
