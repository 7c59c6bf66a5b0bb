//! Code generation: a post-order walk of the expression tree that keeps every
//! intermediate value on the stack.
use vstd::prelude::*;
use crate::architecture::{
    add_arg, add_arg_text, div_arg, div_arg_text, eq_arg, eq_arg_text, gen_val, gen_val_text,
    less_arg, less_arg_text, less_or_eq_arg, less_or_eq_arg_text, mul_arg, mul_arg_text, neq_arg,
    neq_arg_text, pop_arg, pop_arg_text, pop_lvar, pop_lvar_text, pop_val, pop_val_text, push,
    push_text, sub_arg, sub_arg_text, Arch, Operand, Register,
};
use crate::error::CompileError;
use crate::tree::{NodeKind, Tree};

verus! {

/// Every assignment in the tree has a variable on its left.
pub open spec fn gen_ok(t: Tree) -> bool
    decreases t,
{
    match t {
        Tree::Num(_) => true,
        Tree::Val(_) => true,
        Tree::Node(kind, lhs, rhs) => if kind == NodeKind::Assign {
            (*lhs is Val) && gen_ok(*rhs)
        } else {
            gen_ok(*lhs) && gen_ok(*rhs)
        },
    }
}

/// The instructions that apply an operator to R0 and R1, leaving the result in R0.
pub open spec fn op_text(arch: Arch, kind: NodeKind) -> Seq<char> {
    match kind {
        NodeKind::Equality => eq_arg_text(arch),
        NodeKind::Nonequality => neq_arg_text(arch),
        NodeKind::Less => less_arg_text(arch),
        NodeKind::LessOrEqual => less_or_eq_arg_text(arch),
        NodeKind::Add => add_arg_text(arch),
        NodeKind::Sub => sub_arg_text(arch),
        NodeKind::Mul => mul_arg_text(arch),
        NodeKind::Div => div_arg_text(arch),
        NodeKind::Assign => Seq::empty(),
    }
}

/// The code for a tree: it leaves the tree's value pushed on the stack.
pub open spec fn gen_text(arch: Arch, t: Tree) -> Seq<char>
    decreases t,
{
    match t {
        Tree::Num(n) => push_text(arch, Operand::Num(n)),
        Tree::Val(offset) => gen_val_text(arch, offset) + pop_val_text(arch),
        Tree::Node(kind, lhs, rhs) => if kind == NodeKind::Assign {
            match *lhs {
                Tree::Val(offset) => gen_val_text(arch, offset) + gen_text(arch, *rhs)
                    + pop_lvar_text(arch),
                _ => Seq::empty(),
            }
        } else {
            gen_text(arch, *lhs) + gen_text(arch, *rhs) + pop_arg_text(arch) + op_text(arch, kind)
                + push_text(arch, Operand::Register(Register::R0))
        },
    }
}

fn operation(arch: Arch, kind: NodeKind) -> (r: String)
    requires
        kind != NodeKind::Assign,
    ensures
        r@ == op_text(arch, kind),
{
    match kind {
        NodeKind::Equality => eq_arg(arch),
        NodeKind::Nonequality => neq_arg(arch),
        NodeKind::Less => less_arg(arch),
        NodeKind::LessOrEqual => less_or_eq_arg(arch),
        NodeKind::Add => add_arg(arch),
        NodeKind::Sub => sub_arg(arch),
        NodeKind::Mul => mul_arg(arch),
        _ => div_arg(arch),
    }
}

fn generate_val(arch: Arch, assembly: &mut String, offset: usize)
    ensures
        final(assembly)@ == old(assembly)@ + gen_val_text(arch, offset),
{
    assembly.append(gen_val(arch, offset).as_str());
}

/// Appends the code for one tree.
#[verifier::rlimit(40)]
pub fn generate_assembly(arch: Arch, assembly: &mut String, tree: &Tree) -> (r: Result<(), CompileError>)
    ensures
        r is Ok <==> gen_ok(*tree),
        r is Err ==> r == Err::<(), CompileError>(CompileError::AssignToNonVariable),
        r is Ok ==> final(assembly)@ == old(assembly)@ + gen_text(arch, *tree),
    decreases tree,
{
    match tree {
        Tree::Num(n) => {
            assembly.append(push(arch, Operand::Num(*n)).as_str());
            Ok(())
        },
        Tree::Val(offset) => {
            generate_val(arch, assembly, *offset);
            assembly.append(pop_val(arch).as_str());
            assert(assembly@ =~= old(assembly)@ + gen_text(arch, *tree));
            Ok(())
        },
        Tree::Node(kind, lhs, rhs) => {
            if *kind == NodeKind::Assign {
                match &**lhs {
                    Tree::Val(offset) => generate_val(arch, assembly, *offset),
                    _ => return Err(CompileError::AssignToNonVariable),
                }
                match generate_assembly(arch, assembly, &**rhs) {
                    Ok(()) => {},
                    Err(e) => return Err(e),
                }
                assembly.append(pop_lvar(arch).as_str());
                assert(assembly@ =~= old(assembly)@ + gen_text(arch, *tree));
                return Ok(());
            }
            match generate_assembly(arch, assembly, &**lhs) {
                Ok(()) => {},
                Err(e) => return Err(e),
            }
            match generate_assembly(arch, assembly, &**rhs) {
                Ok(()) => {},
                Err(e) => return Err(e),
            }
            assembly.append(pop_arg(arch).as_str());
            assembly.append(operation(arch, *kind).as_str());
            assembly.append(push(arch, Operand::Register(Register::R0)).as_str());
            assert(assembly@ =~= old(assembly)@ + gen_text(arch, *tree));
            Ok(())
        },
    }
}

} // verus!
