//! What the generated code does: each tree's code is a sequence of backend
//! steps, and running those steps on a stack machine pushes the tree's value.
use vstd::prelude::*;
use crate::architecture::{
    gen_val_text, pop_arg_text, pop_lvar_text, pop_val_text, push_text, stmt_epilogue_text, Arch,
    Operand, Register,
};
use crate::generator::{gen_ok, gen_text, op_text};
use crate::statements_text;
use crate::tree::{NodeKind, Tree};

verus! {

/// One operation of the backend surface, as the generator uses it.
pub enum Step {
    /// Push a number.
    Imm(usize),
    /// Push the address of the slot `offset` bytes below the frame base.
    SlotAddr(usize),
    /// Replace the address on top of the stack by the value stored there.
    Load,
    /// Pop a value and an address, store the value there, push the value.
    Store,
    /// Pop the right operand into the second register, the left one into the accumulator.
    PopArgs,
    /// Apply an operator to the accumulator and the second register, into the accumulator.
    Apply(NodeKind),
    /// Push the accumulator.
    PushAcc,
    /// Pop the top of the stack into the accumulator: the end of a statement.
    Discard,
}

pub open spec fn step_text(arch: Arch, st: Step) -> Seq<char> {
    match st {
        Step::Imm(n) => push_text(arch, Operand::Num(n)),
        Step::SlotAddr(offset) => gen_val_text(arch, offset),
        Step::Load => pop_val_text(arch),
        Step::Store => pop_lvar_text(arch),
        Step::PopArgs => pop_arg_text(arch),
        Step::Apply(kind) => op_text(arch, kind),
        Step::PushAcc => push_text(arch, Operand::Register(Register::R0)),
        Step::Discard => stmt_epilogue_text(arch),
    }
}

pub open spec fn code_text(arch: Arch, code: Seq<Step>) -> Seq<char>
    decreases code.len(),
{
    if code.len() == 0 {
        Seq::empty()
    } else {
        code_text(arch, code.drop_last()) + step_text(arch, code.last())
    }
}

/// The steps of a tree's code.
pub open spec fn gen_code(t: Tree) -> Seq<Step>
    decreases t,
{
    match t {
        Tree::Num(n) => seq![Step::Imm(n)],
        Tree::Val(offset) => seq![Step::SlotAddr(offset), Step::Load],
        Tree::Node(kind, lhs, rhs) => if kind == NodeKind::Assign {
            match *lhs {
                Tree::Val(offset) => seq![Step::SlotAddr(offset)] + gen_code(*rhs) + seq![
                    Step::Store,
                ],
                _ => Seq::empty(),
            }
        } else {
            gen_code(*lhs) + gen_code(*rhs) + seq![Step::PopArgs, Step::Apply(kind), Step::PushAcc]
        },
    }
}

/// The steps of a sequence of statements: each tree's code, then the discard
/// of its value.
pub open spec fn program_code(trees: Seq<Tree>) -> Seq<Step>
    decreases trees.len(),
{
    if trees.len() == 0 {
        Seq::empty()
    } else {
        program_code(trees.drop_last()) + gen_code(trees.last()) + seq![Step::Discard]
    }
}

/// The state of the stack machine: the value stack (top last), the
/// accumulator and second register, memory, and the frame base.
pub struct Machine {
    pub stack: Seq<int>,
    pub acc: int,
    pub arg: int,
    pub mem: Map<int, int>,
    pub base: int,
}

/// One step; `op` gives what an operator step computes.
pub open spec fn step(st: Step, m: Machine, op: spec_fn(NodeKind, int, int) -> int) -> Machine {
    match st {
        Step::Imm(n) => Machine { stack: m.stack.push(n as int), ..m },
        Step::SlotAddr(offset) => Machine {
            stack: m.stack.push(m.base - offset),
            acc: m.base - offset,
            ..m
        },
        Step::Load => Machine {
            stack: m.stack.drop_last().push(m.mem[m.stack.last()]),
            acc: m.mem[m.stack.last()],
            ..m
        },
        Step::Store => {
            let value = m.stack.last();
            let rest = m.stack.drop_last();
            Machine {
                stack: rest.drop_last().push(value),
                acc: rest.last(),
                arg: value,
                mem: m.mem.insert(rest.last(), value),
                ..m
            }
        },
        Step::PopArgs => Machine {
            stack: m.stack.drop_last().drop_last(),
            acc: m.stack.drop_last().last(),
            arg: m.stack.last(),
            ..m
        },
        Step::Apply(kind) => Machine { acc: op(kind, m.acc, m.arg), ..m },
        Step::PushAcc => Machine { stack: m.stack.push(m.acc), ..m },
        Step::Discard => Machine { stack: m.stack.drop_last(), acc: m.stack.last(), ..m },
    }
}

pub open spec fn run(code: Seq<Step>, m: Machine, op: spec_fn(NodeKind, int, int) -> int) -> Machine
    decreases code.len(),
{
    if code.len() == 0 {
        m
    } else {
        step(code.last(), run(code.drop_last(), m, op), op)
    }
}

/// The value of a tree and the memory after it, with slots addressed below
/// `base`; `op` gives what each operator computes.
pub open spec fn eval(
    t: Tree,
    mem: Map<int, int>,
    base: int,
    op: spec_fn(NodeKind, int, int) -> int,
) -> (int, Map<int, int>)
    decreases t,
{
    match t {
        Tree::Num(n) => (n as int, mem),
        Tree::Val(offset) => (mem[base - offset], mem),
        Tree::Node(kind, lhs, rhs) => if kind == NodeKind::Assign {
            match *lhs {
                Tree::Val(offset) => {
                    let (v, m1) = eval(*rhs, mem, base, op);
                    (v, m1.insert(base - offset, v))
                },
                _ => (0, mem),
            }
        } else {
            let (a, m1) = eval(*lhs, mem, base, op);
            let (b, m2) = eval(*rhs, m1, base, op);
            (op(kind, a, b), m2)
        },
    }
}

/// Memory after a sequence of statements.
pub open spec fn mem_after(
    trees: Seq<Tree>,
    mem: Map<int, int>,
    base: int,
    op: spec_fn(NodeKind, int, int) -> int,
) -> Map<int, int>
    decreases trees.len(),
{
    if trees.len() == 0 {
        mem
    } else {
        eval(trees.last(), mem_after(trees.drop_last(), mem, base, op), base, op).1
    }
}

proof fn lemma_code_text_append(arch: Arch, a: Seq<Step>, b: Seq<Step>)
    ensures
        code_text(arch, a + b) == code_text(arch, a) + code_text(arch, b),
    decreases b.len(),
{
    if b.len() == 0 {
        assert(a + b =~= a);
        assert(code_text(arch, a) + Seq::<char>::empty() =~= code_text(arch, a));
    } else {
        assert((a + b).drop_last() =~= a + b.drop_last());
        assert((a + b).last() == b.last());
        lemma_code_text_append(arch, a, b.drop_last());
        let x = code_text(arch, a);
        let y = code_text(arch, b.drop_last());
        let z = step_text(arch, b.last());
        assert(x + y + z =~= x + (y + z));
    }
}

proof fn lemma_run_append(a: Seq<Step>, b: Seq<Step>, m: Machine, op: spec_fn(NodeKind, int, int) -> int)
    ensures
        run(a + b, m, op) == run(b, run(a, m, op), op),
    decreases b.len(),
{
    if b.len() == 0 {
        assert(a + b =~= a);
    } else {
        assert((a + b).drop_last() =~= a + b.drop_last());
        assert((a + b).last() == b.last());
        lemma_run_append(a, b.drop_last(), m, op);
    }
}

proof fn lemma_short_text(arch: Arch, x: Step, y: Step, z: Step)
    ensures
        code_text(arch, seq![x]) == step_text(arch, x),
        code_text(arch, seq![x, y]) == step_text(arch, x) + step_text(arch, y),
        code_text(arch, seq![x, y, z]) == step_text(arch, x) + step_text(arch, y) + step_text(
            arch,
            z,
        ),
{
    let (c1, c2, c3) = (seq![x], seq![x, y], seq![x, y, z]);
    assert(c1.drop_last() =~= Seq::<Step>::empty() && c1.last() == x);
    assert(c2.drop_last() =~= c1 && c2.last() == y);
    assert(c3.drop_last() =~= c2 && c3.last() == z);
    assert(code_text(arch, Seq::<Step>::empty()) == Seq::<char>::empty());
    assert(Seq::<char>::empty() + step_text(arch, x) =~= step_text(arch, x));
    assert(code_text(arch, c1) == step_text(arch, x));
    assert(code_text(arch, c2) == step_text(arch, x) + step_text(arch, y));
}

proof fn lemma_short_run(x: Step, y: Step, z: Step, m: Machine, op: spec_fn(NodeKind, int, int) -> int)
    ensures
        run(seq![x], m, op) == step(x, m, op),
        run(seq![x, y], m, op) == step(y, step(x, m, op), op),
        run(seq![x, y, z], m, op) == step(z, step(y, step(x, m, op), op), op),
{
    let (c1, c2, c3) = (seq![x], seq![x, y], seq![x, y, z]);
    assert(c1.drop_last() =~= Seq::<Step>::empty() && c1.last() == x);
    assert(c2.drop_last() =~= c1 && c2.last() == y);
    assert(c3.drop_last() =~= c2 && c3.last() == z);
    assert(run(Seq::<Step>::empty(), m, op) == m);
    assert(run(c1, m, op) == step(x, m, op));
    assert(run(c2, m, op) == step(y, step(x, m, op), op));
}

proof fn lemma_text_binary(arch: Arch, kind: NodeKind, l: Seq<Step>, r: Seq<Step>)
    ensures
        code_text(arch, l + r + seq![Step::PopArgs, Step::Apply(kind), Step::PushAcc])
            == code_text(arch, l) + code_text(arch, r) + pop_arg_text(arch) + op_text(arch, kind)
            + push_text(arch, Operand::Register(Register::R0)),
{
    let tail = seq![Step::PopArgs, Step::Apply(kind), Step::PushAcc];
    lemma_code_text_append(arch, l + r, tail);
    lemma_code_text_append(arch, l, r);
    lemma_short_text(arch, Step::PopArgs, Step::Apply(kind), Step::PushAcc);
    let a = code_text(arch, l);
    let b = code_text(arch, r);
    let p = pop_arg_text(arch);
    let o = op_text(arch, kind);
    let u = push_text(arch, Operand::Register(Register::R0));
    assert(a + b + (p + o + u) =~= a + b + p + o + u);
}

/// The text emitted for a tree is exactly the text of its steps, one after another.
pub proof fn lemma_text_is_steps(arch: Arch, t: Tree)
    requires
        gen_ok(t),
    ensures
        gen_text(arch, t) == code_text(arch, gen_code(t)),
    decreases t,
{
    match t {
        Tree::Num(n) => {
            assert(gen_code(t) == seq![Step::Imm(n)]);
            lemma_short_text(arch, Step::Imm(n), Step::Load, Step::Load);
        },
        Tree::Val(offset) => {
            assert(gen_code(t) == seq![Step::SlotAddr(offset), Step::Load]);
            lemma_short_text(arch, Step::SlotAddr(offset), Step::Load, Step::Load);
        },
        Tree::Node(kind, lhs, rhs) => {
            if kind == NodeKind::Assign {
                let offset = lhs->Val_0;
                let head = seq![Step::SlotAddr(offset)];
                let tail = seq![Step::Store];
                assert(gen_code(t) == head + gen_code(*rhs) + tail);
                lemma_text_is_steps(arch, *rhs);
                lemma_code_text_append(arch, head + gen_code(*rhs), tail);
                lemma_code_text_append(arch, head, gen_code(*rhs));
                lemma_short_text(arch, Step::SlotAddr(offset), Step::Load, Step::Load);
                lemma_short_text(arch, Step::Store, Step::Load, Step::Load);
            } else {
                let tail = seq![Step::PopArgs, Step::Apply(kind), Step::PushAcc];
                assert(gen_code(t) == gen_code(*lhs) + gen_code(*rhs) + tail);
                lemma_text_is_steps(arch, *lhs);
                lemma_text_is_steps(arch, *rhs);
                lemma_text_binary(arch, kind, gen_code(*lhs), gen_code(*rhs));
            }
        },
    }
}

/// Running a tree's code pushes the tree's value on top of the stack, leaves
/// the stack below untouched, and leaves memory as the tree's assignments do;
/// this holds whatever the operator steps compute, as long as the tree itself
/// uses that meaning.
pub proof fn lemma_code_computes_value(t: Tree, m: Machine, op: spec_fn(NodeKind, int, int) -> int)
    requires
        gen_ok(t),
    ensures
        run(gen_code(t), m, op).stack == m.stack.push(eval(t, m.mem, m.base, op).0),
        run(gen_code(t), m, op).mem == eval(t, m.mem, m.base, op).1,
        run(gen_code(t), m, op).base == m.base,
    decreases t,
{
    match t {
        Tree::Num(n) => {
            assert(gen_code(t) == seq![Step::Imm(n)]);
            lemma_short_run(Step::Imm(n), Step::Load, Step::Load, m, op);
        },
        Tree::Val(offset) => {
            assert(gen_code(t) == seq![Step::SlotAddr(offset), Step::Load]);
            lemma_short_run(Step::SlotAddr(offset), Step::Load, Step::Load, m, op);
            let m1 = step(Step::SlotAddr(offset), m, op);
            assert(m1.stack.drop_last() =~= m.stack);
        },
        Tree::Node(kind, lhs, rhs) => {
            if kind == NodeKind::Assign {
                let offset = lhs->Val_0;
                let head = seq![Step::SlotAddr(offset)];
                let tail = seq![Step::Store];
                assert(gen_code(t) == head + gen_code(*rhs) + tail);
                lemma_run_append(head + gen_code(*rhs), tail, m, op);
                lemma_run_append(head, gen_code(*rhs), m, op);
                lemma_short_run(Step::SlotAddr(offset), Step::Load, Step::Load, m, op);
                let m1 = step(Step::SlotAddr(offset), m, op);
                lemma_code_computes_value(*rhs, m1, op);
                let m2 = run(gen_code(*rhs), m1, op);
                lemma_short_run(Step::Store, Step::Load, Step::Load, m2, op);
                assert(m2.stack.drop_last() =~= m1.stack);
                assert(m1.stack.drop_last() =~= m.stack);
            } else {
                let tail = seq![Step::PopArgs, Step::Apply(kind), Step::PushAcc];
                assert(gen_code(t) == gen_code(*lhs) + gen_code(*rhs) + tail);
                lemma_run_append(gen_code(*lhs) + gen_code(*rhs), tail, m, op);
                lemma_run_append(gen_code(*lhs), gen_code(*rhs), m, op);
                lemma_code_computes_value(*lhs, m, op);
                let m1 = run(gen_code(*lhs), m, op);
                lemma_code_computes_value(*rhs, m1, op);
                let m2 = run(gen_code(*rhs), m1, op);
                lemma_short_run(Step::PopArgs, Step::Apply(kind), Step::PushAcc, m2, op);
                assert(m2.stack.drop_last() =~= m1.stack);
                assert(m1.stack.drop_last() =~= m.stack);
            }
        },
    }
}

/// The text emitted for a sequence of statements is exactly the text of their steps.
pub proof fn lemma_statements_are_steps(arch: Arch, trees: Seq<Tree>)
    requires
        forall|i: int| 0 <= i < trees.len() ==> gen_ok(#[trigger] trees[i]),
    ensures
        statements_text(arch, trees) == code_text(arch, program_code(trees)),
    decreases trees.len(),
{
    if trees.len() > 0 {
        let init = trees.drop_last();
        let last = trees.last();
        assert(gen_ok(trees[trees.len() - 1]));
        assert forall|i: int| 0 <= i < init.len() implies gen_ok(#[trigger] init[i]) by {
            assert(init[i] == trees[i]);
        }
        lemma_statements_are_steps(arch, init);
        lemma_text_is_steps(arch, last);
        let tail = seq![Step::Discard];
        lemma_code_text_append(arch, program_code(init) + gen_code(last), tail);
        lemma_code_text_append(arch, program_code(init), gen_code(last));
        lemma_short_text(arch, Step::Discard, Step::Load, Step::Load);
    }
}

/// Running the code of a sequence of statements leaves the stack as it was,
/// leaves memory as the statements' assignments do, and ends with the value of
/// the last statement in the accumulator: the value the program returns.
pub proof fn lemma_program_returns_last_value(
    trees: Seq<Tree>,
    m: Machine,
    op: spec_fn(NodeKind, int, int) -> int,
)
    requires
        forall|i: int| 0 <= i < trees.len() ==> gen_ok(#[trigger] trees[i]),
    ensures
        run(program_code(trees), m, op).stack == m.stack,
        run(program_code(trees), m, op).mem == mem_after(trees, m.mem, m.base, op),
        run(program_code(trees), m, op).base == m.base,
        trees.len() > 0 ==> run(program_code(trees), m, op).acc == eval(
            trees.last(),
            mem_after(trees.drop_last(), m.mem, m.base, op),
            m.base,
            op,
        ).0,
    decreases trees.len(),
{
    if trees.len() > 0 {
        let init = trees.drop_last();
        let last = trees.last();
        assert(gen_ok(trees[trees.len() - 1]));
        assert forall|i: int| 0 <= i < init.len() implies gen_ok(#[trigger] init[i]) by {
            assert(init[i] == trees[i]);
        }
        lemma_program_returns_last_value(init, m, op);
        let tail = seq![Step::Discard];
        lemma_run_append(program_code(init) + gen_code(last), tail, m, op);
        lemma_run_append(program_code(init), gen_code(last), m, op);
        let m1 = run(program_code(init), m, op);
        lemma_code_computes_value(last, m1, op);
        let m2 = run(gen_code(last), m1, op);
        lemma_short_run(Step::Discard, Step::Load, Step::Load, m2, op);
        assert(m2.stack.drop_last() =~= m.stack);
    }
}

} // verus!
