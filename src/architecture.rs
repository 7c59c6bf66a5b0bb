//! The two backends: instruction templates for x86-64 (Intel syntax) and
//! AArch64, over registers named by logical role.
use vstd::prelude::*;
use crate::chars::{decimal, push_decimal};
use crate::token::NumType;

verus! {

/// The target instruction set, chosen once per compilation.
#[derive(Debug, PartialEq, Eq, Structural, Clone, Copy)]
pub enum Arch {
    X86_64,
    Aarch64,
}

#[derive(Debug, PartialEq, Eq, Structural, Clone, Copy)]
pub enum Register {
    /// rax, x0: the accumulator
    R0,
    /// rdi, x1: the second operand
    R1,
    /// rsi, x2
    R2,
    /// rdx, x3
    R3,
    /// rcx, x4
    R4,
    /// rbp, x5: the frame base on x86-64
    R5,
    /// rsp, x6: the stack top on x86-64
    R6,
    /// rbx, x7
    R7,
    /// r8, x8: the frame base on AArch64
    R8,
    /// r9, x9: the stack top on AArch64
    R9,
    /// r10, x10
    R10,
    /// r11, x11
    R11,
    /// r12, x12
    R12,
    /// r13, sp
    R13,
    /// r14, lr
    R14,
    /// r15, pc
    R15,
}

#[derive(Debug, PartialEq, Eq, Structural, Clone, Copy)]
pub enum Operand {
    Num(NumType),
    Register(Register),
    Address(Register),
}

pub open spec fn reg_name(arch: Arch, r: Register) -> Seq<char> {
    match arch {
        Arch::X86_64 => match r {
            Register::R0 => "rax"@,
            Register::R1 => "rdi"@,
            Register::R2 => "rsi"@,
            Register::R3 => "rdx"@,
            Register::R4 => "rcx"@,
            Register::R5 => "rbp"@,
            Register::R6 => "rsp"@,
            Register::R7 => "rbx"@,
            Register::R8 => "r8"@,
            Register::R9 => "r9"@,
            Register::R10 => "r10"@,
            Register::R11 => "r11"@,
            Register::R12 => "r12"@,
            Register::R13 => "r13"@,
            Register::R14 => "r14"@,
            Register::R15 => "r15"@,
        },
        Arch::Aarch64 => match r {
            Register::R0 => "x0"@,
            Register::R1 => "x1"@,
            Register::R2 => "x2"@,
            Register::R3 => "x3"@,
            Register::R4 => "x4"@,
            Register::R5 => "x5"@,
            Register::R6 => "x6"@,
            Register::R7 => "x7"@,
            Register::R8 => "x8"@,
            Register::R9 => "x9"@,
            Register::R10 => "x10"@,
            Register::R11 => "x11"@,
            Register::R12 => "x12"@,
            Register::R13 => "sp"@,
            Register::R14 => "lr"@,
            Register::R15 => "pc"@,
        },
    }
}

/// How an operand is written: a register by name, memory as `[reg]`, a number
/// in decimal (with `#` on AArch64).
pub open spec fn operand_text(arch: Arch, op: Operand) -> Seq<char> {
    match op {
        Operand::Register(r) => reg_name(arch, r),
        Operand::Address(r) => "["@ + reg_name(arch, r) + "]"@,
        Operand::Num(n) => match arch {
            Arch::X86_64 => decimal(n as nat),
            Arch::Aarch64 => "#"@ + decimal(n as nat),
        },
    }
}

/// `\t<name> a, b\n`
pub open spec fn two_op(name: Seq<char>, a: Seq<char>, b: Seq<char>) -> Seq<char> {
    "\t"@ + name + " "@ + a + ", "@ + b + "\n"@
}

/// `\t<name> a, a, b\n`
pub open spec fn three_op(name: Seq<char>, a: Seq<char>, b: Seq<char>) -> Seq<char> {
    "\t"@ + name + " "@ + a + ", "@ + a + ", "@ + b + "\n"@
}

pub open spec fn mov_text(arch: Arch, rd: Operand, src: Operand) -> Seq<char> {
    two_op("mov"@, operand_text(arch, rd), operand_text(arch, src))
}

pub open spec fn ldr_text(arch: Arch, rd: Operand, rn: Operand) -> Seq<char> {
    two_op("ldr"@, operand_text(arch, rd), operand_text(arch, rn))
}

pub open spec fn str_text(arch: Arch, rd: Operand, rn: Operand) -> Seq<char> {
    two_op("str"@, operand_text(arch, rd), operand_text(arch, rn))
}

/// `rd <- rd + rn`
pub open spec fn add_text(arch: Arch, rd: Operand, rn: Operand) -> Seq<char> {
    match arch {
        Arch::X86_64 => two_op("add"@, operand_text(arch, rd), operand_text(arch, rn)),
        Arch::Aarch64 => three_op("add"@, operand_text(arch, rd), operand_text(arch, rn)),
    }
}

/// `rd <- rd - rn`
pub open spec fn sub_text(arch: Arch, rd: Operand, rn: Operand) -> Seq<char> {
    match arch {
        Arch::X86_64 => two_op("sub"@, operand_text(arch, rd), operand_text(arch, rn)),
        Arch::Aarch64 => three_op("sub"@, operand_text(arch, rd), operand_text(arch, rn)),
    }
}

/// `rd <- rd * rn`
pub open spec fn mul_text(arch: Arch, rd: Operand, rn: Operand) -> Seq<char> {
    match arch {
        Arch::X86_64 => two_op("imul"@, operand_text(arch, rd), operand_text(arch, rn)),
        Arch::Aarch64 => three_op("mul"@, operand_text(arch, rd), operand_text(arch, rn)),
    }
}

/// `rd <- rd / rn`; on x86-64 the dividend is always rax.
pub open spec fn div_text(arch: Arch, rd: Operand, rn: Operand) -> Seq<char> {
    match arch {
        Arch::X86_64 => "\tcqo\n\tidiv "@ + operand_text(arch, rn) + "\n"@,
        Arch::Aarch64 => three_op("sdiv"@, operand_text(arch, rd), operand_text(arch, rn)),
    }
}

/// Compares `rd` with `rn` and sets `rd` to 1 when the condition holds, else 0.
/// `x86` names the x86-64 `set` suffix, `arm` the AArch64 condition code.
pub open spec fn cmp_text(
    arch: Arch,
    x86: Seq<char>,
    arm: Seq<char>,
    rd: Operand,
    rn: Operand,
) -> Seq<char> {
    match arch {
        Arch::X86_64 => "\tcmp "@ + operand_text(arch, rd) + ", "@ + operand_text(arch, rn)
            + "\n\tset"@ + x86 + " al\n\tmovzb "@ + operand_text(arch, rd) + ", al\n"@,
        Arch::Aarch64 => "\tcmp "@ + operand_text(arch, rd) + ", "@ + operand_text(arch, rn)
            + "\n\tcset "@ + operand_text(arch, rd) + ", "@ + arm + "\n"@,
    }
}

pub open spec fn push_text(arch: Arch, rd: Operand) -> Seq<char> {
    match arch {
        Arch::X86_64 => "\tpush "@ + operand_text(arch, rd) + "\n"@,
        Arch::Aarch64 => sub_text(arch, Operand::Register(Register::R9), Operand::Num(8))
            + mov_text(arch, Operand::Register(Register::R1), rd) + str_text(
            arch,
            Operand::Register(Register::R1),
            Operand::Address(Register::R9),
        ),
    }
}

pub open spec fn pop_text(arch: Arch, rd: Operand) -> Seq<char> {
    match arch {
        Arch::X86_64 => "\tpop "@ + operand_text(arch, rd) + "\n"@,
        Arch::Aarch64 => ldr_text(arch, rd, Operand::Address(Register::R9)) + add_text(
            arch,
            Operand::Register(Register::R9),
            Operand::Num(8),
        ),
    }
}

/// The frame base and stack top registers of a backend.
pub open spec fn frame_base(arch: Arch) -> Register {
    match arch {
        Arch::X86_64 => Register::R5,
        Arch::Aarch64 => Register::R8,
    }
}

pub open spec fn stack_top(arch: Arch) -> Register {
    match arch {
        Arch::X86_64 => Register::R6,
        Arch::Aarch64 => Register::R9,
    }
}

pub open spec fn reg(r: Register) -> Operand {
    Operand::Register(r)
}

pub open spec fn prologue_text(arch: Arch) -> Seq<char> {
    match arch {
        Arch::X86_64 => ".intel_syntax noprefix\n"@,
        Arch::Aarch64 => ".text\n"@,
    }
}

pub open spec fn main_text(arch: Arch) -> Seq<char> {
    match arch {
        Arch::X86_64 => ".globl main\nmain:\n"@,
        Arch::Aarch64 => ".globl _main\n_main:\n"@,
    }
}

/// Saves the caller's frame base, starts a new frame and reserves `bytes` below it.
pub open spec fn allocate_text(arch: Arch, bytes: usize) -> Seq<char> {
    match arch {
        Arch::X86_64 => push_text(arch, reg(Register::R5)) + mov_text(
            arch,
            reg(Register::R5),
            reg(Register::R6),
        ) + sub_text(arch, reg(Register::R6), Operand::Num(bytes)),
        Arch::Aarch64 => mov_text(arch, reg(Register::R8), reg(Register::R13)) + mov_text(
            arch,
            reg(Register::R9),
            reg(Register::R13),
        ) + push_text(arch, reg(Register::R8)) + mov_text(
            arch,
            reg(Register::R8),
            reg(Register::R9),
        ) + sub_text(arch, reg(Register::R9), Operand::Num(bytes)),
    }
}

pub open spec fn stmt_epilogue_text(arch: Arch) -> Seq<char> {
    pop_text(arch, reg(Register::R0))
}

/// Restores the caller's frame and returns; the accumulator holds the result.
pub open spec fn epilogue_text(arch: Arch) -> Seq<char> {
    mov_text(arch, reg(stack_top(arch)), reg(frame_base(arch))) + pop_text(
        arch,
        reg(frame_base(arch)),
    ) + "\tret\n"@
}

/// Pushes the address of the slot `offset` bytes below the frame base.
pub open spec fn gen_val_text(arch: Arch, offset: usize) -> Seq<char> {
    mov_text(arch, reg(Register::R0), reg(frame_base(arch))) + sub_text(
        arch,
        reg(Register::R0),
        Operand::Num(offset),
    ) + push_text(arch, reg(Register::R0))
}

/// Replaces the address on top of the stack by the value stored there.
pub open spec fn pop_val_text(arch: Arch) -> Seq<char> {
    pop_text(arch, reg(Register::R0)) + match arch {
        Arch::X86_64 => mov_text(arch, reg(Register::R0), Operand::Address(Register::R0)),
        Arch::Aarch64 => ldr_text(arch, reg(Register::R0), Operand::Address(Register::R0)),
    } + push_text(arch, reg(Register::R0))
}

/// Pops a value and an address, stores the value there and pushes it again.
pub open spec fn pop_lvar_text(arch: Arch) -> Seq<char> {
    pop_text(arch, reg(Register::R1)) + pop_text(arch, reg(Register::R0)) + match arch {
        Arch::X86_64 => mov_text(arch, Operand::Address(Register::R0), reg(Register::R1)),
        Arch::Aarch64 => str_text(arch, reg(Register::R1), Operand::Address(Register::R0)),
    } + push_text(arch, reg(Register::R1))
}

/// Pops the right operand into R1 and the left one into R0.
pub open spec fn pop_arg_text(arch: Arch) -> Seq<char> {
    pop_text(arch, reg(Register::R1)) + pop_text(arch, reg(Register::R0))
}

pub open spec fn add_arg_text(arch: Arch) -> Seq<char> {
    add_text(arch, reg(Register::R0), reg(Register::R1))
}

pub open spec fn sub_arg_text(arch: Arch) -> Seq<char> {
    sub_text(arch, reg(Register::R0), reg(Register::R1))
}

pub open spec fn mul_arg_text(arch: Arch) -> Seq<char> {
    mul_text(arch, reg(Register::R0), reg(Register::R1))
}

pub open spec fn div_arg_text(arch: Arch) -> Seq<char> {
    div_text(arch, reg(Register::R0), reg(Register::R1))
}

pub open spec fn eq_arg_text(arch: Arch) -> Seq<char> {
    cmp_text(arch, "e"@, "EQ"@, reg(Register::R0), reg(Register::R1))
}

pub open spec fn neq_arg_text(arch: Arch) -> Seq<char> {
    cmp_text(arch, "ne"@, "NE"@, reg(Register::R0), reg(Register::R1))
}

pub open spec fn less_arg_text(arch: Arch) -> Seq<char> {
    cmp_text(arch, "l"@, "LT"@, reg(Register::R0), reg(Register::R1))
}

pub open spec fn less_or_eq_arg_text(arch: Arch) -> Seq<char> {
    cmp_text(arch, "le"@, "LE"@, reg(Register::R0), reg(Register::R1))
}

fn reg_str(arch: Arch, r: Register) -> (s: &'static str)
    ensures
        s@ == reg_name(arch, r),
{
    match arch {
        Arch::X86_64 => match r {
            Register::R0 => "rax",
            Register::R1 => "rdi",
            Register::R2 => "rsi",
            Register::R3 => "rdx",
            Register::R4 => "rcx",
            Register::R5 => "rbp",
            Register::R6 => "rsp",
            Register::R7 => "rbx",
            Register::R8 => "r8",
            Register::R9 => "r9",
            Register::R10 => "r10",
            Register::R11 => "r11",
            Register::R12 => "r12",
            Register::R13 => "r13",
            Register::R14 => "r14",
            Register::R15 => "r15",
        },
        Arch::Aarch64 => match r {
            Register::R0 => "x0",
            Register::R1 => "x1",
            Register::R2 => "x2",
            Register::R3 => "x3",
            Register::R4 => "x4",
            Register::R5 => "x5",
            Register::R6 => "x6",
            Register::R7 => "x7",
            Register::R8 => "x8",
            Register::R9 => "x9",
            Register::R10 => "x10",
            Register::R11 => "x11",
            Register::R12 => "x12",
            Register::R13 => "sp",
            Register::R14 => "lr",
            Register::R15 => "pc",
        },
    }
}

/// Appends the written form of an operand.
fn push_operand(out: &mut String, arch: Arch, op: Operand)
    ensures
        final(out)@ == old(out)@ + operand_text(arch, op),
{
    match op {
        Operand::Register(r) => out.append(reg_str(arch, r)),
        Operand::Address(r) => {
            out.append("[");
            out.append(reg_str(arch, r));
            out.append("]");
            assert(out@ =~= old(out)@ + operand_text(arch, op));
        },
        Operand::Num(n) => {
            if arch == Arch::Aarch64 {
                out.append("#");
            }
            push_decimal(out, n);
            assert(out@ =~= old(out)@ + operand_text(arch, op));
        },
    }
}

fn two_op_str(arch: Arch, name: &str, a: Operand, b: Operand) -> (r: String)
    ensures
        r@ == two_op(name@, operand_text(arch, a), operand_text(arch, b)),
{
    let mut s = String::from_str("\t");
    s.append(name);
    s.append(" ");
    push_operand(&mut s, arch, a);
    s.append(", ");
    push_operand(&mut s, arch, b);
    s.append("\n");
    s
}

fn three_op_str(arch: Arch, name: &str, a: Operand, b: Operand) -> (r: String)
    ensures
        r@ == three_op(name@, operand_text(arch, a), operand_text(arch, b)),
{
    let mut s = String::from_str("\t");
    s.append(name);
    s.append(" ");
    push_operand(&mut s, arch, a);
    s.append(", ");
    push_operand(&mut s, arch, a);
    s.append(", ");
    push_operand(&mut s, arch, b);
    s.append("\n");
    s
}

fn mov(arch: Arch, rd: Operand, src: Operand) -> (r: String)
    ensures
        r@ == mov_text(arch, rd, src),
{
    two_op_str(arch, "mov", rd, src)
}

fn ldr(arch: Arch, rd: Operand, rn: Operand) -> (r: String)
    ensures
        r@ == ldr_text(arch, rd, rn),
{
    two_op_str(arch, "ldr", rd, rn)
}

fn str(arch: Arch, rd: Operand, rn: Operand) -> (r: String)
    ensures
        r@ == str_text(arch, rd, rn),
{
    two_op_str(arch, "str", rd, rn)
}

fn add_op(arch: Arch, rd: Operand, rn: Operand) -> (r: String)
    ensures
        r@ == add_text(arch, rd, rn),
{
    match arch {
        Arch::X86_64 => two_op_str(arch, "add", rd, rn),
        Arch::Aarch64 => three_op_str(arch, "add", rd, rn),
    }
}

fn sub_op(arch: Arch, rd: Operand, rn: Operand) -> (r: String)
    ensures
        r@ == sub_text(arch, rd, rn),
{
    match arch {
        Arch::X86_64 => two_op_str(arch, "sub", rd, rn),
        Arch::Aarch64 => three_op_str(arch, "sub", rd, rn),
    }
}

fn mul_op(arch: Arch, rd: Operand, rn: Operand) -> (r: String)
    ensures
        r@ == mul_text(arch, rd, rn),
{
    match arch {
        Arch::X86_64 => two_op_str(arch, "imul", rd, rn),
        Arch::Aarch64 => three_op_str(arch, "mul", rd, rn),
    }
}

fn div_op(arch: Arch, rd: Operand, rn: Operand) -> (r: String)
    ensures
        r@ == div_text(arch, rd, rn),
{
    match arch {
        Arch::X86_64 => {
            let mut s = String::from_str("\tcqo\n\tidiv ");
            push_operand(&mut s, arch, rn);
            s.append("\n");
            s
        },
        Arch::Aarch64 => three_op_str(arch, "sdiv", rd, rn),
    }
}

fn compare(arch: Arch, x86: &str, arm: &str, rd: Operand, rn: Operand) -> (r: String)
    ensures
        r@ == cmp_text(arch, x86@, arm@, rd, rn),
{
    let mut s = String::from_str("\tcmp ");
    push_operand(&mut s, arch, rd);
    s.append(", ");
    push_operand(&mut s, arch, rn);
    match arch {
        Arch::X86_64 => {
            s.append("\n\tset");
            s.append(x86);
            s.append(" al\n\tmovzb ");
            push_operand(&mut s, arch, rd);
            s.append(", al\n");
        },
        Arch::Aarch64 => {
            s.append("\n\tcset ");
            push_operand(&mut s, arch, rd);
            s.append(", ");
            s.append(arm);
            s.append("\n");
        },
    }
    s
}

fn ret() -> (r: String)
    ensures
        r@ == "\tret\n"@,
{
    String::from_str("\tret\n")
}

/// Pushes an operand on the value stack.
pub fn push(arch: Arch, rd: Operand) -> (r: String)
    ensures
        r@ == push_text(arch, rd),
{
    match arch {
        Arch::X86_64 => {
            let mut s = String::from_str("\tpush ");
            push_operand(&mut s, arch, rd);
            s.append("\n");
            s
        },
        Arch::Aarch64 => {
            let mut s = sub_op(arch, Operand::Register(Register::R9), Operand::Num(8));
            s.append(mov(arch, Operand::Register(Register::R1), rd).as_str());
            s.append(
                str(arch, Operand::Register(Register::R1), Operand::Address(Register::R9)).as_str(),
            );
            s
        },
    }
}

/// Pops the top of the value stack into an operand.
pub fn pop(arch: Arch, rd: Operand) -> (r: String)
    ensures
        r@ == pop_text(arch, rd),
{
    match arch {
        Arch::X86_64 => {
            let mut s = String::from_str("\tpop ");
            push_operand(&mut s, arch, rd);
            s.append("\n");
            s
        },
        Arch::Aarch64 => {
            let mut s = ldr(arch, rd, Operand::Address(Register::R9));
            s.append(add_op(arch, Operand::Register(Register::R9), Operand::Num(8)).as_str());
            s
        },
    }
}

fn frame_base_of(arch: Arch) -> (r: Register)
    ensures
        r == frame_base(arch),
{
    match arch {
        Arch::X86_64 => Register::R5,
        Arch::Aarch64 => Register::R8,
    }
}

fn stack_top_of(arch: Arch) -> (r: Register)
    ensures
        r == stack_top(arch),
{
    match arch {
        Arch::X86_64 => Register::R6,
        Arch::Aarch64 => Register::R9,
    }
}

/// The assembler directive that opens the program.
pub fn program_prologue(arch: Arch) -> (r: String)
    ensures
        r@ == prologue_text(arch),
{
    match arch {
        Arch::X86_64 => String::from_str(".intel_syntax noprefix\n"),
        Arch::Aarch64 => String::from_str(".text\n"),
    }
}

/// The public entry point label.
pub fn main_func(arch: Arch) -> (r: String)
    ensures
        r@ == main_text(arch),
{
    match arch {
        Arch::X86_64 => String::from_str(".globl main\nmain:\n"),
        Arch::Aarch64 => String::from_str(".globl _main\n_main:\n"),
    }
}

/// Sets up the frame and reserves `bytes` bytes of local storage.
pub fn memory_allocate(arch: Arch, bytes: usize) -> (r: String)
    ensures
        r@ == allocate_text(arch, bytes),
{
    match arch {
        Arch::X86_64 => {
            let mut s = push(arch, Operand::Register(Register::R5));
            s.append(mov(arch, Operand::Register(Register::R5), Operand::Register(Register::R6)).as_str());
            s.append(sub_op(arch, Operand::Register(Register::R6), Operand::Num(bytes)).as_str());
            s
        },
        Arch::Aarch64 => {
            let mut s = mov(arch, Operand::Register(Register::R8), Operand::Register(Register::R13));
            s.append(mov(arch, Operand::Register(Register::R9), Operand::Register(Register::R13)).as_str());
            s.append(push(arch, Operand::Register(Register::R8)).as_str());
            s.append(mov(arch, Operand::Register(Register::R8), Operand::Register(Register::R9)).as_str());
            s.append(sub_op(arch, Operand::Register(Register::R9), Operand::Num(bytes)).as_str());
            s
        },
    }
}

/// Discards the value that a statement left on the stack.
pub fn stmt_epilogue(arch: Arch) -> (r: String)
    ensures
        r@ == stmt_epilogue_text(arch),
{
    pop(arch, Operand::Register(Register::R0))
}

/// Restores the caller's frame and returns the accumulator.
pub fn program_epilogue(arch: Arch) -> (r: String)
    ensures
        r@ == epilogue_text(arch),
{
    let fb = frame_base_of(arch);
    let mut s = mov(arch, Operand::Register(stack_top_of(arch)), Operand::Register(fb));
    s.append(pop(arch, Operand::Register(fb)).as_str());
    s.append(ret().as_str());
    s
}

/// Pushes the address of the variable slot at `offset`.
pub fn gen_val(arch: Arch, offset: usize) -> (r: String)
    ensures
        r@ == gen_val_text(arch, offset),
{
    let mut s = mov(arch, Operand::Register(Register::R0), Operand::Register(frame_base_of(arch)));
    s.append(sub_op(arch, Operand::Register(Register::R0), Operand::Num(offset)).as_str());
    s.append(push(arch, Operand::Register(Register::R0)).as_str());
    s
}

/// Replaces the address on top of the stack by the value stored there.
pub fn pop_val(arch: Arch) -> (r: String)
    ensures
        r@ == pop_val_text(arch),
{
    let mut s = pop(arch, Operand::Register(Register::R0));
    let load = match arch {
        Arch::X86_64 => mov(arch, Operand::Register(Register::R0), Operand::Address(Register::R0)),
        Arch::Aarch64 => ldr(arch, Operand::Register(Register::R0), Operand::Address(Register::R0)),
    };
    s.append(load.as_str());
    s.append(push(arch, Operand::Register(Register::R0)).as_str());
    s
}

/// Stores the value on top of the stack at the address below it, and leaves
/// the value on the stack.
pub fn pop_lvar(arch: Arch) -> (r: String)
    ensures
        r@ == pop_lvar_text(arch),
{
    let mut s = pop(arch, Operand::Register(Register::R1));
    s.append(pop(arch, Operand::Register(Register::R0)).as_str());
    let store = match arch {
        Arch::X86_64 => mov(arch, Operand::Address(Register::R0), Operand::Register(Register::R1)),
        Arch::Aarch64 => str(arch, Operand::Register(Register::R1), Operand::Address(Register::R0)),
    };
    s.append(store.as_str());
    s.append(push(arch, Operand::Register(Register::R1)).as_str());
    s
}

/// Pops the right operand into R1 and the left one into R0.
pub fn pop_arg(arch: Arch) -> (r: String)
    ensures
        r@ == pop_arg_text(arch),
{
    let mut s = pop(arch, Operand::Register(Register::R1));
    s.append(pop(arch, Operand::Register(Register::R0)).as_str());
    s
}

pub fn add_arg(arch: Arch) -> (r: String)
    ensures
        r@ == add_arg_text(arch),
{
    add_op(arch, Operand::Register(Register::R0), Operand::Register(Register::R1))
}

pub fn sub_arg(arch: Arch) -> (r: String)
    ensures
        r@ == sub_arg_text(arch),
{
    sub_op(arch, Operand::Register(Register::R0), Operand::Register(Register::R1))
}

pub fn mul_arg(arch: Arch) -> (r: String)
    ensures
        r@ == mul_arg_text(arch),
{
    mul_op(arch, Operand::Register(Register::R0), Operand::Register(Register::R1))
}

pub fn div_arg(arch: Arch) -> (r: String)
    ensures
        r@ == div_arg_text(arch),
{
    div_op(arch, Operand::Register(Register::R0), Operand::Register(Register::R1))
}

pub fn eq_arg(arch: Arch) -> (r: String)
    ensures
        r@ == eq_arg_text(arch),
{
    compare(arch, "e", "EQ", Operand::Register(Register::R0), Operand::Register(Register::R1))
}

pub fn neq_arg(arch: Arch) -> (r: String)
    ensures
        r@ == neq_arg_text(arch),
{
    compare(arch, "ne", "NE", Operand::Register(Register::R0), Operand::Register(Register::R1))
}

pub fn less_arg(arch: Arch) -> (r: String)
    ensures
        r@ == less_arg_text(arch),
{
    compare(arch, "l", "LT", Operand::Register(Register::R0), Operand::Register(Register::R1))
}

pub fn less_or_eq_arg(arch: Arch) -> (r: String)
    ensures
        r@ == less_or_eq_arg_text(arch),
{
    compare(arch, "le", "LE", Operand::Register(Register::R0), Operand::Register(Register::R1))
}

} // verus!
