use std::collections::HashMap;

use ioc::architecture::{
    add_arg, div_arg, eq_arg, gen_val, less_arg, less_or_eq_arg, main_func, memory_allocate,
    mul_arg, neq_arg, pop, pop_arg, pop_lvar, pop_val, program_epilogue, program_prologue, push,
    stmt_epilogue, sub_arg, Arch, Operand, Register,
};
use ioc::construct_assembly;
use ioc::error::CompileError;
use ioc::generator::generate_assembly;
use ioc::parser::ParseError;
use ioc::tree::{NodeKind, Tree};

/// Runs x86-64 text of the shape the compiler emits and returns rax at `ret`.
fn run_x86(text: &str) -> i64 {
    let mut regs: HashMap<String, i64> = HashMap::new();
    let mut mem: HashMap<i64, i64> = HashMap::new();
    regs.insert("rsp".to_string(), 1 << 20);
    regs.insert("rbp".to_string(), 0);
    let mut flags = (0i64, 0i64);
    let read = |regs: &HashMap<String, i64>, mem: &HashMap<i64, i64>, op: &str| -> i64 {
        if let Some(inner) = op.strip_prefix('[').and_then(|o| o.strip_suffix(']')) {
            *mem.get(&regs[inner]).unwrap_or(&0)
        } else if let Ok(n) = op.parse::<i64>() {
            n
        } else {
            *regs.get(op).unwrap_or(&0)
        }
    };
    for line in text.lines() {
        let line = line.trim();
        if line.is_empty() || line.starts_with('.') || line.ends_with(':') {
            continue;
        }
        let (ins, rest) = line.split_once(' ').unwrap_or((line, ""));
        let ops: Vec<&str> = rest.split(", ").filter(|o| !o.is_empty()).collect();
        match ins {
            "push" => {
                let v = read(&regs, &mem, ops[0]);
                let sp = regs["rsp"] - 8;
                regs.insert("rsp".to_string(), sp);
                mem.insert(sp, v);
            }
            "pop" => {
                let sp = regs["rsp"];
                let v = *mem.get(&sp).unwrap_or(&0);
                regs.insert(ops[0].to_string(), v);
                regs.insert("rsp".to_string(), sp + 8);
            }
            "mov" => {
                let v = read(&regs, &mem, ops[1]);
                if let Some(inner) = ops[0].strip_prefix('[').and_then(|o| o.strip_suffix(']')) {
                    mem.insert(regs[inner], v);
                } else {
                    regs.insert(ops[0].to_string(), v);
                }
            }
            "add" | "sub" | "imul" => {
                let a = read(&regs, &mem, ops[0]);
                let b = read(&regs, &mem, ops[1]);
                let v = match ins {
                    "add" => a + b,
                    "sub" => a - b,
                    _ => a * b,
                };
                regs.insert(ops[0].to_string(), v);
            }
            "cqo" => {}
            "idiv" => {
                let d = read(&regs, &mem, ops[0]);
                let a = regs["rax"];
                regs.insert("rax".to_string(), a / d);
                regs.insert("rdx".to_string(), a % d);
            }
            "cmp" => flags = (read(&regs, &mem, ops[0]), read(&regs, &mem, ops[1])),
            "sete" | "setne" | "setl" | "setle" => {
                let holds = match ins {
                    "sete" => flags.0 == flags.1,
                    "setne" => flags.0 != flags.1,
                    "setl" => flags.0 < flags.1,
                    _ => flags.0 <= flags.1,
                };
                let rax = regs["rax"];
                regs.insert("rax".to_string(), (rax & !0xff) | holds as i64);
            }
            "movzb" => {
                let al = regs["rax"] & 0xff;
                regs.insert(ops[0].to_string(), al);
            }
            "ret" => return regs["rax"],
            other => panic!("unexpected instruction {}", other),
        }
    }
    panic!("no ret");
}

fn final_value(src: &str) -> i64 {
    run_x86(&construct_assembly(Arch::X86_64, src).unwrap())
}

#[test]
fn precedence_program_leaves_seven() {
    assert_eq!(final_value("1+2*3;"), 7);
}

#[test]
fn variable_program_leaves_six() {
    assert_eq!(final_value("a=5;a+1;"), 6);
}

#[test]
fn nested_program_leaves_ten() {
    assert_eq!(final_value("3*(2+3)-(6/2+2);"), 10);
}

#[test]
fn chained_assignment_and_comparisons_run() {
    assert_eq!(final_value("a=b=4; a*b;"), 16);
    assert_eq!(final_value("x = 3; y = x > 2; y + (x == 3) + (x != 3) + (x <= 2);"), 2);
    assert_eq!(final_value("-7 + 10;"), 3);
    assert_eq!(final_value("q = 9; q = q / 2; q;"), 4);
}

#[test]
fn x86_program_text() {
    let expected = ".intel_syntax noprefix\n.globl main\nmain:\n\
\tpush rbp\n\tmov rbp, rsp\n\tsub rsp, 8\n\
\tmov rax, rbp\n\tsub rax, 8\n\tpush rax\n\tpush 5\n\
\tpop rdi\n\tpop rax\n\tmov [rax], rdi\n\tpush rdi\n\tpop rax\n\
\tmov rsp, rbp\n\tpop rbp\n\tret\n";
    assert_eq!(construct_assembly(Arch::X86_64, "a = 5;").unwrap(), expected);
}

#[test]
fn aarch64_program_text() {
    let expected = ".text\n.globl _main\n_main:\n\
\tmov x8, sp\n\tmov x9, sp\n\
\tsub x9, x9, #8\n\tmov x1, x8\n\tstr x1, [x9]\n\
\tmov x8, x9\n\tsub x9, x9, #0\n\
\tsub x9, x9, #8\n\tmov x1, #2\n\tstr x1, [x9]\n\
\tldr x0, [x9]\n\tadd x9, x9, #8\n\
\tmov x9, x8\n\tldr x8, [x9]\n\tadd x9, x9, #8\n\tret\n";
    assert_eq!(construct_assembly(Arch::Aarch64, "2;").unwrap(), expected);
}

#[test]
fn frame_reserves_a_word_per_identifier() {
    let text = construct_assembly(Arch::X86_64, "a; b; c; a;").unwrap();
    assert!(text.contains("\tsub rsp, 24\n"));
    let empty = construct_assembly(Arch::X86_64, "").unwrap();
    assert_eq!(
        empty,
        ".intel_syntax noprefix\n.globl main\nmain:\n\tpush rbp\n\tmov rbp, rsp\n\tsub rsp, 0\n\tmov rsp, rbp\n\tpop rbp\n\tret\n"
    );
}

#[test]
fn assignment_to_a_non_variable_fails() {
    assert_eq!(
        construct_assembly(Arch::X86_64, "1 = 2;"),
        Err(CompileError::AssignToNonVariable)
    );
    let mut out = String::new();
    let tree = Tree::Node(NodeKind::Assign, Box::new(Tree::Num(1)), Box::new(Tree::Num(2)));
    assert_eq!(
        generate_assembly(Arch::X86_64, &mut out, &tree),
        Err(CompileError::AssignToNonVariable)
    );
}

#[test]
fn parse_failure_is_passed_on() {
    assert_eq!(
        construct_assembly(Arch::Aarch64, "1 +"),
        Err(CompileError::Parse(ParseError::ExpectedPrimary('\0')))
    );
}

#[test]
fn generator_emits_post_order_code() {
    let mut out = String::from("start\n");
    let tree = Tree::Node(NodeKind::Sub, Box::new(Tree::Num(4)), Box::new(Tree::Val(16)));
    generate_assembly(Arch::X86_64, &mut out, &tree).unwrap();
    assert_eq!(
        out,
        "start\n\tpush 4\n\tmov rax, rbp\n\tsub rax, 16\n\tpush rax\n\tpop rax\n\tmov rax, [rax]\n\tpush rax\n\tpop rdi\n\tpop rax\n\tsub rax, rdi\n\tpush rax\n"
    );
}

#[test]
fn x86_backend_templates() {
    let a = Arch::X86_64;
    assert_eq!(program_prologue(a), ".intel_syntax noprefix\n");
    assert_eq!(main_func(a), ".globl main\nmain:\n");
    assert_eq!(memory_allocate(a, 16), "\tpush rbp\n\tmov rbp, rsp\n\tsub rsp, 16\n");
    assert_eq!(stmt_epilogue(a), "\tpop rax\n");
    assert_eq!(program_epilogue(a), "\tmov rsp, rbp\n\tpop rbp\n\tret\n");
    assert_eq!(gen_val(a, 24), "\tmov rax, rbp\n\tsub rax, 24\n\tpush rax\n");
    assert_eq!(pop_val(a), "\tpop rax\n\tmov rax, [rax]\n\tpush rax\n");
    assert_eq!(pop_lvar(a), "\tpop rdi\n\tpop rax\n\tmov [rax], rdi\n\tpush rdi\n");
    assert_eq!(pop_arg(a), "\tpop rdi\n\tpop rax\n");
    assert_eq!(push(a, Operand::Num(42)), "\tpush 42\n");
    assert_eq!(push(a, Operand::Address(Register::R3)), "\tpush [rdx]\n");
    assert_eq!(pop(a, Operand::Register(Register::R15)), "\tpop r15\n");
    assert_eq!(add_arg(a), "\tadd rax, rdi\n");
    assert_eq!(sub_arg(a), "\tsub rax, rdi\n");
    assert_eq!(mul_arg(a), "\timul rax, rdi\n");
    assert_eq!(div_arg(a), "\tcqo\n\tidiv rdi\n");
    assert_eq!(eq_arg(a), "\tcmp rax, rdi\n\tsete al\n\tmovzb rax, al\n");
    assert_eq!(neq_arg(a), "\tcmp rax, rdi\n\tsetne al\n\tmovzb rax, al\n");
    assert_eq!(less_arg(a), "\tcmp rax, rdi\n\tsetl al\n\tmovzb rax, al\n");
    assert_eq!(less_or_eq_arg(a), "\tcmp rax, rdi\n\tsetle al\n\tmovzb rax, al\n");
}

#[test]
fn aarch64_backend_templates() {
    let a = Arch::Aarch64;
    assert_eq!(program_prologue(a), ".text\n");
    assert_eq!(main_func(a), ".globl _main\n_main:\n");
    assert_eq!(stmt_epilogue(a), "\tldr x0, [x9]\n\tadd x9, x9, #8\n");
    assert_eq!(gen_val(a, 8), "\tmov x0, x8\n\tsub x0, x0, #8\n\tsub x9, x9, #8\n\tmov x1, x0\n\tstr x1, [x9]\n");
    assert_eq!(push(a, Operand::Num(3)), "\tsub x9, x9, #8\n\tmov x1, #3\n\tstr x1, [x9]\n");
    assert_eq!(pop(a, Operand::Register(Register::R13)), "\tldr sp, [x9]\n\tadd x9, x9, #8\n");
    assert_eq!(add_arg(a), "\tadd x0, x0, x1\n");
    assert_eq!(sub_arg(a), "\tsub x0, x0, x1\n");
    assert_eq!(mul_arg(a), "\tmul x0, x0, x1\n");
    assert_eq!(div_arg(a), "\tsdiv x0, x0, x1\n");
    assert_eq!(eq_arg(a), "\tcmp x0, x1\n\tcset x0, EQ\n");
    assert_eq!(neq_arg(a), "\tcmp x0, x1\n\tcset x0, NE\n");
    assert_eq!(less_arg(a), "\tcmp x0, x1\n\tcset x0, LT\n");
    assert_eq!(less_or_eq_arg(a), "\tcmp x0, x1\n\tcset x0, LE\n");
    assert_eq!(
        pop_val(a),
        "\tldr x0, [x9]\n\tadd x9, x9, #8\n\tldr x0, [x0]\n\tsub x9, x9, #8\n\tmov x1, x0\n\tstr x1, [x9]\n"
    );
}
