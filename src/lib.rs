//! A compiler for a small language of arithmetic, comparison and assignment
//! statements, producing assembly text for x86-64 or AArch64.
pub mod architecture;
pub mod chars;
pub mod error;
pub mod generator;
pub mod lexer;
pub mod parser;
pub mod semantics;
pub mod token;
pub mod tree;

use vstd::prelude::*;
use crate::architecture::{
    allocate_text, epilogue_text, main_func, main_text, memory_allocate, program_epilogue,
    program_prologue, prologue_text, stmt_epilogue, stmt_epilogue_text, Arch,
};
use crate::error::CompileError;
use crate::generator::{gen_ok, gen_text, generate_assembly};
use crate::lexer::{Lexer, WORD_SIZE};
use crate::parser::{p_program, program, ParseError};
use crate::tree::Tree;

verus! {

/// The names of the source and output files of a run.
pub struct Input {
    pub input_file_name: String,
    pub output_file_name: String,
}

impl Input {
    /// Reads the file names from the command line: the program name comes
    /// first, then the source file, then the output file.
    pub fn new(args: &[String]) -> (r: Result<Input, &'static str>)
        ensures
            args@.len() < 3 <==> r is Err,
            r matches Err(m) ==> m@ == "not enough arguments"@,
            r matches Ok(input) ==> input.input_file_name@ == args@[1]@
                && input.output_file_name@ == args@[2]@,
    {
        if args.len() < 3 {
            return Err("not enough arguments");
        }
        let input_file_name = args[1].clone();
        let output_file_name = args[2].clone();
        Ok(Input { input_file_name, output_file_name })
    }
}

/// The code for a sequence of statements, each followed by the discard of its value.
pub open spec fn statements_text(arch: Arch, trees: Seq<Tree>) -> Seq<char>
    decreases trees.len(),
{
    if trees.len() == 0 {
        Seq::empty()
    } else {
        statements_text(arch, trees.drop_last()) + gen_text(arch, trees.last())
            + stmt_epilogue_text(arch)
    }
}

/// The statements of a whole source text, with the identifier table after them.
#[verifier::opaque]
pub open spec fn parse_source(source: Seq<char>) -> Result<
    (Seq<Tree>, int, Seq<Seq<char>>),
    ParseError,
> {
    p_program(source, 0, Seq::empty())
}

/// The assembly text of a whole program, or why there is none.
pub open spec fn compile(arch: Arch, source: Seq<char>) -> Result<Seq<char>, CompileError> {
    match parse_source(source) {
        Err(e) => Err(CompileError::Parse(e)),
        Ok((trees, _, names)) => if forall|i: int| 0 <= i < trees.len() ==> gen_ok(#[trigger] trees[i]) {
            Ok(
                prologue_text(arch) + main_text(arch) + allocate_text(
                    arch,
                    (names.len() * WORD_SIZE) as usize,
                ) + statements_text(arch, trees) + epilogue_text(arch),
            )
        } else {
            Err(CompileError::AssignToNonVariable)
        },
    }
}

/// Appends the code for one statement: its tree, then the discard of its value.
fn emit_statement(arch: Arch, assembly: &mut String, tree: &Tree) -> (r: Result<(), CompileError>)
    ensures
        r is Ok <==> gen_ok(*tree),
        r is Err ==> r == Err::<(), CompileError>(CompileError::AssignToNonVariable),
        r is Ok ==> final(assembly)@ == old(assembly)@ + gen_text(arch, *tree)
            + stmt_epilogue_text(arch),
{
    match generate_assembly(arch, assembly, tree) {
        Ok(()) => {},
        Err(e) => return Err(e),
    }
    assembly.append(stmt_epilogue(arch).as_str());
    Ok(())
}

proof fn lemma_statements_step(arch: Arch, head: Seq<char>, trees: Seq<Tree>, i: int)
    requires
        0 <= i < trees.len(),
    ensures
        head + statements_text(arch, trees.subrange(0, i + 1)) == head + statements_text(
            arch,
            trees.subrange(0, i),
        ) + gen_text(arch, trees[i]) + stmt_epilogue_text(arch),
{
    let next = trees.subrange(0, i + 1);
    assert(next.drop_last() =~= trees.subrange(0, i));
    assert(next.last() == trees[i]);
    let a = statements_text(arch, trees.subrange(0, i));
    let g = gen_text(arch, trees[i]);
    let e = stmt_epilogue_text(arch);
    assert(head + (a + g + e) =~= head + a + g + e);
}

/// Compiles a source text to assembly for the given target.
pub fn construct_assembly(arch: Arch, contents: &str) -> (r: Result<String, CompileError>)
    ensures
        match compile(arch, contents@) {
            Ok(text) => r matches Ok(a) && a@ == text,
            Err(e) => r == Err::<String, CompileError>(e),
        },
{
    proof {
        reveal(parse_source);
    }
    let mut lexer = Lexer::new(contents);
    let trees = match program(&mut lexer) {
        Ok(t) => t,
        Err(e) => return Err(CompileError::Parse(e)),
    };
    let ident_count = lexer.get_ident_count();
    let mut assembly = program_prologue(arch);
    assembly.append(main_func(arch).as_str());
    assert(ident_count * WORD_SIZE <= usize::MAX) by (nonlinear_arith)
        requires
            ident_count <= crate::lexer::MAX_IDENTS,
            crate::lexer::MAX_IDENTS == usize::MAX / 8 - 1,
            WORD_SIZE == 8,
    ;
    assembly.append(memory_allocate(arch, ident_count * WORD_SIZE).as_str());
    let ghost head = assembly@;
    assert(trees@.subrange(0, 0) =~= Seq::<Tree>::empty());
    assert(head + Seq::<char>::empty() =~= head);
    let mut i: usize = 0;
    while i < trees.len()
        invariant
            i <= trees.len(),
            parse_source(contents@) matches Ok((ts, _, _)) && ts == trees@,
            forall|j: int| 0 <= j < i ==> gen_ok(#[trigger] trees@[j]),
            assembly@ == head + statements_text(arch, trees@.subrange(0, i as int)),
        decreases trees.len() - i,
    {
        match emit_statement(arch, &mut assembly, &trees[i]) {
            Ok(()) => {},
            Err(e) => {
                assert(!gen_ok(trees@[i as int]));
                return Err(e);
            },
        }
        proof {
            lemma_statements_step(arch, head, trees@, i as int);
        }
        i = i + 1;
    }
    assert(trees@.subrange(0, trees.len() as int) =~= trees@);
    assembly.append(program_epilogue(arch).as_str());
    Ok(assembly)
}

} // verus!
