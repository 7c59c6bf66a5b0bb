//! Recursive-descent parser. The grammar, loosest binding first:
//!
//! ```text
//! program        := statement* EOF
//! statement      := expr ';'
//! expr           := assignment
//! assignment     := equality ('=' assignment)?
//! equality       := relational (('==' | '!=') relational)*
//! relational     := additive (('<' | '<=' | '>' | '>=') additive)*
//! additive       := multiplicative (('+' | '-') multiplicative)*
//! multiplicative := unary (('*' | '/') unary)*
//! unary          := '+' primary | '-' primary | primary
//! primary        := '(' expr ')' | number | identifier
//! ```
//!
//! The binary levels are numbered from the tightest: 1 multiplicative,
//! 2 additive, 3 relational, 4 equality; level 0 is `unary`.
//!
//! The spec functions below state the grammar over the lexer's model. The
//! position checks in them hold for every position the lexer reaches (it never
//! moves back, and it moves forward past every token but the end); they are
//! there so that the recursion visibly terminates.
use vstd::prelude::*;
use crate::lexer::{
    char_at, lemma_next_advances, next_at, resolve, skip_ws, Lexer, MAX_IDENTS,
};
use crate::token::{render, ErrorToken, OperatorKind, Token, TokenView};
use crate::tree::{NodeKind, Tree};

verus! {

#[derive(Debug, PartialEq, Eq, Structural, Clone, Copy)]
pub enum ParseError {
    /// A statement does not end with `;`: the character found in its place.
    MissingSemi(char),
    /// A parenthesis is not closed: the character found in place of `)`.
    MissingRParen(char),
    /// A token that cannot start an operand stands where one is needed: its
    /// first character (`'\0'` at the end of input).
    ExpectedPrimary(char),
    /// An operand is needed and the lexer rejects the character found there.
    Lexical(char),
    /// The identifier table has no room for another name.
    TooManyIdents,
}

/// What a parsing step gives: a tree with the cursor and identifier table
/// after it, or the error that ends the compilation.
pub type ParseOut = Result<(Tree, int, Seq<Seq<char>>), ParseError>;

/// The operator that a token stands for on a binary level, and whether its
/// operands are swapped (`a > b` is `b < a`).
pub open spec fn binop(lvl: nat, t: Result<TokenView, ErrorToken>) -> Option<(NodeKind, bool)> {
    match t {
        Ok(tok) => if lvl == 4 {
            if tok == TokenView::Equality {
                Some((NodeKind::Equality, false))
            } else if tok == TokenView::Nonequality {
                Some((NodeKind::Nonequality, false))
            } else {
                None
            }
        } else if lvl == 3 {
            if tok == TokenView::Less {
                Some((NodeKind::Less, false))
            } else if tok == TokenView::LessOrEqual {
                Some((NodeKind::LessOrEqual, false))
            } else if tok == TokenView::Greater {
                Some((NodeKind::Less, true))
            } else if tok == TokenView::GreaterOrEqual {
                Some((NodeKind::LessOrEqual, true))
            } else {
                None
            }
        } else if lvl == 2 {
            if tok == TokenView::Add {
                Some((NodeKind::Add, false))
            } else if tok == TokenView::Sub {
                Some((NodeKind::Sub, false))
            } else {
                None
            }
        } else if lvl == 1 {
            if tok == TokenView::Mul {
                Some((NodeKind::Mul, false))
            } else if tok == TokenView::Div {
                Some((NodeKind::Div, false))
            } else {
                None
            }
        } else {
            None
        },
        Err(_) => None,
    }
}

/// The first character of a token's text, `'\0'` for the end of input.
pub open spec fn lead_char(t: TokenView) -> char {
    if render(t).len() == 0 {
        '\0'
    } else {
        render(t)[0]
    }
}

pub open spec fn binary_node(kind: NodeKind, swap: bool, acc: Tree, operand: Tree) -> Tree {
    if swap {
        Tree::Node(kind, Box::new(operand), Box::new(acc))
    } else {
        Tree::Node(kind, Box::new(acc), Box::new(operand))
    }
}

/// `primary` at position `p` with table `tab`.
pub open spec fn p_primary(s: Seq<char>, p: int, tab: Seq<Seq<char>>) -> ParseOut
    decreases s.len() - p, 0nat,
{
    let (t, e) = next_at(s, p);
    match t {
        Err(ErrorToken::InvaildChar(c)) => Err(ParseError::Lexical(c)),
        Ok(TokenView::LParen) => if 0 <= p < e <= s.len() {
            match p_assign(s, e, tab) {
                Err(x) => Err(x),
                Ok((inner, q1, t1)) => if next_at(s, q1).0 == Ok::<TokenView, ErrorToken>(
                    TokenView::RParen,
                ) {
                    Ok((inner, next_at(s, q1).1, t1))
                } else {
                    Err(ParseError::MissingRParen(char_at(s, skip_ws(s, q1))))
                },
            }
        } else {
            Err(ParseError::ExpectedPrimary('('))
        },
        Ok(TokenView::Operand(n)) => Ok((Tree::Num(n), e, tab)),
        Ok(TokenView::Ident(name)) => if tab.len() < MAX_IDENTS || tab.contains(name) {
            Ok((Tree::Val(resolve(tab, name).0 as usize), e, resolve(tab, name).1))
        } else {
            Err(ParseError::TooManyIdents)
        },
        Ok(other) => Err(ParseError::ExpectedPrimary(lead_char(other))),
    }
}

/// `unary` at position `p`: a leading `-` subtracts the operand from zero.
pub open spec fn p_unary(s: Seq<char>, p: int, tab: Seq<Seq<char>>) -> ParseOut
    decreases s.len() - p, 1nat,
{
    let (t, e) = next_at(s, p);
    if t == Ok::<TokenView, ErrorToken>(TokenView::Add) || t == Ok::<TokenView, ErrorToken>(
        TokenView::Sub,
    ) {
        if 0 <= p < e <= s.len() {
            match p_primary(s, e, tab) {
                Err(x) => Err(x),
                Ok((operand, q1, t1)) => if t == Ok::<TokenView, ErrorToken>(TokenView::Add) {
                    Ok((operand, q1, t1))
                } else {
                    Ok((Tree::Node(NodeKind::Sub, Box::new(Tree::Num(0)), Box::new(operand)), q1, t1))
                },
            }
        } else {
            p_primary(s, p, tab)
        }
    } else if 0 <= p <= skip_ws(s, p) <= s.len() {
        p_primary(s, skip_ws(s, p), tab)
    } else {
        p_primary(s, p, tab)
    }
}

/// Binary level `lvl` at position `p` (level 0 is `unary`).
pub open spec fn p_level(s: Seq<char>, p: int, tab: Seq<Seq<char>>, lvl: nat) -> ParseOut
    decreases s.len() - p, 2 * lvl + 2,
{
    if lvl == 0 {
        p_unary(s, p, tab)
    } else {
        match p_level(s, p, tab, (lvl - 1) as nat) {
            Err(x) => Err(x),
            Ok((first, q1, t1)) => if 0 <= p <= q1 <= s.len() {
                p_rest(s, q1, t1, lvl, first)
            } else {
                Ok((first, q1, t1))
            },
        }
    }
}

/// The operators of level `lvl` that follow `acc`, folded to the left.
pub open spec fn p_rest(s: Seq<char>, p: int, tab: Seq<Seq<char>>, lvl: nat, acc: Tree) -> ParseOut
    decreases s.len() - p, 2 * lvl + 1,
{
    let (t, e) = next_at(s, p);
    match binop(lvl, t) {
        None => Ok((acc, skip_ws(s, p), tab)),
        Some((kind, swap)) => if 0 <= p < e <= s.len() && lvl > 0 {
            match p_level(s, e, tab, (lvl - 1) as nat) {
                Err(x) => Err(x),
                Ok((operand, q1, t1)) => if e <= q1 <= s.len() {
                    p_rest(s, q1, t1, lvl, binary_node(kind, swap, acc, operand))
                } else {
                    Ok((binary_node(kind, swap, acc, operand), q1, t1))
                },
            }
        } else {
            Ok((acc, p, tab))
        },
    }
}

/// `assignment` at position `p`: right-associative.
pub open spec fn p_assign(s: Seq<char>, p: int, tab: Seq<Seq<char>>) -> ParseOut
    decreases s.len() - p, 11nat,
{
    match p_level(s, p, tab, 4) {
        Err(x) => Err(x),
        Ok((target, q1, t1)) => if next_at(s, q1).0 == Ok::<TokenView, ErrorToken>(
            TokenView::Equal,
        ) {
            let e = next_at(s, q1).1;
            if 0 <= p <= q1 < e <= s.len() {
                match p_assign(s, e, t1) {
                    Err(x) => Err(x),
                    Ok((value, q2, t2)) => Ok(
                        (Tree::Node(NodeKind::Assign, Box::new(target), Box::new(value)), q2, t2),
                    ),
                }
            } else {
                Ok((target, q1, t1))
            }
        } else {
            Ok((target, skip_ws(s, q1), t1))
        },
    }
}

/// `statement` at position `p`.
pub open spec fn p_stmt(s: Seq<char>, p: int, tab: Seq<Seq<char>>) -> ParseOut {
    match p_assign(s, p, tab) {
        Err(x) => Err(x),
        Ok((tree, q1, t1)) => if next_at(s, q1).0 == Ok::<TokenView, ErrorToken>(TokenView::Semi) {
            Ok((tree, next_at(s, q1).1, t1))
        } else {
            Err(ParseError::MissingSemi(char_at(s, skip_ws(s, q1))))
        },
    }
}

/// The statements from position `p` to the end of input, with the cursor and
/// table after them.
pub open spec fn p_program(s: Seq<char>, p: int, tab: Seq<Seq<char>>) -> Result<
    (Seq<Tree>, int, Seq<Seq<char>>),
    ParseError,
>
    decreases s.len() - p,
{
    if next_at(s, p).0 == Ok::<TokenView, ErrorToken>(TokenView::EOF) {
        Ok((Seq::empty(), skip_ws(s, p), tab))
    } else {
        match p_stmt(s, skip_ws(s, p), tab) {
            Err(x) => Err(x),
            Ok((tree, q1, t1)) => if 0 <= p < q1 <= s.len() {
                prepend(seq![tree], p_program(s, q1, t1))
            } else {
                Ok((seq![tree], q1, t1))
            },
        }
    }
}

pub open spec fn prepend(
    done: Seq<Tree>,
    r: Result<(Seq<Tree>, int, Seq<Seq<char>>), ParseError>,
) -> Result<(Seq<Tree>, int, Seq<Seq<char>>), ParseError> {
    match r {
        Ok((rest, p, tab)) => Ok((done + rest, p, tab)),
        Err(x) => Err(x),
    }
}

/// A parsing step's result together with the lexer it left behind.
pub open spec fn outcome(r: Result<Tree, ParseError>, lexer: Lexer) -> ParseOut {
    match r {
        Ok(t) => Ok((t, lexer.cursor(), lexer.names())),
        Err(x) => Err(x),
    }
}

fn lead_char_of(t: &Token) -> (r: char)
    requires
        !(t@ is Ident),
        !(t@ is Operand),
    ensures
        r == lead_char(t@),
{
    match t {
        Token::EOF => '\0',
        Token::Operator(op) => match op {
            OperatorKind::Semi => ';',
            OperatorKind::Equal | OperatorKind::Equality => '=',
            OperatorKind::Nonequality => '!',
            OperatorKind::Less | OperatorKind::LessOrEqual => '<',
            OperatorKind::Greater | OperatorKind::GreaterOrEqual => '>',
            OperatorKind::Add => '+',
            OperatorKind::Sub => '-',
            OperatorKind::Mul => '*',
            OperatorKind::Div => '/',
            OperatorKind::LParen => '(',
            _ => ')',
        },
    }
}

fn primary(lexer: &mut Lexer) -> (r: Result<Tree, ParseError>)
    requires
        old(lexer).wf(),
    ensures
        final(lexer).wf(),
        final(lexer).source() == old(lexer).source(),
        outcome(r, *final(lexer)) == p_primary(
            old(lexer).source(),
            old(lexer).cursor(),
            old(lexer).names(),
        ),
        r is Ok ==> old(lexer).cursor() <= final(lexer).cursor(),
    decreases old(lexer).source().len() - old(lexer).cursor(), 0nat,
{
    let ghost s = lexer.source();
    let ghost p = lexer.cursor();
    proof {
        lemma_next_advances(s, p);
    }
    match lexer.next_token() {
        Err(ErrorToken::InvaildChar(c)) => Err(ParseError::Lexical(c)),
        Ok(Token::Operator(OperatorKind::LParen)) => {
            let inner = match assign(lexer) {
                Ok(t) => t,
                Err(x) => return Err(x),
            };
            proof {
                lemma_next_advances(s, lexer.cursor());
            }
            match lexer.consume(Token::Operator(OperatorKind::RParen)) {
                Ok(_) => Ok(inner),
                Err(ErrorToken::InvaildChar(c)) => Err(ParseError::MissingRParen(c)),
            }
        },
        Ok(Token::Operator(OperatorKind::Operand(n))) => Ok(Tree::new_num(n)),
        Ok(Token::Operator(OperatorKind::Ident(i))) => {
            if lexer.get_ident_count() < MAX_IDENTS || lexer.has_ident(&i) {
                Ok(Tree::new_val(i, lexer))
            } else {
                Err(ParseError::TooManyIdents)
            }
        },
        Ok(other) => Err(ParseError::ExpectedPrimary(lead_char_of(&other))),
    }
}

#[verifier::rlimit(40)]
fn unary(lexer: &mut Lexer) -> (r: Result<Tree, ParseError>)
    requires
        old(lexer).wf(),
    ensures
        final(lexer).wf(),
        final(lexer).source() == old(lexer).source(),
        outcome(r, *final(lexer)) == p_unary(
            old(lexer).source(),
            old(lexer).cursor(),
            old(lexer).names(),
        ),
        r is Ok ==> old(lexer).cursor() <= final(lexer).cursor(),
    decreases old(lexer).source().len() - old(lexer).cursor(), 1nat,
{
    let ghost s = lexer.source();
    let ghost p = lexer.cursor();
    proof {
        lemma_next_advances(s, p);
    }
    if lexer.consume(Token::Operator(OperatorKind::Add)).is_ok() {
        return primary(lexer);
    }
    if lexer.consume(Token::Operator(OperatorKind::Sub)).is_ok() {
        return match primary(lexer) {
            Ok(t) => Ok(Tree::new_tree(NodeKind::Sub, Tree::new_num(0), t)),
            Err(x) => Err(x),
        };
    }
    primary(lexer)
}

/// Takes the next token when it is an operator of binary level `lvl`.
fn take_operator(lexer: &mut Lexer, lvl: u8) -> (r: Option<(NodeKind, bool)>)
    requires
        old(lexer).wf(),
        1 <= lvl <= 4,
    ensures
        final(lexer).wf(),
        final(lexer).source() == old(lexer).source(),
        final(lexer).names() == old(lexer).names(),
        r == binop(lvl as nat, next_at(old(lexer).source(), old(lexer).cursor()).0),
        r is Some ==> final(lexer).cursor() == next_at(old(lexer).source(), old(lexer).cursor()).1,
        r is None ==> final(lexer).cursor() == skip_ws(old(lexer).source(), old(lexer).cursor()),
{
    proof {
        lemma_next_advances(lexer.source(), lexer.cursor());
    }
    let (first, second) = if lvl == 4 {
        (OperatorKind::Equality, OperatorKind::Nonequality)
    } else if lvl == 3 {
        (OperatorKind::Less, OperatorKind::LessOrEqual)
    } else if lvl == 2 {
        (OperatorKind::Add, OperatorKind::Sub)
    } else {
        (OperatorKind::Mul, OperatorKind::Div)
    };
    let kinds = if lvl == 4 {
        (NodeKind::Equality, NodeKind::Nonequality)
    } else if lvl == 3 {
        (NodeKind::Less, NodeKind::LessOrEqual)
    } else if lvl == 2 {
        (NodeKind::Add, NodeKind::Sub)
    } else {
        (NodeKind::Mul, NodeKind::Div)
    };
    if lexer.consume(Token::Operator(first)).is_ok() {
        return Some((kinds.0, false));
    }
    if lexer.consume(Token::Operator(second)).is_ok() {
        return Some((kinds.1, false));
    }
    if lvl == 3 {
        if lexer.consume(Token::Operator(OperatorKind::Greater)).is_ok() {
            return Some((NodeKind::Less, true));
        }
        if lexer.consume(Token::Operator(OperatorKind::GreaterOrEqual)).is_ok() {
            return Some((NodeKind::LessOrEqual, true));
        }
    }
    None
}

/// Binary level `lvl`: operands of the level below joined by this level's
/// operators, folded to the left.
fn binary(lexer: &mut Lexer, lvl: u8) -> (r: Result<Tree, ParseError>)
    requires
        old(lexer).wf(),
        lvl <= 4,
    ensures
        final(lexer).wf(),
        final(lexer).source() == old(lexer).source(),
        outcome(r, *final(lexer)) == p_level(
            old(lexer).source(),
            old(lexer).cursor(),
            old(lexer).names(),
            lvl as nat,
        ),
        r is Ok ==> old(lexer).cursor() <= final(lexer).cursor(),
    decreases old(lexer).source().len() - old(lexer).cursor(), 2 * lvl + 2,
{
    let ghost s = lexer.source();
    let ghost p = lexer.cursor();
    let ghost tab = lexer.names();
    if lvl == 0 {
        return unary(lexer);
    }
    let mut tree = match binary(lexer, lvl - 1) {
        Ok(t) => t,
        Err(x) => return Err(x),
    };
    loop
        invariant
            lexer.wf(),
            lexer.source() == s,
            s == old(lexer).source(),
            p == old(lexer).cursor(),
            tab == old(lexer).names(),
            1 <= lvl <= 4,
            0 <= p <= lexer.cursor() <= s.len(),
            p_level(s, p, tab, lvl as nat) == p_rest(
                s,
                lexer.cursor(),
                lexer.names(),
                lvl as nat,
                tree,
            ),
        decreases s.len() - lexer.cursor(),
    {
        let ghost cur = lexer.cursor();
        proof {
            lemma_next_advances(s, cur);
        }
        match take_operator(lexer, lvl) {
            None => {
                return Ok(tree);
            },
            Some((kind, swap)) => {
                let operand = match binary(lexer, lvl - 1) {
                    Ok(t) => t,
                    Err(x) => return Err(x),
                };
                tree = if swap {
                    Tree::new_tree(kind, operand, tree)
                } else {
                    Tree::new_tree(kind, tree, operand)
                };
            },
        }
    }
}

fn assign(lexer: &mut Lexer) -> (r: Result<Tree, ParseError>)
    requires
        old(lexer).wf(),
    ensures
        final(lexer).wf(),
        final(lexer).source() == old(lexer).source(),
        outcome(r, *final(lexer)) == p_assign(
            old(lexer).source(),
            old(lexer).cursor(),
            old(lexer).names(),
        ),
        r is Ok ==> old(lexer).cursor() <= final(lexer).cursor(),
    decreases old(lexer).source().len() - old(lexer).cursor(), 11nat,
{
    let ghost s = lexer.source();
    let target = match binary(lexer, 4) {
        Ok(t) => t,
        Err(x) => return Err(x),
    };
    proof {
        lemma_next_advances(s, lexer.cursor());
    }
    if lexer.consume(Token::Operator(OperatorKind::Equal)).is_ok() {
        match assign(lexer) {
            Ok(value) => Ok(Tree::new_tree(NodeKind::Assign, target, value)),
            Err(x) => Err(x),
        }
    } else {
        Ok(target)
    }
}

fn stmt(lexer: &mut Lexer) -> (r: Result<Tree, ParseError>)
    requires
        old(lexer).wf(),
    ensures
        final(lexer).wf(),
        final(lexer).source() == old(lexer).source(),
        outcome(r, *final(lexer)) == p_stmt(
            old(lexer).source(),
            old(lexer).cursor(),
            old(lexer).names(),
        ),
        r is Ok ==> old(lexer).cursor() < final(lexer).cursor(),
{
    let ghost s = lexer.source();
    let tree = match assign(lexer) {
        Ok(t) => t,
        Err(x) => return Err(x),
    };
    proof {
        lemma_next_advances(s, lexer.cursor());
    }
    match lexer.consume(Token::Operator(OperatorKind::Semi)) {
        Ok(_) => Ok(tree),
        Err(ErrorToken::InvaildChar(c)) => Err(ParseError::MissingSemi(c)),
    }
}

/// Parses statements until the end of input.
pub fn program(lexer: &mut Lexer) -> (r: Result<Vec<Tree>, ParseError>)
    requires
        old(lexer).wf(),
    ensures
        final(lexer).wf(),
        final(lexer).source() == old(lexer).source(),
        match p_program(old(lexer).source(), old(lexer).cursor(), old(lexer).names()) {
            Ok((trees, p, tab)) => {
                &&& r is Ok
                &&& r->Ok_0@ == trees
                &&& final(lexer).cursor() == p
                &&& final(lexer).names() == tab
            },
            Err(x) => r == Err::<Vec<Tree>, ParseError>(x),
        },
{
    let ghost s = lexer.source();
    let ghost p = lexer.cursor();
    let ghost tab = lexer.names();
    let mut trees: Vec<Tree> = Vec::new();
    assert(trees@ + Seq::<Tree>::empty() =~= Seq::<Tree>::empty());
    loop
        invariant
            lexer.wf(),
            lexer.source() == s,
            s == old(lexer).source(),
            p == old(lexer).cursor(),
            tab == old(lexer).names(),
            p_program(s, p, tab) == prepend(
                trees@,
                p_program(s, lexer.cursor(), lexer.names()),
            ),
        decreases s.len() - lexer.cursor(),
    {
        let ghost cur = lexer.cursor();
        let ghost done = trees@;
        proof {
            lemma_next_advances(s, cur);
        }
        if lexer.expect(Token::EOF) {
            assert(done + Seq::<Tree>::empty() =~= done);
            return Ok(trees);
        }
        match stmt(lexer) {
            Ok(t) => {
                proof {
                    let rest = p_program(s, lexer.cursor(), lexer.names());
                    match rest {
                        Ok((more, q, t2)) => {
                            assert(done + (seq![t] + more) =~= done.push(t) + more);
                        },
                        Err(_) => {},
                    }
                }
                trees.push(t);
            },
            Err(x) => return Err(x),
        }
    }
}

} // verus!
