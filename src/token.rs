//! The lexical vocabulary: tokens, their rendering, and the lexical error.
use vstd::prelude::*;
use crate::chars::{decimal, push_decimal};

verus! {

/// The single numeric kind of the language.
pub type NumType = usize;

#[derive(Debug, PartialEq, Eq)]
pub enum Token {
    Operator(OperatorKind),
    EOF,
}

#[derive(Debug, PartialEq, Eq, Structural, Clone, Copy)]
pub enum ErrorToken {
    InvaildChar(char),
}

#[derive(Debug, PartialEq, Eq)]
pub enum OperatorKind {
    Ident(Ident),
    Semi,
    Operand(NumType),
    Equal,
    Equality,
    Nonequality,
    Less,
    LessOrEqual,
    Greater,
    GreaterOrEqual,
    Add,
    Sub,
    Mul,
    Div,
    LParen,
    RParen,
}

#[derive(Debug, PartialEq, Eq)]
pub struct Ident {
    pub name: String,
}

/// A token as a mathematical value: an identifier is its sequence of characters.
pub enum TokenView {
    Ident(Seq<char>),
    Semi,
    Operand(NumType),
    Equal,
    Equality,
    Nonequality,
    Less,
    LessOrEqual,
    Greater,
    GreaterOrEqual,
    Add,
    Sub,
    Mul,
    Div,
    LParen,
    RParen,
    EOF,
}

impl View for OperatorKind {
    type V = TokenView;

    open spec fn view(&self) -> TokenView {
        match self {
            OperatorKind::Ident(i) => TokenView::Ident(i.name@),
            OperatorKind::Semi => TokenView::Semi,
            OperatorKind::Operand(n) => TokenView::Operand(*n),
            OperatorKind::Equal => TokenView::Equal,
            OperatorKind::Equality => TokenView::Equality,
            OperatorKind::Nonequality => TokenView::Nonequality,
            OperatorKind::Less => TokenView::Less,
            OperatorKind::LessOrEqual => TokenView::LessOrEqual,
            OperatorKind::Greater => TokenView::Greater,
            OperatorKind::GreaterOrEqual => TokenView::GreaterOrEqual,
            OperatorKind::Add => TokenView::Add,
            OperatorKind::Sub => TokenView::Sub,
            OperatorKind::Mul => TokenView::Mul,
            OperatorKind::Div => TokenView::Div,
            OperatorKind::LParen => TokenView::LParen,
            OperatorKind::RParen => TokenView::RParen,
        }
    }
}

impl View for Token {
    type V = TokenView;

    open spec fn view(&self) -> TokenView {
        match self {
            Token::Operator(o) => o@,
            Token::EOF => TokenView::EOF,
        }
    }
}

/// A punctuation or keyword token: neither an identifier, a number nor the end.
pub open spec fn is_punct(t: TokenView) -> bool {
    !(t is Ident || t is Operand || t is EOF)
}

/// The textual form of a token in source code.
pub open spec fn render(t: TokenView) -> Seq<char> {
    match t {
        TokenView::Ident(name) => name,
        TokenView::Semi => seq![';'],
        TokenView::Operand(n) => decimal(n as nat),
        TokenView::Equal => seq!['='],
        TokenView::Equality => seq!['=', '='],
        TokenView::Nonequality => seq!['!', '='],
        TokenView::Less => seq!['<'],
        TokenView::LessOrEqual => seq!['<', '='],
        TokenView::Greater => seq!['>'],
        TokenView::GreaterOrEqual => seq!['>', '='],
        TokenView::Add => seq!['+'],
        TokenView::Sub => seq!['-'],
        TokenView::Mul => seq!['*'],
        TokenView::Div => seq!['/'],
        TokenView::LParen => seq!['('],
        TokenView::RParen => seq![')'],
        TokenView::EOF => seq![],
    }
}

impl Ident {
    pub fn new(name: &str) -> (r: Ident)
        ensures
            r.name@ == name@,
    {
        Ident { name: String::from_str(name) }
    }
}

impl OperatorKind {
    /// The textual form of this token in source code.
    pub fn text(&self) -> (r: String)
        ensures
            r@ == render(self@),
    {
        match self {
            OperatorKind::Ident(i) => i.name.clone(),
            OperatorKind::Operand(n) => {
                let mut s = String::new();
                push_decimal(&mut s, *n);
                s
            },
            _ => {
                let s = match self {
                    OperatorKind::Semi => ";",
                    OperatorKind::Equal => "=",
                    OperatorKind::Equality => "==",
                    OperatorKind::Nonequality => "!=",
                    OperatorKind::Less => "<",
                    OperatorKind::LessOrEqual => "<=",
                    OperatorKind::Greater => ">",
                    OperatorKind::GreaterOrEqual => ">=",
                    OperatorKind::Add => "+",
                    OperatorKind::Sub => "-",
                    OperatorKind::Mul => "*",
                    OperatorKind::Div => "/",
                    OperatorKind::LParen => "(",
                    _ => ")",
                };
                proof {
                    reveal_strlit(";");
                    reveal_strlit("=");
                    reveal_strlit("==");
                    reveal_strlit("!=");
                    reveal_strlit("<");
                    reveal_strlit("<=");
                    reveal_strlit(">");
                    reveal_strlit(">=");
                    reveal_strlit("+");
                    reveal_strlit("-");
                    reveal_strlit("*");
                    reveal_strlit("/");
                    reveal_strlit("(");
                    reveal_strlit(")");
                }
                let r = String::from_str(s);
                assert(r@ =~= render(self@));
                r
            },
        }
    }
}

} // verus!
