//! The lexer: a pull-based token stream over the source characters, which also
//! owns the identifier table that assigns each variable its frame slot.
use vstd::prelude::*;
use crate::chars::{
    alphabetic, chars_of, decimal, digit_char, digit_value, digits_value, is_alphabetic, is_digit,
    is_whitespace, push_char, whitespace,
};
use crate::token::{is_punct, render, ErrorToken, Ident, OperatorKind, Token, TokenView};

verus! {

/// Bytes in one machine word: the size of one variable slot.
pub const WORD_SIZE: usize = 8;

/// The most identifiers a table can hold: each slot offset must fit in a `usize`.
pub const MAX_IDENTS: usize = usize::MAX / 8 - 1;

/// The character at index `i`, or the sentinel `'\0'` past the end.
pub open spec fn char_at(s: Seq<char>, i: int) -> char {
    if 0 <= i < s.len() {
        s[i]
    } else {
        '\0'
    }
}

/// The first index at or after `p` that does not hold whitespace.
pub open spec fn skip_ws(s: Seq<char>, p: int) -> int
    decreases s.len() - p,
{
    if 0 <= p < s.len() && whitespace(s[p]) {
        skip_ws(s, p + 1)
    } else {
        p
    }
}

pub open spec fn is_number_char(c: char) -> bool {
    is_digit(c) || c == '.'
}

pub open spec fn is_ident_char(c: char) -> bool {
    alphabetic(c) || c == '_'
}

/// The end of the run of digits and dots that starts at `q`.
pub open spec fn number_end(s: Seq<char>, q: int) -> int
    decreases s.len() - q,
{
    if 0 <= q < s.len() && is_number_char(s[q]) {
        number_end(s, q + 1)
    } else {
        q
    }
}

/// The end of the run of identifier characters that starts at `q`.
pub open spec fn ident_end(s: Seq<char>, q: int) -> int
    decreases s.len() - q,
{
    if 0 <= q < s.len() && is_ident_char(s[q]) {
        ident_end(s, q + 1)
    } else {
        q
    }
}

/// Reads a run of digits and dots as a number: its value when it is all digits
/// and fits in a `usize`, else the first character at which it stops being one.
pub open spec fn scan_number(r: Seq<char>) -> Result<nat, char>
    decreases r.len(),
{
    if r.len() == 0 {
        Ok(0)
    } else {
        match scan_number(r.drop_last()) {
            Err(c) => Err(c),
            Ok(v) => {
                let c = r.last();
                if !is_digit(c) || v * 10 + digit_value(c) > usize::MAX {
                    Err(c)
                } else {
                    Ok(v * 10 + digit_value(c))
                }
            },
        }
    }
}

/// The token that starts at index `q` (whitespace already skipped), and the
/// index just past it. Operator characters are tried before the identifier
/// class: none of them is alphabetic, so the order changes nothing that is read.
pub open spec fn lex_at(s: Seq<char>, q: int) -> (Result<TokenView, ErrorToken>, int) {
    let c = char_at(s, q);
    let d = char_at(s, q + 1);
    if c == '\0' {
        (Ok(TokenView::EOF), if q < s.len() { q + 1 } else { q })
    } else if is_number_char(c) {
        let e = number_end(s, q);
        (
            match scan_number(s.subrange(q, e)) {
                Ok(v) => Ok(TokenView::Operand(v as usize)),
                Err(b) => Err(ErrorToken::InvaildChar(b)),
            },
            e,
        )
    } else if c == '=' && d == '=' {
        (Ok(TokenView::Equality), q + 2)
    } else if c == '!' && d == '=' {
        (Ok(TokenView::Nonequality), q + 2)
    } else if c == '<' && d == '=' {
        (Ok(TokenView::LessOrEqual), q + 2)
    } else if c == '>' && d == '=' {
        (Ok(TokenView::GreaterOrEqual), q + 2)
    } else if single_punct(c) is Some {
        (Ok(single_punct(c).unwrap()), q + 1)
    } else if is_ident_char(c) {
        let e = ident_end(s, q);
        (Ok(TokenView::Ident(s.subrange(q, e))), e)
    } else {
        (Err(ErrorToken::InvaildChar(c)), q + 1)
    }
}

/// The token that a character forms on its own, if it forms one.
pub open spec fn single_punct(c: char) -> Option<TokenView> {
    if c == '=' {
        Some(TokenView::Equal)
    } else if c == '<' {
        Some(TokenView::Less)
    } else if c == '>' {
        Some(TokenView::Greater)
    } else if c == '+' {
        Some(TokenView::Add)
    } else if c == '-' {
        Some(TokenView::Sub)
    } else if c == '*' {
        Some(TokenView::Mul)
    } else if c == '/' {
        Some(TokenView::Div)
    } else if c == '(' {
        Some(TokenView::LParen)
    } else if c == ')' {
        Some(TokenView::RParen)
    } else if c == ';' {
        Some(TokenView::Semi)
    } else {
        None
    }
}

/// The next token after position `p`, and the position just past it.
pub open spec fn next_at(s: Seq<char>, p: int) -> (Result<TokenView, ErrorToken>, int) {
    lex_at(s, skip_ws(s, p))
}

/// A lexing result as a mathematical value.
pub open spec fn lexed(r: Result<Token, ErrorToken>) -> Result<TokenView, ErrorToken> {
    match r {
        Ok(t) => Ok(t@),
        Err(e) => Err(e),
    }
}

/// The first index of `name` in the table, if it is there.
pub open spec fn first_index(tab: Seq<Seq<char>>, name: Seq<char>) -> Option<int> {
    if exists|i: int| 0 <= i < tab.len() && tab[i] == name {
        Some(
            choose|i: int|
                0 <= i < tab.len() && tab[i] == name && forall|j: int|
                    0 <= j < i ==> tab[j] != name,
        )
    } else {
        None
    }
}

/// The slot offset of `name` and the table after resolving it: a known name
/// keeps its slot, a new one is appended and gets the next slot.
pub open spec fn resolve(tab: Seq<Seq<char>>, name: Seq<char>) -> (int, Seq<Seq<char>>) {
    match first_index(tab, name) {
        Some(i) => ((i + 1) * WORD_SIZE, tab),
        None => ((tab.len() + 1) * WORD_SIZE, tab.push(name)),
    }
}

/// The cursor after `t` has been taken at `p`: past the token, except that the
/// end of input is never stepped over.
pub open spec fn after_token(s: Seq<char>, p: int, t: TokenView) -> int {
    if t is EOF {
        skip_ws(s, p)
    } else {
        next_at(s, p).1
    }
}

/// An identifier starts after position `p`.
pub open spec fn at_ident(s: Seq<char>, p: int) -> bool {
    let q = skip_ws(s, p);
    0 <= q < s.len() && is_ident_char(s[q])
}

/// No name appears twice in the table.
pub open spec fn distinct(tab: Seq<Seq<char>>) -> bool {
    forall|i: int, j: int| 0 <= i < j < tab.len() ==> tab[i] != tab[j]
}

/// A table has room for `name`: it is known already, or one more entry fits.
pub open spec fn can_resolve(tab: Seq<Seq<char>>, name: Seq<char>) -> bool {
    tab.contains(name) || tab.len() < MAX_IDENTS
}

proof fn lemma_first_index(tab: Seq<Seq<char>>, name: Seq<char>, i: int)
    requires
        0 <= i < tab.len(),
        tab[i] == name,
        forall|j: int| 0 <= j < i ==> tab[j] != name,
    ensures
        first_index(tab, name) == Some(i),
{
    let k = choose|k: int|
        0 <= k < tab.len() && tab[k] == name && forall|j: int| 0 <= j < k ==> tab[j] != name;
    assert(0 <= k < tab.len() && tab[k] == name);
    if k < i {
        assert(tab[k] != name);
    }
    if i < k {
        assert(tab[i] != name);
    }
}

pub struct Lexer {
    input: Vec<char>,
    position: usize,
    idents: Vec<Ident>,
}

impl Lexer {
    /// The source characters.
    pub closed spec fn source(&self) -> Seq<char> {
        self.input@
    }

    /// The index of the next character to read.
    pub closed spec fn cursor(&self) -> int {
        self.position as int
    }

    /// The identifier table, in order of first appearance.
    pub closed spec fn names(&self) -> Seq<Seq<char>> {
        self.idents@.map_values(|i: Ident| i.name@)
    }

    pub open spec fn wf(&self) -> bool {
        &&& 0 <= self.cursor() <= self.source().len()
        &&& self.names().len() <= MAX_IDENTS
        &&& distinct(self.names())
    }

    pub fn new(input: &str) -> (r: Lexer)
        ensures
            r.wf(),
            r.source() == input@,
            r.cursor() == 0,
            r.names() == Seq::<Seq<char>>::empty(),
    {
        let r = Lexer { input: chars_of(input), position: 0, idents: Vec::new() };
        assert(r.names() =~= Seq::<Seq<char>>::empty());
        r
    }

    /// Reads the next token and moves past it.
    pub fn next_token(&mut self) -> (r: Result<Token, ErrorToken>)
        requires
            old(self).wf(),
        ensures
            final(self).wf(),
            final(self).source() == old(self).source(),
            final(self).names() == old(self).names(),
            lexed(r) == next_at(old(self).source(), old(self).cursor()).0,
            final(self).cursor() == next_at(old(self).source(), old(self).cursor()).1,
    {
        self.skip_whitespace();
        let (t, e) = self.lex_from(self.position);
        self.position = e;
        t
    }

    /// Takes `token` when it is the next one; else reports the character where
    /// it was expected and stays there.
    pub fn consume(&mut self, token: Token) -> (r: Result<Token, ErrorToken>)
        requires
            old(self).wf(),
        ensures
            final(self).wf(),
            final(self).source() == old(self).source(),
            final(self).names() == old(self).names(),
            ({
                let s = old(self).source();
                let p = old(self).cursor();
                if next_at(s, p).0 == Ok::<TokenView, ErrorToken>(token@) {
                    &&& r == Ok::<Token, ErrorToken>(token)
                    &&& final(self).cursor() == after_token(s, p, token@)
                } else {
                    &&& r == Err::<Token, ErrorToken>(
                        ErrorToken::InvaildChar(char_at(s, skip_ws(s, p))),
                    )
                    &&& final(self).cursor() == skip_ws(s, p)
                }
            }),
    {
        self.skip_whitespace();
        let q = self.position;
        let (t, e) = self.lex_from(q);
        let hit = match &t {
            Ok(found) => same_token(found, &token),
            Err(_) => false,
        };
        if hit {
            if !matches!(token, Token::EOF) {
                self.position = e;
            }
            Ok(token)
        } else {
            Err(ErrorToken::InvaildChar(self.char_at_index(q)))
        }
    }

    /// Takes the identifier that comes next, or reports the character where it
    /// was expected.
    pub fn consume_ident(&mut self) -> (r: Result<Token, ErrorToken>)
        requires
            old(self).wf(),
        ensures
            final(self).wf(),
            final(self).source() == old(self).source(),
            final(self).names() == old(self).names(),
            ({
                let s = old(self).source();
                let q = skip_ws(s, old(self).cursor());
                if at_ident(s, old(self).cursor()) {
                    &&& lexed(r) == Ok::<TokenView, ErrorToken>(
                        TokenView::Ident(s.subrange(q, ident_end(s, q))),
                    )
                    &&& final(self).cursor() == ident_end(s, q)
                } else {
                    &&& r == Err::<Token, ErrorToken>(ErrorToken::InvaildChar(char_at(s, q)))
                    &&& final(self).cursor() == q
                }
            }),
    {
        self.skip_whitespace();
        let q = self.position;
        if q < self.input.len() && (is_alphabetic(self.input[q]) || self.input[q] == '_') {
            proof {
                lemma_run_ends(self.source(), q as int);
            }
            let (ident, e) = self.lex_ident(q);
            self.position = e;
            Ok(Token::Operator(OperatorKind::Ident(ident)))
        } else {
            Err(ErrorToken::InvaildChar(self.char_at_index(q)))
        }
    }

    /// Tells whether `token` comes next; only whitespace is passed over.
    pub fn expect(&mut self, token: Token) -> (r: bool)
        requires
            old(self).wf(),
        ensures
            final(self).wf(),
            final(self).source() == old(self).source(),
            final(self).names() == old(self).names(),
            r == (next_at(old(self).source(), old(self).cursor()).0 == Ok::<
                TokenView,
                ErrorToken,
            >(token@)),
            final(self).cursor() == skip_ws(old(self).source(), old(self).cursor()),
    {
        self.skip_whitespace();
        let (t, _) = self.lex_from(self.position);
        match &t {
            Ok(found) => same_token(found, &token),
            Err(_) => false,
        }
    }

    /// Tells whether an identifier comes next; only whitespace is passed over.
    pub fn expect_ident(&mut self) -> (r: bool)
        requires
            old(self).wf(),
        ensures
            final(self).wf(),
            final(self).source() == old(self).source(),
            final(self).names() == old(self).names(),
            r == at_ident(old(self).source(), old(self).cursor()),
            final(self).cursor() == skip_ws(old(self).source(), old(self).cursor()),
    {
        self.skip_whitespace();
        let q = self.position;
        q < self.input.len() && (is_alphabetic(self.input[q]) || self.input[q] == '_')
    }

    /// The frame offset of a variable: a known name keeps its slot, a new one
    /// is registered and gets the next slot.
    pub fn calc_offset(&mut self, ident: Ident) -> (r: usize)
        requires
            old(self).wf(),
            can_resolve(old(self).names(), ident.name@),
        ensures
            final(self).wf(),
            final(self).source() == old(self).source(),
            final(self).cursor() == old(self).cursor(),
            r == resolve(old(self).names(), ident.name@).0,
            final(self).names() == resolve(old(self).names(), ident.name@).1,
    {
        let ghost tab = self.names();
        let mut i: usize = 0;
        while i < self.idents.len()
            invariant
                i <= self.idents.len(),
                tab == self.names(),
                self.wf(),
                self.source() == old(self).source(),
                self.cursor() == old(self).cursor(),
                tab.len() == self.idents.len(),
                tab.len() <= MAX_IDENTS,
                forall|j: int| 0 <= j < i ==> tab[j] != ident.name@,
            decreases self.idents.len() - i,
        {
            if self.idents[i].name == ident.name {
                proof {
                    lemma_first_index(tab, ident.name@, i as int);
                }
                assert((i + 1) * WORD_SIZE <= usize::MAX) by (nonlinear_arith)
                    requires
                        i < MAX_IDENTS,
                        MAX_IDENTS == usize::MAX / 8 - 1,
                        WORD_SIZE == 8,
                ;
                return (i + 1) * WORD_SIZE;
            }
            i = i + 1;
        }
        assert(!tab.contains(ident.name@));
        let ghost name = ident.name@;
        self.idents.push(ident);
        assert(self.names() =~= tab.push(name));
        let n = self.idents.len();
        assert(n * WORD_SIZE <= usize::MAX) by (nonlinear_arith)
            requires
                n <= MAX_IDENTS,
                MAX_IDENTS == usize::MAX / 8 - 1,
                WORD_SIZE == 8,
        ;
        n * WORD_SIZE
    }

    /// Whether the table holds this identifier.
    pub(crate) fn has_ident(&self, ident: &Ident) -> (r: bool)
        ensures
            r == self.names().contains(ident.name@),
    {
        let ghost tab = self.names();
        let mut i: usize = 0;
        while i < self.idents.len()
            invariant
                i <= self.idents.len(),
                tab == self.names(),
                tab.len() == self.idents.len(),
                forall|j: int| 0 <= j < i ==> tab[j] != ident.name@,
            decreases self.idents.len() - i,
        {
            if self.idents[i].name == ident.name {
                assert(tab[i as int] == ident.name@);
                return true;
            }
            i = i + 1;
        }
        false
    }

    /// The number of distinct identifiers seen so far.
    pub fn get_ident_count(&self) -> (r: usize)
        ensures
            r == self.names().len(),
    {
        self.idents.len()
    }

    fn char_at_index(&self, i: usize) -> (c: char)
        ensures
            c == char_at(self.source(), i as int),
    {
        if i < self.input.len() {
            self.input[i]
        } else {
            '\0'
        }
    }

    fn skip_whitespace(&mut self)
        requires
            old(self).wf(),
        ensures
            final(self).wf(),
            final(self).source() == old(self).source(),
            final(self).names() == old(self).names(),
            final(self).cursor() == skip_ws(old(self).source(), old(self).cursor()),
    {
        while self.position < self.input.len() && is_whitespace(self.input[self.position])
            invariant
                self.wf(),
                self.source() == old(self).source(),
                self.names() == old(self).names(),
                skip_ws(self.source(), self.cursor()) == skip_ws(
                    old(self).source(),
                    old(self).cursor(),
                ),
            decreases self.input.len() - self.position,
        {
            self.position = self.position + 1;
        }
    }

    fn lex_number(&self, q: usize) -> (r: (Result<Token, ErrorToken>, usize))
        requires
            self.wf(),
            q < self.source().len(),
            is_number_char(self.source()[q as int]),
        ensures
            lexed(r.0) == lex_at(self.source(), q as int).0,
            r.1 == lex_at(self.source(), q as int).1,
    {
        let ghost s = self.source();
        let mut k: usize = q;
        let mut acc: usize = 0;
        let mut bad: Option<char> = None;
        while k < self.input.len() && (is_digit_char(self.input[k]) || self.input[k] == '.')
            invariant
                q <= k <= s.len(),
                s == self.source(),
                number_end(s, k as int) == number_end(s, q as int),
                match bad {
                    None => scan_number(s.subrange(q as int, k as int)) == Ok::<nat, char>(
                        acc as nat,
                    ),
                    Some(b) => scan_number(s.subrange(q as int, k as int)) == Err::<nat, char>(
                        b,
                    ),
                },
            decreases s.len() - k,
        {
            let c = self.input[k];
            assert(s.subrange(q as int, k + 1).drop_last() =~= s.subrange(q as int, k as int));
            assert(s.subrange(q as int, k + 1).last() == c);
            if bad.is_none() {
                if c == '.' {
                    bad = Some(c);
                } else {
                    let d = (c as u32 - '0' as u32) as usize;
                    assert(d as nat == digit_value(c));
                    if acc <= (usize::MAX - d) / 10 {
                        assert(acc * 10 + d <= usize::MAX) by (nonlinear_arith)
                            requires
                                acc <= (usize::MAX - d) / 10,
                                d <= 9,
                        ;
                        acc = acc * 10 + d;
                    } else {
                        assert(acc * 10 + d > usize::MAX) by (nonlinear_arith)
                            requires
                                acc > (usize::MAX - d) / 10,
                                d <= 9,
                        ;
                        bad = Some(c);
                    }
                }
            }
            k = k + 1;
        }
        let tok = match bad {
            None => Ok(Token::Operator(OperatorKind::Operand(acc))),
            Some(b) => Err(ErrorToken::InvaildChar(b)),
        };
        (tok, k)
    }

    fn lex_ident(&self, q: usize) -> (r: (Ident, usize))
        requires
            self.wf(),
            q < self.source().len(),
            is_ident_char(self.source()[q as int]),
        ensures
            r.0.name@ == self.source().subrange(q as int, ident_end(self.source(), q as int)),
            r.1 == ident_end(self.source(), q as int),
    {
        let ghost s = self.source();
        let mut k: usize = q;
        let mut name = String::new();
        while k < self.input.len() && (is_alphabetic(self.input[k]) || self.input[k] == '_')
            invariant
                q <= k <= s.len(),
                s == self.source(),
                ident_end(s, k as int) == ident_end(s, q as int),
                name@ == s.subrange(q as int, k as int),
            decreases s.len() - k,
        {
            push_char(&mut name, self.input[k]);
            assert(name@ =~= s.subrange(q as int, k + 1));
            k = k + 1;
        }
        (Ident { name }, k)
    }

    /// Lexes the token that starts at index `q`, without moving the cursor.
    fn lex_from(&self, q: usize) -> (r: (Result<Token, ErrorToken>, usize))
        requires
            self.wf(),
            q <= self.source().len(),
        ensures
            lexed(r.0) == lex_at(self.source(), q as int).0,
            r.1 == lex_at(self.source(), q as int).1,
            q < r.1 <= self.source().len() || (q == r.1 == self.source().len()),
    {
        let ghost s = self.source();
        let c = self.char_at_index(q);
        let d = if q < self.input.len() {
            self.char_at_index(q + 1)
        } else {
            '\0'
        };
        assert(d == char_at(s, q + 1));
        if c == '\0' {
            if q < self.input.len() {
                (Ok(Token::EOF), q + 1)
            } else {
                (Ok(Token::EOF), q)
            }
        } else if is_digit_char(c) || c == '.' {
            proof {
                lemma_run_ends(s, q as int);
            }
            self.lex_number(q)
        } else if c == '=' && d == '=' {
            (Ok(Token::Operator(OperatorKind::Equality)), q + 2)
        } else if c == '!' && d == '=' {
            (Ok(Token::Operator(OperatorKind::Nonequality)), q + 2)
        } else if c == '<' && d == '=' {
            (Ok(Token::Operator(OperatorKind::LessOrEqual)), q + 2)
        } else if c == '>' && d == '=' {
            (Ok(Token::Operator(OperatorKind::GreaterOrEqual)), q + 2)
        } else if let Some(op) = single_punct_of(c) {
            (Ok(Token::Operator(op)), q + 1)
        } else if is_alphabetic(c) || c == '_' {
            proof {
                lemma_run_ends(s, q as int);
            }
            let (ident, e) = self.lex_ident(q);
            (Ok(Token::Operator(OperatorKind::Ident(ident))), e)
        } else {
            (Err(ErrorToken::InvaildChar(c)), q + 1)
        }
    }
}

/// Compares two tokens as values.
fn same_token(a: &Token, b: &Token) -> (r: bool)
    ensures
        r == (a@ == b@),
{
    match (a, b) {
        (Token::EOF, Token::EOF) => true,
        (Token::Operator(x), Token::Operator(y)) => match (x, y) {
            (OperatorKind::Ident(i), OperatorKind::Ident(j)) => i.name == j.name,
            (OperatorKind::Operand(m), OperatorKind::Operand(n)) => *m == *n,
            (OperatorKind::Semi, OperatorKind::Semi) => true,
            (OperatorKind::Equal, OperatorKind::Equal) => true,
            (OperatorKind::Equality, OperatorKind::Equality) => true,
            (OperatorKind::Nonequality, OperatorKind::Nonequality) => true,
            (OperatorKind::Less, OperatorKind::Less) => true,
            (OperatorKind::LessOrEqual, OperatorKind::LessOrEqual) => true,
            (OperatorKind::Greater, OperatorKind::Greater) => true,
            (OperatorKind::GreaterOrEqual, OperatorKind::GreaterOrEqual) => true,
            (OperatorKind::Add, OperatorKind::Add) => true,
            (OperatorKind::Sub, OperatorKind::Sub) => true,
            (OperatorKind::Mul, OperatorKind::Mul) => true,
            (OperatorKind::Div, OperatorKind::Div) => true,
            (OperatorKind::LParen, OperatorKind::LParen) => true,
            (OperatorKind::RParen, OperatorKind::RParen) => true,
            _ => false,
        },
        _ => false,
    }
}

fn single_punct_of(c: char) -> (r: Option<OperatorKind>)
    ensures
        match r {
            Some(op) => single_punct(c) == Some(op@),
            None => single_punct(c) is None,
        },
{
    if c == '=' {
        Some(OperatorKind::Equal)
    } else if c == '<' {
        Some(OperatorKind::Less)
    } else if c == '>' {
        Some(OperatorKind::Greater)
    } else if c == '+' {
        Some(OperatorKind::Add)
    } else if c == '-' {
        Some(OperatorKind::Sub)
    } else if c == '*' {
        Some(OperatorKind::Mul)
    } else if c == '/' {
        Some(OperatorKind::Div)
    } else if c == '(' {
        Some(OperatorKind::LParen)
    } else if c == ')' {
        Some(OperatorKind::RParen)
    } else if c == ';' {
        Some(OperatorKind::Semi)
    } else {
        None
    }
}

fn is_digit_char(c: char) -> (r: bool)
    ensures
        r == is_digit(c),
{
    '0' <= c && c <= '9'
}

/// A run that starts on a matching character ends past it, within the text.
proof fn lemma_run_ends(s: Seq<char>, q: int)
    requires
        0 <= q < s.len(),
    ensures
        is_number_char(s[q]) ==> q < number_end(s, q) <= s.len(),
        is_ident_char(s[q]) ==> q < ident_end(s, q) <= s.len(),
{
    lemma_run_bounds(s, q + 1);
}

proof fn lemma_run_bounds(s: Seq<char>, q: int)
    requires
        0 <= q <= s.len(),
    ensures
        q <= number_end(s, q) <= s.len(),
        q <= ident_end(s, q) <= s.len(),
    decreases s.len() - q,
{
    if q < s.len() {
        lemma_run_bounds(s, q + 1);
    }
}


proof fn lemma_skip_ws_bounds(s: Seq<char>, p: int)
    requires
        0 <= p <= s.len(),
    ensures
        p <= skip_ws(s, p) <= s.len(),
        skip_ws(s, skip_ws(s, p)) == skip_ws(s, p),
    decreases s.len() - p,
{
    if p < s.len() && whitespace(s[p]) {
        lemma_skip_ws_bounds(s, p + 1);
    }
}

/// Reading a token never moves back or past the end, and only the end of input
/// leaves the position where it was; whitespace that was already skipped
/// changes nothing.
pub proof fn lemma_next_advances(s: Seq<char>, p: int)
    requires
        0 <= p <= s.len(),
    ensures
        p <= skip_ws(s, p) <= next_at(s, p).1 <= s.len(),
        next_at(s, p).0 != Ok::<TokenView, ErrorToken>(TokenView::EOF) ==> p < next_at(s, p).1,
        next_at(s, skip_ws(s, p)) == next_at(s, p),
        skip_ws(s, skip_ws(s, p)) == skip_ws(s, p),
{
    lemma_skip_ws_bounds(s, p);
    let q = skip_ws(s, p);
    if q < s.len() {
        lemma_run_ends(s, q);
    }
}

proof fn lemma_number_end_digits(s: Seq<char>, q: int, e: int)
    requires
        0 <= q <= e <= s.len(),
        forall|k: int| q <= k < e ==> is_digit(s[k]),
        !is_number_char(char_at(s, e)),
    ensures
        number_end(s, q) == e,
    decreases e - q,
{
    if q < e {
        lemma_number_end_digits(s, q + 1, e);
    }
}

proof fn lemma_scan_digits(r: Seq<char>)
    requires
        forall|k: int| 0 <= k < r.len() ==> is_digit(r[k]),
        digits_value(r) <= usize::MAX,
    ensures
        scan_number(r) == Ok::<nat, char>(digits_value(r)),
    decreases r.len(),
{
    if r.len() > 0 {
        lemma_scan_digits(r.drop_last());
    }
}

/// A literal of decimal digits that fits in a `usize` lexes to exactly its
/// value, and the lexer ends right after its last digit.
pub proof fn lemma_number_literal(s: Seq<char>, q: int, e: int)
    requires
        0 <= q < e <= s.len(),
        forall|k: int| q <= k < e ==> is_digit(s[k]),
        !is_number_char(char_at(s, e)),
        digits_value(s.subrange(q, e)) <= usize::MAX,
    ensures
        lex_at(s, q) == (
            Ok::<TokenView, ErrorToken>(TokenView::Operand(digits_value(s.subrange(q, e)) as usize)),
            e,
        ),
{
    lemma_number_end_digits(s, q, e);
    lemma_scan_digits(s.subrange(q, e));
}

/// A character that starts no token is reported as itself, and the lexer
/// moves past it only.
pub proof fn lemma_unknown_char(s: Seq<char>, q: int)
    requires
        0 <= q < s.len(),
        s[q] != '\0',
        !is_number_char(s[q]),
        !is_ident_char(s[q]),
        !seq!['=', '!', '<', '>', '+', '-', '*', '/', '(', ')', ';'].contains(s[q]),
    ensures
        lex_at(s, q) == (Err::<TokenView, ErrorToken>(ErrorToken::InvaildChar(s[q])), q + 1),
{
    let ops = seq!['=', '!', '<', '>', '+', '-', '*', '/', '(', ')', ';'];
    assert(ops[0] == '=' && ops[1] == '!' && ops[2] == '<' && ops[3] == '>' && ops[4] == '+');
    assert(ops[5] == '-' && ops[6] == '*' && ops[7] == '/' && ops[8] == '(' && ops[9] == ')');
    assert(ops[10] == ';');
}

/// Reading the next token from the text of a punctuation token gives back that
/// token, and consumes all of the text.
pub proof fn lemma_punct_round_trip(t: TokenView)
    requires
        is_punct(t),
    ensures
        next_at(render(t), 0) == (Ok::<TokenView, ErrorToken>(t), render(t).len() as int),
{
    assert(skip_ws(render(t), 0) == 0);
}

proof fn lemma_digit_char(d: nat)
    requires
        d < 10,
    ensures
        is_digit(digit_char(d)),
        digit_value(digit_char(d)) == d,
{
}

proof fn lemma_decimal(n: nat)
    ensures
        decimal(n).len() >= 1,
        forall|k: int| 0 <= k < decimal(n).len() ==> is_digit(#[trigger] decimal(n)[k]),
        digits_value(decimal(n)) == n,
    decreases n,
{
    lemma_digit_char(n % 10);
    if n < 10 {
        assert(digits_value(decimal(n)) == digits_value(seq![digit_char(n)]));
        let one = seq![digit_char(n)];
        assert(one.drop_last() =~= Seq::<char>::empty());
        assert(digits_value(Seq::<char>::empty()) == 0);
        assert(n % 10 == n);
        assert(digits_value(one) == digit_value(one.last()));
    } else {
        lemma_decimal(n / 10);
        let d = decimal(n);
        assert(d.drop_last() =~= decimal(n / 10));
        assert(d.last() == digit_char(n % 10));
        assert(n == (n / 10) * 10 + n % 10) by (nonlinear_arith);
        assert(digits_value(d) == digits_value(decimal(n / 10)) * 10 + digit_value(
            digit_char(n % 10),
        ));
        assert forall|k: int| 0 <= k < d.len() implies is_digit(#[trigger] d[k]) by {
            if k < d.len() - 1 {
                assert(d[k] == decimal(n / 10)[k]);
            }
        }
    }
}

/// Reading the next token from the text of a number token gives back that
/// token, and consumes all of the text.
pub proof fn lemma_number_round_trip(n: usize)
    ensures
        next_at(render(TokenView::Operand(n)), 0) == (
            Ok::<TokenView, ErrorToken>(TokenView::Operand(n)),
            render(TokenView::Operand(n)).len() as int,
        ),
{
    let s = decimal(n as nat);
    lemma_decimal(n as nat);
    assert(s.subrange(0, s.len() as int) =~= s);
    assert(is_digit(s[0]));
    assert(skip_ws(s, 0) == 0);
    lemma_number_literal(s, 0, s.len() as int);
}

/// Resolving a name a second time gives the slot it got the first time and
/// leaves the table as it was.
pub proof fn lemma_resolve_stable(tab: Seq<Seq<char>>, name: Seq<char>)
    ensures
        resolve(resolve(tab, name).1, name) == (resolve(tab, name).0, resolve(tab, name).1),
{
    match first_index(tab, name) {
        Some(i) => {},
        None => {
            let t2 = tab.push(name);
            assert(t2[tab.len() as int] == name);
            assert forall|j: int| 0 <= j < tab.len() implies t2[j] != name by {
                assert(t2[j] == tab[j]);
            }
            lemma_first_index(t2, name, tab.len() as int);
        },
    }
}

} // verus!
