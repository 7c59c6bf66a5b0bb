use ioc::lexer::Lexer;
use ioc::token::{ErrorToken, Ident, OperatorKind, Token};

#[test]
fn test_lexer() {
    let mut lexer = Lexer::new("1 +10 - 2*3 + 6/2a == < >= != $;");
    assert_eq!(
        lexer.next_token(),
        Ok(Token::Operator(OperatorKind::Operand(1)))
    );
    assert_eq!(lexer.next_token(), Ok(Token::Operator(OperatorKind::Add)));
    assert_eq!(
        lexer.next_token(),
        Ok(Token::Operator(OperatorKind::Operand(10)))
    );
    assert_eq!(lexer.next_token(), Ok(Token::Operator(OperatorKind::Sub)));
    assert_eq!(
        lexer.next_token(),
        Ok(Token::Operator(OperatorKind::Operand(2)))
    );
    assert_eq!(lexer.next_token(), Ok(Token::Operator(OperatorKind::Mul)));
    assert_eq!(
        lexer.next_token(),
        Ok(Token::Operator(OperatorKind::Operand(3)))
    );
    assert_eq!(lexer.next_token(), Ok(Token::Operator(OperatorKind::Add)));
    assert_eq!(
        lexer.next_token(),
        Ok(Token::Operator(OperatorKind::Operand(6)))
    );
    assert_eq!(lexer.next_token(), Ok(Token::Operator(OperatorKind::Div)));
    assert_eq!(
        lexer.next_token(),
        Ok(Token::Operator(OperatorKind::Operand(2)))
    );
    assert_eq!(
        lexer.next_token(),
        Ok(Token::Operator(OperatorKind::Ident(Ident::new("a"))))
    );
    assert_eq!(
        lexer.next_token(),
        Ok(Token::Operator(OperatorKind::Equality))
    );
    assert_eq!(lexer.next_token(), Ok(Token::Operator(OperatorKind::Less)));
    assert_eq!(
        lexer.next_token(),
        Ok(Token::Operator(OperatorKind::GreaterOrEqual))
    );
    assert_eq!(
        lexer.next_token(),
        Ok(Token::Operator(OperatorKind::Nonequality))
    );
    assert_eq!(lexer.next_token(), Err(ErrorToken::InvaildChar('$')));
    assert_eq!(lexer.next_token(), Ok(Token::Operator(OperatorKind::Semi)));
    assert_eq!(lexer.next_token(), Ok(Token::EOF));
}

#[test]
fn number_literals_lex_to_their_value() {
    let mut lexer = Lexer::new("0 7 007 12345 18446744073709551615");
    for n in [0usize, 7, 7, 12345, usize::MAX] {
        assert_eq!(
            lexer.next_token(),
            Ok(Token::Operator(OperatorKind::Operand(n)))
        );
    }
    assert_eq!(lexer.next_token(), Ok(Token::EOF));
}

#[test]
fn number_that_does_not_fit_is_rejected_at_the_overflowing_digit() {
    let mut lexer = Lexer::new("18446744073709551616;");
    assert_eq!(lexer.next_token(), Err(ErrorToken::InvaildChar('6')));
    assert_eq!(lexer.next_token(), Ok(Token::Operator(OperatorKind::Semi)));
}

#[test]
fn number_with_a_dot_is_rejected_at_the_dot() {
    let mut lexer = Lexer::new("1.5+2");
    assert_eq!(lexer.next_token(), Err(ErrorToken::InvaildChar('.')));
    assert_eq!(lexer.next_token(), Ok(Token::Operator(OperatorKind::Add)));
    assert_eq!(
        lexer.next_token(),
        Ok(Token::Operator(OperatorKind::Operand(2)))
    );
}

#[test]
fn unknown_character_is_reported_and_not_skipped() {
    let mut lexer = Lexer::new("1 @ 2 !x");
    assert_eq!(
        lexer.next_token(),
        Ok(Token::Operator(OperatorKind::Operand(1)))
    );
    assert_eq!(lexer.next_token(), Err(ErrorToken::InvaildChar('@')));
    assert_eq!(
        lexer.next_token(),
        Ok(Token::Operator(OperatorKind::Operand(2)))
    );
    assert_eq!(lexer.next_token(), Err(ErrorToken::InvaildChar('!')));
    assert_eq!(
        lexer.next_token(),
        Ok(Token::Operator(OperatorKind::Ident(Ident::new("x"))))
    );
}

#[test]
fn identifiers_take_letters_and_underscores() {
    let mut lexer = Lexer::new("  foo_bar2 _x émile");
    assert_eq!(
        lexer.next_token(),
        Ok(Token::Operator(OperatorKind::Ident(Ident::new("foo_bar"))))
    );
    assert_eq!(
        lexer.next_token(),
        Ok(Token::Operator(OperatorKind::Operand(2)))
    );
    assert_eq!(
        lexer.next_token(),
        Ok(Token::Operator(OperatorKind::Ident(Ident::new("_x"))))
    );
    assert_eq!(
        lexer.next_token(),
        Ok(Token::Operator(OperatorKind::Ident(Ident::new("émile"))))
    );
    assert_eq!(lexer.next_token(), Ok(Token::EOF));
}

#[test]
fn punctuation_text_lexes_back_to_the_same_token() {
    let all = [
        OperatorKind::Semi,
        OperatorKind::Equal,
        OperatorKind::Equality,
        OperatorKind::Nonequality,
        OperatorKind::Less,
        OperatorKind::LessOrEqual,
        OperatorKind::Greater,
        OperatorKind::GreaterOrEqual,
        OperatorKind::Add,
        OperatorKind::Sub,
        OperatorKind::Mul,
        OperatorKind::Div,
        OperatorKind::LParen,
        OperatorKind::RParen,
    ];
    for op in all {
        let text = op.text();
        let mut lexer = Lexer::new(&text);
        assert_eq!(lexer.next_token(), Ok(Token::Operator(op)));
        assert_eq!(lexer.next_token(), Ok(Token::EOF));
    }
}

#[test]
fn token_text_of_numbers_and_names() {
    assert_eq!(OperatorKind::Operand(0).text(), "0");
    assert_eq!(OperatorKind::Operand(4096).text(), "4096");
    assert_eq!(OperatorKind::Ident(Ident::new("abc")).text(), "abc");
    assert_eq!(OperatorKind::GreaterOrEqual.text(), ">=");
}

#[test]
fn consume_takes_only_the_expected_token() {
    let mut lexer = Lexer::new("  <= x");
    assert_eq!(
        lexer.consume(Token::Operator(OperatorKind::Less)),
        Err(ErrorToken::InvaildChar('<'))
    );
    assert!(lexer.expect(Token::Operator(OperatorKind::LessOrEqual)));
    assert_eq!(
        lexer.consume(Token::Operator(OperatorKind::LessOrEqual)),
        Ok(Token::Operator(OperatorKind::LessOrEqual))
    );
    assert!(!lexer.expect(Token::EOF));
    assert!(lexer.expect_ident());
    assert_eq!(
        lexer.consume_ident(),
        Ok(Token::Operator(OperatorKind::Ident(Ident::new("x"))))
    );
    assert_eq!(lexer.consume(Token::EOF), Ok(Token::EOF));
    assert_eq!(lexer.consume(Token::EOF), Ok(Token::EOF));
}

#[test]
fn consume_ident_fails_on_a_number() {
    let mut lexer = Lexer::new(" 12");
    assert!(!lexer.expect_ident());
    assert_eq!(lexer.consume_ident(), Err(ErrorToken::InvaildChar('1')));
    assert_eq!(
        lexer.next_token(),
        Ok(Token::Operator(OperatorKind::Operand(12)))
    );
}

#[test]
fn offsets_are_stable_and_in_order_of_first_use() {
    let mut lexer = Lexer::new("");
    assert_eq!(lexer.calc_offset(Ident::new("a")), 8);
    assert_eq!(lexer.calc_offset(Ident::new("b")), 16);
    assert_eq!(lexer.calc_offset(Ident::new("a")), 8);
    assert_eq!(lexer.calc_offset(Ident::new("c")), 24);
    assert_eq!(lexer.calc_offset(Ident::new("b")), 16);
    assert_eq!(lexer.get_ident_count(), 3);
}

#[test]
fn unicode_spaces_separate_tokens() {
    let mut lexer = Lexer::new("a\u{3000}b\u{85}\u{a0}1\u{2028};");
    assert_eq!(
        lexer.next_token(),
        Ok(Token::Operator(OperatorKind::Ident(Ident::new("a"))))
    );
    assert_eq!(
        lexer.next_token(),
        Ok(Token::Operator(OperatorKind::Ident(Ident::new("b"))))
    );
    assert_eq!(
        lexer.next_token(),
        Ok(Token::Operator(OperatorKind::Operand(1)))
    );
    assert_eq!(lexer.next_token(), Ok(Token::Operator(OperatorKind::Semi)));
    assert_eq!(lexer.next_token(), Ok(Token::EOF));
}
