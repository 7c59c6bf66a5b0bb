use ioc::lexer::Lexer;
use ioc::parser::{program, ParseError};
use ioc::tree::{NodeKind, Tree};

fn node(kind: NodeKind, lhs: Tree, rhs: Tree) -> Tree {
    Tree::Node(kind, Box::new(lhs), Box::new(rhs))
}

fn parse(src: &str) -> Result<Vec<Tree>, ParseError> {
    let mut lexer = Lexer::new(src);
    program(&mut lexer)
}

#[test]
fn test_parser() {
    let lexer1 = &mut Lexer::new("1+1;");
    let lexer1 = program(lexer1).unwrap();
    assert_eq!(
        lexer1,
        [Tree::Node(
            NodeKind::Add,
            Box::new(Tree::Num(1)),
            Box::new(Tree::Num(1))
        )]
    );

    let lexer2 = &mut Lexer::new("1+1*2;");
    let lexer2 = program(lexer2).unwrap();
    assert_eq!(
        lexer2,
        [Tree::Node(
            NodeKind::Add,
            Box::new(Tree::Num(1)),
            Box::new(Tree::Node(
                NodeKind::Mul,
                Box::new(Tree::Num(1)),
                Box::new(Tree::Num(2))
            ))
        )]
    );

    let lexer3 = &mut Lexer::new("3 * (2 + 3) - (6 / 2 + 2);");
    let lexer3 = program(lexer3).unwrap();
    assert_eq!(
        lexer3,
        [Tree::Node(
            NodeKind::Sub,
            Box::new(Tree::Node(
                NodeKind::Mul,
                Box::new(Tree::Num(3)),
                Box::new(Tree::Node(
                    NodeKind::Add,
                    Box::new(Tree::Num(2)),
                    Box::new(Tree::Num(3))
                ))
            )),
            Box::new(Tree::Node(
                NodeKind::Add,
                Box::new(Tree::Node(
                    NodeKind::Div,
                    Box::new(Tree::Num(6)),
                    Box::new(Tree::Num(2))
                )),
                Box::new(Tree::Num(2))
            ))
        )]
    );

    let lexer4 = &mut Lexer::new("5 + 6 * 7;");
    let lexer4 = program(lexer4).unwrap();
    assert_eq!(
        lexer4,
        [Tree::Node(
            NodeKind::Add,
            Box::new(Tree::Num(5)),
            Box::new(Tree::Node(
                NodeKind::Mul,
                Box::new(Tree::Num(6)),
                Box::new(Tree::Num(7))
            ))
        )]
    );

    let lexer5 = &mut Lexer::new("2 * 3 == 3 + 1;");
    let lexer5 = program(lexer5).unwrap();
    assert_eq!(
        lexer5,
        [Tree::Node(
            NodeKind::Equality,
            Box::new(Tree::Node(
                NodeKind::Mul,
                Box::new(Tree::Num(2)),
                Box::new(Tree::Num(3)),
            )),
            Box::new(Tree::Node(
                NodeKind::Add,
                Box::new(Tree::Num(3)),
                Box::new(Tree::Num(1)),
            ))
        )]
    );
    let lexer6 = &mut Lexer::new("a;");
    let lexer6 = program(lexer6).unwrap();
    assert_eq!(lexer6, [Tree::Val(8)]);
}

#[test]
fn multiplication_binds_tighter_than_addition() {
    let expected = node(
        NodeKind::Add,
        Tree::Num(1),
        node(NodeKind::Mul, Tree::Num(2), Tree::Num(3)),
    );
    assert_eq!(parse("1+2*3;"), Ok(vec![expected]));
}

#[test]
fn parentheses_override_precedence() {
    let expected = node(
        NodeKind::Mul,
        node(NodeKind::Add, Tree::Num(1), Tree::Num(2)),
        Tree::Num(3),
    );
    assert_eq!(parse("(1+2)*3;"), Ok(vec![expected]));
}

#[test]
fn identifiers_get_slots_in_order_of_first_use() {
    let mut lexer = Lexer::new("a;b;a;");
    let trees = program(&mut lexer).unwrap();
    assert_eq!(trees, vec![Tree::Val(8), Tree::Val(16), Tree::Val(8)]);
    assert_eq!(lexer.get_ident_count(), 2);
}

#[test]
fn assignment_is_right_associative() {
    let expected = node(
        NodeKind::Assign,
        Tree::Val(8),
        node(NodeKind::Assign, Tree::Val(16), Tree::Num(1)),
    );
    assert_eq!(parse("a=b=1;"), Ok(vec![expected]));
}

#[test]
fn subtraction_is_left_associative() {
    let expected = node(
        NodeKind::Sub,
        node(NodeKind::Sub, Tree::Num(8), Tree::Num(3)),
        Tree::Num(2),
    );
    assert_eq!(parse("8-3-2;"), Ok(vec![expected]));
}

#[test]
fn greater_swaps_its_operands() {
    assert_eq!(
        parse("1>2; 1>=2; 1<2; 1<=2;"),
        Ok(vec![
            node(NodeKind::Less, Tree::Num(2), Tree::Num(1)),
            node(NodeKind::LessOrEqual, Tree::Num(2), Tree::Num(1)),
            node(NodeKind::Less, Tree::Num(1), Tree::Num(2)),
            node(NodeKind::LessOrEqual, Tree::Num(1), Tree::Num(2)),
        ])
    );
}

#[test]
fn comparisons_bind_looser_than_arithmetic() {
    let expected = node(
        NodeKind::Nonequality,
        node(NodeKind::Less, Tree::Num(1), node(NodeKind::Add, Tree::Num(2), Tree::Num(3))),
        Tree::Num(0),
    );
    assert_eq!(parse("1 < 2 + 3 != 0;"), Ok(vec![expected]));
}

#[test]
fn unary_minus_subtracts_from_zero() {
    assert_eq!(
        parse("-3; +4;"),
        Ok(vec![node(NodeKind::Sub, Tree::Num(0), Tree::Num(3)), Tree::Num(4)])
    );
}

#[test]
fn empty_program_has_no_statements() {
    assert_eq!(parse(""), Ok(vec![]));
    assert_eq!(parse("  \n\t "), Ok(vec![]));
}

#[test]
fn missing_semicolon_is_reported() {
    assert_eq!(parse("1+2"), Err(ParseError::MissingSemi('\0')));
    assert_eq!(parse("1 2;"), Err(ParseError::MissingSemi('2')));
}

#[test]
fn missing_closing_parenthesis_is_reported() {
    assert_eq!(parse("(1+2;"), Err(ParseError::MissingRParen(';')));
}

#[test]
fn missing_operand_is_reported() {
    assert_eq!(parse("1+;"), Err(ParseError::ExpectedPrimary(';')));
    assert_eq!(parse("1*"), Err(ParseError::ExpectedPrimary('\0')));
    assert_eq!(parse(")"), Err(ParseError::ExpectedPrimary(')')));
}

#[test]
fn bad_character_in_operand_position_is_reported() {
    assert_eq!(parse("1+$;"), Err(ParseError::Lexical('$')));
}
