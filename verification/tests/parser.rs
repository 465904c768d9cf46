use beryllium::ast::{ArithmeticOp, ComparisonOp, Expr, Item, Param, Program, Statement};
use beryllium::parser::{arithmetic, assignment, comparison, ParseError, Parser};
use beryllium::tokenize::{
    Keyword, Location, Symbol, Token, TokenData, Tokenize, TokenizerError,
};

fn parse(source: &str) -> Result<Program, ParseError> {
    Parser::new(source.tokenize()).parse()
}

/// The statements of the block that is the body of the only function.
fn body_of(source: &str) -> Vec<Statement> {
    let wrapped = format!("fn _start() {{ {} }}", source);
    let Program(mut items) = parse(&wrapped).expect("the source parses");
    assert_eq!(items.len(), 1);
    match items.remove(0) {
        Item::Function { name, params, body: Statement::Expr(Expr::Block(statements)) } => {
            assert_eq!(name, "_start");
            assert!(params.is_empty());
            statements
        }
        other => panic!("{:?}", other),
    }
}

/// The expression of the only statement of the body, which is `exit`.
fn exit_value(source: &str) -> Expr {
    let mut statements = body_of(&format!("exit({});", source));
    assert_eq!(statements.len(), 1);
    match statements.remove(0) {
        Statement::Exit { value } => value,
        other => panic!("{:?}", other),
    }
}

fn literal(text: &str) -> Box<Expr> {
    Box::new(Expr::IntegerLiteral(text.into()))
}

fn name(text: &str) -> Box<Expr> {
    Box::new(Expr::Identifier(text.into()))
}

fn error_of(source: &str) -> ParseError {
    parse(source).expect_err("the source does not parse")
}

fn token(data: TokenData, index: u64, line: u64, column: u64) -> Token {
    Token { data, location: Location { index, line, column } }
}

#[test]
fn subtraction_nests_to_the_left() {
    assert_eq!(
        exit_value("1 - 2 - 3"),
        Expr::Sub(Box::new(Expr::Sub(literal("1"), literal("2"))), literal("3"))
    );
}

#[test]
fn long_chains_nest_to_the_left() {
    assert_eq!(
        exit_value("1 - 2 + 3 - 4"),
        Expr::Sub(
            Box::new(Expr::Add(
                Box::new(Expr::Sub(literal("1"), literal("2"))),
                literal("3")
            )),
            literal("4")
        )
    );
    assert_eq!(
        exit_value("8 / 4 * 2 % 3"),
        Expr::Mod(
            Box::new(Expr::Mul(
                Box::new(Expr::Div(literal("8"), literal("4"))),
                literal("2")
            )),
            literal("3")
        )
    );
}

#[test]
fn multiplication_binds_tighter_than_addition() {
    assert_eq!(
        exit_value("1 + 2 * 3"),
        Expr::Add(literal("1"), Box::new(Expr::Mul(literal("2"), literal("3"))))
    );
    assert_eq!(
        exit_value("1 * 2 + 3"),
        Expr::Add(Box::new(Expr::Mul(literal("1"), literal("2"))), literal("3"))
    );
    assert_eq!(
        exit_value("a - b / c - d"),
        Expr::Sub(
            Box::new(Expr::Sub(name("a"), Box::new(Expr::Div(name("b"), name("c"))))),
            name("d")
        )
    );
}

#[test]
fn a_comparison_takes_additive_operands() {
    assert_eq!(
        exit_value("1 + 2 < 3 * 4"),
        Expr::Lt(
            Box::new(Expr::Add(literal("1"), literal("2"))),
            Box::new(Expr::Mul(literal("3"), literal("4")))
        )
    );
    assert_eq!(exit_value("a == b"), Expr::Eq(name("a"), name("b")));
    assert_eq!(exit_value("a != b"), Expr::Ne(name("a"), name("b")));
    assert_eq!(exit_value("a <= b"), Expr::Le(name("a"), name("b")));
    assert_eq!(exit_value("a > b"), Expr::Gt(name("a"), name("b")));
    assert_eq!(exit_value("a >= b"), Expr::Ge(name("a"), name("b")));
}

#[test]
fn comparisons_do_not_chain() {
    let error = error_of("fn _start() { exit(1 < 2 < 3); }");
    assert_eq!(
        error,
        ParseError::UnexpectedToken(token(TokenData::Symbol(Symbol::LAngle), 25, 1, 26))
    );
    let error = error_of("fn _start() { 1 == 2 == 3; }");
    assert_eq!(
        error,
        ParseError::UnexpectedToken(token(TokenData::Symbol(Symbol::Equality), 21, 1, 22))
    );
}

#[test]
fn compound_assignments_parse() {
    assert_eq!(
        body_of("i += 1;"),
        vec![Statement::Expr(Expr::AddAssign { identifier: "i".into(), value: literal("1") })]
    );
    assert_eq!(
        body_of("i -= j * 2;"),
        vec![Statement::Expr(Expr::SubAssign {
            identifier: "i".into(),
            value: Box::new(Expr::Mul(name("j"), literal("2")))
        })]
    );
    assert_eq!(
        body_of("a *= b /= c %= 2;"),
        vec![Statement::Expr(Expr::MulAssign {
            identifier: "a".into(),
            value: Box::new(Expr::DivAssign {
                identifier: "b".into(),
                value: Box::new(Expr::ModAssign { identifier: "c".into(), value: literal("2") })
            })
        })]
    );
}

#[test]
fn statements_parse() {
    assert_eq!(
        body_of("let x = 10; let mut y = x; exit(y); return x; break; continue; x;"),
        vec![
            Statement::Let { identifier: "x".into(), value: *literal("10"), is_mutable: false },
            Statement::Let { identifier: "y".into(), value: *name("x"), is_mutable: true },
            Statement::Exit { value: *name("y") },
            Statement::Return(*name("x")),
            Statement::Break,
            Statement::Continue,
            Statement::Expr(*name("x")),
        ]
    );
}

#[test]
fn control_forms_parse() {
    assert_eq!(
        body_of("if (x == 5) exit(0); else exit(1);"),
        vec![Statement::Expr(Expr::If {
            check: Box::new(Expr::Eq(name("x"), literal("5"))),
            body: Box::new(Statement::Exit { value: *literal("0") }),
            els: Some(Box::new(Statement::Exit { value: *literal("1") })),
        })]
    );
    assert_eq!(
        body_of("if (x) { } while (i < 10) i += 1; loop break;"),
        vec![
            Statement::Expr(Expr::If {
                check: name("x"),
                body: Box::new(Statement::Expr(Expr::Block(vec![]))),
                els: None,
            }),
            Statement::Expr(Expr::While {
                check: Box::new(Expr::Lt(name("i"), literal("10"))),
                body: Box::new(Statement::Expr(Expr::AddAssign {
                    identifier: "i".into(),
                    value: literal("1")
                })),
            }),
            Statement::Expr(Expr::Loop { body: Box::new(Statement::Break) }),
        ]
    );
}

#[test]
fn an_else_belongs_to_the_nearest_if() {
    assert_eq!(
        body_of("if (a) if (b) x; else y;"),
        vec![Statement::Expr(Expr::If {
            check: name("a"),
            body: Box::new(Statement::Expr(Expr::If {
                check: name("b"),
                body: Box::new(Statement::Expr(*name("x"))),
                els: Some(Box::new(Statement::Expr(*name("y")))),
            })),
            els: None,
        })]
    );
}

#[test]
fn blocks_and_control_forms_are_atoms() {
    assert_eq!(
        exit_value("1 + { 2; }"),
        Expr::Add(
            literal("1"),
            Box::new(Expr::Block(vec![Statement::Expr(*literal("2"))]))
        )
    );
    assert_eq!(
        body_of("{ 1; } 2;"),
        vec![
            Statement::Expr(Expr::Block(vec![Statement::Expr(*literal("1"))])),
            Statement::Expr(*literal("2")),
        ]
    );
}

#[test]
fn calls_parse() {
    assert_eq!(exit_value("f()"), Expr::FunctionCall { name: "f".into(), args: vec![] });
    assert_eq!(
        exit_value("add(2, 3 * x)"),
        Expr::FunctionCall {
            name: "add".into(),
            args: vec![*literal("2"), Expr::Mul(literal("3"), name("x"))]
        }
    );
    assert_eq!(
        exit_value("f(g(1), h(), 2,)"),
        Expr::FunctionCall {
            name: "f".into(),
            args: vec![
                Expr::FunctionCall { name: "g".into(), args: vec![*literal("1")] },
                Expr::FunctionCall { name: "h".into(), args: vec![] },
                *literal("2"),
            ]
        }
    );
}

#[test]
fn functions_parse() {
    let source = "fn add(a, b) { return a + b; } fn _start() { exit(add(2, 3)); } fn one(x,) x;";
    let Program(items) = parse(source).unwrap();
    assert_eq!(
        items,
        vec![
            Item::Function {
                name: "add".into(),
                params: vec![Param { name: "a".into() }, Param { name: "b".into() }],
                body: Statement::Expr(Expr::Block(vec![Statement::Return(Expr::Add(
                    name("a"),
                    name("b")
                ))])),
            },
            Item::Function {
                name: "_start".into(),
                params: vec![],
                body: Statement::Expr(Expr::Block(vec![Statement::Exit {
                    value: Expr::FunctionCall {
                        name: "add".into(),
                        args: vec![*literal("2"), *literal("3")]
                    }
                }])),
            },
            Item::Function {
                name: "one".into(),
                params: vec![Param { name: "x".into() }],
                body: Statement::Expr(*name("x")),
            },
        ]
    );
}

#[test]
fn an_empty_source_parses_to_no_items() {
    assert_eq!(parse(""), Ok(Program(vec![])));
    assert_eq!(parse("  \n "), Ok(Program(vec![])));
}

#[test]
fn the_same_source_parses_to_the_same_tree() {
    let source = "fn f(a) { let mut i = 0; while (i < a) { i += 1; } return i; }";
    assert_eq!(parse(source), parse(source));
    assert!(parse(source).is_ok());
    let spaced = "fn  f ( a )\n{\n let mut i=0;while(i<a){i+=1;}return i ; }";
    assert_eq!(parse(source).unwrap().0.len(), 1);
    assert_eq!(parse(spaced).unwrap().0.len(), 1);
}

#[test]
fn an_item_has_to_be_a_function() {
    assert_eq!(
        error_of("exit(0);"),
        ParseError::UnexpectedToken(token(TokenData::Keyword(Keyword::Exit), 0, 1, 1))
    );
    assert_eq!(
        error_of("fn 1() {}"),
        ParseError::UnexpectedToken(token(TokenData::IntegerLiteral("1".into()), 3, 1, 4))
    );
    assert_eq!(
        error_of("fn f {}"),
        ParseError::UnexpectedToken(token(TokenData::Symbol(Symbol::LBrace), 5, 1, 6))
    );
    assert_eq!(
        error_of("fn f(a b) {}"),
        ParseError::UnexpectedToken(token(TokenData::Identifier("b".into()), 7, 1, 8))
    );
    assert_eq!(
        error_of("fn f(1) {}"),
        ParseError::UnexpectedToken(token(TokenData::IntegerLiteral("1".into()), 5, 1, 6))
    );
}

#[test]
fn a_token_out_of_place_is_reported_with_its_location() {
    assert_eq!(
        error_of("fn _start() {\n  let = 1;\n}"),
        ParseError::UnexpectedToken(token(TokenData::Symbol(Symbol::Equals), 20, 2, 7))
    );
    assert_eq!(
        error_of("fn _start() { exit 0; }"),
        ParseError::UnexpectedToken(token(TokenData::IntegerLiteral("0".into()), 19, 1, 20))
    );
    assert_eq!(
        error_of("fn _start() { x 1; }"),
        ParseError::UnexpectedToken(token(TokenData::IntegerLiteral("1".into()), 16, 1, 17))
    );
    assert_eq!(
        error_of("fn _start() { else; }"),
        ParseError::UnexpectedToken(token(TokenData::Keyword(Keyword::Else), 14, 1, 15))
    );
    assert_eq!(
        error_of("fn _start() { exit(+); }"),
        ParseError::UnexpectedToken(token(TokenData::Symbol(Symbol::Plus), 19, 1, 20))
    );
    assert_eq!(
        error_of("fn _start() { f(1 2); }"),
        ParseError::UnexpectedToken(token(TokenData::IntegerLiteral("2".into()), 18, 1, 19))
    );
}

#[test]
fn a_source_that_ends_too_early_is_reported() {
    for source in [
        "fn",
        "fn f",
        "fn f(",
        "fn f(a",
        "fn f(a,",
        "fn f()",
        "fn f() {",
        "fn f() { exit",
        "fn f() { exit(",
        "fn f() { exit(1",
        "fn f() { exit(1)",
        "fn f() { let",
        "fn f() { let x =",
        "fn f() { x",
        "fn f() { x +",
        "fn f() { x +=",
        "fn f() { g(",
        "fn f() { g(1,",
        "fn f() { if",
        "fn f() { if (x)",
        "fn f() { while (x",
        "fn f() { loop",
        "fn f() { return",
        "fn f() { break",
    ] {
        assert_eq!(error_of(source), ParseError::UnexpectedEnd, "{:?}", source);
    }
}

#[test]
fn the_first_error_in_reading_order_is_reported() {
    assert_eq!(
        error_of("fn _start() { exit(1 $ 2); }"),
        ParseError::TokenizerError(TokenizerError::UnrecognizedCharacter('$'))
    );
    assert_eq!(
        error_of("fn _start() { let = 1; $ }"),
        ParseError::UnexpectedToken(token(TokenData::Symbol(Symbol::Equals), 18, 1, 19))
    );
    assert_eq!(
        error_of("fn _start() { x $"),
        ParseError::TokenizerError(TokenizerError::UnrecognizedCharacter('$'))
    );
}

#[test]
fn a_parser_can_go_on_after_an_error() {
    let mut parser = Parser::new("1 fn f() {}".tokenize());
    assert_eq!(
        parser.parse(),
        Err(ParseError::UnexpectedToken(token(TokenData::IntegerLiteral("1".into()), 0, 1, 1)))
    );
}

#[test]
fn nodes_are_built_by_operator() {
    assert_eq!(
        arithmetic(ArithmeticOp::Mod, *literal("1"), *literal("2")),
        Expr::Mod(literal("1"), literal("2"))
    );
    assert_eq!(
        comparison(ComparisonOp::Ge, *name("a"), *literal("2")),
        Expr::Ge(name("a"), literal("2"))
    );
    assert_eq!(
        assignment(ArithmeticOp::Div, "x".into(), *literal("2")),
        Expr::DivAssign { identifier: "x".into(), value: literal("2") }
    );
}

#[test]
fn map_left_replaces_the_left_operand() {
    let tail = Expr::Sub(literal("2"), literal("3"));
    let mapped = tail.map_left(|lhs| Expr::Add(literal("1"), lhs));
    assert_eq!(
        mapped,
        Expr::Sub(Box::new(Expr::Add(literal("1"), literal("2"))), literal("3"))
    );
    for (node, expected) in [
        (Expr::Add(name("a"), name("b")), Expr::Add(literal("0"), name("b"))),
        (Expr::Mul(name("a"), name("b")), Expr::Mul(literal("0"), name("b"))),
        (Expr::Div(name("a"), name("b")), Expr::Div(literal("0"), name("b"))),
        (Expr::Mod(name("a"), name("b")), Expr::Mod(literal("0"), name("b"))),
    ] {
        assert_eq!(node.map_left(|_| Expr::IntegerLiteral("0".into())), expected);
    }
}
