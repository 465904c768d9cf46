use beryllium::ast::{Expr, Item, Param, Program, Statement};
use beryllium::codegen::CodegenError;
use beryllium::iter::Reversed;
use beryllium::parser::ParseError;
use beryllium::tokenize::{Location, Symbol, Token, TokenData, TokenizerError};
use beryllium::CompileError;

#[test]
fn a_vector_is_reversed() {
    assert_eq!(vec![1, 2, 3].reversed(), vec![3, 2, 1]);
    assert_eq!(vec!['a'].reversed(), vec!['a']);
    assert_eq!(Vec::<u8>::new().reversed(), Vec::<u8>::new());
    let values = vec![10u64, 20, 30, 40];
    assert_eq!(values.reversed().reversed(), values);
}

#[test]
fn a_tree_is_cloned_whole() {
    let body = Statement::Expr(Expr::Block(vec![
        Statement::Let {
            identifier: "i".into(),
            value: Expr::IntegerLiteral("0".into()),
            is_mutable: true,
        },
        Statement::Expr(Expr::While {
            check: Box::new(Expr::Lt(
                Box::new(Expr::Identifier("i".into())),
                Box::new(Expr::FunctionCall {
                    name: "limit".into(),
                    args: vec![Expr::IntegerLiteral("1".into()), Expr::Identifier("n".into())],
                }),
            )),
            body: Box::new(Statement::Expr(Expr::If {
                check: Box::new(Expr::Ne(
                    Box::new(Expr::Mod(
                        Box::new(Expr::Identifier("i".into())),
                        Box::new(Expr::IntegerLiteral("2".into())),
                    )),
                    Box::new(Expr::IntegerLiteral("0".into())),
                )),
                body: Box::new(Statement::Continue),
                els: Some(Box::new(Statement::Expr(Expr::Loop {
                    body: Box::new(Statement::Break),
                }))),
            })),
        }),
        Statement::Expr(Expr::DivAssign {
            identifier: "i".into(),
            value: Box::new(Expr::Sub(
                Box::new(Expr::IntegerLiteral("3".into())),
                Box::new(Expr::IntegerLiteral("1".into())),
            )),
        }),
        Statement::Return(Expr::Identifier("i".into())),
        Statement::Exit { value: Expr::IntegerLiteral("0".into()) },
    ]));
    let item = Item::Function {
        name: "f".into(),
        params: vec![Param { name: "n".into() }, Param { name: "m".into() }],
        body,
    };
    assert_eq!(item.clone(), item);
    let program = Program(vec![item.clone(), item]);
    let copy = program.clone();
    assert_eq!(copy, program);
    assert_eq!(copy.0.len(), 2);
    match &copy.0[0] {
        Item::Function { body, .. } => assert_eq!(body.clone(), *body),
    }
}

#[test]
fn a_token_is_cloned_whole() {
    let token = Token {
        data: TokenData::Identifier("name".into()),
        location: Location { index: 3, line: 2, column: 1 },
    };
    assert_eq!(token.clone(), token);
    assert_eq!(TokenData::Symbol(Symbol::Semi).clone(), TokenData::Symbol(Symbol::Semi));
    assert_eq!(TokenData::IntegerLiteral("7".into()).clone(), TokenData::IntegerLiteral("7".into()));
}

#[test]
fn errors_convert_to_compile_errors() {
    let token = Token {
        data: TokenData::Symbol(Symbol::Comma),
        location: Location { index: 9, line: 1, column: 10 },
    };
    assert_eq!(
        CompileError::from(CodegenError::IdentifierNotDeclared("a".into())),
        CompileError::IdentifierNotDeclared("a".into())
    );
    assert_eq!(
        CompileError::from(CodegenError::ChangedImmutableVariable("b".into())),
        CompileError::ChangedImmutableVariable("b".into())
    );
    assert_eq!(
        CompileError::from(CodegenError::FunctionNotDeclared("c".into())),
        CompileError::FunctionNotDeclared("c".into())
    );
    assert_eq!(CompileError::from(CodegenError::OutsideLoop), CompileError::OutsideLoop);
    assert_eq!(CompileError::from(CodegenError::OutsideFunction), CompileError::OutsideFunction);
    assert_eq!(CompileError::from(CodegenError::EmptyStack), CompileError::EmptyStack);
    assert_eq!(CompileError::from(CodegenError::LimitExceeded), CompileError::LimitExceeded);
    assert_eq!(
        CompileError::from(ParseError::UnexpectedToken(token.clone())),
        CompileError::UnexpectedToken(token)
    );
    assert_eq!(CompileError::from(ParseError::UnexpectedEnd), CompileError::UnexpectedEnd);
    assert_eq!(
        CompileError::from(ParseError::TokenizerError(TokenizerError::UnrecognizedCharacter('#'))),
        CompileError::UnrecognizedCharacter('#')
    );
    assert_eq!(
        CompileError::from(TokenizerError::UnrecognizedCharacter('@')),
        CompileError::UnrecognizedCharacter('@')
    );
    assert_eq!(
        ParseError::from(TokenizerError::UnrecognizedCharacter('~')),
        ParseError::TokenizerError(TokenizerError::UnrecognizedCharacter('~'))
    );
}
