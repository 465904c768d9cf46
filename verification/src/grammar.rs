//! The grammar of the language, as functions from the tokens that a lexer
//! yields to the tree that they spell and the tokens that are left.
//!
//! Precedence, from the loosest: compound assignment, comparison (at most
//! one per expression), addition and subtraction, multiplication, division
//! and remainder, atoms. The two arithmetic levels associate to the left.

use crate::ast::{ArithmeticOp, ComparisonOp, ExprView, ItemView, StatementView};
use crate::tokenize::{
    Keyword, Symbol, TokenDataView, TokenFeed, TokenView, TokenizerError,
};
use vstd::prelude::*;

verus! {

/// The mathematical value of a parse error.
pub enum ParseErrorView {
    TokenizerError(TokenizerError),
    UnexpectedToken(TokenView),
    UnexpectedEnd,
}

/// What a production makes of a feed: the tree and the feed that is left,
/// or the error.
pub type Parsed<T> = Result<(T, TokenFeed), ParseErrorView>;

impl TokenFeed {
    /// The feed without its first `n` tokens.
    pub open spec fn skip(self, n: int) -> TokenFeed {
        TokenFeed { tokens: self.tokens.skip(n), error: self.error }
    }

    /// The error that stands where the tokens end.
    pub open spec fn end(self) -> ParseErrorView {
        match self.error {
            Some(error) => ParseErrorView::TokenizerError(error),
            None => ParseErrorView::UnexpectedEnd,
        }
    }

    /// The token at index `i`, where the source may as well end.
    pub open spec fn peek(self, i: int) -> Result<Option<TokenView>, ParseErrorView> {
        if 0 <= i < self.tokens.len() {
            Ok(Some(self.tokens[i]))
        } else {
            match self.error {
                Some(error) => Err(ParseErrorView::TokenizerError(error)),
                None => Ok(None),
            }
        }
    }

    /// The token at index `i`, where there has to be one.
    pub open spec fn need(self, i: int) -> Result<TokenView, ParseErrorView> {
        if 0 <= i < self.tokens.len() {
            Ok(self.tokens[i])
        } else {
            Err(self.end())
        }
    }

    /// The feed after its first token, which has to be `data`.
    pub open spec fn expect(self, data: TokenDataView) -> Result<TokenFeed, ParseErrorView> {
        match self.need(0) {
            Err(error) => Err(error),
            Ok(token) => if token.data == data {
                Ok(self.skip(1))
            } else {
                Err(ParseErrorView::UnexpectedToken(token))
            },
        }
    }

    /// The feed after its first token, which has to be the symbol `symbol`.
    pub open spec fn expect_symbol(self, symbol: Symbol) -> Result<TokenFeed, ParseErrorView> {
        self.expect(TokenDataView::Symbol(symbol))
    }

    /// The name that the first token is, which has to be an identifier, and
    /// the feed after it.
    pub open spec fn expect_identifier(self) -> Parsed<Seq<char>> {
        match self.need(0) {
            Err(error) => Err(error),
            Ok(token) => match token.data {
                TokenDataView::Identifier(name) => Ok((name, self.skip(1))),
                _ => Err(ParseErrorView::UnexpectedToken(token)),
            },
        }
    }
}

/// The operation of a compound-assignment symbol.
pub open spec fn compound_of(data: TokenDataView) -> Option<ArithmeticOp> {
    match data {
        TokenDataView::Symbol(Symbol::PlusEq) => Some(ArithmeticOp::Add),
        TokenDataView::Symbol(Symbol::MinusEq) => Some(ArithmeticOp::Sub),
        TokenDataView::Symbol(Symbol::StarEq) => Some(ArithmeticOp::Mul),
        TokenDataView::Symbol(Symbol::SlashEq) => Some(ArithmeticOp::Div),
        TokenDataView::Symbol(Symbol::PercentEq) => Some(ArithmeticOp::Mod),
        _ => None,
    }
}

/// The comparison of a comparator symbol.
pub open spec fn comparison_of(data: TokenDataView) -> Option<ComparisonOp> {
    match data {
        TokenDataView::Symbol(Symbol::Equality) => Some(ComparisonOp::Eq),
        TokenDataView::Symbol(Symbol::NonEquality) => Some(ComparisonOp::Ne),
        TokenDataView::Symbol(Symbol::LAngle) => Some(ComparisonOp::Lt),
        TokenDataView::Symbol(Symbol::LesserEqual) => Some(ComparisonOp::Le),
        TokenDataView::Symbol(Symbol::RAngle) => Some(ComparisonOp::Gt),
        TokenDataView::Symbol(Symbol::GreaterEqual) => Some(ComparisonOp::Ge),
        _ => None,
    }
}

/// The operation of `+` and of `-`.
pub open spec fn additive_of(data: TokenDataView) -> Option<ArithmeticOp> {
    match data {
        TokenDataView::Symbol(Symbol::Plus) => Some(ArithmeticOp::Add),
        TokenDataView::Symbol(Symbol::Minus) => Some(ArithmeticOp::Sub),
        _ => None,
    }
}

/// The operation of `*`, of `/` and of `%`.
pub open spec fn multiplicative_of(data: TokenDataView) -> Option<ArithmeticOp> {
    match data {
        TokenDataView::Symbol(Symbol::Star) => Some(ArithmeticOp::Mul),
        TokenDataView::Symbol(Symbol::Slash) => Some(ArithmeticOp::Div),
        TokenDataView::Symbol(Symbol::Percent) => Some(ArithmeticOp::Mod),
        _ => None,
    }
}

/// *params*: identifiers separated by commas, up to but without the closing
/// parenthesis. A comma may stand before the parenthesis.
pub open spec fn parse_params(feed: TokenFeed) -> Parsed<Seq<Seq<char>>>
    decreases feed.tokens.len(),
{
    match feed.need(0) {
        Err(error) => Err(error),
        Ok(token) => match token.data {
            TokenDataView::Symbol(Symbol::RParen) => Ok((Seq::empty(), feed)),
            TokenDataView::Identifier(name) => match feed.need(1) {
                Err(error) => Err(error),
                Ok(next) => match next.data {
                    TokenDataView::Symbol(Symbol::RParen) => Ok((seq![name], feed.skip(1))),
                    TokenDataView::Symbol(Symbol::Comma) => match parse_params(feed.skip(2)) {
                        Err(error) => Err(error),
                        Ok((rest, left)) => Ok((seq![name] + rest, left)),
                    },
                    _ => Err(ParseErrorView::UnexpectedToken(next)),
                },
            },
            _ => Err(ParseErrorView::UnexpectedToken(token)),
        },
    }
}

/// *statement*.
pub open spec fn parse_statement(feed: TokenFeed) -> Parsed<StatementView>
    decreases feed.tokens.len(), 20nat,
{
    match feed.need(0) {
        Err(error) => Err(error),
        Ok(token) => match token.data {
            TokenDataView::Keyword(Keyword::Exit) => match feed.skip(1).expect_symbol(
                Symbol::LParen,
            ) {
                Err(error) => Err(error),
                Ok(opened) => match parse_expression(opened) {
                    Err(error) => Err(error),
                    Ok((value, after)) => match after.expect_symbol(Symbol::RParen) {
                        Err(error) => Err(error),
                        Ok(closed) => match closed.expect_symbol(Symbol::Semi) {
                            Err(error) => Err(error),
                            Ok(left) => Ok((StatementView::Exit { value }, left)),
                        },
                    },
                },
            },
            TokenDataView::Keyword(Keyword::Let) => match feed.need(1) {
                Err(error) => Err(error),
                Ok(next) => {
                    let is_mutable = next.data == TokenDataView::Keyword(Keyword::Mut);
                    let named = if is_mutable {
                        feed.skip(2)
                    } else {
                        feed.skip(1)
                    };
                    match named.expect_identifier() {
                        Err(error) => Err(error),
                        Ok((identifier, after)) => match after.expect_symbol(Symbol::Equals) {
                            Err(error) => Err(error),
                            Ok(assigned) => match parse_expression(assigned) {
                                Err(error) => Err(error),
                                Ok((value, ended)) => match ended.expect_symbol(Symbol::Semi) {
                                    Err(error) => Err(error),
                                    Ok(left) => Ok(
                                        (StatementView::Let { identifier, value, is_mutable }, left),
                                    ),
                                },
                            },
                        },
                    }
                },
            },
            TokenDataView::Keyword(Keyword::If) => match parse_if(feed) {
                Err(error) => Err(error),
                Ok((expr, left)) => Ok((StatementView::Expr(expr), left)),
            },
            TokenDataView::Keyword(Keyword::Loop) => match parse_loop(feed) {
                Err(error) => Err(error),
                Ok((expr, left)) => Ok((StatementView::Expr(expr), left)),
            },
            TokenDataView::Keyword(Keyword::While) => match parse_while(feed) {
                Err(error) => Err(error),
                Ok((expr, left)) => Ok((StatementView::Expr(expr), left)),
            },
            TokenDataView::Keyword(Keyword::Break) => match feed.skip(1).expect_symbol(
                Symbol::Semi,
            ) {
                Err(error) => Err(error),
                Ok(left) => Ok((StatementView::Break, left)),
            },
            TokenDataView::Keyword(Keyword::Continue) => match feed.skip(1).expect_symbol(
                Symbol::Semi,
            ) {
                Err(error) => Err(error),
                Ok(left) => Ok((StatementView::Continue, left)),
            },
            TokenDataView::Keyword(Keyword::Return) => match parse_expression(feed.skip(1)) {
                Err(error) => Err(error),
                Ok((value, ended)) => match ended.expect_symbol(Symbol::Semi) {
                    Err(error) => Err(error),
                    Ok(left) => Ok((StatementView::Return(value), left)),
                },
            },
            TokenDataView::Keyword(_) => Err(ParseErrorView::UnexpectedToken(token)),
            TokenDataView::Symbol(Symbol::LBrace) => match parse_block(feed) {
                Err(error) => Err(error),
                Ok((expr, left)) => Ok((StatementView::Expr(expr), left)),
            },
            _ => match parse_expression(feed) {
                Err(error) => Err(error),
                Ok((expr, ended)) => match ended.expect_symbol(Symbol::Semi) {
                    Err(error) => Err(error),
                    Ok(left) => Ok((StatementView::Expr(expr), left)),
                },
            },
        },
    }
}

/// *expression*: a compound assignment to a name, or a comparison level.
pub open spec fn parse_expression(feed: TokenFeed) -> Parsed<ExprView>
    decreases feed.tokens.len(), 18nat,
{
    match feed.need(0) {
        Err(error) => Err(error),
        Ok(token) => match token.data {
            TokenDataView::Identifier(identifier) => match feed.need(1) {
                Err(error) => Err(error),
                Ok(next) => match compound_of(next.data) {
                    Some(op) => match parse_expression(feed.skip(2)) {
                        Err(error) => Err(error),
                        Ok((value, left)) => Ok(
                            (ExprView::Assign { op, identifier, value: Box::new(value) }, left),
                        ),
                    },
                    None => parse_comparison(feed),
                },
            },
            _ => parse_comparison(feed),
        },
    }
}

/// The comparison level: one additive level and at most one comparator with
/// a second one.
pub open spec fn parse_comparison(feed: TokenFeed) -> Parsed<ExprView>
    decreases feed.tokens.len(), 16nat,
{
    match parse_additive(feed) {
        Err(error) => Err(error),
        Ok((lhs, after)) => match after.peek(0) {
            Err(error) => Err(error),
            Ok(None) => Ok((lhs, after)),
            Ok(Some(token)) => match comparison_of(token.data) {
                None => Ok((lhs, after)),
                Some(op) => if after.tokens.len() <= feed.tokens.len() {
                    match parse_additive(after.skip(1)) {
                        Err(error) => Err(error),
                        Ok((rhs, left)) => Ok(
                            (
                                ExprView::Comparison {
                                    op,
                                    lhs: Box::new(lhs),
                                    rhs: Box::new(rhs),
                                },
                                left,
                            ),
                        ),
                    }
                } else {
                    Err(ParseErrorView::UnexpectedEnd)
                },
            },
        },
    }
}

/// The additive level: multiplicative levels joined by `+` and `-`, nested
/// to the left.
pub open spec fn parse_additive(feed: TokenFeed) -> Parsed<ExprView>
    decreases feed.tokens.len(), 14nat,
{
    match parse_multiplicative(feed) {
        Err(error) => Err(error),
        Ok((first, after)) => if after.tokens.len() <= feed.tokens.len() {
            parse_additive_tail(first, after)
        } else {
            Err(ParseErrorView::UnexpectedEnd)
        },
    }
}

/// What follows the left operand `lhs` at the additive level.
pub open spec fn parse_additive_tail(lhs: ExprView, feed: TokenFeed) -> Parsed<ExprView>
    decreases feed.tokens.len(), 13nat,
{
    match feed.peek(0) {
        Err(error) => Err(error),
        Ok(None) => Ok((lhs, feed)),
        Ok(Some(token)) => match additive_of(token.data) {
            None => Ok((lhs, feed)),
            Some(op) => match parse_multiplicative(feed.skip(1)) {
                Err(error) => Err(error),
                Ok((rhs, after)) => if after.tokens.len() < feed.tokens.len() {
                    parse_additive_tail(
                        ExprView::Arithmetic { op, lhs: Box::new(lhs), rhs: Box::new(rhs) },
                        after,
                    )
                } else {
                    Err(ParseErrorView::UnexpectedEnd)
                },
            },
        },
    }
}

/// The multiplicative level: atoms joined by `*`, `/` and `%`, nested to
/// the left.
pub open spec fn parse_multiplicative(feed: TokenFeed) -> Parsed<ExprView>
    decreases feed.tokens.len(), 12nat,
{
    match parse_atom(feed) {
        Err(error) => Err(error),
        Ok((first, after)) => if after.tokens.len() <= feed.tokens.len() {
            parse_multiplicative_tail(first, after)
        } else {
            Err(ParseErrorView::UnexpectedEnd)
        },
    }
}

/// What follows the left operand `lhs` at the multiplicative level.
pub open spec fn parse_multiplicative_tail(lhs: ExprView, feed: TokenFeed) -> Parsed<ExprView>
    decreases feed.tokens.len(), 11nat,
{
    match feed.peek(0) {
        Err(error) => Err(error),
        Ok(None) => Ok((lhs, feed)),
        Ok(Some(token)) => match multiplicative_of(token.data) {
            None => Ok((lhs, feed)),
            Some(op) => match parse_atom(feed.skip(1)) {
                Err(error) => Err(error),
                Ok((rhs, after)) => if after.tokens.len() < feed.tokens.len() {
                    parse_multiplicative_tail(
                        ExprView::Arithmetic { op, lhs: Box::new(lhs), rhs: Box::new(rhs) },
                        after,
                    )
                } else {
                    Err(ParseErrorView::UnexpectedEnd)
                },
            },
        },
    }
}

/// *atom*: a literal, a name, a call, a block, or a control form.
pub open spec fn parse_atom(feed: TokenFeed) -> Parsed<ExprView>
    decreases feed.tokens.len(), 10nat,
{
    match feed.need(0) {
        Err(error) => Err(error),
        Ok(token) => match token.data {
            TokenDataView::IntegerLiteral(text) => Ok(
                (ExprView::IntegerLiteral(text), feed.skip(1)),
            ),
            TokenDataView::Identifier(name) => match feed.skip(1).peek(0) {
                Err(error) => Err(error),
                Ok(next) => if next matches Some(opening) && opening.data
                    == TokenDataView::Symbol(Symbol::LParen) {
                    match parse_args(feed.skip(2)) {
                        Err(error) => Err(error),
                        Ok((args, after)) => match after.expect_symbol(Symbol::RParen) {
                            Err(error) => Err(error),
                            Ok(left) => Ok((ExprView::FunctionCall { name, args }, left)),
                        },
                    }
                } else {
                    Ok((ExprView::Identifier(name), feed.skip(1)))
                },
            },
            TokenDataView::Symbol(Symbol::LBrace) => parse_block(feed),
            TokenDataView::Keyword(Keyword::If) => parse_if(feed),
            TokenDataView::Keyword(Keyword::Loop) => parse_loop(feed),
            TokenDataView::Keyword(Keyword::While) => parse_while(feed),
            _ => Err(ParseErrorView::UnexpectedToken(token)),
        },
    }
}

/// *args*: expressions separated by commas, up to but without the closing
/// parenthesis. A comma may stand before the parenthesis.
pub open spec fn parse_args(feed: TokenFeed) -> Parsed<Seq<ExprView>>
    decreases feed.tokens.len(), 19nat,
{
    match feed.need(0) {
        Err(error) => Err(error),
        Ok(token) => if token.data == TokenDataView::Symbol(Symbol::RParen) {
            Ok((Seq::empty(), feed))
        } else {
            match parse_expression(feed) {
                Err(error) => Err(error),
                Ok((first, after)) => match after.need(0) {
                    Err(error) => Err(error),
                    Ok(next) => match next.data {
                        TokenDataView::Symbol(Symbol::RParen) => Ok((seq![first], after)),
                        TokenDataView::Symbol(Symbol::Comma) => if after.tokens.len()
                            <= feed.tokens.len() {
                            match parse_args(after.skip(1)) {
                                Err(error) => Err(error),
                                Ok((rest, left)) => Ok((seq![first] + rest, left)),
                            }
                        } else {
                            Err(ParseErrorView::UnexpectedEnd)
                        },
                        _ => Err(ParseErrorView::UnexpectedToken(next)),
                    },
                },
            }
        },
    }
}

/// *block*: statements between braces.
pub open spec fn parse_block(feed: TokenFeed) -> Parsed<ExprView>
    decreases feed.tokens.len(), 8nat,
{
    match feed.expect_symbol(Symbol::LBrace) {
        Err(error) => Err(error),
        Ok(opened) => match parse_statements(opened) {
            Err(error) => Err(error),
            Ok((statements, left)) => Ok((ExprView::Block(statements), left)),
        },
    }
}

/// The statements of a block and its closing brace.
pub open spec fn parse_statements(feed: TokenFeed) -> Parsed<Seq<StatementView>>
    decreases feed.tokens.len(), 21nat,
{
    match feed.need(0) {
        Err(error) => Err(error),
        Ok(token) => if token.data == TokenDataView::Symbol(Symbol::RBrace) {
            Ok((Seq::empty(), feed.skip(1)))
        } else {
            match parse_statement(feed) {
                Err(error) => Err(error),
                Ok((first, after)) => if after.tokens.len() < feed.tokens.len() {
                    match parse_statements(after) {
                        Err(error) => Err(error),
                        Ok((rest, left)) => Ok((seq![first] + rest, left)),
                    }
                } else {
                    Err(ParseErrorView::UnexpectedEnd)
                },
            }
        },
    }
}

/// `if ( expression ) statement`, and `else statement` where `else` follows.
pub open spec fn parse_if(feed: TokenFeed) -> Parsed<ExprView>
    decreases feed.tokens.len(), 8nat,
{
    match feed.expect(TokenDataView::Keyword(Keyword::If)) {
        Err(error) => Err(error),
        Ok(started) => match started.expect_symbol(Symbol::LParen) {
            Err(error) => Err(error),
            Ok(opened) => match parse_expression(opened) {
                Err(error) => Err(error),
                Ok((check, after)) => match after.expect_symbol(Symbol::RParen) {
                    Err(error) => Err(error),
                    Ok(closed) => if closed.tokens.len() < feed.tokens.len() {
                        match parse_statement(closed) {
                            Err(error) => Err(error),
                            Ok((body, ended)) => match ended.peek(0) {
                                Err(error) => Err(error),
                                Ok(next) => if next matches Some(other) && other.data
                                    == TokenDataView::Keyword(Keyword::Else) {
                                    if ended.tokens.len() <= feed.tokens.len() {
                                        match parse_statement(ended.skip(1)) {
                                            Err(error) => Err(error),
                                            Ok((els, left)) => Ok(
                                                (
                                                    ExprView::If {
                                                        check: Box::new(check),
                                                        body: Box::new(body),
                                                        els: Some(Box::new(els)),
                                                    },
                                                    left,
                                                ),
                                            ),
                                        }
                                    } else {
                                        Err(ParseErrorView::UnexpectedEnd)
                                    }
                                } else {
                                    Ok(
                                        (
                                            ExprView::If {
                                                check: Box::new(check),
                                                body: Box::new(body),
                                                els: None,
                                            },
                                            ended,
                                        ),
                                    )
                                },
                            },
                        }
                    } else {
                        Err(ParseErrorView::UnexpectedEnd)
                    },
                },
            },
        },
    }
}

/// `loop statement`.
pub open spec fn parse_loop(feed: TokenFeed) -> Parsed<ExprView>
    decreases feed.tokens.len(), 8nat,
{
    match feed.expect(TokenDataView::Keyword(Keyword::Loop)) {
        Err(error) => Err(error),
        Ok(started) => match parse_statement(started) {
            Err(error) => Err(error),
            Ok((body, left)) => Ok((ExprView::Loop { body: Box::new(body) }, left)),
        },
    }
}

/// `while ( expression ) statement`.
pub open spec fn parse_while(feed: TokenFeed) -> Parsed<ExprView>
    decreases feed.tokens.len(), 8nat,
{
    match feed.expect(TokenDataView::Keyword(Keyword::While)) {
        Err(error) => Err(error),
        Ok(started) => match started.expect_symbol(Symbol::LParen) {
            Err(error) => Err(error),
            Ok(opened) => match parse_expression(opened) {
                Err(error) => Err(error),
                Ok((check, after)) => match after.expect_symbol(Symbol::RParen) {
                    Err(error) => Err(error),
                    Ok(closed) => if closed.tokens.len() < feed.tokens.len() {
                        match parse_statement(closed) {
                            Err(error) => Err(error),
                            Ok((body, left)) => Ok(
                                (
                                    ExprView::While {
                                        check: Box::new(check),
                                        body: Box::new(body),
                                    },
                                    left,
                                ),
                            ),
                        }
                    } else {
                        Err(ParseErrorView::UnexpectedEnd)
                    },
                },
            },
        },
    }
}

/// *item*: `fn name ( params ) statement`.
pub open spec fn parse_item(feed: TokenFeed) -> Parsed<ItemView> {
    match feed.expect(TokenDataView::Keyword(Keyword::Fn)) {
        Err(error) => Err(error),
        Ok(started) => match started.expect_identifier() {
            Err(error) => Err(error),
            Ok((name, named)) => match named.expect_symbol(Symbol::LParen) {
                Err(error) => Err(error),
                Ok(opened) => match parse_params(opened) {
                    Err(error) => Err(error),
                    Ok((params, after)) => match after.expect_symbol(Symbol::RParen) {
                        Err(error) => Err(error),
                        Ok(closed) => match parse_statement(closed) {
                            Err(error) => Err(error),
                            Ok((body, left)) => Ok(
                                (ItemView::Function { name, params, body }, left),
                            ),
                        },
                    },
                },
            },
        },
    }
}

/// *program*: items up to the end of the source.
pub open spec fn parse_program(feed: TokenFeed) -> Result<Seq<ItemView>, ParseErrorView>
    decreases feed.tokens.len(),
{
    match feed.peek(0) {
        Err(error) => Err(error),
        Ok(None) => Ok(Seq::empty()),
        Ok(Some(_)) => match parse_item(feed) {
            Err(error) => Err(error),
            Ok((item, after)) => if after.tokens.len() < feed.tokens.len() {
                match parse_program(after) {
                    Err(error) => Err(error),
                    Ok(items) => Ok(seq![item] + items),
                }
            } else {
                Err(ParseErrorView::UnexpectedEnd)
            },
        },
    }
}

/// The tree that the characters `source` spell.
pub open spec fn parse_source(source: Seq<char>) -> Result<Seq<ItemView>, ParseErrorView> {
    parse_program(crate::tokenize::lex_all(source, crate::tokenize::Location::start()))
}

/// The parser is deterministic: the same tokens yield the same tree or the
/// same error, and so does the same source.
pub proof fn lemma_parse_is_deterministic(
    first: TokenFeed,
    second: TokenFeed,
    source: Seq<char>,
    again: Seq<char>,
)
    requires
        first == second,
        source == again,
    ensures
        parse_program(first) == parse_program(second),
        parse_source(source) == parse_source(again),
{
}

/// An atom is never a comparison or arithmetic.
pub proof fn lemma_atom_kind(feed: TokenFeed)
    ensures
        parse_atom(feed) matches Ok((expr, _)) ==> !(expr is Comparison) && !(expr
            is Arithmetic),
{
    reveal_with_fuel(parse_atom, 2);
}

/// What follows a left operand at the multiplicative level makes arithmetic
/// of it or leaves it as it is.
pub proof fn lemma_multiplicative_tail_kind(lhs: ExprView, feed: TokenFeed)
    ensures
        parse_multiplicative_tail(lhs, feed) matches Ok((expr, _)) ==> expr == lhs || expr
            is Arithmetic,
    decreases feed.tokens.len(),
{
    match feed.peek(0) {
        Ok(Some(token)) => match multiplicative_of(token.data) {
            Some(op) => match parse_atom(feed.skip(1)) {
                Ok((rhs, after)) => {
                    if after.tokens.len() < feed.tokens.len() {
                        lemma_multiplicative_tail_kind(
                            ExprView::Arithmetic { op, lhs: Box::new(lhs), rhs: Box::new(rhs) },
                            after,
                        );
                    }
                },
                Err(_) => {},
            },
            None => {},
        },
        _ => {},
    }
}

/// What follows a left operand at the additive level makes arithmetic of it
/// or leaves it as it is.
pub proof fn lemma_additive_tail_kind(lhs: ExprView, feed: TokenFeed)
    ensures
        parse_additive_tail(lhs, feed) matches Ok((expr, _)) ==> expr == lhs || expr
            is Arithmetic,
    decreases feed.tokens.len(),
{
    match feed.peek(0) {
        Ok(Some(token)) => match additive_of(token.data) {
            Some(op) => match parse_multiplicative(feed.skip(1)) {
                Ok((rhs, after)) => {
                    if after.tokens.len() < feed.tokens.len() {
                        lemma_additive_tail_kind(
                            ExprView::Arithmetic { op, lhs: Box::new(lhs), rhs: Box::new(rhs) },
                            after,
                        );
                    }
                },
                Err(_) => {},
            },
            None => {},
        },
        _ => {},
    }
}

/// The additive level never yields a comparison.
pub proof fn lemma_additive_kind(feed: TokenFeed)
    ensures
        parse_additive(feed) matches Ok((expr, _)) ==> !(expr is Comparison),
{
    match parse_multiplicative(feed) {
        Ok((first, after)) => {
            match parse_atom(feed) {
                Ok((atom, rest)) => {
                    lemma_atom_kind(feed);
                    lemma_multiplicative_tail_kind(atom, rest);
                },
                Err(_) => {},
            }
            lemma_additive_tail_kind(first, after);
        },
        Err(_) => {},
    }
}

/// Comparisons do not chain: neither operand of a comparison that the
/// comparison level yields is itself a comparison, and what the level
/// yields is either that comparison or no comparison at all.
pub proof fn lemma_comparisons_do_not_chain(feed: TokenFeed)
    ensures
        parse_comparison(feed) matches Ok((expr, _)) ==> (expr matches ExprView::Comparison {
            op,
            lhs,
            rhs,
        } ==> !(*lhs is Comparison) && !(*rhs is Comparison)),
{
    lemma_additive_kind(feed);
    match parse_additive(feed) {
        Ok((lhs, after)) => {
            lemma_additive_kind(after.skip(1));
        },
        Err(_) => {},
    }
}

/// Whether `expr` is an addition or a subtraction.
pub open spec fn is_additive(expr: ExprView) -> bool {
    expr matches ExprView::Arithmetic { op, lhs, rhs } && (op == ArithmeticOp::Add || op
        == ArithmeticOp::Sub)
}

/// Whether the arithmetic at the root of `expr` is nested to the left: the
/// right operand of an addition or subtraction is neither, the right
/// operand of a multiplication, division or remainder is no arithmetic at
/// all and its left operand no addition or subtraction, and so on down the
/// operands.
pub open spec fn leans_left(expr: ExprView) -> bool
    decreases expr,
{
    match expr {
        ExprView::Arithmetic { op, lhs, rhs } => {
            if op == ArithmeticOp::Add || op == ArithmeticOp::Sub {
                leans_left(*lhs) && leans_left(*rhs) && !is_additive(*rhs)
            } else {
                leans_left(*lhs) && !is_additive(*lhs) && !(*rhs is Arithmetic)
            }
        },
        _ => true,
    }
}

/// What follows a left operand at the multiplicative level keeps it nested
/// to the left.
pub proof fn lemma_multiplicative_tail_leans_left(lhs: ExprView, feed: TokenFeed)
    requires
        leans_left(lhs),
        !is_additive(lhs),
    ensures
        parse_multiplicative_tail(lhs, feed) matches Ok((expr, _)) ==> leans_left(expr)
            && !is_additive(expr),
    decreases feed.tokens.len(),
{
    match feed.peek(0) {
        Ok(Some(token)) => match multiplicative_of(token.data) {
            Some(op) => match parse_atom(feed.skip(1)) {
                Ok((rhs, after)) => {
                    lemma_atom_kind(feed.skip(1));
                    if after.tokens.len() < feed.tokens.len() {
                        lemma_multiplicative_tail_leans_left(
                            ExprView::Arithmetic { op, lhs: Box::new(lhs), rhs: Box::new(rhs) },
                            after,
                        );
                    }
                },
                Err(_) => {},
            },
            None => {},
        },
        _ => {},
    }
}

/// The multiplicative level yields arithmetic that is nested to the left,
/// and no addition or subtraction.
pub proof fn lemma_multiplicative_leans_left(feed: TokenFeed)
    ensures
        parse_multiplicative(feed) matches Ok((expr, _)) ==> leans_left(expr) && !is_additive(
            expr,
        ),
{
    match parse_atom(feed) {
        Ok((atom, rest)) => {
            lemma_atom_kind(feed);
            lemma_multiplicative_tail_leans_left(atom, rest);
        },
        Err(_) => {},
    }
}

/// What follows a left operand at the additive level keeps it nested to the
/// left.
pub proof fn lemma_additive_tail_leans_left(lhs: ExprView, feed: TokenFeed)
    requires
        leans_left(lhs),
    ensures
        parse_additive_tail(lhs, feed) matches Ok((expr, _)) ==> leans_left(expr),
    decreases feed.tokens.len(),
{
    match feed.peek(0) {
        Ok(Some(token)) => match additive_of(token.data) {
            Some(op) => match parse_multiplicative(feed.skip(1)) {
                Ok((rhs, after)) => {
                    lemma_multiplicative_leans_left(feed.skip(1));
                    if after.tokens.len() < feed.tokens.len() {
                        lemma_additive_tail_leans_left(
                            ExprView::Arithmetic { op, lhs: Box::new(lhs), rhs: Box::new(rhs) },
                            after,
                        );
                    }
                },
                Err(_) => {},
            },
            None => {},
        },
        _ => {},
    }
}

/// Arithmetic associates to the left: what the additive level yields is
/// nested to the left, so that `a - b - c` is `(a - b) - c`.
pub proof fn lemma_arithmetic_leans_left(feed: TokenFeed)
    ensures
        parse_additive(feed) matches Ok((expr, _)) ==> leans_left(expr),
{
    match parse_multiplicative(feed) {
        Ok((first, after)) => {
            lemma_multiplicative_leans_left(feed);
            lemma_additive_tail_leans_left(first, after);
        },
        Err(_) => {},
    }
}

} // verus!
