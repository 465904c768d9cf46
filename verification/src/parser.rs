//! The recursive-descent parser: tokens pulled from a lexer, with a small
//! lookahead, and made into a tree as the grammar says.

use crate::ast::{
    expr_views, item_views, param_names, statement_views, ArithmeticOp, ComparisonOp, Expr,
    ExprView, Item, ItemView, Param, Program, Statement, StatementView,
};
use crate::grammar;
use crate::grammar::ParseErrorView;
use crate::tokenize::{
    token_views, Keyword, Symbol, Token, TokenData, TokenDataView, TokenFeed, TokenStream,
    TokenView, TokenizerError,
};
use std::collections::VecDeque;
use vstd::prelude::*;

verus! {

/// Why parsing stopped.
#[derive(Clone, Debug, PartialEq, Eq)]
pub enum ParseError {
    /// The lexer met a character that it does not recognise.
    TokenizerError(TokenizerError),
    /// A token stands where the grammar has no use for it.
    UnexpectedToken(Token),
    /// The source ends where the grammar asks for a token.
    UnexpectedEnd,
}

impl View for ParseError {
    type V = ParseErrorView;

    open spec fn view(&self) -> ParseErrorView {
        match self {
            ParseError::TokenizerError(error) => ParseErrorView::TokenizerError(*error),
            ParseError::UnexpectedToken(token) => ParseErrorView::UnexpectedToken(token@),
            ParseError::UnexpectedEnd => ParseErrorView::UnexpectedEnd,
        }
    }
}

impl vstd::std_specs::convert::FromSpecImpl<TokenizerError> for ParseError {
    open spec fn obeys_from_spec() -> bool {
        true
    }

    open spec fn from_spec(error: TokenizerError) -> ParseError {
        ParseError::TokenizerError(error)
    }
}

impl From<TokenizerError> for ParseError {
    fn from(error: TokenizerError) -> (wrapped: Self) {
        ParseError::TokenizerError(error)
    }
}

/// The parser: a lexer and the tokens that were read ahead of their use.
pub struct Parser {
    tokens: TokenStream,
    buffer: VecDeque<Token>,
}

/// The operation of a compound-assignment symbol.
fn compound(data: &TokenData) -> (op: Option<ArithmeticOp>)
    ensures
        op == grammar::compound_of(data@),
{
    match data {
        TokenData::Symbol(Symbol::PlusEq) => Some(ArithmeticOp::Add),
        TokenData::Symbol(Symbol::MinusEq) => Some(ArithmeticOp::Sub),
        TokenData::Symbol(Symbol::StarEq) => Some(ArithmeticOp::Mul),
        TokenData::Symbol(Symbol::SlashEq) => Some(ArithmeticOp::Div),
        TokenData::Symbol(Symbol::PercentEq) => Some(ArithmeticOp::Mod),
        _ => None,
    }
}

/// The comparison of a comparator symbol.
fn comparator(data: &TokenData) -> (op: Option<ComparisonOp>)
    ensures
        op == grammar::comparison_of(data@),
{
    match data {
        TokenData::Symbol(Symbol::Equality) => Some(ComparisonOp::Eq),
        TokenData::Symbol(Symbol::NonEquality) => Some(ComparisonOp::Ne),
        TokenData::Symbol(Symbol::LAngle) => Some(ComparisonOp::Lt),
        TokenData::Symbol(Symbol::LesserEqual) => Some(ComparisonOp::Le),
        TokenData::Symbol(Symbol::RAngle) => Some(ComparisonOp::Gt),
        TokenData::Symbol(Symbol::GreaterEqual) => Some(ComparisonOp::Ge),
        _ => None,
    }
}

/// The operation of `+` and of `-`.
fn additive(data: &TokenData) -> (op: Option<ArithmeticOp>)
    ensures
        op == grammar::additive_of(data@),
{
    match data {
        TokenData::Symbol(Symbol::Plus) => Some(ArithmeticOp::Add),
        TokenData::Symbol(Symbol::Minus) => Some(ArithmeticOp::Sub),
        _ => None,
    }
}

/// The operation of `*`, of `/` and of `%`.
fn multiplicative(data: &TokenData) -> (op: Option<ArithmeticOp>)
    ensures
        op == grammar::multiplicative_of(data@),
{
    match data {
        TokenData::Symbol(Symbol::Star) => Some(ArithmeticOp::Mul),
        TokenData::Symbol(Symbol::Slash) => Some(ArithmeticOp::Div),
        TokenData::Symbol(Symbol::Percent) => Some(ArithmeticOp::Mod),
        _ => None,
    }
}

/// The arithmetic node of `op` over `lhs` and `rhs`.
pub fn arithmetic(op: ArithmeticOp, lhs: Expr, rhs: Expr) -> (expr: Expr)
    ensures
        expr@ == (ExprView::Arithmetic { op, lhs: Box::new(lhs@), rhs: Box::new(rhs@) }),
{
    match op {
        ArithmeticOp::Add => Expr::Add(Box::new(lhs), Box::new(rhs)),
        ArithmeticOp::Sub => Expr::Sub(Box::new(lhs), Box::new(rhs)),
        ArithmeticOp::Mul => Expr::Mul(Box::new(lhs), Box::new(rhs)),
        ArithmeticOp::Div => Expr::Div(Box::new(lhs), Box::new(rhs)),
        ArithmeticOp::Mod => Expr::Mod(Box::new(lhs), Box::new(rhs)),
    }
}

/// The comparison node of `op` over `lhs` and `rhs`.
pub fn comparison(op: ComparisonOp, lhs: Expr, rhs: Expr) -> (expr: Expr)
    ensures
        expr@ == (ExprView::Comparison { op, lhs: Box::new(lhs@), rhs: Box::new(rhs@) }),
{
    match op {
        ComparisonOp::Eq => Expr::Eq(Box::new(lhs), Box::new(rhs)),
        ComparisonOp::Ne => Expr::Ne(Box::new(lhs), Box::new(rhs)),
        ComparisonOp::Lt => Expr::Lt(Box::new(lhs), Box::new(rhs)),
        ComparisonOp::Le => Expr::Le(Box::new(lhs), Box::new(rhs)),
        ComparisonOp::Gt => Expr::Gt(Box::new(lhs), Box::new(rhs)),
        ComparisonOp::Ge => Expr::Ge(Box::new(lhs), Box::new(rhs)),
    }
}

/// The compound-assignment node of `op` to `identifier`.
pub fn assignment(op: ArithmeticOp, identifier: String, value: Expr) -> (expr: Expr)
    ensures
        expr@ == (ExprView::Assign { op, identifier: identifier@, value: Box::new(value@) }),
{
    match op {
        ArithmeticOp::Add => Expr::AddAssign { identifier, value: Box::new(value) },
        ArithmeticOp::Sub => Expr::SubAssign { identifier, value: Box::new(value) },
        ArithmeticOp::Mul => Expr::MulAssign { identifier, value: Box::new(value) },
        ArithmeticOp::Div => Expr::DivAssign { identifier, value: Box::new(value) },
        ArithmeticOp::Mod => Expr::ModAssign { identifier, value: Box::new(value) },
    }
}

impl Parser {
    /// The tokens that are still to be parsed, and the error that ends them.
    pub closed spec fn feed(&self) -> TokenFeed {
        TokenFeed {
            tokens: token_views(self.buffer@) + self.tokens.feed().tokens,
            error: self.tokens.feed().error,
        }
    }

    /// The lexer is well-formed.
    pub closed spec fn wf(&self) -> bool {
        self.tokens.wf()
    }

    /// A parser of the tokens of `tokens`.
    pub fn new(tokens: TokenStream) -> (parser: Self)
        requires
            tokens.wf(),
        ensures
            parser.wf(),
            parser.feed() == tokens.feed(),
    {
        let parser = Parser { tokens, buffer: VecDeque::new() };
        assert(token_views(parser.buffer@) + tokens.feed().tokens =~= tokens.feed().tokens);
        parser
    }

    /// The token `count` places ahead, which stays.
    fn peek_ahead(&mut self, count: usize) -> (token: Result<Option<Token>, TokenizerError>)
        requires
            old(self).wf(),
            count < usize::MAX,
        ensures
            final(self).wf(),
            match token {
                Ok(Some(token)) => count < old(self).feed().tokens.len() && token@ == old(
                    self,
                ).feed().tokens[count as int] && final(self).feed() == old(self).feed(),
                Ok(None) => old(self).feed().tokens.len() <= count && old(self).feed().error
                    is None && final(self).feed() == old(self).feed(),
                Err(error) => old(self).feed().tokens.len() <= count && old(self).feed().error
                    == Some(error),
            },
    {
        while self.buffer.len() < count + 1
            invariant
                self.wf(),
                self.feed() == old(self).feed(),
                count < usize::MAX,
            decreases self.tokens.remaining().len(),
        {
            let ghost buffered = token_views(self.buffer@);
            let ghost pending = self.tokens.feed();
            match self.tokens.next() {
                Ok(Some(token)) => {
                    self.buffer.push_back(token);
                    assert(token_views(self.buffer@) =~= buffered.push(token@));
                    assert(buffered.push(token@) + self.tokens.feed().tokens =~= buffered + (
                    seq![token@] + self.tokens.feed().tokens));
                },
                Ok(None) => {
                    assert(buffered + pending.tokens =~= buffered);
                    return Ok(None);
                },
                Err(error) => {
                    assert(buffered + pending.tokens =~= buffered);
                    return Err(error);
                },
            }
        }
        Ok(Some(self.buffer[count].clone()))
    }

    /// The next token, which stays.
    fn peek(&mut self) -> (token: Result<Option<Token>, TokenizerError>)
        requires
            old(self).wf(),
        ensures
            final(self).wf(),
            match token {
                Ok(Some(token)) => 0 < old(self).feed().tokens.len() && token@ == old(
                    self,
                ).feed().tokens[0] && final(self).feed() == old(self).feed(),
                Ok(None) => old(self).feed().tokens.len() == 0 && old(self).feed().error
                    is None && final(self).feed() == old(self).feed(),
                Err(error) => old(self).feed().tokens.len() == 0 && old(self).feed().error
                    == Some(error),
            },
    {
        self.peek_ahead(0)
    }

    /// Whether the source is read to its end.
    fn is_empty(&mut self) -> (empty: Result<bool, TokenizerError>)
        requires
            old(self).wf(),
        ensures
            final(self).wf(),
            match empty {
                Ok(empty) => final(self).feed() == old(self).feed() && if empty {
                    old(self).feed().tokens.len() == 0 && old(self).feed().error is None
                } else {
                    old(self).feed().tokens.len() > 0
                },
                Err(error) => old(self).feed().tokens.len() == 0 && old(self).feed().error
                    == Some(error),
            },
    {
        match self.peek() {
            Ok(token) => Ok(token.is_none()),
            Err(error) => Err(error),
        }
    }

    /// Takes the next token.
    fn consume(&mut self) -> (token: Result<Option<Token>, TokenizerError>)
        requires
            old(self).wf(),
        ensures
            final(self).wf(),
            match token {
                Ok(Some(token)) => 0 < old(self).feed().tokens.len() && token@ == old(
                    self,
                ).feed().tokens[0] && final(self).feed() == old(self).feed().skip(1),
                Ok(None) => old(self).feed().tokens.len() == 0 && old(self).feed().error
                    is None && final(self).feed() == old(self).feed(),
                Err(error) => old(self).feed().tokens.len() == 0 && old(self).feed().error
                    == Some(error),
            },
    {
        if self.buffer.len() == 0 {
            let ghost pending = self.tokens.feed();
            assert(token_views(self.buffer@) + pending.tokens =~= pending.tokens);
            let token = self.tokens.next();
            proof {
                assert(token_views(self.buffer@) + self.tokens.feed().tokens
                    =~= self.tokens.feed().tokens);
                if token is Ok && token->Ok_0 is Some {
                    assert(pending.tokens.skip(1) =~= self.tokens.feed().tokens);
                }
            }
            token
        } else {
            let ghost buffered = token_views(self.buffer@);
            let token = self.buffer.pop_front();
            assert(token_views(self.buffer@) =~= buffered.skip(1));
            assert((buffered + self.tokens.feed().tokens).skip(1) =~= buffered.skip(1)
                + self.tokens.feed().tokens);
            Ok(token)
        }
    }

    /// The token `count` places ahead, where there has to be one.
    fn need(&mut self, count: usize) -> (token: Result<Token, ParseError>)
        requires
            old(self).wf(),
            count < usize::MAX,
        ensures
            final(self).wf(),
            match token {
                Ok(token) => old(self).feed().need(count as int) == Ok::<
                    TokenView,
                    ParseErrorView,
                >(token@) && final(self).feed() == old(self).feed(),
                Err(error) => old(self).feed().need(count as int) == Err::<
                    TokenView,
                    ParseErrorView,
                >(error@),
            },
    {
        match self.peek_ahead(count) {
            Ok(Some(token)) => Ok(token),
            Ok(None) => Err(ParseError::UnexpectedEnd),
            Err(error) => Err(ParseError::TokenizerError(error)),
        }
    }

    /// The next token, where the source may as well end.
    fn look(&mut self) -> (token: Result<Option<Token>, ParseError>)
        requires
            old(self).wf(),
        ensures
            final(self).wf(),
            match token {
                Ok(Some(token)) => old(self).feed().peek(0) == Ok::<
                    Option<TokenView>,
                    ParseErrorView,
                >(Some(token@)) && final(self).feed() == old(self).feed(),
                Ok(None) => old(self).feed().peek(0) == Ok::<Option<TokenView>, ParseErrorView>(
                    None,
                ) && final(self).feed() == old(self).feed(),
                Err(error) => old(self).feed().peek(0) == Err::<
                    Option<TokenView>,
                    ParseErrorView,
                >(error@),
            },
    {
        match self.peek() {
            Ok(token) => Ok(token),
            Err(error) => Err(ParseError::TokenizerError(error)),
        }
    }

    /// Passes over the next token, which is there.
    fn pass(&mut self)
        requires
            old(self).wf(),
            old(self).feed().tokens.len() > 0,
        ensures
            final(self).wf(),
            final(self).feed() == old(self).feed().skip(1),
            final(self).feed().tokens.len() + 1 == old(self).feed().tokens.len(),
    {
        let _ = self.consume();
    }

    /// Takes the next token, which has to be the symbol `symbol`.
    fn expect_symbol(&mut self, symbol: Symbol) -> (outcome: Result<(), ParseError>)
        requires
            old(self).wf(),
        ensures
            final(self).wf(),
            match outcome {
                Ok(()) => old(self).feed().expect_symbol(symbol) == Ok::<
                    TokenFeed,
                    ParseErrorView,
                >(final(self).feed()) && final(self).feed().tokens.len() + 1 == old(
                    self,
                ).feed().tokens.len(),
                Err(error) => old(self).feed().expect_symbol(symbol) == Err::<
                    TokenFeed,
                    ParseErrorView,
                >(error@),
            },
    {
        let token = self.need(0)?;
        match token.data {
            TokenData::Symbol(found) => {
                if found == symbol {
                    self.pass();
                    return Ok(());
                }
            },
            _ => {},
        }
        Err(ParseError::UnexpectedToken(token))
    }

    /// Takes the next token, which has to be the keyword `keyword`.
    fn expect_keyword(&mut self, keyword: Keyword) -> (outcome: Result<(), ParseError>)
        requires
            old(self).wf(),
        ensures
            final(self).wf(),
            match outcome {
                Ok(()) => old(self).feed().expect(TokenDataView::Keyword(keyword)) == Ok::<
                    TokenFeed,
                    ParseErrorView,
                >(final(self).feed()) && final(self).feed().tokens.len() + 1 == old(
                    self,
                ).feed().tokens.len(),
                Err(error) => old(self).feed().expect(TokenDataView::Keyword(keyword)) == Err::<
                    TokenFeed,
                    ParseErrorView,
                >(error@),
            },
    {
        let token = self.need(0)?;
        match token.data {
            TokenData::Keyword(found) => {
                if found == keyword {
                    self.pass();
                    return Ok(());
                }
            },
            _ => {},
        }
        Err(ParseError::UnexpectedToken(token))
    }

    /// Takes the next token, which has to be an identifier.
    fn expect_identifier(&mut self) -> (name: Result<String, ParseError>)
        requires
            old(self).wf(),
        ensures
            final(self).wf(),
            match name {
                Ok(name) => old(self).feed().expect_identifier() == Ok::<
                    (Seq<char>, TokenFeed),
                    ParseErrorView,
                >((name@, final(self).feed())) && final(self).feed().tokens.len() + 1 == old(
                    self,
                ).feed().tokens.len(),
                Err(error) => old(self).feed().expect_identifier() == Err::<
                    (Seq<char>, TokenFeed),
                    ParseErrorView,
                >(error@),
            },
    {
        let token = self.need(0)?;
        match token.data {
            TokenData::Identifier(name) => {
                self.pass();
                Ok(name)
            },
            data => Err(ParseError::UnexpectedToken(Token { data, location: token.location })),
        }
    }

    /// Passes over the next two tokens, which are there.
    fn pass_both(&mut self)
        requires
            old(self).wf(),
            old(self).feed().tokens.len() > 1,
        ensures
            final(self).wf(),
            final(self).feed() == old(self).feed().skip(2),
            final(self).feed().tokens.len() + 2 == old(self).feed().tokens.len(),
    {
        self.pass();
        self.pass();
        assert(old(self).feed().tokens.skip(1).skip(1) =~= old(self).feed().tokens.skip(2));
    }

    /// Parses the names of the parameters of a function.
    fn parse_params(&mut self) -> (found: Result<Vec<Param>, ParseError>)
        requires
            old(self).wf(),
        ensures
            final(self).wf(),
            grammar::parse_params(old(self).feed()) == (match found {
                Ok(found) => Ok((param_names(found@), final(self).feed())),
                Err(error) => Err(error@),
            }),
            found is Ok ==> final(self).feed().tokens.len() <= old(self).feed().tokens.len(),
        decreases old(self).feed().tokens.len(), 0nat,
    {
        let token = self.need(0)?;
        match &token.data {
            TokenData::Symbol(Symbol::RParen) => {
                let params: Vec<Param> = Vec::new();
                assert(param_names(params@) =~= Seq::<Seq<char>>::empty());
                Ok(params)
            },
            TokenData::Identifier(name) => {
                let next = self.need(1)?;
                match &next.data {
                    TokenData::Symbol(Symbol::RParen) => {
                        self.pass();
                        let mut params: Vec<Param> = Vec::new();
                        params.push(Param { name: name.clone() });
                        assert(param_names(params@) =~= seq![name@]);
                        Ok(params)
                    },
                    TokenData::Symbol(Symbol::Comma) => {
                        self.pass_both();
                        let mut params = self.parse_params()?;
                        let ghost rest = param_names(params@);
                        params.insert(0, Param { name: name.clone() });
                        assert(param_names(params@) =~= seq![name@] + rest);
                        Ok(params)
                    },
                    _ => Err(ParseError::UnexpectedToken(next.clone())),
                }
            },
            _ => Err(ParseError::UnexpectedToken(token.clone())),
        }
    }

    /// Parses `exit ( expression ) ;`.
    fn statement_exit(&mut self) -> (found: Result<Statement, ParseError>)
        requires
            old(self).wf(),
            old(self).feed().need(0) matches Ok(first) && first.data == TokenDataView::Keyword(Keyword::Exit),
        ensures
            final(self).wf(),
            grammar::parse_statement(old(self).feed()) == (match found {
                Ok(found) => Ok((found@, final(self).feed())),
                Err(error) => Err(error@),
            }),
            found is Ok ==> final(self).feed().tokens.len() < old(self).feed().tokens.len(),
        decreases old(self).feed().tokens.len(), 29nat,
    {
        self.pass();
        self.expect_symbol(Symbol::LParen)?;
        let value = self.parse_expression()?;
        self.expect_symbol(Symbol::RParen)?;
        self.expect_symbol(Symbol::Semi)?;
        Ok(Statement::Exit { value })
    }

    /// Parses `let name = expression ;` and `let mut name = expression ;`.
    fn statement_let(&mut self) -> (found: Result<Statement, ParseError>)
        requires
            old(self).wf(),
            old(self).feed().need(0) matches Ok(first) && first.data == TokenDataView::Keyword(Keyword::Let),
        ensures
            final(self).wf(),
            grammar::parse_statement(old(self).feed()) == (match found {
                Ok(found) => Ok((found@, final(self).feed())),
                Err(error) => Err(error@),
            }),
            found is Ok ==> final(self).feed().tokens.len() < old(self).feed().tokens.len(),
        decreases old(self).feed().tokens.len(), 29nat,
    {
        let next = self.need(1)?;
        let is_mutable = match &next.data {
            TokenData::Keyword(Keyword::Mut) => true,
            _ => false,
        };
        if is_mutable {
            self.pass_both();
        } else {
            self.pass();
        }
        let identifier = self.expect_identifier()?;
        self.expect_symbol(Symbol::Equals)?;
        let value = self.parse_expression()?;
        self.expect_symbol(Symbol::Semi)?;
        Ok(Statement::Let { identifier, value, is_mutable })
    }

    /// Parses `break ;` and `continue ;`.
    fn statement_jump(&mut self) -> (found: Result<Statement, ParseError>)
        requires
            old(self).wf(),
            old(self).feed().need(0) matches Ok(first) && (first.data == TokenDataView::Keyword(Keyword::Break) || first.data
                == TokenDataView::Keyword(Keyword::Continue)),
        ensures
            final(self).wf(),
            grammar::parse_statement(old(self).feed()) == (match found {
                Ok(found) => Ok((found@, final(self).feed())),
                Err(error) => Err(error@),
            }),
            found is Ok ==> final(self).feed().tokens.len() < old(self).feed().tokens.len(),
        decreases old(self).feed().tokens.len(), 29nat,
    {
        let token = self.need(0)?;
        self.pass();
        self.expect_symbol(Symbol::Semi)?;
        match &token.data {
            TokenData::Keyword(Keyword::Break) => Ok(Statement::Break),
            _ => Ok(Statement::Continue),
        }
    }

    /// Parses `return expression ;`.
    fn statement_return(&mut self) -> (found: Result<Statement, ParseError>)
        requires
            old(self).wf(),
            old(self).feed().need(0) matches Ok(first) && first.data == TokenDataView::Keyword(Keyword::Return),
        ensures
            final(self).wf(),
            grammar::parse_statement(old(self).feed()) == (match found {
                Ok(found) => Ok((found@, final(self).feed())),
                Err(error) => Err(error@),
            }),
            found is Ok ==> final(self).feed().tokens.len() < old(self).feed().tokens.len(),
        decreases old(self).feed().tokens.len(), 29nat,
    {
        self.pass();
        let value = self.parse_expression()?;
        self.expect_symbol(Symbol::Semi)?;
        Ok(Statement::Return(value))
    }

    /// Parses `expression ;`.
    fn statement_expression(&mut self) -> (found: Result<Statement, ParseError>)
        requires
            old(self).wf(),
            old(self).feed().need(0) matches Ok(first) && !(first.data is Keyword) && first.data != TokenDataView::Symbol(
                Symbol::LBrace,
            ),
        ensures
            final(self).wf(),
            grammar::parse_statement(old(self).feed()) == (match found {
                Ok(found) => Ok((found@, final(self).feed())),
                Err(error) => Err(error@),
            }),
            found is Ok ==> final(self).feed().tokens.len() < old(self).feed().tokens.len(),
        decreases old(self).feed().tokens.len(), 29nat,
    {
        let value = self.parse_expression()?;
        self.expect_symbol(Symbol::Semi)?;
        Ok(Statement::Expr(value))
    }

    /// Parses a statement.
    fn parse_statement(&mut self) -> (found: Result<Statement, ParseError>)
        requires
            old(self).wf(),
        ensures
            final(self).wf(),
            grammar::parse_statement(old(self).feed()) == (match found {
                Ok(found) => Ok((found@, final(self).feed())),
                Err(error) => Err(error@),
            }),
            found is Ok ==> final(self).feed().tokens.len() < old(self).feed().tokens.len(),
        decreases old(self).feed().tokens.len(), 30nat,
    {
        let token = self.need(0)?;
        match &token.data {
            TokenData::Keyword(Keyword::Exit) => self.statement_exit(),
            TokenData::Keyword(Keyword::Let) => self.statement_let(),
            TokenData::Keyword(Keyword::If) => {
                let expr = self.parse_if()?;
                Ok(Statement::Expr(expr))
            },
            TokenData::Keyword(Keyword::Loop) => {
                let expr = self.parse_loop()?;
                Ok(Statement::Expr(expr))
            },
            TokenData::Keyword(Keyword::While) => {
                let expr = self.parse_while()?;
                Ok(Statement::Expr(expr))
            },
            TokenData::Keyword(Keyword::Break) => self.statement_jump(),
            TokenData::Keyword(Keyword::Continue) => self.statement_jump(),
            TokenData::Keyword(Keyword::Return) => self.statement_return(),
            TokenData::Keyword(_) => Err(ParseError::UnexpectedToken(token.clone())),
            TokenData::Symbol(Symbol::LBrace) => {
                let expr = self.parse_block()?;
                Ok(Statement::Expr(expr))
            },
            _ => self.statement_expression(),
        }
    }

    /// Parses an expression.
    fn parse_expression(&mut self) -> (found: Result<Expr, ParseError>)
        requires
            old(self).wf(),
        ensures
            final(self).wf(),
            grammar::parse_expression(old(self).feed()) == (match found {
                Ok(found) => Ok((found@, final(self).feed())),
                Err(error) => Err(error@),
            }),
            found is Ok ==> final(self).feed().tokens.len() < old(self).feed().tokens.len(),
        decreases old(self).feed().tokens.len(), 19nat,
    {
        self.parse_assign_expr()
    }

    /// Parses a compound assignment, or what stands at the comparison level.
    fn parse_assign_expr(&mut self) -> (found: Result<Expr, ParseError>)
        requires
            old(self).wf(),
        ensures
            final(self).wf(),
            grammar::parse_expression(old(self).feed()) == (match found {
                Ok(found) => Ok((found@, final(self).feed())),
                Err(error) => Err(error@),
            }),
            found is Ok ==> final(self).feed().tokens.len() < old(self).feed().tokens.len(),
        decreases old(self).feed().tokens.len(), 18nat,
    {
        let token = self.need(0)?;
        match &token.data {
            TokenData::Identifier(identifier) => {
                let next = self.need(1)?;
                match compound(&next.data) {
                    Some(op) => {
                        self.pass_both();
                        let value = self.parse_expression()?;
                        Ok(assignment(op, identifier.clone(), value))
                    },
                    None => self.parse_expression_cmp_part(),
                }
            },
            _ => self.parse_expression_cmp_part(),
        }
    }

    /// Parses an additive level and at most one comparison with a second.
    fn parse_expression_cmp_part(&mut self) -> (found: Result<Expr, ParseError>)
        requires
            old(self).wf(),
        ensures
            final(self).wf(),
            grammar::parse_comparison(old(self).feed()) == (match found {
                Ok(found) => Ok((found@, final(self).feed())),
                Err(error) => Err(error@),
            }),
            found is Ok ==> final(self).feed().tokens.len() < old(self).feed().tokens.len(),
        decreases old(self).feed().tokens.len(), 16nat,
    {
        let lhs = self.parse_expression_add_part()?;
        let token = match self.look()? {
            Some(token) => token,
            None => {
                return Ok(lhs);
            },
        };
        match comparator(&token.data) {
            Some(op) => {
                self.pass();
                let rhs = self.parse_expression_add_part()?;
                Ok(comparison(op, lhs, rhs))
            },
            None => Ok(lhs),
        }
    }

    /// Parses multiplicative levels joined by `+` and `-`.
    fn parse_expression_add_part(&mut self) -> (found: Result<Expr, ParseError>)
        requires
            old(self).wf(),
        ensures
            final(self).wf(),
            grammar::parse_additive(old(self).feed()) == (match found {
                Ok(found) => Ok((found@, final(self).feed())),
                Err(error) => Err(error@),
            }),
            found is Ok ==> final(self).feed().tokens.len() < old(self).feed().tokens.len(),
        decreases old(self).feed().tokens.len(), 14nat,
    {
        let first = self.parse_expression_mul_part()?;
        self.additive_tail(first)
    }

    /// Parses what follows the left operand `lhs` at the additive level.
    fn additive_tail(&mut self, lhs: Expr) -> (found: Result<Expr, ParseError>)
        requires
            old(self).wf(),
        ensures
            final(self).wf(),
            grammar::parse_additive_tail(lhs@, old(self).feed()) == (match found {
                Ok(found) => Ok((found@, final(self).feed())),
                Err(error) => Err(error@),
            }),
            found is Ok ==> final(self).feed().tokens.len() <= old(self).feed().tokens.len(),
        decreases old(self).feed().tokens.len(), 13nat,
    {
        let token = match self.look()? {
            Some(token) => token,
            None => {
                return Ok(lhs);
            },
        };
        match additive(&token.data) {
            Some(op) => {
                self.pass();
                let rhs = self.parse_expression_mul_part()?;
                self.additive_tail(arithmetic(op, lhs, rhs))
            },
            None => Ok(lhs),
        }
    }

    /// Parses atoms joined by `*`, `/` and `%`.
    fn parse_expression_mul_part(&mut self) -> (found: Result<Expr, ParseError>)
        requires
            old(self).wf(),
        ensures
            final(self).wf(),
            grammar::parse_multiplicative(old(self).feed()) == (match found {
                Ok(found) => Ok((found@, final(self).feed())),
                Err(error) => Err(error@),
            }),
            found is Ok ==> final(self).feed().tokens.len() < old(self).feed().tokens.len(),
        decreases old(self).feed().tokens.len(), 12nat,
    {
        let first = self.parse_atom()?;
        self.multiplicative_tail(first)
    }

    /// Parses what follows the left operand `lhs` at the multiplicative
    /// level.
    fn multiplicative_tail(&mut self, lhs: Expr) -> (found: Result<Expr, ParseError>)
        requires
            old(self).wf(),
        ensures
            final(self).wf(),
            grammar::parse_multiplicative_tail(lhs@, old(self).feed()) == (match found {
                Ok(found) => Ok((found@, final(self).feed())),
                Err(error) => Err(error@),
            }),
            found is Ok ==> final(self).feed().tokens.len() <= old(self).feed().tokens.len(),
        decreases old(self).feed().tokens.len(), 11nat,
    {
        let token = match self.look()? {
            Some(token) => token,
            None => {
                return Ok(lhs);
            },
        };
        match multiplicative(&token.data) {
            Some(op) => {
                self.pass();
                let rhs = self.parse_atom()?;
                self.multiplicative_tail(arithmetic(op, lhs, rhs))
            },
            None => Ok(lhs),
        }
    }

    /// Parses a name and, where a parenthesis follows it, the call of it.
    fn atom_named(&mut self) -> (found: Result<Expr, ParseError>)
        requires
            old(self).wf(),
            old(self).feed().need(0) matches Ok(first) && first.data is Identifier,
        ensures
            final(self).wf(),
            grammar::parse_atom(old(self).feed()) == (match found {
                Ok(found) => Ok((found@, final(self).feed())),
                Err(error) => Err(error@),
            }),
            found is Ok ==> final(self).feed().tokens.len() < old(self).feed().tokens.len(),
        decreases old(self).feed().tokens.len(), 9nat,
    {
        let name = self.expect_identifier()?;
        let calls = match self.look()? {
            Some(token) => match &token.data {
                TokenData::Symbol(Symbol::LParen) => true,
                _ => false,
            },
            None => false,
        };
        if calls {
            self.pass();
            assert(old(self).feed().tokens.skip(1).skip(1) =~= old(self).feed().tokens.skip(2));
            let args = self.parse_args()?;
            self.expect_symbol(Symbol::RParen)?;
            Ok(Expr::FunctionCall { name, args })
        } else {
            Ok(Expr::Identifier(name))
        }
    }

    /// Parses an atom.
    fn parse_atom(&mut self) -> (found: Result<Expr, ParseError>)
        requires
            old(self).wf(),
        ensures
            final(self).wf(),
            grammar::parse_atom(old(self).feed()) == (match found {
                Ok(found) => Ok((found@, final(self).feed())),
                Err(error) => Err(error@),
            }),
            found is Ok ==> final(self).feed().tokens.len() < old(self).feed().tokens.len(),
        decreases old(self).feed().tokens.len(), 10nat,
    {
        let token = self.need(0)?;
        match &token.data {
            TokenData::IntegerLiteral(text) => {
                self.pass();
                Ok(Expr::IntegerLiteral(text.clone()))
            },
            TokenData::Identifier(_) => self.atom_named(),
            TokenData::Symbol(Symbol::LBrace) => self.parse_block(),
            TokenData::Keyword(Keyword::If) => self.parse_if(),
            TokenData::Keyword(Keyword::Loop) => self.parse_loop(),
            TokenData::Keyword(Keyword::While) => self.parse_while(),
            _ => Err(ParseError::UnexpectedToken(token.clone())),
        }
    }

    /// Parses the arguments of a call.
    fn parse_args(&mut self) -> (found: Result<Vec<Expr>, ParseError>)
        requires
            old(self).wf(),
        ensures
            final(self).wf(),
            grammar::parse_args(old(self).feed()) == (match found {
                Ok(found) => Ok((expr_views(found@), final(self).feed())),
                Err(error) => Err(error@),
            }),
            found is Ok ==> final(self).feed().tokens.len() <= old(self).feed().tokens.len(),
        decreases old(self).feed().tokens.len(), 28nat,
    {
        let token = self.need(0)?;
        match &token.data {
            TokenData::Symbol(Symbol::RParen) => {
                let args: Vec<Expr> = Vec::new();
                assert(expr_views(args@) =~= Seq::<ExprView>::empty());
                return Ok(args);
            },
            _ => {},
        }
        let first = self.parse_expression()?;
        let next = self.need(0)?;
        match &next.data {
            TokenData::Symbol(Symbol::RParen) => {
                let mut args: Vec<Expr> = Vec::new();
                let ghost view = first@;
                args.push(first);
                assert(expr_views(args@) =~= seq![view]);
                Ok(args)
            },
            TokenData::Symbol(Symbol::Comma) => {
                self.pass();
                let mut args = self.parse_args()?;
                let ghost rest = expr_views(args@);
                let ghost view = first@;
                args.insert(0, first);
                assert(expr_views(args@) =~= seq![view] + rest);
                Ok(args)
            },
            _ => Err(ParseError::UnexpectedToken(next.clone())),
        }
    }

    /// Parses a block.
    fn parse_block(&mut self) -> (found: Result<Expr, ParseError>)
        requires
            old(self).wf(),
        ensures
            final(self).wf(),
            grammar::parse_block(old(self).feed()) == (match found {
                Ok(found) => Ok((found@, final(self).feed())),
                Err(error) => Err(error@),
            }),
            found is Ok ==> final(self).feed().tokens.len() < old(self).feed().tokens.len(),
        decreases old(self).feed().tokens.len(), 8nat,
    {
        self.expect_symbol(Symbol::LBrace)?;
        let statements = self.parse_statements()?;
        Ok(Expr::Block(statements))
    }

    /// Parses the statements of a block and its closing brace.
    fn parse_statements(&mut self) -> (found: Result<Vec<Statement>, ParseError>)
        requires
            old(self).wf(),
        ensures
            final(self).wf(),
            grammar::parse_statements(old(self).feed()) == (match found {
                Ok(found) => Ok((statement_views(found@), final(self).feed())),
                Err(error) => Err(error@),
            }),
            found is Ok ==> final(self).feed().tokens.len() < old(self).feed().tokens.len(),
        decreases old(self).feed().tokens.len(), 40nat,
    {
        let token = self.need(0)?;
        match &token.data {
            TokenData::Symbol(Symbol::RBrace) => {
                self.pass();
                let statements: Vec<Statement> = Vec::new();
                assert(statement_views(statements@) =~= Seq::<StatementView>::empty());
                return Ok(statements);
            },
            _ => {},
        }
        let first = self.parse_statement()?;
        let mut statements = self.parse_statements()?;
        let ghost rest = statement_views(statements@);
        let ghost view = first@;
        statements.insert(0, first);
        assert(statement_views(statements@) =~= seq![view] + rest);
        Ok(statements)
    }

    /// Parses a conditional.
    fn parse_if(&mut self) -> (found: Result<Expr, ParseError>)
        requires
            old(self).wf(),
        ensures
            final(self).wf(),
            grammar::parse_if(old(self).feed()) == (match found {
                Ok(found) => Ok((found@, final(self).feed())),
                Err(error) => Err(error@),
            }),
            found is Ok ==> final(self).feed().tokens.len() < old(self).feed().tokens.len(),
        decreases old(self).feed().tokens.len(), 8nat,
    {
        self.expect_keyword(Keyword::If)?;
        self.expect_symbol(Symbol::LParen)?;
        let check = self.parse_expression()?;
        self.expect_symbol(Symbol::RParen)?;
        let body = self.parse_statement()?;
        let otherwise = match self.look()? {
            Some(token) => match &token.data {
                TokenData::Keyword(Keyword::Else) => true,
                _ => false,
            },
            None => false,
        };
        if otherwise {
            self.pass();
            let els = self.parse_statement()?;
            Ok(Expr::If { check: Box::new(check), body: Box::new(body), els: Some(Box::new(els)) })
        } else {
            Ok(Expr::If { check: Box::new(check), body: Box::new(body), els: None })
        }
    }

    /// Parses an infinite loop.
    fn parse_loop(&mut self) -> (found: Result<Expr, ParseError>)
        requires
            old(self).wf(),
        ensures
            final(self).wf(),
            grammar::parse_loop(old(self).feed()) == (match found {
                Ok(found) => Ok((found@, final(self).feed())),
                Err(error) => Err(error@),
            }),
            found is Ok ==> final(self).feed().tokens.len() < old(self).feed().tokens.len(),
        decreases old(self).feed().tokens.len(), 8nat,
    {
        self.expect_keyword(Keyword::Loop)?;
        let body = self.parse_statement()?;
        Ok(Expr::Loop { body: Box::new(body) })
    }

    /// Parses a conditional loop.
    fn parse_while(&mut self) -> (found: Result<Expr, ParseError>)
        requires
            old(self).wf(),
        ensures
            final(self).wf(),
            grammar::parse_while(old(self).feed()) == (match found {
                Ok(found) => Ok((found@, final(self).feed())),
                Err(error) => Err(error@),
            }),
            found is Ok ==> final(self).feed().tokens.len() < old(self).feed().tokens.len(),
        decreases old(self).feed().tokens.len(), 8nat,
    {
        self.expect_keyword(Keyword::While)?;
        self.expect_symbol(Symbol::LParen)?;
        let check = self.parse_expression()?;
        self.expect_symbol(Symbol::RParen)?;
        let body = self.parse_statement()?;
        Ok(Expr::While { check: Box::new(check), body: Box::new(body) })
    }

    /// Parses a function definition.
    fn parse_item(&mut self) -> (found: Result<Item, ParseError>)
        requires
            old(self).wf(),
        ensures
            final(self).wf(),
            grammar::parse_item(old(self).feed()) == (match found {
                Ok(found) => Ok((found@, final(self).feed())),
                Err(error) => Err(error@),
            }),
            found is Ok ==> final(self).feed().tokens.len() < old(self).feed().tokens.len(),
    {
        self.expect_keyword(Keyword::Fn)?;
        let name = self.expect_identifier()?;
        self.expect_symbol(Symbol::LParen)?;
        let params = self.parse_params()?;
        self.expect_symbol(Symbol::RParen)?;
        let body = self.parse_statement()?;
        Ok(Item::Function { name, params, body })
    }

    /// Parses the whole source: its items up to its end. After success the
    /// parser has no token left.
    pub fn parse(&mut self) -> (program: Result<Program, ParseError>)
        requires
            old(self).wf(),
        ensures
            final(self).wf(),
            match program {
                Ok(program) => grammar::parse_program(old(self).feed()) == Ok::<
                    Seq<ItemView>,
                    ParseErrorView,
                >(program@) && final(self).feed().tokens.len() == 0 && final(self).feed().error
                    is None,
                Err(error) => grammar::parse_program(old(self).feed()) == Err::<
                    Seq<ItemView>,
                    ParseErrorView,
                >(error@),
            },
    {
        let mut items: Vec<Item> = Vec::new();
        let ghost start = self.feed();
        assert(item_views(items@) =~= Seq::<ItemView>::empty());
        loop
            invariant
                self.wf(),
                start == old(self).feed(),
                match grammar::parse_program(self.feed()) {
                    Ok(rest) => grammar::parse_program(start) == Ok::<
                        Seq<ItemView>,
                        ParseErrorView,
                    >(item_views(items@) + rest),
                    Err(error) => grammar::parse_program(start) == Err::<
                        Seq<ItemView>,
                        ParseErrorView,
                    >(error),
                },
            decreases self.feed().tokens.len(),
        {
            match self.is_empty() {
                Ok(true) => {
                    assert(item_views(items@) + Seq::<ItemView>::empty() =~= item_views(items@));
                    return Ok(Program(items));
                },
                Ok(false) => {},
                Err(error) => {
                    return Err(ParseError::TokenizerError(error));
                },
            }
            let ghost collected = item_views(items@);
            let item = self.parse_item()?;
            let ghost view = item@;
            items.push(item);
            proof {
                assert(item_views(items@) =~= collected.push(view));
                if grammar::parse_program(self.feed()) is Ok {
                    let rest = grammar::parse_program(self.feed())->Ok_0;
                    assert(collected + (seq![view] + rest) =~= collected.push(view) + rest);
                }
            }
        }
    }
}

} // verus!
