//! The lexer: a character sequence reduced, on demand, to located tokens.

use std::collections::VecDeque;
use vstd::prelude::*;
use vstd::string::StringExecFns;

verus! {

/// A position in the source: a 0-based offset and a 1-based line and column.
#[derive(Clone, Copy, Debug, PartialEq, Eq, Structural)]
pub struct Location {
    pub index: u64,
    pub line: u64,
    pub column: u64,
}

impl Location {
    /// The position of the first character of a source.
    pub open spec fn start() -> Location {
        Location { index: 0, line: 1, column: 1 }
    }
}

impl Default for Location {
    fn default() -> (location: Self)
        ensures
            location == Location::start(),
    {
        Location { index: 0, line: 1, column: 1 }
    }
}

#[derive(Clone, Copy, Debug, PartialEq, Eq, Structural)]
pub enum Keyword {
    Exit,
    Let,
    Mut,
    If,
    Else,
    Loop,
    While,
    Break,
    Continue,
    Fn,
    Return,
}

#[derive(Clone, Copy, Debug, PartialEq, Eq, Structural)]
pub enum Symbol {
    LParen,
    RParen,
    LBrace,
    RBrace,
    LAngle,
    RAngle,
    Semi,
    Comma,
    Equals,
    Plus,
    Minus,
    Star,
    Slash,
    Percent,
    PlusEq,
    MinusEq,
    StarEq,
    SlashEq,
    PercentEq,
    Equality,
    NonEquality,
    GreaterEqual,
    LesserEqual,
}

#[derive(Clone, Copy, Debug, PartialEq, Eq, Structural)]
pub enum TokenizerError {
    UnrecognizedCharacter(char),
}

/// What a token is, with the text of identifiers and literals kept verbatim.
#[derive(Debug, PartialEq, Eq)]
pub enum TokenData {
    Identifier(String),
    IntegerLiteral(String),
    Keyword(Keyword),
    Symbol(Symbol),
}

/// A lexical unit and the position of its first character.
#[derive(Debug, PartialEq, Eq)]
pub struct Token {
    pub data: TokenData,
    pub location: Location,
}

/// The mathematical value of a [`TokenData`].
pub enum TokenDataView {
    Identifier(Seq<char>),
    IntegerLiteral(Seq<char>),
    Keyword(Keyword),
    Symbol(Symbol),
}

/// The mathematical value of a [`Token`].
pub struct TokenView {
    pub data: TokenDataView,
    pub location: Location,
}

impl View for TokenData {
    type V = TokenDataView;

    open spec fn view(&self) -> TokenDataView {
        match self {
            TokenData::Identifier(text) => TokenDataView::Identifier(text@),
            TokenData::IntegerLiteral(text) => TokenDataView::IntegerLiteral(text@),
            TokenData::Keyword(keyword) => TokenDataView::Keyword(*keyword),
            TokenData::Symbol(symbol) => TokenDataView::Symbol(*symbol),
        }
    }
}

impl View for Token {
    type V = TokenView;

    open spec fn view(&self) -> TokenView {
        TokenView { data: self.data@, location: self.location }
    }
}

impl Clone for TokenData {
    fn clone(&self) -> (copy: Self)
        ensures
            copy == *self,
    {
        match self {
            TokenData::Identifier(text) => TokenData::Identifier(text.clone()),
            TokenData::IntegerLiteral(text) => TokenData::IntegerLiteral(text.clone()),
            TokenData::Keyword(keyword) => TokenData::Keyword(*keyword),
            TokenData::Symbol(symbol) => TokenData::Symbol(*symbol),
        }
    }
}

impl Clone for Token {
    fn clone(&self) -> (copy: Self)
        ensures
            copy == *self,
    {
        Token { data: self.data.clone(), location: self.location }
    }
}

/// The views of a sequence of tokens, in order.
pub open spec fn token_views(tokens: Seq<Token>) -> Seq<TokenView> {
    Seq::new(tokens.len(), |i: int| tokens[i]@)
}

/// The classes of characters that the lexer reads in runs.
#[derive(Clone, Copy, Debug, PartialEq, Eq, Structural)]
pub enum CharClass {
    Whitespace,
    Word,
    Digit,
}

/// A letter of the Latin alphabet or an underscore.
pub open spec fn is_word_start(c: char) -> bool {
    ('a' <= c && c <= 'z') || ('A' <= c && c <= 'Z') || c == '_'
}

/// A decimal digit.
pub open spec fn is_digit(c: char) -> bool {
    '0' <= c && c <= '9'
}

/// A character that may continue an identifier or keyword.
pub open spec fn is_word_part(c: char) -> bool {
    is_word_start(c) || is_digit(c)
}

/// A character with the Unicode property `White_Space`.
pub open spec fn is_whitespace(c: char) -> bool {
    ('\u{9}' <= c && c <= '\u{d}') || c == ' ' || c == '\u{85}' || c == '\u{a0}' || c
        == '\u{1680}' || ('\u{2000}' <= c && c <= '\u{200a}') || c == '\u{2028}' || c
        == '\u{2029}' || c == '\u{202f}' || c == '\u{205f}' || c == '\u{3000}'
}

/// Whether `c` belongs to `class`.
pub open spec fn in_class(class: CharClass, c: char) -> bool {
    match class {
        CharClass::Whitespace => is_whitespace(c),
        CharClass::Word => is_word_part(c),
        CharClass::Digit => is_digit(c),
    }
}

/// The length of the longest prefix of `s` whose characters are all in `class`.
pub open spec fn run_len(s: Seq<char>, class: CharClass) -> nat
    decreases s.len(),
{
    if s.len() > 0 && in_class(class, s[0]) {
        1 + run_len(s.skip(1), class)
    } else {
        0
    }
}

/// The position after the character `c` at position `at` has been read.
pub open spec fn advance(at: Location, c: char) -> Location {
    if c == '\n' {
        Location { index: (at.index + 1) as u64, line: (at.line + 1) as u64, column: 1 }
    } else {
        Location { index: (at.index + 1) as u64, line: at.line, column: (at.column + 1) as u64 }
    }
}

/// The position after all of `s`, which starts at position `at`, has been read.
pub open spec fn advance_all(at: Location, s: Seq<char>) -> Location
    decreases s.len(),
{
    if s.len() == 0 {
        at
    } else {
        advance(advance_all(at, s.drop_last()), s.last())
    }
}

/// The token that a run of word characters stands for: a keyword where the
/// text is exactly one of the reserved words, an identifier otherwise.
pub open spec fn word(text: Seq<char>) -> TokenDataView {
    if text == "exit"@ {
        TokenDataView::Keyword(Keyword::Exit)
    } else if text == "let"@ {
        TokenDataView::Keyword(Keyword::Let)
    } else if text == "mut"@ {
        TokenDataView::Keyword(Keyword::Mut)
    } else if text == "if"@ {
        TokenDataView::Keyword(Keyword::If)
    } else if text == "else"@ {
        TokenDataView::Keyword(Keyword::Else)
    } else if text == "loop"@ {
        TokenDataView::Keyword(Keyword::Loop)
    } else if text == "while"@ {
        TokenDataView::Keyword(Keyword::While)
    } else if text == "break"@ {
        TokenDataView::Keyword(Keyword::Break)
    } else if text == "continue"@ {
        TokenDataView::Keyword(Keyword::Continue)
    } else if text == "fn"@ {
        TokenDataView::Keyword(Keyword::Fn)
    } else if text == "return"@ {
        TokenDataView::Keyword(Keyword::Return)
    } else {
        TokenDataView::Identifier(text)
    }
}

/// The symbol at the front of a non-empty `s` and the number of characters
/// it takes, by longest match; `None` where no symbol starts there.
pub open spec fn symbol_at(s: Seq<char>) -> Option<(Symbol, nat)> {
    let lead = s[0];
    let assigns = s.len() > 1 && s[1] == '=';
    if lead == '(' {
        Some((Symbol::LParen, 1nat))
    } else if lead == ')' {
        Some((Symbol::RParen, 1nat))
    } else if lead == '{' {
        Some((Symbol::LBrace, 1nat))
    } else if lead == '}' {
        Some((Symbol::RBrace, 1nat))
    } else if lead == ';' {
        Some((Symbol::Semi, 1nat))
    } else if lead == ',' {
        Some((Symbol::Comma, 1nat))
    } else if lead == '<' {
        if assigns {
            Some((Symbol::LesserEqual, 2nat))
        } else {
            Some((Symbol::LAngle, 1nat))
        }
    } else if lead == '>' {
        if assigns {
            Some((Symbol::GreaterEqual, 2nat))
        } else {
            Some((Symbol::RAngle, 1nat))
        }
    } else if lead == '!' {
        if assigns {
            Some((Symbol::NonEquality, 2nat))
        } else {
            None
        }
    } else if lead == '=' {
        if assigns {
            Some((Symbol::Equality, 2nat))
        } else {
            Some((Symbol::Equals, 1nat))
        }
    } else if lead == '+' {
        if assigns {
            Some((Symbol::PlusEq, 2nat))
        } else {
            Some((Symbol::Plus, 1nat))
        }
    } else if lead == '-' {
        if assigns {
            Some((Symbol::MinusEq, 2nat))
        } else {
            Some((Symbol::Minus, 1nat))
        }
    } else if lead == '*' {
        if assigns {
            Some((Symbol::StarEq, 2nat))
        } else {
            Some((Symbol::Star, 1nat))
        }
    } else if lead == '/' {
        if assigns {
            Some((Symbol::SlashEq, 2nat))
        } else {
            Some((Symbol::Slash, 1nat))
        }
    } else if lead == '%' {
        if assigns {
            Some((Symbol::PercentEq, 2nat))
        } else {
            Some((Symbol::Percent, 1nat))
        }
    } else {
        None
    }
}

/// One step of the lexer: what it yields, and the characters and position
/// that it leaves.
pub struct LexStep {
    pub result: Result<Option<TokenView>, TokenizerError>,
    pub rest: Seq<char>,
    pub location: Location,
}

/// The step that the lexer takes on the characters `source`, the first of
/// which stands at `at`: whitespace is passed over, then the first remaining
/// character decides between a word, an integer literal and a symbol.
pub open spec fn lex_step(source: Seq<char>, at: Location) -> LexStep {
    let blank = run_len(source, CharClass::Whitespace);
    let s = source.skip(blank as int);
    let start = advance_all(at, source.take(blank as int));
    if s.len() == 0 {
        LexStep { result: Ok(None), rest: s, location: start }
    } else if is_word_start(s[0]) {
        let n = run_len(s, CharClass::Word);
        LexStep {
            result: Ok(Some(TokenView { data: word(s.take(n as int)), location: start })),
            rest: s.skip(n as int),
            location: advance_all(start, s.take(n as int)),
        }
    } else if is_digit(s[0]) {
        let n = run_len(s, CharClass::Digit);
        LexStep {
            result: Ok(
                Some(
                    TokenView {
                        data: TokenDataView::IntegerLiteral(s.take(n as int)),
                        location: start,
                    },
                ),
            ),
            rest: s.skip(n as int),
            location: advance_all(start, s.take(n as int)),
        }
    } else {
        match symbol_at(s) {
            Some((symbol, n)) => LexStep {
                result: Ok(Some(TokenView { data: TokenDataView::Symbol(symbol), location: start })),
                rest: s.skip(n as int),
                location: advance_all(start, s.take(n as int)),
            },
            None => LexStep {
                result: Err(TokenizerError::UnrecognizedCharacter(s[0])),
                rest: s.skip(1),
                location: advance_all(start, s.take(1)),
            },
        }
    }
}

/// All that the lexer yields: the tokens up to the end of the source or to
/// the first character that it does not recognise, and that error.
pub struct TokenFeed {
    pub tokens: Seq<TokenView>,
    pub error: Option<TokenizerError>,
}

/// All that the lexer yields on `source`, the first character of which
/// stands at `at`.
pub open spec fn lex_all(source: Seq<char>, at: Location) -> TokenFeed
    decreases source.len(),
{
    let step = lex_step(source, at);
    match step.result {
        Ok(None) => TokenFeed { tokens: Seq::empty(), error: None },
        Err(error) => TokenFeed { tokens: Seq::empty(), error: Some(error) },
        Ok(Some(token)) => {
            if step.rest.len() < source.len() {
                let rest = lex_all(step.rest, step.location);
                TokenFeed { tokens: seq![token] + rest.tokens, error: rest.error }
            } else {
                TokenFeed { tokens: Seq::empty(), error: None }
            }
        },
    }
}

/// A run is no longer than what it is a prefix of.
pub proof fn lemma_run_len_bound(s: Seq<char>, class: CharClass)
    ensures
        run_len(s, class) <= s.len(),
    decreases s.len(),
{
    if s.len() > 0 && in_class(class, s[0]) {
        lemma_run_len_bound(s.skip(1), class);
    }
}

/// Reading one character more moves the position on by that character.
pub proof fn lemma_advance_step(at: Location, s: Seq<char>, n: int)
    requires
        0 <= n < s.len(),
    ensures
        advance_all(at, s.take(n + 1)) == advance(advance_all(at, s.take(n)), s[n]),
        advance_all(at, s.take(0)) == at,
{
    assert(s.take(n + 1).drop_last() =~= s.take(n));
}

/// A step that yields a token takes at least one character, and no step
/// gives back more than it was given.
pub proof fn lemma_step_progress(source: Seq<char>, at: Location)
    ensures
        lex_step(source, at).rest.len() <= source.len(),
        lex_step(source, at).result matches Ok(Some(_)) ==> lex_step(source, at).rest.len()
            < source.len(),
{
    let blank = run_len(source, CharClass::Whitespace);
    lemma_run_len_bound(source, CharClass::Whitespace);
    let s = source.skip(blank as int);
    if s.len() > 0 {
        lemma_run_len_bound(s, CharClass::Word);
        lemma_run_len_bound(s, CharClass::Digit);
    }
}

/// Reading characters moves the offset on by their number.
pub proof fn lemma_advance_index(at: Location, s: Seq<char>)
    requires
        at.index + s.len() <= u64::MAX,
    ensures
        advance_all(at, s).index == at.index + s.len(),
    decreases s.len(),
{
    if s.len() > 0 {
        lemma_advance_index(at, s.drop_last());
    }
}

/// A step leaves the offset where what it read ends, and the token that it
/// yields starts within what it read.
pub proof fn lemma_step_index(source: Seq<char>, at: Location)
    requires
        at.index + source.len() <= u64::MAX,
    ensures
        lex_step(source, at).location.index + lex_step(source, at).rest.len() == at.index
            + source.len(),
        lex_step(source, at).result matches Ok(Some(token)) ==> at.index <= token.location.index
            < lex_step(source, at).location.index,
{
    let blank = run_len(source, CharClass::Whitespace);
    lemma_run_len_bound(source, CharClass::Whitespace);
    let s = source.skip(blank as int);
    let start = advance_all(at, source.take(blank as int));
    lemma_advance_index(at, source.take(blank as int));
    if s.len() > 0 {
        lemma_run_len_bound(s, CharClass::Word);
        lemma_run_len_bound(s, CharClass::Digit);
        lemma_advance_index(start, s.take(run_len(s, CharClass::Word) as int));
        lemma_advance_index(start, s.take(run_len(s, CharClass::Digit) as int));
        lemma_advance_index(start, s.take(1));
        if s.len() > 1 {
            lemma_advance_index(start, s.take(2));
        }
    }
}

/// In every token sequence that the lexer produces, the offsets of the
/// tokens ascend, from the offset that the lexer started at.
pub proof fn lemma_locations_ascend(source: Seq<char>, at: Location)
    requires
        at.index + source.len() <= u64::MAX,
    ensures
        forall|i: int|
            0 <= i < lex_all(source, at).tokens.len() ==> at.index <= (#[trigger] lex_all(
                source,
                at,
            ).tokens[i]).location.index,
        forall|i: int, j: int|
            0 <= i < j < lex_all(source, at).tokens.len() ==> (#[trigger] lex_all(
                source,
                at,
            ).tokens[i]).location.index < (#[trigger] lex_all(source, at).tokens[j]).location.index,
    decreases source.len(),
{
    let step = lex_step(source, at);
    lemma_step_index(source, at);
    lemma_step_progress(source, at);
    match step.result {
        Ok(Some(token)) => {
            lemma_locations_ascend(step.rest, step.location);
            let rest = lex_all(step.rest, step.location);
            let all = lex_all(source, at);
            assert(all.tokens =~= seq![token] + rest.tokens);
            assert forall|i: int| 0 <= i < all.tokens.len() implies at.index <= (
            #[trigger] all.tokens[i]).location.index by {
                if i > 0 {
                    assert(all.tokens[i] == rest.tokens[i - 1]);
                }
            }
            assert forall|i: int, j: int| 0 <= i < j < all.tokens.len() implies (
            #[trigger] all.tokens[i]).location.index < (#[trigger] all.tokens[j]).location.index by {
                assert(all.tokens[j] == rest.tokens[j - 1]);
                if i > 0 {
                    assert(all.tokens[i] == rest.tokens[i - 1]);
                }
            }
        },
        _ => {},
    }
}

/// A lazy, fallible sequence of tokens over a character sequence.
pub struct TokenStream {
    source: VecDeque<char>,
    location: Location,
}

/// Whether `c` may start an identifier or keyword.
pub fn word_start(c: char) -> (b: bool)
    ensures
        b == is_word_start(c),
{
    (c >= 'a' && c <= 'z') || (c >= 'A' && c <= 'Z') || c == '_'
}

/// Whether `c` is a decimal digit.
pub fn digit(c: char) -> (b: bool)
    ensures
        b == is_digit(c),
{
    c >= '0' && c <= '9'
}

/// Whether `c` may continue an identifier or keyword.
pub fn word_part(c: char) -> (b: bool)
    ensures
        b == is_word_part(c),
{
    word_start(c) || digit(c)
}

/// Whether `c` has the Unicode property `White_Space`.
pub fn whitespace(c: char) -> (b: bool)
    ensures
        b == is_whitespace(c),
{
    (c >= '\u{9}' && c <= '\u{d}') || c == ' ' || c == '\u{85}' || c == '\u{a0}' || c
        == '\u{1680}' || (c >= '\u{2000}' && c <= '\u{200a}') || c == '\u{2028}' || c
        == '\u{2029}' || c == '\u{202f}' || c == '\u{205f}' || c == '\u{3000}'
}

/// Whether `c` belongs to `class`.
pub fn belongs(class: CharClass, c: char) -> (b: bool)
    ensures
        b == in_class(class, c),
{
    match class {
        CharClass::Whitespace => whitespace(c),
        CharClass::Word => word_part(c),
        CharClass::Digit => digit(c),
    }
}

/// Whether `buffer` reads `text`.
fn reads(buffer: &String, text: &str) -> (b: bool)
    ensures
        b == (buffer@ == text@),
{
    let other = String::from_str(text);
    *buffer == other
}

/// The keyword that `buffer` spells, or the identifier that it is.
fn classify(buffer: String) -> (data: TokenData)
    ensures
        data@ == word(buffer@),
{
    if reads(&buffer, "exit") {
        TokenData::Keyword(Keyword::Exit)
    } else if reads(&buffer, "let") {
        TokenData::Keyword(Keyword::Let)
    } else if reads(&buffer, "mut") {
        TokenData::Keyword(Keyword::Mut)
    } else if reads(&buffer, "if") {
        TokenData::Keyword(Keyword::If)
    } else if reads(&buffer, "else") {
        TokenData::Keyword(Keyword::Else)
    } else if reads(&buffer, "loop") {
        TokenData::Keyword(Keyword::Loop)
    } else if reads(&buffer, "while") {
        TokenData::Keyword(Keyword::While)
    } else if reads(&buffer, "break") {
        TokenData::Keyword(Keyword::Break)
    } else if reads(&buffer, "continue") {
        TokenData::Keyword(Keyword::Continue)
    } else if reads(&buffer, "fn") {
        TokenData::Keyword(Keyword::Fn)
    } else if reads(&buffer, "return") {
        TokenData::Keyword(Keyword::Return)
    } else {
        TokenData::Identifier(buffer)
    }
}

impl TokenStream {
    /// The characters that are still to be read.
    pub closed spec fn remaining(&self) -> Seq<char> {
        self.source@
    }

    /// The position of the first of the remaining characters.
    pub closed spec fn position(&self) -> Location {
        self.location
    }

    /// The position counts what was read, and what is still to be read
    /// leaves it within its range.
    pub closed spec fn wf(&self) -> bool {
        &&& self.location.index + self.source@.len() < u64::MAX
        &&& self.location.line <= self.location.index + 1
        &&& self.location.column <= self.location.index + 1
    }

    /// All that the stream will yield.
    pub open spec fn feed(&self) -> TokenFeed {
        lex_all(self.remaining(), self.position())
    }

    /// A stream over `source`, at the start position.
    pub fn new(source: VecDeque<char>) -> (stream: Self)
        requires
            source@.len() < u64::MAX,
        ensures
            stream.wf(),
            stream.remaining() == source@,
            stream.position() == Location::start(),
    {
        TokenStream { source, location: Location::default() }
    }

    /// The number of characters that are still to be read.
    pub fn remaining_len(&self) -> (len: usize)
        ensures
            len == self.remaining().len(),
    {
        self.source.len()
    }

    /// The position of the first of the remaining characters.
    pub fn location(&self) -> (location: Location)
        ensures
            location == self.position(),
    {
        self.location
    }

    /// The next character, which stays.
    fn peek(&self) -> (c: Option<char>)
        ensures
            match c {
                Some(c) => self.remaining().len() > 0 && c == self.remaining()[0],
                None => self.remaining().len() == 0,
            },
    {
        if self.source.len() > 0 {
            Some(self.source[0])
        } else {
            None
        }
    }

    /// Whether the character after the next one is `=`.
    fn assigns(&self) -> (b: bool)
        ensures
            b == (self.remaining().len() > 1 && self.remaining()[1] == '='),
    {
        self.source.len() > 1 && self.source[1] == '='
    }

    /// Takes the next character and moves the position past it.
    fn consume(&mut self) -> (c: Option<char>)
        requires
            old(self).wf(),
        ensures
            final(self).wf(),
            match c {
                Some(c) => {
                    &&& old(self).remaining().len() > 0
                    &&& c == old(self).remaining()[0]
                    &&& final(self).remaining() == old(self).remaining().skip(1)
                    &&& final(self).position() == advance(old(self).position(), c)
                    &&& final(self).position().index == old(self).position().index + 1
                },
                None => {
                    &&& old(self).remaining().len() == 0
                    &&& final(self).remaining() == old(self).remaining()
                    &&& final(self).position() == old(self).position()
                },
            },
    {
        match self.source.pop_front() {
            Some(c) => {
                assert(self.source@ =~= old(self).source@.skip(1));
                self.location.index = self.location.index + 1;
                self.location.column = self.location.column + 1;
                if c == '\n' {
                    self.location.line = self.location.line + 1;
                    self.location.column = 1;
                }
                Some(c)
            },
            None => None,
        }
    }

    /// Takes the longest run of characters of `class`, and puts them at the
    /// end of `buffer` where `keep` says so.
    fn take_run(&mut self, class: CharClass, buffer: &mut String, keep: bool)
        requires
            old(self).wf(),
        ensures
            final(self).wf(),
            ({
                let n = run_len(old(self).remaining(), class) as int;
                &&& n <= old(self).remaining().len()
                &&& final(self).remaining() == old(self).remaining().skip(n)
                &&& final(self).position() == advance_all(
                    old(self).position(),
                    old(self).remaining().take(n),
                )
                &&& final(self).position().index == old(self).position().index + n
                &&& final(buffer)@ == if keep {
                    old(buffer)@ + old(self).remaining().take(n)
                } else {
                    old(buffer)@
                }
            }),
    {
        let ghost source = self.source@;
        let ghost at = self.location;
        let ghost mut n: int = 0;
        proof {
            assert(source.skip(0) =~= source);
            assert(source.take(0) =~= Seq::<char>::empty());
            assert(buffer@ + source.take(0) =~= buffer@);
        }
        loop
            invariant
                self.wf(),
                0 <= n <= source.len(),
                self.source@ == source.skip(n),
                self.location == advance_all(at, source.take(n)),
                self.location.index == at.index + n,
                n + run_len(self.source@, class) == run_len(source, class),
                buffer@ == if keep {
                    old(buffer)@ + source.take(n)
                } else {
                    old(buffer)@
                },
                source == old(self).remaining(),
                at == old(self).position(),
            ensures
                n == run_len(source, class),
            decreases source.len() - n,
        {
            let c = match self.peek() {
                Some(c) => c,
                None => {
                    break ;
                },
            };
            if !belongs(class, c) {
                break ;
            }
            proof {
                lemma_advance_step(at, source, n);
                assert(source.skip(n).skip(1) =~= source.skip(n + 1));
                assert(source.take(n + 1) =~= source.take(n).push(c));
                assert(old(buffer)@ + source.take(n + 1) =~= (old(buffer)@ + source.take(n)).push(
                    c,
                ));
            }
            let _ = self.consume();
            if keep {
                buffer.push(c);
            }
            proof {
                n = n + 1;
            }
        }
    }

    /// Reads a word: a keyword or an identifier.
    fn lex_identifier(&mut self) -> (token: Token)
        requires
            old(self).wf(),
        ensures
            final(self).wf(),
            ({
                let n = run_len(old(self).remaining(), CharClass::Word) as int;
                &&& n <= old(self).remaining().len()
                &&& token@ == TokenView {
                    data: word(old(self).remaining().take(n)),
                    location: old(self).position(),
                }
                &&& final(self).remaining() == old(self).remaining().skip(n)
                &&& final(self).position() == advance_all(
                    old(self).position(),
                    old(self).remaining().take(n),
                )
                &&& final(self).position().index == old(self).position().index + n
            }),
    {
        let mut buffer = String::new();
        let location = self.location;
        self.take_run(CharClass::Word, &mut buffer, true);
        assert(buffer@ =~= old(self).remaining().take(
            run_len(old(self).remaining(), CharClass::Word) as int,
        ));
        Token { data: classify(buffer), location }
    }

    /// Reads an integer literal.
    fn lex_number(&mut self) -> (token: Token)
        requires
            old(self).wf(),
        ensures
            final(self).wf(),
            ({
                let n = run_len(old(self).remaining(), CharClass::Digit) as int;
                &&& n <= old(self).remaining().len()
                &&& token@ == TokenView {
                    data: TokenDataView::IntegerLiteral(old(self).remaining().take(n)),
                    location: old(self).position(),
                }
                &&& final(self).remaining() == old(self).remaining().skip(n)
                &&& final(self).position() == advance_all(
                    old(self).position(),
                    old(self).remaining().take(n),
                )
                &&& final(self).position().index == old(self).position().index + n
            }),
    {
        let mut buffer = String::new();
        let location = self.location;
        self.take_run(CharClass::Digit, &mut buffer, true);
        assert(buffer@ =~= old(self).remaining().take(
            run_len(old(self).remaining(), CharClass::Digit) as int,
        ));
        Token { data: TokenData::IntegerLiteral(buffer), location }
    }

    /// Takes the lead character and, where `long` is given and `=` follows,
    /// that too.
    fn lex_operator(&mut self, short: Option<Symbol>, long: Option<Symbol>) -> (symbol: Option<
        Symbol,
    >)
        requires
            old(self).wf(),
            old(self).remaining().len() > 0,
        ensures
            final(self).wf(),
            ({
                let source = old(self).remaining();
                let assigns = source.len() > 1 && source[1] == '=';
                let taken: nat = if assigns && long is Some {
                    2
                } else {
                    1
                };
                &&& final(self).remaining() == source.skip(taken as int)
                &&& final(self).position() == advance_all(
                    old(self).position(),
                    source.take(taken as int),
                )
                &&& final(self).position().index == old(self).position().index + taken
                &&& symbol == if assigns && long is Some {
                    long
                } else {
                    short
                }
            }),
    {
        proof {
            let source = self.remaining();
            lemma_advance_step(self.position(), source, 0);
            if source.len() > 1 {
                lemma_advance_step(self.position(), source, 1);
                assert(source.skip(1).skip(1) =~= source.skip(2));
            }
        }
        let assigns = self.assigns();
        let _ = self.consume();
        if assigns && long.is_some() {
            let _ = self.consume();
            long
        } else {
            short
        }
    }

    /// Reads a symbol, by longest match.
    fn lex_symbol(&mut self) -> (symbol: Result<Symbol, TokenizerError>)
        requires
            old(self).wf(),
        ensures
            final(self).wf(),
            ({
                let source = old(self).remaining();
                if source.len() == 0 {
                    &&& symbol == Err::<Symbol, TokenizerError>(
                        TokenizerError::UnrecognizedCharacter('\0'),
                    )
                    &&& final(self).remaining() == source
                    &&& final(self).position() == old(self).position()
                } else {
                    let taken: nat = match symbol_at(source) {
                        Some((_, n)) => n,
                        None => 1,
                    };
                    &&& symbol == match symbol_at(source) {
                        Some((found, _)) => Ok::<Symbol, TokenizerError>(found),
                        None => Err(TokenizerError::UnrecognizedCharacter(source[0])),
                    }
                    &&& taken <= source.len()
                    &&& final(self).remaining() == source.skip(taken as int)
                    &&& final(self).position() == advance_all(
                        old(self).position(),
                        source.take(taken as int),
                    )
                    &&& final(self).position().index == old(self).position().index + taken
                }
            }),
    {
        let lead = match self.peek() {
            Some(c) => c,
            None => {
                return Err(TokenizerError::UnrecognizedCharacter('\0'));
            },
        };
        let found = if lead == '(' {
            self.lex_operator(Some(Symbol::LParen), None)
        } else if lead == ')' {
            self.lex_operator(Some(Symbol::RParen), None)
        } else if lead == '{' {
            self.lex_operator(Some(Symbol::LBrace), None)
        } else if lead == '}' {
            self.lex_operator(Some(Symbol::RBrace), None)
        } else if lead == ';' {
            self.lex_operator(Some(Symbol::Semi), None)
        } else if lead == ',' {
            self.lex_operator(Some(Symbol::Comma), None)
        } else if lead == '<' {
            self.lex_operator(Some(Symbol::LAngle), Some(Symbol::LesserEqual))
        } else if lead == '>' {
            self.lex_operator(Some(Symbol::RAngle), Some(Symbol::GreaterEqual))
        } else if lead == '!' {
            self.lex_operator(None, Some(Symbol::NonEquality))
        } else if lead == '=' {
            self.lex_operator(Some(Symbol::Equals), Some(Symbol::Equality))
        } else if lead == '+' {
            self.lex_operator(Some(Symbol::Plus), Some(Symbol::PlusEq))
        } else if lead == '-' {
            self.lex_operator(Some(Symbol::Minus), Some(Symbol::MinusEq))
        } else if lead == '*' {
            self.lex_operator(Some(Symbol::Star), Some(Symbol::StarEq))
        } else if lead == '/' {
            self.lex_operator(Some(Symbol::Slash), Some(Symbol::SlashEq))
        } else if lead == '%' {
            self.lex_operator(Some(Symbol::Percent), Some(Symbol::PercentEq))
        } else {
            self.lex_operator(None, None)
        };
        match found {
            Some(symbol) => Ok(symbol),
            None => Err(TokenizerError::UnrecognizedCharacter(lead)),
        }
    }

    /// The next token; `None` once the source is read to its end.
    pub fn next(&mut self) -> (token: Result<Option<Token>, TokenizerError>)
        requires
            old(self).wf(),
        ensures
            final(self).wf(),
            ({
                let step = lex_step(old(self).remaining(), old(self).position());
                &&& match token {
                    Ok(Some(token)) => step.result == Ok::<Option<TokenView>, TokenizerError>(
                        Some(token@),
                    ),
                    Ok(None) => step.result == Ok::<Option<TokenView>, TokenizerError>(None),
                    Err(error) => step.result == Err::<Option<TokenView>, TokenizerError>(error),
                }
                &&& final(self).remaining() == step.rest
                &&& final(self).position() == step.location
            }),
            final(self).remaining().len() <= old(self).remaining().len(),
            token matches Ok(Some(found)) ==> {
                &&& final(self).remaining().len() < old(self).remaining().len()
                &&& old(self).position().index <= found.location.index
                &&& found.location.index < final(self).position().index
            },
    {
        let mut unused = String::new();
        self.take_run(CharClass::Whitespace, &mut unused, false);
        let c = match self.peek() {
            Some(c) => c,
            None => {
                return Ok(None);
            },
        };
        proof {
            lemma_run_len_bound(self.remaining(), CharClass::Word);
            lemma_run_len_bound(self.remaining(), CharClass::Digit);
        }
        if word_start(c) {
            Ok(Some(self.lex_identifier()))
        } else if digit(c) {
            Ok(Some(self.lex_number()))
        } else {
            let location = self.location;
            match self.lex_symbol() {
                Ok(symbol) => Ok(Some(Token { data: TokenData::Symbol(symbol), location })),
                Err(error) => Err(error),
            }
        }
    }

    /// All the tokens of the stream, or the first error.
    pub fn collect(self) -> (tokens: Result<Vec<Token>, TokenizerError>)
        requires
            self.wf(),
        ensures
            match tokens {
                Ok(tokens) => self.feed() == (TokenFeed {
                    tokens: token_views(tokens@),
                    error: None,
                }),
                Err(error) => self.feed().error == Some(error),
            },
            tokens matches Ok(tokens) ==> forall|i: int, j: int|
                0 <= i < j < tokens@.len() ==> tokens@[i].location.index
                    < tokens@[j].location.index,
    {
        let mut stream = self;
        let mut tokens: Vec<Token> = Vec::new();
        assert(token_views(tokens@) + stream.feed().tokens =~= stream.feed().tokens);
        loop
            invariant
                stream.wf(),
                self.feed().tokens == token_views(tokens@) + stream.feed().tokens,
                self.feed().error == stream.feed().error,
                forall|i: int, j: int|
                    0 <= i < j < tokens@.len() ==> tokens@[i].location.index
                        < tokens@[j].location.index,
                forall|i: int|
                    0 <= i < tokens@.len() ==> tokens@[i].location.index
                        < stream.position().index,
            decreases stream.remaining().len(),
        {
            let ghost before = stream.feed();
            let ghost collected = token_views(tokens@);
            match stream.next() {
                Ok(Some(token)) => {
                    tokens.push(token);
                    assert(token_views(tokens@) =~= collected.push(token@));
                    assert(collected.push(token@) + stream.feed().tokens =~= collected + (
                    seq![token@] + stream.feed().tokens));
                },
                Ok(None) => {
                    assert(collected + before.tokens =~= collected);
                    return Ok(tokens);
                },
                Err(error) => {
                    return Err(error);
                },
            }
        }
    }
}

/// What can be read as source text.
pub trait Tokenize: Sized {
    /// The characters of the source, in order.
    spec fn characters(&self) -> Seq<char>;

    /// A stream of the tokens of the source.
    fn tokenize(self) -> (stream: TokenStream)
        requires
            self.characters().len() < u64::MAX,
        ensures
            stream.wf(),
            stream.remaining() == self.characters(),
            stream.position() == Location::start(),
    ;
}

/// The characters of `text`, in a queue.
fn characters_of(text: &str) -> (queue: VecDeque<char>)
    ensures
        queue@ == text@,
{
    let mut queue: VecDeque<char> = VecDeque::new();
    for c in it: text.chars()
        invariant
            queue@ == it.seq().take(it.index()),
            it.seq() == text@,
    {
        queue.push_back(c);
    }
    queue
}

impl Tokenize for String {
    open spec fn characters(&self) -> Seq<char> {
        self@
    }

    fn tokenize(self) -> (stream: TokenStream) {
        TokenStream::new(characters_of(self.as_str()))
    }
}

impl<'a> Tokenize for &'a str {
    open spec fn characters(&self) -> Seq<char> {
        self@
    }

    fn tokenize(self) -> (stream: TokenStream) {
        TokenStream::new(characters_of(self))
    }
}

impl Tokenize for Vec<char> {
    open spec fn characters(&self) -> Seq<char> {
        self@
    }

    fn tokenize(self) -> (stream: TokenStream) {
        let mut queue: VecDeque<char> = VecDeque::new();
        let mut i: usize = 0;
        while i < self.len()
            invariant
                i <= self.len(),
                queue@ == self@.take(i as int),
            decreases self.len() - i,
        {
            queue.push_back(self[i]);
            i += 1;
        }
        assert(self@.take(self@.len() as int) =~= self@);
        TokenStream::new(queue)
    }
}

} // verus!
