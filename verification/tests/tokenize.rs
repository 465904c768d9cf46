use beryllium::tokenize::{
    belongs, digit, whitespace, word_part, word_start, CharClass, Keyword, Location, Symbol, Token,
    TokenData, TokenStream, Tokenize, TokenizerError,
};

fn data_of(source: &str) -> Vec<TokenData> {
    let tokens: Result<Vec<Token>, TokenizerError> = source.tokenize().collect();
    tokens.expect("the source tokenizes").into_iter().map(|token| token.data).collect()
}

#[test]
fn tokenize_integer_literal_tokenizes() {
    let tokens: Result<Vec<_>, _> = "123".tokenize().collect();
    assert!(tokens.is_ok());
    let tokens = tokens.unwrap();
    assert_eq!(tokens.len(), 1);
    let token = tokens.first().unwrap().clone().data;
    assert_eq!(token, TokenData::IntegerLiteral("123".into()));
}

#[test]
fn tokenize_many_integer_literals_tokenize() {
    let tokens: Result<Vec<_>, _> = "123 456 789".tokenize().collect();
    assert!(tokens.is_ok());
    let tokens = tokens.unwrap();
    assert_eq!(tokens.len(), 3);

    let token = tokens.first().unwrap().clone().data;
    assert_eq!(token, TokenData::IntegerLiteral("123".into()));

    let token = tokens.get(1).unwrap().clone().data;
    assert_eq!(token, TokenData::IntegerLiteral("456".into()));

    let token = tokens.get(2).unwrap().clone().data;
    assert_eq!(token, TokenData::IntegerLiteral("789".into()));
}

#[test]
fn tokenize_identifier_tokenizes() {
    let tokens: Result<Vec<_>, _> = "main".tokenize().collect();
    assert!(tokens.is_ok());
    let tokens = tokens.unwrap();
    assert_eq!(tokens.len(), 1);
    let token = tokens.first().unwrap().clone().data;
    assert_eq!(token, TokenData::Identifier("main".into()));
}

#[test]
fn tokenize_many_identifiers_tokenize() {
    let tokens: Result<Vec<_>, _> = "main _start foo".tokenize().collect();
    assert!(tokens.is_ok());
    let tokens = tokens.unwrap();
    assert_eq!(tokens.len(), 3);

    let token = tokens.first().unwrap().clone().data;
    assert_eq!(token, TokenData::Identifier("main".into()));

    let token = tokens.get(1).unwrap().clone().data;
    assert_eq!(token, TokenData::Identifier("_start".into()));

    let token = tokens.get(2).unwrap().clone().data;
    assert_eq!(token, TokenData::Identifier("foo".into()));
}

#[test]
fn tokenize_keyword_exit_tokenizes() {
    let tokens: Result<Vec<_>, _> = "exit".tokenize().collect();
    assert!(tokens.is_ok());
    let tokens = tokens.unwrap();
    assert_eq!(tokens.len(), 1);
    let token = tokens.get(0).unwrap().clone().data;
    assert_eq!(token, TokenData::Keyword(Keyword::Exit));
}

#[test]
fn keyword_let_tokenizes() {
    let tokens: Result<Vec<_>, _> = "let".tokenize().collect();
    assert!(tokens.is_ok());
    let tokens = tokens.unwrap();
    assert_eq!(tokens.len(), 1);
    let token = tokens.get(0).unwrap().clone().data;
    assert_eq!(token, TokenData::Keyword(Keyword::Let));
}

#[test]
fn tokenize_maths_expression_tokenizes() {
    let tokens: Result<Vec<_>, _> = "1 + 2 - 3 * 4 / 5 % 6".tokenize().collect();
    assert!(tokens.is_ok());
    let tokens = tokens.unwrap();
    assert_eq!(tokens.len(), 11);

    let expected_tokens = vec![
        TokenData::IntegerLiteral(String::from("1")),
        TokenData::Symbol(Symbol::Plus),
        TokenData::IntegerLiteral(String::from("2")),
        TokenData::Symbol(Symbol::Minus),
        TokenData::IntegerLiteral(String::from("3")),
        TokenData::Symbol(Symbol::Star),
        TokenData::IntegerLiteral(String::from("4")),
        TokenData::Symbol(Symbol::Slash),
        TokenData::IntegerLiteral(String::from("5")),
        TokenData::Symbol(Symbol::Percent),
        TokenData::IntegerLiteral(String::from("6")),
    ];

    for (token, expected_token) in tokens.into_iter().zip(expected_tokens) {
        assert_eq!(token.data, expected_token);
    }
}

#[test]
fn brackets_tokenize() {
    let tokens: Result<Vec<_>, _> = "( ) { }".tokenize().collect();
    assert!(tokens.is_ok());
    let tokens = tokens.unwrap();

    let expected_tokens = vec![
        TokenData::Symbol(Symbol::LParen),
        TokenData::Symbol(Symbol::RParen),
        TokenData::Symbol(Symbol::LBrace),
        TokenData::Symbol(Symbol::RBrace),
    ];

    assert_eq!(tokens.len(), expected_tokens.len());
    for (token, expected_token) in tokens.into_iter().zip(expected_tokens) {
        assert_eq!(token.data, expected_token);
    }
}

#[test]
fn comparison_operators_tokenize() {
    let tokens: Result<Vec<_>, _> = "== != < <= > >=".tokenize().collect();
    assert!(tokens.is_ok());
    let tokens = tokens.unwrap();

    let expected_tokens = vec![
        TokenData::Symbol(Symbol::Equality),
        TokenData::Symbol(Symbol::NonEquality),
        TokenData::Symbol(Symbol::LAngle),
        TokenData::Symbol(Symbol::LesserEqual),
        TokenData::Symbol(Symbol::RAngle),
        TokenData::Symbol(Symbol::GreaterEqual),
    ];

    assert_eq!(tokens.len(), expected_tokens.len());
    for (token, expected_token) in tokens.into_iter().zip(expected_tokens) {
        assert_eq!(token.data, expected_token);
    }
}

#[test]
fn assignment_operators_tokenize() {
    let tokens: Result<Vec<_>, _> = "+= -= *= /= %=".tokenize().collect();
    assert!(tokens.is_ok(), "failed to tokenize");
    let tokens = tokens.unwrap();

    let expected_tokens = vec![
        TokenData::Symbol(Symbol::PlusEq),
        TokenData::Symbol(Symbol::MinusEq),
        TokenData::Symbol(Symbol::StarEq),
        TokenData::Symbol(Symbol::SlashEq),
        TokenData::Symbol(Symbol::PercentEq),
    ];

    assert_eq!(tokens.len(), expected_tokens.len(), "the wrong number of tokens was parsed");
    for (token, expected_token) in tokens.into_iter().zip(expected_tokens) {
        assert_eq!(token.data, expected_token, "tokens did not match expected");
    }
}

#[test]
fn lexer_integer_literal_tokenizes() {
    assert_eq!(data_of("123"), vec![TokenData::IntegerLiteral("123".into())]);
}

#[test]
fn lexer_many_integer_literals_tokenize() {
    assert_eq!(
        data_of("123 456 789"),
        vec![
            TokenData::IntegerLiteral("123".into()),
            TokenData::IntegerLiteral("456".into()),
            TokenData::IntegerLiteral("789".into()),
        ]
    );
}

#[test]
fn lexer_identifier_tokenizes() {
    assert_eq!(data_of("main"), vec![TokenData::Identifier("main".into())]);
}

#[test]
fn lexer_many_identifiers_tokenize() {
    assert_eq!(
        data_of("main _start foo"),
        vec![
            TokenData::Identifier("main".into()),
            TokenData::Identifier("_start".into()),
            TokenData::Identifier("foo".into()),
        ]
    );
}

#[test]
fn lexer_keyword_exit_tokenizes() {
    assert_eq!(data_of("exit"), vec![TokenData::Keyword(Keyword::Exit)]);
}

#[test]
fn every_keyword_tokenizes() {
    let table = [
        ("exit", Keyword::Exit),
        ("let", Keyword::Let),
        ("mut", Keyword::Mut),
        ("if", Keyword::If),
        ("else", Keyword::Else),
        ("loop", Keyword::Loop),
        ("while", Keyword::While),
        ("break", Keyword::Break),
        ("continue", Keyword::Continue),
        ("fn", Keyword::Fn),
        ("return", Keyword::Return),
    ];
    for (text, keyword) in table {
        assert_eq!(data_of(text), vec![TokenData::Keyword(keyword)], "{}", text);
    }
}

#[test]
fn every_symbol_tokenizes() {
    let table = [
        ("(", Symbol::LParen),
        (")", Symbol::RParen),
        ("{", Symbol::LBrace),
        ("}", Symbol::RBrace),
        ("<", Symbol::LAngle),
        (">", Symbol::RAngle),
        (";", Symbol::Semi),
        (",", Symbol::Comma),
        ("=", Symbol::Equals),
        ("+", Symbol::Plus),
        ("-", Symbol::Minus),
        ("*", Symbol::Star),
        ("/", Symbol::Slash),
        ("%", Symbol::Percent),
        ("+=", Symbol::PlusEq),
        ("-=", Symbol::MinusEq),
        ("*=", Symbol::StarEq),
        ("/=", Symbol::SlashEq),
        ("%=", Symbol::PercentEq),
        ("==", Symbol::Equality),
        ("!=", Symbol::NonEquality),
        (">=", Symbol::GreaterEqual),
        ("<=", Symbol::LesserEqual),
    ];
    for (text, symbol) in table {
        assert_eq!(data_of(text), vec![TokenData::Symbol(symbol)], "{}", text);
    }
}

#[test]
fn a_word_that_only_starts_like_a_keyword_is_an_identifier() {
    assert_eq!(data_of("exits"), vec![TokenData::Identifier("exits".into())]);
    assert_eq!(data_of("iff"), vec![TokenData::Identifier("iff".into())]);
    assert_eq!(data_of("Let"), vec![TokenData::Identifier("Let".into())]);
    assert_eq!(data_of("x1_y"), vec![TokenData::Identifier("x1_y".into())]);
}

#[test]
fn digits_then_letters_are_two_tokens() {
    assert_eq!(
        data_of("12ab"),
        vec![TokenData::IntegerLiteral("12".into()), TokenData::Identifier("ab".into())]
    );
}

#[test]
fn symbols_match_longest_first() {
    assert_eq!(
        data_of("<=="),
        vec![TokenData::Symbol(Symbol::LesserEqual), TokenData::Symbol(Symbol::Equals)]
    );
    assert_eq!(
        data_of("< ="),
        vec![TokenData::Symbol(Symbol::LAngle), TokenData::Symbol(Symbol::Equals)]
    );
    assert_eq!(
        data_of("a+=1"),
        vec![
            TokenData::Identifier("a".into()),
            TokenData::Symbol(Symbol::PlusEq),
            TokenData::IntegerLiteral("1".into()),
        ]
    );
}

#[test]
fn an_unknown_character_is_an_error() {
    let tokens: Result<Vec<Token>, TokenizerError> = "a $ b".tokenize().collect();
    assert_eq!(tokens, Err(TokenizerError::UnrecognizedCharacter('$')));
    let tokens: Result<Vec<Token>, TokenizerError> = "caf\u{e9}".tokenize().collect();
    assert_eq!(tokens, Err(TokenizerError::UnrecognizedCharacter('\u{e9}')));
}

#[test]
fn a_lone_exclamation_mark_is_an_error() {
    let tokens: Result<Vec<Token>, TokenizerError> = "1 ! 2".tokenize().collect();
    assert_eq!(tokens, Err(TokenizerError::UnrecognizedCharacter('!')));
    let tokens: Result<Vec<Token>, TokenizerError> = "!".tokenize().collect();
    assert_eq!(tokens, Err(TokenizerError::UnrecognizedCharacter('!')));
}

#[test]
fn the_stream_is_lazy_up_to_the_error() {
    let mut stream = "ab $".tokenize();
    let first = stream.next().expect("the first token is read before the error");
    assert_eq!(first.map(|token| token.data), Some(TokenData::Identifier("ab".into())));
    assert_eq!(stream.next(), Err(TokenizerError::UnrecognizedCharacter('$')));
    assert_eq!(stream.next(), Ok(None));
}

#[test]
fn an_empty_source_has_no_tokens() {
    assert_eq!(data_of(""), vec![]);
    assert_eq!(data_of(" \t\r\n"), vec![]);
    let mut stream = "".tokenize();
    assert_eq!(stream.next(), Ok(None));
    assert_eq!(stream.next(), Ok(None));
}

#[test]
fn locations_count_lines_and_columns() {
    let tokens: Vec<Token> = "let x\n  = 10;".tokenize().collect().unwrap();
    let locations: Vec<Location> = tokens.iter().map(|token| token.location).collect();
    assert_eq!(
        locations,
        vec![
            Location { index: 0, line: 1, column: 1 },
            Location { index: 4, line: 1, column: 5 },
            Location { index: 8, line: 2, column: 3 },
            Location { index: 10, line: 2, column: 5 },
            Location { index: 12, line: 2, column: 7 },
        ]
    );
    assert_eq!(Location::default(), Location { index: 0, line: 1, column: 1 });
}

#[test]
fn locations_never_go_back() {
    let source = "fn add(a, b) { return a + b; }\nfn _start() {\n\texit(add(2, 3));\n}\n";
    let tokens: Vec<Token> = source.tokenize().collect().unwrap();
    assert_eq!(tokens.len(), 30);
    for pair in tokens.windows(2) {
        assert!(pair[0].location.index <= pair[1].location.index);
    }
}

#[test]
fn whitespace_between_tokens_does_not_change_them() {
    let tight = data_of("let mut i=0;while(i<10)i+=1;exit(i);");
    let loose = data_of("  let   mut\ti =\n0 ;\r\nwhile ( i < 10 )\n\ti += 1 ;\n\nexit ( i ) ;\u{a0}\u{2003}");
    assert_eq!(tight, loose);
    assert_eq!(tight.len(), 21);
}

#[test]
fn runs_of_whitespace_come_and_go_between_tokens() {
    let expected = vec![
        TokenData::IntegerLiteral("1".into()),
        TokenData::Symbol(Symbol::Plus),
        TokenData::IntegerLiteral("2".into()),
    ];
    for source in ["1+2", "1 + 2", " 1\n+\t2 ", "\n\n1+  \u{3000}2", "1   +2\r\n"] {
        assert_eq!(data_of(source), expected, "{:?}", source);
    }
    assert_eq!(data_of("1 2"), data_of("1 \t\n 2"));
    assert_ne!(data_of("1 2"), data_of("12"));
    assert_ne!(data_of("< ="), data_of("<="));
}

#[test]
fn unicode_white_space_is_passed_over() {
    for blank in ['\u{9}', '\u{a}', '\u{b}', '\u{c}', '\u{d}', ' ', '\u{85}', '\u{a0}', '\u{1680}', '\u{2000}', '\u{200a}', '\u{2028}', '\u{2029}', '\u{202f}', '\u{205f}', '\u{3000}'] {
        assert!(blank.is_whitespace());
        let source: String = ['1', blank, '2'].iter().collect();
        assert_eq!(
            data_of(&source),
            vec![TokenData::IntegerLiteral("1".into()), TokenData::IntegerLiteral("2".into())],
            "{:?}",
            blank
        );
    }
    for other in ['\u{200b}', '\u{180e}', '\u{feff}'] {
        assert!(!other.is_whitespace());
        let source: String = ['1', other, '2'].iter().collect();
        let tokens: Result<Vec<Token>, TokenizerError> = source.tokenize().collect();
        assert_eq!(tokens, Err(TokenizerError::UnrecognizedCharacter(other)));
    }
}

#[test]
fn the_three_kinds_of_source_give_the_same_tokens() {
    let text = "exit(1 + 2);";
    let from_str: Vec<Token> = text.tokenize().collect().unwrap();
    let from_string: Vec<Token> = String::from(text).tokenize().collect().unwrap();
    let from_chars: Vec<Token> = text.chars().collect::<Vec<char>>().tokenize().collect().unwrap();
    let from_queue: Vec<Token> = TokenStream::new(text.chars().collect()).collect().unwrap();
    assert_eq!(from_str, from_string);
    assert_eq!(from_str, from_chars);
    assert_eq!(from_str, from_queue);
    assert_eq!(from_str.len(), 7);
}

#[test]
fn the_character_classes_over_all_characters() {
    let mut blanks = 0;
    for code in 0..=0x10ffff_u32 {
        let c = match char::from_u32(code) {
            Some(c) => c,
            None => continue,
        };
        assert_eq!(whitespace(c), c.is_whitespace(), "{:?}", c);
        assert_eq!(word_start(c), c.is_ascii_alphabetic() || c == '_', "{:?}", c);
        assert_eq!(digit(c), c.is_ascii_digit(), "{:?}", c);
        assert_eq!(word_part(c), c.is_ascii_alphanumeric() || c == '_', "{:?}", c);
        assert_eq!(belongs(CharClass::Whitespace, c), whitespace(c));
        assert_eq!(belongs(CharClass::Word, c), word_part(c));
        assert_eq!(belongs(CharClass::Digit, c), digit(c));
        assert!(!(whitespace(c) && word_part(c)));
        if whitespace(c) {
            blanks += 1;
        }
    }
    assert_eq!(blanks, 25);
}
