use tombi::lexer::{lex, tokenize, ErrorKind, Token};
use tombi::syntax::SyntaxKind;
use tombi::syntax::SyntaxKind::{
    BARE_KEY, BASIC_STRING, BOOLEAN, BRACE_END, BRACE_START, BRACKET_END, BRACKET_START, COMMA,
    COMMENT, DOT, EOF, EQUAL, FLOAT, INTEGER_BIN, INTEGER_DEC, INTEGER_HEX, INTEGER_OCT,
    INVALID_TOKEN, LINE_BREAK, LITERAL_STRING, LOCAL_DATE, LOCAL_DATE_TIME, LOCAL_TIME,
    MULTI_LINE_BASIC_STRING, MULTI_LINE_LITERAL_STRING, OFFSET_DATE_TIME, WHITESPACE,
};
use tombi::text::{Offset, Position, Range, Span};

fn kinds(text: &str) -> Vec<SyntaxKind> {
    tokenize(text).iter().map(|token| token.kind()).collect()
}

fn lexemes(text: &str) -> Vec<(SyntaxKind, String)> {
    tokenize(text)
        .iter()
        .filter(|token| !token.is_eof())
        .map(|token| {
            let start = usize::from(token.span().start().to_usize());
            let end = token.span().end().to_usize();
            (token.kind(), text[start..end].to_string())
        })
        .collect()
}

#[test]
fn empty_text_is_only_the_end_mark() {
    let tokens = tokenize("");
    assert_eq!(tokens.len(), 1);
    assert!(tokens[0].is_eof());
    assert_eq!(tokens[0], Token::eof());
    assert!(lex("").errors.is_empty());
}

#[test]
fn eof_token_is_the_sentinel() {
    let eof = Token::eof();
    assert!(eof.is_eof());
    assert_eq!(eof.kind(), EOF);
    assert_eq!(eof.span(), Span::maximum());
    assert_eq!(eof.range(), Range::maximum());
    for token in tokenize("a = 1\nb = [true, 2.5]\n# end") {
        if !token.is_eof() {
            assert!(token.span() < eof.span());
            assert!(token.range() < eof.range());
        }
    }
}

#[test]
fn key_value_line() {
    assert_eq!(
        lexemes("a = 1\n"),
        vec![
            (BARE_KEY, "a".to_string()),
            (WHITESPACE, " ".to_string()),
            (EQUAL, "=".to_string()),
            (WHITESPACE, " ".to_string()),
            (INTEGER_DEC, "1".to_string()),
            (LINE_BREAK, "\n".to_string()),
        ]
    );
}

#[test]
fn punctuation_and_brackets() {
    assert_eq!(
        kinds("[[a.b]]{,}"),
        vec![
            BRACKET_START,
            BRACKET_START,
            BARE_KEY,
            DOT,
            BARE_KEY,
            BRACKET_END,
            BRACKET_END,
            BRACE_START,
            COMMA,
            BRACE_END,
            EOF
        ]
    );
}

#[test]
fn numbers_by_radix_and_shape() {
    assert_eq!(kinds("0xDEAD_beef"), vec![INTEGER_HEX, EOF]);
    assert_eq!(kinds("0o755"), vec![INTEGER_OCT, EOF]);
    assert_eq!(kinds("0b1010"), vec![INTEGER_BIN, EOF]);
    assert_eq!(kinds("1_000"), vec![INTEGER_DEC, EOF]);
    assert_eq!(kinds("+17"), vec![INTEGER_DEC, EOF]);
    assert_eq!(kinds("-0"), vec![INTEGER_DEC, EOF]);
    assert_eq!(kinds("3.14"), vec![FLOAT, EOF]);
    assert_eq!(kinds("1e10"), vec![FLOAT, EOF]);
    assert_eq!(kinds("6.02E+23"), vec![FLOAT, EOF]);
    assert_eq!(kinds("-inf"), vec![FLOAT, EOF]);
    assert_eq!(kinds("nan"), vec![FLOAT, EOF]);
    assert_eq!(kinds("true false"), vec![BOOLEAN, WHITESPACE, BOOLEAN, EOF]);
}

#[test]
fn malformed_numbers_are_invalid_tokens() {
    for text in ["1.", "1.2.3", "+", "1e+", "0o8.", "3.e1", "+1__0", "1_.5", "0x1.8", "-.5"] {
        let lexed = lex(text);
        assert_eq!(lexed.tokens.len(), 2, "{text}");
        assert_eq!(lexed.tokens[0].kind(), INVALID_TOKEN, "{text}");
        assert_eq!(lexed.errors.len(), 1, "{text}");
        assert_eq!(lexed.errors[0].kind(), ErrorKind::InvalidNumber, "{text}");
        assert_eq!(lexed.errors[0].span(), lexed.tokens[0].span(), "{text}");
    }
}

#[test]
fn words_that_are_no_numbers_are_keys() {
    assert_eq!(kinds("01"), vec![BARE_KEY, EOF]);
    assert_eq!(kinds("1__0"), vec![BARE_KEY, EOF]);
    assert_eq!(kinds("0x"), vec![BARE_KEY, EOF]);
    assert_eq!(kinds("0b102"), vec![BARE_KEY, EOF]);
    assert_eq!(kinds("1e"), vec![BARE_KEY, EOF]);
    assert_eq!(kinds("-a"), vec![BARE_KEY, EOF]);
    assert_eq!(kinds("2001-13-01"), vec![BARE_KEY, EOF]);
    assert_eq!(kinds("a_b-c"), vec![BARE_KEY, EOF]);
    assert_eq!(kinds("truest"), vec![BARE_KEY, EOF]);
}

#[test]
fn dates_and_times() {
    assert_eq!(kinds("1979-05-27"), vec![LOCAL_DATE, EOF]);
    assert_eq!(kinds("07:32:00"), vec![LOCAL_TIME, EOF]);
    assert_eq!(kinds("00:32:00.999999"), vec![LOCAL_TIME, EOF]);
    assert_eq!(kinds("1979-05-27T07:32:00"), vec![LOCAL_DATE_TIME, EOF]);
    assert_eq!(kinds("1979-05-27t07:32:00.5"), vec![LOCAL_DATE_TIME, EOF]);
    assert_eq!(kinds("1979-05-27T07:32:00Z"), vec![OFFSET_DATE_TIME, EOF]);
    assert_eq!(kinds("1979-05-27T00:32:00-07:00"), vec![OFFSET_DATE_TIME, EOF]);
    assert_eq!(kinds("1979-05-27T00:32:00.999+07:00"), vec![OFFSET_DATE_TIME, EOF]);
}

#[test]
fn malformed_dates_and_times() {
    let cases = [
        ("25:00:00", ErrorKind::InvalidLocalTime),
        ("07:32", ErrorKind::InvalidLocalTime),
        ("1979-05-27T07:32", ErrorKind::InvalidLocalDateTime),
        ("1979-13-27T07:32:00", ErrorKind::InvalidLocalDateTime),
        ("1979-05-27T07:32:00+25:00", ErrorKind::InvalidOffsetDateTime),
        ("1979-05-27T07:61:00Z", ErrorKind::InvalidOffsetDateTime),
        ("1979-05-27.5", ErrorKind::InvalidLocalDate),
    ];
    for (text, kind) in cases {
        let lexed = lex(text);
        assert_eq!(lexed.tokens[0].kind(), INVALID_TOKEN, "{text}");
        assert_eq!(lexed.errors.len(), 1, "{text}");
        assert_eq!(lexed.errors[0].kind(), kind, "{text}");
    }
}

#[test]
fn strings_of_all_four_sorts() {
    assert_eq!(kinds(r#""a \" b""#), vec![BASIC_STRING, EOF]);
    assert_eq!(kinds("'C:\\path'"), vec![LITERAL_STRING, EOF]);
    assert_eq!(kinds("\"\"\"a\n\"b\"\n\"\"\""), vec![MULTI_LINE_BASIC_STRING, EOF]);
    assert_eq!(kinds("'''a\n'b'\n'''"), vec![MULTI_LINE_LITERAL_STRING, EOF]);
    assert_eq!(kinds("\"\""), vec![BASIC_STRING, EOF]);
    assert_eq!(kinds("''"), vec![LITERAL_STRING, EOF]);
    assert_eq!(kinds("\"\"\"\\\n  a\"\"\""), vec![MULTI_LINE_BASIC_STRING, EOF]);
}

#[test]
fn malformed_strings() {
    let cases = [
        ("\"abc", ErrorKind::InvalidBasicString),
        ("\"a\\qb\"", ErrorKind::InvalidBasicString),
        ("\"abc\\", ErrorKind::InvalidBasicString),
        ("'abc", ErrorKind::InvalidLiteralString),
        ("\"\"\"abc\"\"", ErrorKind::InvalidMultilineBasicString),
        ("'''abc", ErrorKind::InvalidMultilineLiteralString),
    ];
    for (text, kind) in cases {
        let lexed = lex(text);
        assert_eq!(lexed.tokens.len(), 2, "{text}");
        assert_eq!(lexed.tokens[0].kind(), INVALID_TOKEN, "{text}");
        assert_eq!(lexed.errors.len(), 1, "{text}");
        assert_eq!(lexed.errors[0].kind(), kind, "{text}");
    }
}

#[test]
fn unterminated_string_ends_with_its_line() {
    assert_eq!(
        lexemes("a = \"x\nb = 1"),
        vec![
            (BARE_KEY, "a".to_string()),
            (WHITESPACE, " ".to_string()),
            (EQUAL, "=".to_string()),
            (WHITESPACE, " ".to_string()),
            (INVALID_TOKEN, "\"x".to_string()),
            (LINE_BREAK, "\n".to_string()),
            (BARE_KEY, "b".to_string()),
            (WHITESPACE, " ".to_string()),
            (EQUAL, "=".to_string()),
            (WHITESPACE, " ".to_string()),
            (INTEGER_DEC, "1".to_string()),
        ]
    );
}

#[test]
fn line_breaks_and_comments() {
    assert_eq!(
        lexemes("# one\r\n\t# two\n"),
        vec![
            (COMMENT, "# one".to_string()),
            (LINE_BREAK, "\r\n".to_string()),
            (WHITESPACE, "\t".to_string()),
            (COMMENT, "# two".to_string()),
            (LINE_BREAK, "\n".to_string()),
        ]
    );
    let lexed = lex("a\rb");
    assert_eq!(lexed.tokens[1].kind(), INVALID_TOKEN);
    assert_eq!(lexed.errors.len(), 1);
    assert_eq!(lexed.errors[0].kind(), ErrorKind::InvalidLineBreak);
}

#[test]
fn unknown_characters_make_one_invalid_token() {
    let lexed = lex("b = !!!\n");
    let invalid: Vec<&Token> = lexed
        .tokens
        .iter()
        .filter(|token| token.kind() == INVALID_TOKEN)
        .collect();
    assert_eq!(invalid.len(), 1);
    assert_eq!(
        invalid[0].span(),
        Span::new(Offset::new(4), Offset::new(7))
    );
    assert_eq!(lexed.errors.len(), 1);
    assert_eq!(lexed.errors[0].kind(), ErrorKind::InvalidToken);
}

#[test]
fn spans_and_ranges_count_bytes_and_characters() {
    let tokens = tokenize("é = \"ü\"\nb");
    let key = tokens[0];
    assert_eq!(key.span(), Span::new(Offset::new(0), Offset::new(2)));
    assert_eq!(
        key.range(),
        Range::new(Position::new(0, 0), Position::new(0, 1))
    );
    let value = tokens[4];
    assert_eq!(value.kind(), BASIC_STRING);
    assert_eq!(value.span(), Span::new(Offset::new(5), Offset::new(9)));
    assert_eq!(
        value.range(),
        Range::new(Position::new(0, 4), Position::new(0, 7))
    );
    let last = tokens[6];
    assert_eq!(last.kind(), BARE_KEY);
    assert_eq!(last.span(), Span::new(Offset::new(10), Offset::new(11)));
    assert_eq!(
        last.range(),
        Range::new(Position::new(1, 0), Position::new(1, 1))
    );
}

#[test]
fn tokens_tile_the_text() {
    let text = "[a]\nb = [1, \"x\", {c = 2001-02-03}] # c\n!!\r\n'''\nq''' = +1.5e3\n\"";
    let tokens = tokenize(text);
    let mut at = 0;
    let mut rebuilt = String::new();
    for token in tokens.iter().filter(|token| !token.is_eof()) {
        assert_eq!(token.span().start().to_usize(), at);
        assert!(token.span().end().to_usize() > at);
        at = token.span().end().to_usize();
        rebuilt.push_str(&text[token.span().start().to_usize()..at]);
    }
    assert_eq!(at, text.len());
    assert_eq!(rebuilt, text);
    assert!(tokens.last().unwrap().is_eof());
}

#[test]
fn token_getters() {
    let place = (
        Span::new(Offset::new(1), Offset::new(3)),
        Range::new(Position::new(0, 1), Position::new(0, 3)),
    );
    let token = Token::new(BARE_KEY, place);
    assert_eq!(token.kind(), BARE_KEY);
    assert_eq!(token.span(), place.0);
    assert_eq!(token.range(), place.1);
    assert!(!token.is_eof());
    let error = tombi::lexer::Error::new(ErrorKind::InvalidKey, place);
    assert_eq!(error.kind(), ErrorKind::InvalidKey);
    assert_eq!(error.span(), place.0);
    assert_eq!(error.range(), place.1);
}
