use tombi::ast::{AstNode, Root};
use tombi::green::{GreenElementRef, GreenNode};
use tombi::parsed::Parsed;
use tombi::parser::{parse, ErrorKind};
use tombi::syntax::SyntaxKind;
use tombi::text::{Offset, Position, Range, Span};

fn rendered(node: &GreenNode, out: &mut String) {
    for index in 0..node.children_len() {
        match node.child(index).unwrap() {
            GreenElementRef::Node(child) => rendered(child, out),
            GreenElementRef::Token(token) => out.push_str(token.text()),
        }
    }
}

fn shape(node: &GreenNode, out: &mut String) {
    out.push_str(&format!("{:?}(", SyntaxKind::from_raw(node.kind())));
    for index in 0..node.children_len() {
        match node.child(index).unwrap() {
            GreenElementRef::Node(child) => shape(child, out),
            GreenElementRef::Token(token) => {
                let kind = SyntaxKind::from_raw(token.kind());
                if !kind.is_trivia() {
                    out.push_str(&format!("{:?} ", kind));
                }
            }
        }
    }
    out.push(')');
}

fn shape_of(text: &str) -> String {
    let parsed = parse(text);
    let mut out = String::new();
    shape(parsed.syntax_node().green(), &mut out);
    out
}

fn round_trips(text: &str) {
    let parsed = parse(text);
    let root = parsed.syntax_node();
    let mut out = String::new();
    rendered(root.green(), &mut out);
    assert_eq!(out, text);
    assert_eq!(root.green().text_len() as usize, text.len());
    assert_eq!(root.kind(), SyntaxKind::ROOT);
}

#[test]
fn round_trip_of_empty_text() {
    round_trips("");
    let parsed = parse("");
    assert!(parsed.errors.is_empty());
    assert_eq!(parsed.syntax_node().children_len(), 0);
}

#[test]
fn round_trip_of_comments_only() {
    round_trips("# only a comment");
    round_trips("# one\n\n  # two\r\n");
    assert!(parse("# one\n\n  # two\r\n").errors.is_empty());
}

#[test]
fn round_trip_of_a_document() {
    let text = "# config\ntitle = \"TOML\"\n\n[owner]\nname = 'Tom' # who\ndob = 1979-05-27T07:32:00-08:00\n\n[[servers]]\nip = \"10.0.0.1\"\nports = [ 8001, 8002,\n  8003, ]\nmeta = { a.b = 1, c = [[1], [2.5]] }\n";
    round_trips(text);
    assert_eq!(parse(text).errors, vec![]);
}

#[test]
fn round_trip_of_broken_text() {
    for text in [
        "a = 1\nb = !!!\nc = 3",
        "= = =",
        "[",
        "[[a]",
        "a = [1, 2",
        "a = {b = , c}",
        "a = \"unterminated\nb = 2",
        "a b c\n[x]] y\n",
        "\u{1F980} = \u{e9}\n",
        "]]]]",
        "a = [[[[",
        "a.",
        "a = 1 2 3\n",
        "\r\r\n",
        "a = '''",
    ] {
        round_trips(text);
        assert!(!parse(text).errors.is_empty(), "{text:?}");
    }
}

#[test]
fn one_error_is_contained_in_its_line() {
    let text = "a = 1\nb = !!!\nc = 3";
    let parsed = parse(text);
    assert_eq!(parsed.errors.len(), 1);
    let error = parsed.errors[0];
    assert_eq!(error.kind(), ErrorKind::ExpectedValue);
    assert_eq!(error.span(), Span::new(Offset::new(10), Offset::new(13)));
    assert_eq!(
        error.range(),
        Range::new(Position::new(1, 4), Position::new(1, 7))
    );
    assert_eq!(&text[10..13], "!!!");
    assert_eq!(
        shape_of(text),
        "ROOT(KEY_VALUE(KEYS(BARE_KEY )EQUAL INTEGER_DEC )KEY_VALUE(KEYS(BARE_KEY )EQUAL ERROR(INVALID_TOKEN ))KEY_VALUE(KEYS(BARE_KEY )EQUAL INTEGER_DEC ))"
    );
}

#[test]
fn tables_hold_the_keys_that_follow_them() {
    assert_eq!(
        shape_of("x = 1\n[a.b]\ny = 2\nz = 3\n[[c]]\nw = 4\n"),
        "ROOT(KEY_VALUE(KEYS(BARE_KEY )EQUAL INTEGER_DEC )TABLE(BRACKET_START KEYS(BARE_KEY DOT BARE_KEY )BRACKET_END KEY_VALUE(KEYS(BARE_KEY )EQUAL INTEGER_DEC )KEY_VALUE(KEYS(BARE_KEY )EQUAL INTEGER_DEC ))ARRAY_OF_TABLE(BRACKET_START BRACKET_START KEYS(BARE_KEY )BRACKET_END BRACKET_END KEY_VALUE(KEYS(BARE_KEY )EQUAL INTEGER_DEC )))"
    );
}

#[test]
fn arrays_and_inline_tables_nest() {
    assert_eq!(
        shape_of("a = [[1, 2], {b = true}]"),
        "ROOT(KEY_VALUE(KEYS(BARE_KEY )EQUAL ARRAY(BRACKET_START ARRAY(BRACKET_START INTEGER_DEC COMMA INTEGER_DEC BRACKET_END )COMMA INLINE_TABLE(BRACE_START KEY_VALUE(KEYS(BARE_KEY )EQUAL BOOLEAN )BRACE_END )BRACKET_END )))"
    );
    assert!(parse("a = [[1, 2], {b = true}]").errors.is_empty());
    assert!(parse("a = [\n  1, # one\n  2,\n]\n").errors.is_empty());
    assert!(parse("a = []\nb = {}\n").errors.is_empty());
}

#[test]
fn keys_of_many_kinds() {
    assert!(parse("\"a b\".'c'.true.k-1.2001-02-03 = 1").errors.is_empty());
    assert!(parse("a . b = 1").errors.is_empty());
    assert!(parse("3.14 = \"pi\"").errors.is_empty());
}

#[test]
fn kinds_of_findings() {
    let kind_of = |text: &str| {
        let parsed = parse(text);
        assert!(!parsed.errors.is_empty(), "{text:?}");
        parsed.errors[0].kind()
    };
    assert_eq!(kind_of("a"), ErrorKind::ExpectedEqual);
    assert_eq!(kind_of("a = "), ErrorKind::ExpectedValue);
    assert_eq!(kind_of("a = b"), ErrorKind::ExpectedValue);
    assert_eq!(kind_of("a = [1"), ErrorKind::ExpectedBracketEnd);
    assert_eq!(kind_of("a = {b = 1"), ErrorKind::ExpectedBraceEnd);
    assert_eq!(kind_of("[a"), ErrorKind::ExpectedBracketEnd);
    assert_eq!(kind_of("[[a]"), ErrorKind::ExpectedDoubleBracketEnd);
    assert_eq!(kind_of("[]"), ErrorKind::ExpectedKey);
    assert_eq!(kind_of("a. = 1"), ErrorKind::ExpectedKey);
    assert_eq!(kind_of("a = 1 b = 2"), ErrorKind::ExpectedLineBreak);
    assert_eq!(kind_of("= 1"), ErrorKind::UnexpectedToken);
    assert_eq!(kind_of("a = [,]"), ErrorKind::ExpectedValue);
}

#[test]
fn each_broken_line_gives_one_finding() {
    let parsed = parse("a = ?\nb = 2\nc = ? ?\n[t]\nd = @");
    assert_eq!(parsed.errors.len(), 3);
    assert_eq!(parsed.errors[0].range().start, Position::new(0, 4));
    assert_eq!(parsed.errors[1].range().start, Position::new(2, 4));
    assert_eq!(parsed.errors[1].range().end, Position::new(2, 7));
    assert_eq!(parsed.errors[2].range().start, Position::new(4, 4));
}

#[test]
fn strict_and_tolerant_results() {
    let good: Parsed<Root> = parse("a = 1\n");
    assert!(good.clone().into_syntax().try_into_root().is_ok());
    let root = good.tree();
    assert_eq!(root.syntax().kind(), SyntaxKind::ROOT);
    assert!(good.clone().into_syntax().cast::<Root>().is_some());

    let bad: Parsed<Root> = parse("a = \n");
    let findings = bad.clone().into_syntax().try_into_root().err().unwrap();
    assert_eq!(findings, bad.errors);
    let (root, errors) = bad.clone().into_syntax().into_root_and_errors();
    assert_eq!(errors.len(), 1);
    assert_eq!(root.syntax().green(), bad.syntax_node().green());
    assert!(bad.clone().into_syntax_node_mut().is_mutable());
    assert!(!bad.into_syntax_node().is_mutable());
}

#[test]
fn parsed_keeps_tree_and_findings() {
    let parsed = parse("a = 1\n");
    let rebuilt: Parsed<Root> = Parsed::new(parsed.syntax_node().green().clone(), vec![]);
    assert_eq!(rebuilt, parsed);
    assert_eq!(rebuilt.errors(), &vec![]);
}
