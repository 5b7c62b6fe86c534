use tombi::lexer::{tokenize, Token};
use tombi::parser::parse;
use tombi::red::{RedElement, RedNode, TomlLanguage};
use tombi::syntax::SyntaxKind;

type Node = RedNode<TomlLanguage>;

const ALPHABET: [&str; 40] = [
    "a", "b", "key", "true", "inf", "1", "0", "9", "_", "-", "+", ".", ":", "e", "x", "T", "Z",
    " ", "\t", "\n", "\r\n", "\r", "#", "=", ",", "[", "]", "{", "}", "\"", "'", "\\", "\"\"\"",
    "'''", "!", "\u{e9}", "\u{1F980}", "1979-05-27", "07:32:00", "0x1F",
];

fn texts(count: usize, longest: usize) -> Vec<String> {
    let mut state: u64 = 0x2545_F491_4F6C_DD1D;
    let mut next = move || {
        state ^= state << 13;
        state ^= state >> 7;
        state ^= state << 17;
        state
    };
    (0..count)
        .map(|_| {
            let pieces = (next() % (longest as u64 + 1)) as usize;
            (0..pieces)
                .map(|_| ALPHABET[(next() % ALPHABET.len() as u64) as usize])
                .collect()
        })
        .collect()
}

fn leaves(node: &Node, out: &mut Vec<(SyntaxKind, String, tombi::text::Span, tombi::text::Range)>) {
    for index in 0..node.children_len() {
        match node.child(index).unwrap() {
            RedElement::Node(child) => {
                assert_eq!(child.parent().as_ref(), Some(node));
                leaves(&child, out);
            }
            RedElement::Token(token) => {
                out.push((token.kind(), token.text().to_string(), token.span(), token.range()));
            }
        }
    }
}

fn first_child_starts_with_parent(node: &Node) {
    if let Some(first) = node.child(0) {
        assert_eq!(first.span().start(), node.span().start());
        assert_eq!(first.range().start, node.range().start);
    }
    let mut end = node.span().start();
    for index in 0..node.children_len() {
        let child = node.child(index).unwrap();
        assert_eq!(child.span().start(), end);
        end = child.span().end();
        if let RedElement::Node(child) = child {
            first_child_starts_with_parent(&child);
        }
    }
    assert_eq!(end, node.span().end());
}

fn check(text: &str) {
    let parsed = parse(text);
    let root = parsed.syntax_node();
    let mut found = Vec::new();
    leaves(&root, &mut found);

    let rendered: String = found.iter().map(|leaf| leaf.1.as_str()).collect();
    assert_eq!(rendered, text, "{text:?}");

    let tokens: Vec<Token> = tokenize(text)
        .into_iter()
        .filter(|token| !token.is_eof())
        .collect();
    assert_eq!(found.len(), tokens.len(), "{text:?}");
    for (leaf, token) in found.iter().zip(&tokens) {
        assert_eq!(leaf.0, token.kind(), "{text:?}");
        assert_eq!(leaf.2, token.span(), "{text:?}");
        assert_eq!(leaf.3, token.range(), "{text:?}");
        assert_eq!(
            leaf.1,
            text[token.span().start().to_usize()..token.span().end().to_usize()]
        );
    }

    let invalid = tokens
        .iter()
        .any(|token| token.kind() == SyntaxKind::INVALID_TOKEN);
    if invalid {
        assert!(!parsed.errors.is_empty(), "{text:?}");
    }
    for error in &parsed.errors {
        assert!(error.span().start() <= error.span().end());
        assert!(error.span().end().to_usize() <= text.len());
    }
    assert_eq!(root.span().end().to_usize(), text.len());
    first_child_starts_with_parent(&root);
}

#[test]
fn every_text_comes_back_from_its_tree() {
    for text in texts(3000, 24) {
        check(&text);
    }
}

#[test]
fn long_texts_come_back_from_their_trees() {
    for text in texts(40, 600) {
        check(&text);
    }
}

#[test]
fn deep_nesting_comes_back() {
    let text = format!("a = {}1{}", "[".repeat(200), "]".repeat(200));
    check(&text);
    assert!(parse(&text).errors.is_empty());
    let text = format!("a = {}", "{b = ".repeat(100));
    check(&text);
}
