use tombi::green::{GreenElement, GreenElementRef, GreenNode, GreenToken};
use tombi::red::{RedElement, RedNode, TomlLanguage};
use tombi::syntax::SyntaxKind;
use tombi::text::{Offset, Position, Range, RelativePosition, Span};

type Node = RedNode<TomlLanguage>;
type Element = RedElement<TomlLanguage>;

fn token(kind: SyntaxKind, text: &str) -> GreenElement {
    GreenElement::Token(GreenToken::new(kind.to_raw(), text))
}

fn node(kind: SyntaxKind, children: Vec<GreenElement>) -> GreenNode {
    GreenNode::new(kind.to_raw(), children)
}

/// `a = 1\nbc = [2, 3]`
fn sample() -> GreenNode {
    let first = node(
        SyntaxKind::KEY_VALUE,
        vec![
            token(SyntaxKind::BARE_KEY, "a"),
            token(SyntaxKind::WHITESPACE, " "),
            token(SyntaxKind::EQUAL, "="),
            token(SyntaxKind::WHITESPACE, " "),
            token(SyntaxKind::INTEGER_DEC, "1"),
        ],
    );
    let array = node(
        SyntaxKind::ARRAY,
        vec![
            token(SyntaxKind::BRACKET_START, "["),
            token(SyntaxKind::INTEGER_DEC, "2"),
            token(SyntaxKind::COMMA, ","),
            token(SyntaxKind::WHITESPACE, " "),
            token(SyntaxKind::INTEGER_DEC, "3"),
            token(SyntaxKind::BRACKET_END, "]"),
        ],
    );
    let second = node(
        SyntaxKind::KEY_VALUE,
        vec![
            token(SyntaxKind::BARE_KEY, "bc"),
            token(SyntaxKind::WHITESPACE, " "),
            token(SyntaxKind::EQUAL, "="),
            token(SyntaxKind::WHITESPACE, " "),
            GreenElement::Node(array),
        ],
    );
    node(
        SyntaxKind::ROOT,
        vec![
            GreenElement::Node(first),
            token(SyntaxKind::LINE_BREAK, "\n"),
            GreenElement::Node(second),
        ],
    )
}

fn text_of(node: &GreenNode) -> String {
    let mut out = String::new();
    for index in 0..node.children_len() {
        match node.child(index).unwrap() {
            GreenElementRef::Node(child) => out.push_str(&text_of(child)),
            GreenElementRef::Token(token) => out.push_str(token.text()),
        }
    }
    out
}

fn as_node(element: Element) -> Node {
    match element {
        RedElement::Node(node) => node,
        RedElement::Token(_) => panic!("a node was expected"),
    }
}

#[test]
fn green_token_holds_kind_and_text() {
    let token = GreenToken::new(SyntaxKind::COMMENT.to_raw(), "# h\u{e9}");
    assert_eq!(token.kind(), SyntaxKind::COMMENT.to_raw());
    assert_eq!(token.text(), "# h\u{e9}");
    assert_eq!(token.text_len(), 5);
    assert_eq!(token.text_relative_position(), RelativePosition::new(0, 4));
    let lines = GreenToken::new(SyntaxKind::MULTI_LINE_BASIC_STRING.to_raw(), "\"\"\"a\nbc\"\"\"");
    assert_eq!(lines.text_relative_position(), RelativePosition::new(1, 5));
}

#[test]
fn green_node_caches_the_length_of_its_text() {
    let root = sample();
    assert_eq!(text_of(&root), "a = 1\nbc = [2, 3]");
    assert_eq!(root.text_len(), 17);
    assert_eq!(root.text_relative_position(), RelativePosition::new(1, 11));
    assert_eq!(root.kind(), SyntaxKind::ROOT.to_raw());
    assert_eq!(root.children_len(), 3);
    assert_eq!(root.text_len_before(0), 0);
    assert_eq!(root.text_len_before(2), 6);
    assert_eq!(root.text_len_before(3), 17);
    assert_eq!(root.relative_position_before(2), RelativePosition::new(1, 0));
    assert!(root.child(3).is_none());
    let empty = node(SyntaxKind::ROOT, vec![]);
    assert_eq!(empty.text_len(), 0);
    assert_eq!(empty.text_relative_position(), RelativePosition::new(0, 0));
}

#[test]
fn clone_of_a_green_node_is_equal_to_it() {
    let root = sample();
    let copy = root.clone();
    assert_eq!(copy, root);
    assert_eq!(copy.kind(), root.kind());
    assert_eq!(copy.text_len(), root.text_len());
    assert_eq!(copy.children_len(), root.children_len());
    for index in 0..root.children_len() {
        let left = root.child(index).unwrap().to_owned();
        let right = copy.child(index).unwrap().to_owned();
        assert_eq!(left, right);
        assert_eq!(left.kind(), right.kind());
        assert_eq!(left.text_len(), right.text_len());
    }
}

#[test]
fn green_equality_is_structural() {
    assert_eq!(sample(), sample());
    let other = node(SyntaxKind::ROOT, vec![token(SyntaxKind::BARE_KEY, "a")]);
    assert_ne!(sample(), other);
    assert_ne!(
        node(SyntaxKind::ROOT, vec![token(SyntaxKind::BARE_KEY, "a")]),
        node(SyntaxKind::TABLE, vec![token(SyntaxKind::BARE_KEY, "a")])
    );
}

#[test]
fn green_elements_dispatch() {
    let root = sample();
    let first = root.child(0).unwrap();
    assert_eq!(first.kind(), SyntaxKind::KEY_VALUE.to_raw());
    assert_eq!(first.text_len(), 5);
    assert_eq!(first.text_relative_position(), RelativePosition::new(0, 5));
    let owned = first.to_owned();
    assert_eq!(owned.kind(), SyntaxKind::KEY_VALUE.to_raw());
    assert_eq!(owned.text_len(), 5);
    assert_eq!(owned.text_relative_position(), RelativePosition::new(0, 5));
    assert_eq!(owned.as_deref().kind(), first.kind());
    let line_break = root.child(1).unwrap().to_owned();
    assert_eq!(line_break.kind(), SyntaxKind::LINE_BREAK.to_raw());
    assert_eq!(line_break.text_len(), 1);
    assert_eq!(line_break.text_relative_position(), RelativePosition::new(1, 0));
}

#[test]
fn green_node_edits_share_the_rest() {
    let root = sample();
    let without = root.without_child(1);
    assert_eq!(text_of(&without), "a = 1bc = [2, 3]");
    assert_eq!(without.text_len(), 16);
    assert_eq!(text_of(&root), "a = 1\nbc = [2, 3]");
    let with = root.with_child(1, token(SyntaxKind::WHITESPACE, " "));
    assert_eq!(text_of(&with), "a = 1 bc = [2, 3]");
    assert_eq!(with.child(0).unwrap().to_owned(), root.child(0).unwrap().to_owned());
}

#[test]
fn red_root_has_no_parent() {
    let root = Node::new_root(sample());
    assert!(root.parent().is_none());
    assert_eq!(root.index(), 0);
    assert_eq!(root.kind(), SyntaxKind::ROOT);
    assert_eq!(root.offset(), 0);
    assert_eq!(root.span(), Span::new(Offset::new(0), Offset::new(17)));
    assert_eq!(
        root.range(),
        Range::new(Position::new(0, 0), Position::new(1, 11))
    );
    assert!(!root.is_mutable());
    assert!(Node::new_root_mut(sample()).is_mutable());
    assert!(root.next_sibling_or_token().is_none());
    assert!(root.prev_sibling_or_token().is_none());
    assert_eq!(root.ancestors(), vec![root.clone()]);
    assert_eq!(root.green(), &sample());
}

#[test]
fn red_children_know_their_place() {
    let root = Node::new_root(sample());
    let second = as_node(root.child(2).unwrap());
    assert_eq!(second.kind(), SyntaxKind::KEY_VALUE);
    assert_eq!(second.index(), 2);
    assert_eq!(second.parent(), Some(root.clone()));
    assert_eq!(second.span(), Span::new(Offset::new(6), Offset::new(17)));
    assert_eq!(
        second.range(),
        Range::new(Position::new(1, 0), Position::new(1, 11))
    );
    let array = as_node(second.child(4).unwrap());
    assert_eq!(array.kind(), SyntaxKind::ARRAY);
    assert_eq!(array.span(), Span::new(Offset::new(11), Offset::new(17)));
    assert_eq!(array.position(), Position::new(1, 5));
    let three = array.child(4).unwrap();
    assert_eq!(three.kind(), SyntaxKind::INTEGER_DEC);
    assert_eq!(three.index(), 4);
    assert_eq!(three.span(), Span::new(Offset::new(15), Offset::new(16)));
    assert_eq!(
        three.range(),
        Range::new(Position::new(1, 9), Position::new(1, 10))
    );
    assert_eq!(three.parent(), Some(array.clone()));
    assert_eq!(
        three.ancestors(),
        vec![array.clone(), second.clone(), root.clone()]
    );
    assert_eq!(
        Element::from(array.clone()).ancestors(),
        vec![array, second, root.clone()]
    );
    assert!(root.child(3).is_none());
}

#[test]
fn same_place_reached_on_two_ways_has_the_same_range() {
    let root = Node::new_root(sample());
    let direct = root.child(2).unwrap();
    let by_sibling = root
        .child(0)
        .unwrap()
        .next_sibling_or_token()
        .unwrap()
        .next_sibling_or_token()
        .unwrap();
    assert_eq!(direct.range(), by_sibling.range());
    assert_eq!(direct.span(), by_sibling.span());
    assert_eq!(direct, by_sibling);

    let second = as_node(direct);
    let array = as_node(second.child(4).unwrap());
    let down = array.child(1).unwrap();
    let back = array
        .child(3)
        .unwrap()
        .prev_sibling_or_token()
        .unwrap()
        .prev_sibling_or_token()
        .unwrap();
    assert_eq!(down.range(), back.range());
    assert_eq!(down.span(), back.span());
    assert_eq!(down.kind(), SyntaxKind::INTEGER_DEC);

    let other_root = Node::new_root(sample());
    let elsewhere = as_node(as_node(other_root.child(2).unwrap()).child(4).unwrap())
        .child(1)
        .unwrap();
    assert_eq!(elsewhere.range(), down.range());
    assert_eq!(elsewhere.span(), down.span());
}

#[test]
fn the_same_green_node_at_two_places_has_two_ranges() {
    let leaf = node(SyntaxKind::KEYS, vec![token(SyntaxKind::BARE_KEY, "k")]);
    let root = Node::new_root(node(
        SyntaxKind::ROOT,
        vec![
            GreenElement::Node(leaf.clone()),
            token(SyntaxKind::LINE_BREAK, "\n"),
            GreenElement::Node(leaf),
        ],
    ));
    let first = as_node(root.child(0).unwrap());
    let last = as_node(root.child(2).unwrap());
    assert_eq!(first.green(), last.green());
    assert_eq!(first.span(), Span::new(Offset::new(0), Offset::new(1)));
    assert_eq!(last.span(), Span::new(Offset::new(2), Offset::new(3)));
    assert_eq!(last.range().start, Position::new(1, 0));
    assert_ne!(first, last);
}

#[test]
fn siblings_in_both_directions() {
    let root = Node::new_root(sample());
    let first = root.child(0).unwrap();
    assert!(first.prev_sibling_or_token().is_none());
    let middle = first.next_sibling_or_token().unwrap();
    assert_eq!(middle.kind(), SyntaxKind::LINE_BREAK);
    assert_eq!(middle.index(), 1);
    assert_eq!(middle.prev_sibling_or_token().unwrap(), first);
    let last = middle.next_sibling_or_token().unwrap();
    assert!(last.next_sibling_or_token().is_none());
    assert_eq!(last.prev_sibling_or_token().unwrap(), middle);
}

#[test]
fn detach_builds_the_way_to_the_root_anew() {
    let root = Node::new_root_mut(sample());
    let second = as_node(root.child(2).unwrap());
    let array = as_node(second.child(4).unwrap());
    let comma = array.child(2).unwrap();
    let (detached, rest) = comma.detach();
    assert!(detached.parent().is_none());
    assert_eq!(detached.kind(), SyntaxKind::COMMA);
    assert_eq!(detached.span(), Span::new(Offset::new(0), Offset::new(1)));
    let rest = rest.unwrap();
    assert_eq!(text_of(&rest), "a = 1\nbc = [2 3]");
    assert_eq!(rest.text_len(), 16);
    assert_eq!(text_of(root.green()), "a = 1\nbc = [2, 3]");
    assert_eq!(
        rest.child(0).unwrap().to_owned(),
        root.green().child(0).unwrap().to_owned()
    );

    let (node, rest) = Element::from(array.clone()).detach();
    assert_eq!(text_of(as_node(node).green()), "[2, 3]");
    assert_eq!(text_of(&rest.unwrap()), "a = 1\nbc = ");

    let (same, none) = root.detach();
    assert!(none.is_none());
    assert_eq!(same.green(), root.green());
}

#[test]
fn unknown_raw_kind_reads_as_tombstone() {
    let root = Node::new_root(GreenNode::new(9999, vec![]));
    assert_eq!(root.kind(), SyntaxKind::TOMBSTONE);
}
