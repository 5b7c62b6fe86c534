use tombi::syntax::SyntaxKind;
use tombi::syntax::SyntaxKind::{
    BARE_KEY, COMMENT, EOF, EQUAL, ERROR, INLINE_TABLE, LINE_BREAK, TOMBSTONE, WHITESPACE,
};
use tombi::token_set::TokenSet;

#[test]
fn token_set_works_for_tokens() {
    let ts = TokenSet::new(&[EOF, WHITESPACE]);
    assert!(ts.contains(EOF));
    assert!(ts.contains(WHITESPACE));
    assert!(!ts.contains(EQUAL));
}

#[test]
fn empty_token_set_contains_nothing() {
    let ts = TokenSet::new(&[]);
    assert!(!ts.contains(TOMBSTONE));
    assert!(!ts.contains(EOF));
    assert!(!ts.contains(ERROR));
}

#[test]
fn token_set_takes_repeated_and_last_kinds() {
    let ts = TokenSet::new(&[ERROR, ERROR, TOMBSTONE, INLINE_TABLE]);
    assert!(ts.contains(ERROR));
    assert!(ts.contains(TOMBSTONE));
    assert!(ts.contains(INLINE_TABLE));
    assert!(!ts.contains(BARE_KEY));
    assert!(!ts.contains(COMMENT));
    assert!(!ts.contains(LINE_BREAK));
}

#[test]
fn token_set_agrees_with_the_list_for_every_kind() {
    let listed = [COMMENT, LINE_BREAK, EOF];
    let ts = TokenSet::new(&listed);
    for raw in 0..38u16 {
        let kind = SyntaxKind::from_raw(raw);
        assert_eq!(ts.contains(kind), listed.contains(&kind));
        assert_eq!(kind.to_raw(), raw);
    }
}
