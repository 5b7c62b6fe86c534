use tombi::accessor::{Accessor, Accessors, SchemaAccessor, SchemaAccessors};

#[test]
fn test_accessors_display() {
    let accessors = Accessors::from(vec![
        Accessor::Key("root".to_string()),
        Accessor::Key("child".to_string()),
        Accessor::Index(1),
        Accessor::Key("item".to_string()),
    ]);
    assert_eq!(accessors.to_string(), "root.child[1].item");
}

#[test]
fn test_accessors_display_consecutive_indices() {
    let accessors = Accessors::from(vec![
        Accessor::Key("array".to_string()),
        Accessor::Index(0),
        Accessor::Index(1),
        Accessor::Index(2),
    ]);
    assert_eq!(accessors.to_string(), "array[0][1][2]");
}

#[test]
fn accessors_display_of_nothing_is_empty() {
    assert_eq!(Accessors::from(vec![]).to_string(), "");
    assert!(Accessors::from(vec![]).is_empty());
}

#[test]
fn accessors_display_starting_with_index() {
    let accessors = Accessors::from(vec![Accessor::Index(12), Accessor::Key("a".to_string())]);
    assert_eq!(accessors.to_string(), "[12].a");
    assert_eq!(
        Accessor::Index(18446744073709551615).to_string(),
        "[18446744073709551615]"
    );
}

#[test]
fn accessor_kinds() {
    let key = Accessor::Key("name".to_string());
    let index = Accessor::Index(3);
    assert!(key.is_key());
    assert!(!key.is_index());
    assert_eq!(key.as_key(), Some("name"));
    assert_eq!(key.as_index(), None);
    assert!(index.is_index());
    assert!(!index.is_key());
    assert_eq!(index.as_index(), Some(3));
    assert_eq!(index.as_key(), None);
}

#[test]
fn accessor_equality_and_order() {
    let a = Accessor::Key("a".to_string());
    let b = Accessor::Key("b".to_string());
    assert!(a == Accessor::Key("a".to_string()));
    assert!(a != b);
    assert!(a < b);
    assert!(Accessor::Key("ab".to_string()) > a);
    assert!(Accessor::Index(1) < Accessor::Index(2));
    assert_eq!(a.partial_cmp(&Accessor::Index(0)), None);
    assert_eq!(
        Accessor::Index(2).partial_cmp(&Accessor::Index(2)),
        Some(std::cmp::Ordering::Equal)
    );
    assert!(a.eq_str("a"));
    assert!(!a.eq_str("b"));
    assert!(!Accessor::Index(0).eq_str("0"));
}

#[test]
fn accessor_against_schema_accessor() {
    let key = Accessor::Key("a".to_string());
    assert!(key == SchemaAccessor::Key("a".to_string()));
    assert!(key != SchemaAccessor::Key("b".to_string()));
    assert!(key != SchemaAccessor::Index);
    assert!(Accessor::Index(7) == SchemaAccessor::Index);
    assert!(SchemaAccessor::Index == Accessor::Index(9));
    assert!(key.equivalent(&SchemaAccessor::Key("a".to_string())));
    assert_eq!(SchemaAccessor::from(Accessor::Index(4)), SchemaAccessor::Index);
    assert_eq!(
        SchemaAccessor::from_accessor(&key),
        SchemaAccessor::Key("a".to_string())
    );
}

#[test]
fn first_and_last_accessor() {
    let accessors = Accessors::from(vec![Accessor::Key("a".to_string()), Accessor::Index(1)]);
    assert_eq!(accessors.first(), Some(&Accessor::Key("a".to_string())));
    assert_eq!(accessors.last(), Some(&Accessor::Index(1)));
    assert_eq!(accessors.as_ref().len(), 2);
    let none = Accessors::from(vec![]);
    assert_eq!(none.first(), None);
    assert_eq!(none.last(), None);
}

#[test]
fn test_schema_accessor_star() {
    let result = SchemaAccessor::parse("key1[*].key2").unwrap();
    assert_eq!(
        result,
        vec![
            SchemaAccessor::Key("key1".to_string()),
            SchemaAccessor::Index,
            SchemaAccessor::Key("key2".to_string()),
        ]
    );
}

#[test]
fn test_schema_accessor_number() {
    let result = SchemaAccessor::parse("key1[0].key2").unwrap();
    assert_eq!(
        result,
        vec![
            SchemaAccessor::Key("key1".to_string()),
            SchemaAccessor::Index,
            SchemaAccessor::Key("key2".to_string()),
        ]
    );
}

#[test]
fn test_schema_accessor_keys() {
    let result = SchemaAccessor::parse("simple.key").unwrap();
    assert_eq!(
        result,
        vec![
            SchemaAccessor::Key("simple".to_string()),
            SchemaAccessor::Key("key".to_string()),
        ]
    );
}

#[test]
fn test_schema_accessor_trailing_index() {
    let result = SchemaAccessor::parse("array[5]").unwrap();
    assert_eq!(
        result,
        vec![SchemaAccessor::Key("array".to_string()), SchemaAccessor::Index]
    );
}

#[test]
fn schema_accessor_rejects_empty_and_bad_index() {
    assert_eq!(SchemaAccessor::parse(""), None);
    assert_eq!(SchemaAccessor::parse("a[x]"), None);
    assert_eq!(SchemaAccessor::parse("a[]"), None);
    assert_eq!(SchemaAccessor::parse("a[-1]"), None);
    assert_eq!(SchemaAccessor::parse("a[1"), Some(vec![
        SchemaAccessor::Key("a".to_string()),
        SchemaAccessor::Index,
    ]));
    assert_eq!(SchemaAccessor::parse("a[99999999999999999999999]"), None);
    assert_eq!(SchemaAccessor::parse("a[+3]").map(|v| v.len()), Some(2));
}

#[test]
fn schema_accessor_edge_shapes() {
    assert_eq!(SchemaAccessor::parse("."), Some(vec![]));
    assert_eq!(
        SchemaAccessor::parse("a..b"),
        Some(vec![
            SchemaAccessor::Key("a".to_string()),
            SchemaAccessor::Key("b".to_string()),
        ])
    );
    assert_eq!(
        SchemaAccessor::parse("a]b"),
        Some(vec![SchemaAccessor::Key("a]b".to_string())])
    );
    assert_eq!(
        SchemaAccessor::parse("[*][2]"),
        Some(vec![SchemaAccessor::Index, SchemaAccessor::Index])
    );
}

#[test]
fn schema_accessors_display() {
    let accessors = SchemaAccessors::from(vec![
        SchemaAccessor::Key("a".to_string()),
        SchemaAccessor::Index,
        SchemaAccessor::Key("b".to_string()),
    ]);
    assert_eq!(accessors.to_string(), "a[*].b");
    assert_eq!(accessors.first(), Some(&SchemaAccessor::Key("a".to_string())));
    assert_eq!(accessors.last(), Some(&SchemaAccessor::Key("b".to_string())));
    assert_eq!(SchemaAccessor::Index.to_string(), "[*]");
    let from_path = SchemaAccessors::from_accessors(&[
        Accessor::Key("a".to_string()),
        Accessor::Index(3),
    ]);
    assert_eq!(from_path.to_string(), "a[*]");
}

#[test]
fn schema_accessor_order() {
    let a = SchemaAccessor::Key("a".to_string());
    let b = SchemaAccessor::Key("b".to_string());
    assert!(a < b);
    assert_eq!(a.partial_cmp(&SchemaAccessor::Index), None);
    assert_eq!(SchemaAccessor::Index.partial_cmp(&SchemaAccessor::Index), None);
}
