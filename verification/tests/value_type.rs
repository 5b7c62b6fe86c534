use tombi::value_type::{fmt_composit_types, ValueType};

#[test]
fn any_of_array_null() {
    let value_type = ValueType::AnyOf(
        vec![ValueType::Array, ValueType::Null]
            .into_iter()
            .collect(),
    );
    assert_eq!(value_type.to_string(), "Array?");
}

#[test]
fn one_of_array_null() {
    let value_type = ValueType::OneOf(
        vec![ValueType::Array, ValueType::Null]
            .into_iter()
            .collect(),
    );
    assert_eq!(value_type.to_string(), "Array?");
}

#[test]
fn all_of_array_null() {
    let value_type = ValueType::AllOf(
        vec![ValueType::Array, ValueType::Null]
            .into_iter()
            .collect(),
    );
    assert_eq!(value_type.to_string(), "Array?");
}

#[test]
fn nullable_one_of() {
    let value_type = ValueType::OneOf(
        vec![ValueType::Array, ValueType::Table, ValueType::Null]
            .into_iter()
            .collect(),
    );
    assert_eq!(value_type.to_string(), "(Array ^ Table)?");
}

#[test]
fn nullable_any_of() {
    let value_type = ValueType::AnyOf(
        vec![ValueType::Array, ValueType::Table, ValueType::Null]
            .into_iter()
            .collect(),
    );
    assert_eq!(value_type.to_string(), "(Array | Table)?");
}

#[test]
fn nullable_all_of() {
    let value_type = ValueType::AllOf(vec![ValueType::Array, ValueType::Table, ValueType::Null]);
    assert_eq!(value_type.to_string(), "(Array & Table)?");
}

#[test]
fn same_type_one_of() {
    let value_type = ValueType::OneOf(vec![
        ValueType::OneOf(vec![ValueType::Boolean, ValueType::Null]),
        ValueType::Boolean,
    ]);
    assert_eq!(value_type.to_string(), "Boolean?");
}

#[test]
fn same_type_any_of() {
    let value_type = ValueType::AnyOf(vec![
        ValueType::OneOf(vec![ValueType::Boolean, ValueType::Null]),
        ValueType::OneOf(vec![ValueType::Boolean, ValueType::Null]),
    ]);
    assert_eq!(value_type.to_string(), "Boolean?");
}

#[test]
fn same_type_all_of() {
    let value_type = ValueType::AllOf(vec![
        ValueType::OneOf(vec![ValueType::Boolean, ValueType::Null]),
        ValueType::Boolean,
        ValueType::Null,
    ]);
    assert_eq!(value_type.to_string(), "Boolean?");
}

#[test]
fn nested_one_of() {
    let value_type = ValueType::OneOf(
        vec![
            ValueType::OneOf(vec![ValueType::Boolean, ValueType::String]),
            ValueType::Array,
            ValueType::Table,
        ]
        .into_iter()
        .collect(),
    );
    assert_eq!(
        value_type.to_display(true),
        "(Boolean ^ String) ^ Array ^ Table"
    );
    assert_eq!(value_type.to_string(), "Boolean ^ String ^ Array ^ Table");
}

#[test]
fn nested_any_of() {
    let value_type = ValueType::AnyOf(
        vec![
            ValueType::AnyOf(vec![ValueType::Boolean, ValueType::String]),
            ValueType::Array,
            ValueType::Table,
        ]
        .into_iter()
        .collect(),
    );
    assert_eq!(
        value_type.to_display(true),
        "(Boolean | String) | Array | Table"
    );
    assert_eq!(value_type.to_string(), "Boolean | String | Array | Table");
}

#[test]
fn nested_all_of() {
    let value_type = ValueType::AllOf(
        vec![
            ValueType::AllOf(vec![ValueType::Boolean, ValueType::String]),
            ValueType::Array,
            ValueType::Table,
        ]
        .into_iter()
        .collect(),
    );
    assert_eq!(
        value_type.to_display(true),
        "(Boolean & String) & Array & Table"
    );
    assert_eq!(value_type.to_string(), "Boolean & String & Array & Table");
}

#[test]
fn nested_one_of_withnullable() {
    let value_type = ValueType::OneOf(
        vec![
            ValueType::OneOf(vec![ValueType::Boolean, ValueType::String]),
            ValueType::Array,
            ValueType::Table,
            ValueType::Null,
        ]
        .into_iter()
        .collect(),
    );
    assert_eq!(
        value_type.to_display(true),
        "((Boolean ^ String) ^ Array ^ Table)?"
    );
    assert_eq!(
        value_type.to_string(),
        "(Boolean ^ String ^ Array ^ Table)?"
    );
}

#[test]
fn nested_one_of_with_nested_nullable() {
    let value_type = ValueType::OneOf(
        vec![
            ValueType::OneOf(vec![ValueType::Boolean, ValueType::String, ValueType::Null]),
            ValueType::Array,
            ValueType::Table,
        ]
        .into_iter()
        .collect(),
    );
    assert_eq!(
        value_type.to_display(true),
        "(Boolean ^ String)? ^ Array ^ Table"
    );
    assert_eq!(
        value_type.to_string(),
        "(Boolean ^ String ^ Array ^ Table)?"
    );
}

#[test]
fn nested_any_of_with_nested_nullable() {
    let value_type = ValueType::AnyOf(
        vec![
            ValueType::AnyOf(vec![ValueType::Boolean, ValueType::String, ValueType::Null]),
            ValueType::Array,
            ValueType::Table,
        ]
        .into_iter()
        .collect(),
    );
    assert_eq!(
        value_type.to_display(true),
        "(Boolean | String)? | Array | Table"
    );
    assert_eq!(
        value_type.to_string(),
        "(Boolean | String | Array | Table)?"
    );
}

#[test]
fn nested_all_of_with_nested_nullable() {
    let value_type = ValueType::AllOf(
        vec![
            ValueType::AllOf(vec![ValueType::Boolean, ValueType::String, ValueType::Null]),
            ValueType::Array,
            ValueType::Table,
        ]
        .into_iter()
        .collect(),
    );
    assert_eq!(
        value_type.to_display(true),
        "(Boolean & String)? & Array & Table"
    );
    assert_eq!(
        value_type.to_string(),
        "(Boolean & String & Array & Table)?"
    );
}

#[test]
fn nested_one_of_any_of() {
    let value_type = ValueType::OneOf(
        vec![
            ValueType::OneOf(vec![ValueType::Boolean, ValueType::String]),
            ValueType::AnyOf(vec![ValueType::Array, ValueType::Table]),
        ]
        .into_iter()
        .collect(),
    );
    assert_eq!(
        value_type.to_display(true),
        "(Boolean ^ String) ^ (Array | Table)"
    );
    assert_eq!(value_type.to_string(), "Boolean ^ String ^ (Array | Table)");
}

#[test]
fn nested_one_of_any_of_with_nullable() {
    let value_type = ValueType::OneOf(
        vec![
            ValueType::OneOf(vec![ValueType::Boolean, ValueType::String]),
            ValueType::AnyOf(vec![ValueType::Array, ValueType::Table, ValueType::Null]),
        ]
        .into_iter()
        .collect(),
    );
    assert_eq!(
        value_type.to_display(true),
        "(Boolean ^ String) ^ (Array | Table)?"
    );
    assert_eq!(
        value_type.to_string(),
        "(Boolean ^ String ^ (Array | Table))?"
    );
}

#[test]
fn slim_same_type() {
    let value_type = ValueType::OneOf(
        vec![
            ValueType::OneOf(vec![ValueType::Boolean, ValueType::Array]),
            ValueType::Boolean,
            ValueType::Array,
        ]
        .into_iter()
        .collect(),
    );
    assert_eq!(
        value_type.to_display(true),
        "(Boolean ^ Array) ^ Boolean ^ Array"
    );
    assert_eq!(value_type.to_string(), "Boolean ^ Array");
}

#[test]
fn basic_types_display_their_names() {
    assert_eq!(ValueType::Null.to_string(), "Null");
    assert_eq!(ValueType::Boolean.to_string(), "Boolean");
    assert_eq!(ValueType::Integer.to_string(), "Integer");
    assert_eq!(ValueType::Float.to_string(), "Float");
    assert_eq!(ValueType::String.to_string(), "String");
    assert_eq!(ValueType::OffsetDateTime.to_string(), "OffsetDateTime");
    assert_eq!(ValueType::LocalDateTime.to_string(), "LocalDateTime");
    assert_eq!(ValueType::LocalDate.to_string(), "LocalDate");
    assert_eq!(ValueType::LocalTime.to_string(), "LocalTime");
    assert_eq!(ValueType::Array.to_string(), "Array");
    assert_eq!(ValueType::Table.to_string(), "Table");
}

#[test]
fn simplify_values() {
    assert_eq!(ValueType::Boolean.simplify(), ValueType::Boolean);
    assert_eq!(ValueType::OneOf(vec![]).simplify(), ValueType::OneOf(vec![]));
    assert_eq!(
        ValueType::OneOf(vec![ValueType::Integer]).simplify(),
        ValueType::Integer
    );
    assert_eq!(
        ValueType::OneOf(vec![ValueType::Null]).simplify(),
        ValueType::Null
    );
    assert_eq!(
        ValueType::AnyOf(vec![
            ValueType::Null,
            ValueType::Integer,
            ValueType::AllOf(vec![ValueType::Float, ValueType::Null, ValueType::String]),
            ValueType::Integer,
            ValueType::AnyOf(vec![ValueType::Table, ValueType::Integer]),
            ValueType::OneOf(vec![ValueType::Null]),
        ])
        .simplify(),
        ValueType::AnyOf(vec![
            ValueType::Integer,
            ValueType::AllOf(vec![ValueType::Float, ValueType::String]),
            ValueType::Table,
            ValueType::Null,
        ])
    );
}

#[test]
fn simplify_twice_changes_nothing_more() {
    let value_type = ValueType::AllOf(vec![
        ValueType::OneOf(vec![ValueType::Boolean, ValueType::Null, ValueType::Array]),
        ValueType::AllOf(vec![ValueType::Table, ValueType::Boolean]),
        ValueType::Boolean,
    ]);
    let once = value_type.simplify();
    assert_eq!(once.simplify(), once);
    assert_eq!(value_type.clone(), value_type);
}

#[test]
fn is_nullable_by_kind() {
    assert!(ValueType::Null.is_nullable());
    assert!(!ValueType::Table.is_nullable());
    assert!(ValueType::OneOf(vec![ValueType::Array, ValueType::Null]).is_nullable());
    assert!(!ValueType::OneOf(vec![ValueType::Array]).is_nullable());
    assert!(!ValueType::AnyOf(vec![]).is_nullable());
    assert!(ValueType::AllOf(vec![]).is_nullable());
    assert!(!ValueType::AllOf(vec![ValueType::Null, ValueType::Array]).is_nullable());
    assert!(ValueType::AllOf(vec![
        ValueType::Null,
        ValueType::AnyOf(vec![ValueType::Array, ValueType::Null])
    ])
    .is_nullable());
}

#[test]
fn set_nullable_by_kind() {
    let mut t = ValueType::Null;
    t.set_nullable();
    assert_eq!(t, ValueType::Null);

    let mut t = ValueType::Integer;
    t.set_nullable();
    assert_eq!(t, ValueType::AnyOf(vec![ValueType::Integer, ValueType::Null]));

    let mut t = ValueType::OneOf(vec![ValueType::Integer]);
    t.set_nullable();
    assert_eq!(t, ValueType::OneOf(vec![ValueType::Integer, ValueType::Null]));
    t.set_nullable();
    assert_eq!(t, ValueType::OneOf(vec![ValueType::Integer, ValueType::Null]));

    let mut t = ValueType::AnyOf(vec![ValueType::Null, ValueType::Integer]);
    t.set_nullable();
    assert_eq!(
        t,
        ValueType::AnyOf(vec![ValueType::Null, ValueType::Integer, ValueType::Null])
    );

    let mut t = ValueType::AnyOf(vec![]);
    t.set_nullable();
    assert_eq!(t, ValueType::AnyOf(vec![]));

    let mut t = ValueType::AllOf(vec![ValueType::Integer, ValueType::Float]);
    t.set_nullable();
    assert_eq!(
        t,
        ValueType::AnyOf(vec![
            ValueType::AllOf(vec![ValueType::Integer, ValueType::Float]),
            ValueType::Null
        ])
    );

    let mut t = ValueType::AllOf(vec![ValueType::Integer, ValueType::Null]);
    t.set_nullable();
    assert_eq!(t, ValueType::AllOf(vec![ValueType::Integer, ValueType::Null]));
}

#[test]
fn composite_text_shapes() {
    let two = vec![ValueType::Array, ValueType::Table];
    assert_eq!(fmt_composit_types(&two, '|', true), "Array | Table");
    assert_eq!(fmt_composit_types(&two, '|', false), "(Array | Table)");
    let one = vec![ValueType::Array];
    assert_eq!(fmt_composit_types(&one, '&', false), "Array");
    assert_eq!(fmt_composit_types(&vec![], '^', true), "");
    assert_eq!(fmt_composit_types(&vec![], '^', false), "()");
    assert_eq!(fmt_composit_types(&vec![ValueType::Null], '^', false), "()?");
}
