use tombi::display_value::{get_enumerate_from_schemas, DisplayValue, GetEnumerate};
use tombi::json::{
    ArrayNode, BoolNode, FloatText, NullNode, Number, NumberNode, Object, ObjectNode, StringNode,
    Value, ValueNode,
};
use tombi::schema::{
    AllOfSchema, AnyOfSchema, ArraySchema, BooleanSchema, FloatSchema, IntegerSchema,
    LocalDateSchema, LocalTimeSchema, OneOfSchema, Referable, StringSchema, ValueSchema,
};
use tombi::text::{Position, Range};
use tombi::value_type::ValueType;

fn here() -> Range {
    Range::new(Position::new(1, 2), Position::new(3, 4))
}

fn key(text: &str) -> StringNode {
    StringNode {
        value: text.to_string(),
        range: Range::default(),
    }
}

fn string(text: &str) -> ValueNode {
    ValueNode::String(key(text))
}

fn boolean(value: bool) -> ValueNode {
    ValueNode::Bool(BoolNode {
        value,
        range: Range::default(),
    })
}

fn integer(value: i64) -> ValueNode {
    ValueNode::Number(NumberNode {
        value: Number::from_i64(value),
        range: Range::default(),
    })
}

fn float(text: &str) -> ValueNode {
    ValueNode::Number(NumberNode {
        value: Number::Float(FloatText {
            text: text.to_string(),
        }),
        range: Range::default(),
    })
}

fn null() -> ValueNode {
    ValueNode::Null(NullNode {
        range: Range::default(),
    })
}

fn array(items: Vec<ValueNode>) -> ValueNode {
    ValueNode::Array(ArrayNode {
        items,
        range: Range::default(),
    })
}

fn object(properties: Vec<(&str, ValueNode)>) -> ObjectNode {
    ObjectNode {
        properties: properties
            .into_iter()
            .map(|(name, value)| (key(name), value))
            .collect(),
        range: here(),
    }
}

#[test]
fn boolean_schema_reads_its_properties() {
    let schema = BooleanSchema::new(&object(vec![
        ("title", string("Flag")),
        ("description", string("A flag")),
        ("default", boolean(true)),
        ("const", boolean(false)),
        ("enum", array(vec![boolean(true), integer(1), boolean(false)])),
        ("examples", array(vec![])),
        ("deprecated", boolean(true)),
    ]));
    assert_eq!(
        schema,
        BooleanSchema {
            title: Some("Flag".to_string()),
            description: Some("A flag".to_string()),
            range: here(),
            default: Some(true),
            const_value: Some(false),
            enumerate: Some(vec![true, false]),
            examples: Some(vec![]),
            deprecated: Some(true),
        }
    );
    assert_eq!(schema.value_type(), ValueType::Boolean);
}

#[test]
fn schema_properties_of_another_type_count_as_absent() {
    let schema = BooleanSchema::new(&object(vec![
        ("title", integer(1)),
        ("default", string("true")),
        ("enum", boolean(true)),
        ("deprecated", null()),
    ]));
    assert_eq!(
        schema,
        BooleanSchema {
            range: here(),
            ..BooleanSchema::default()
        }
    );
    assert_eq!(
        BooleanSchema::new(&object(vec![])),
        BooleanSchema {
            range: here(),
            ..BooleanSchema::default()
        }
    );
}

#[test]
fn integer_schema_reads_its_properties() {
    let schema = IntegerSchema::new(&object(vec![
        ("title", string("Count")),
        ("minimum", integer(1)),
        ("maximum", integer(65535)),
        ("exclusiveMinimum", integer(0)),
        ("exclusiveMaximum", integer(65536)),
        ("multipleOf", integer(1)),
        ("enum", array(vec![integer(80), string("x"), float("1.5"), integer(443)])),
        ("default", integer(80)),
        ("const", float("8.5")),
        ("examples", array(vec![integer(-1)])),
        ("deprecated", boolean(false)),
    ]));
    assert_eq!(
        schema,
        IntegerSchema {
            title: Some("Count".to_string()),
            description: None,
            range: here(),
            minimum: Some(1),
            maximum: Some(65535),
            exclusive_minimum: Some(0),
            exclusive_maximum: Some(65536),
            multiple_of: Some(1),
            enumerate: Some(vec![80, 443]),
            default: Some(80),
            const_value: None,
            examples: Some(vec![-1]),
            deprecated: Some(false),
        }
    );
    assert_eq!(schema.value_type(), ValueType::Integer);
}

#[test]
fn local_date_schema_reads_its_properties() {
    let schema = LocalDateSchema::new(&object(vec![
        ("description", string("Day")),
        ("enum", array(vec![string("2001-02-03"), null(), string("2001-02-04")])),
        ("default", string("2001-02-03")),
        ("const", string("2001-02-05")),
        ("examples", array(vec![boolean(true)])),
    ]));
    assert_eq!(
        schema,
        LocalDateSchema {
            title: None,
            description: Some("Day".to_string()),
            range: here(),
            enumerate: Some(vec!["2001-02-03".to_string(), "2001-02-04".to_string()]),
            default: Some("2001-02-03".to_string()),
            const_value: Some("2001-02-05".to_string()),
            examples: Some(vec![]),
            deprecated: None,
        }
    );
    assert_eq!(schema.value_type(), ValueType::LocalDate);
}

#[test]
fn object_node_finds_the_first_property_with_a_key() {
    let node = object(vec![("a", integer(1)), ("b", integer(2)), ("a", integer(3))]);
    assert_eq!(node.get("a"), Some(&integer(1)));
    assert_eq!(node.get("b"), Some(&integer(2)));
    assert_eq!(node.get("c"), None);
    assert_eq!(node.get(""), None);
    assert_eq!(node.len(), 3);
    assert!(!node.is_empty());
    assert!(object(vec![]).is_empty());
}

#[test]
fn value_node_kinds_and_getters() {
    assert!(null().is_null());
    assert!(boolean(true).is_bool());
    assert!(integer(1).is_number());
    assert!(string("s").is_string());
    assert!(array(vec![]).is_array());
    assert!(ValueNode::Object(object(vec![])).is_object());
    assert!(!null().is_bool());
    assert_eq!(boolean(true).as_bool(), Some(true));
    assert_eq!(integer(1).as_bool(), None);
    assert_eq!(integer(-4).as_i64(), Some(-4));
    assert_eq!(integer(-4).as_u64(), None);
    assert_eq!(integer(4).as_u64(), Some(4));
    assert_eq!(float("4").as_i64(), None);
    assert_eq!(string("s").as_str(), Some("s"));
    assert_eq!(null().as_str(), None);
    assert_eq!(array(vec![null()]).as_array().map(|a| a.len()), Some(1));
    assert!(null().as_array().is_none());
    assert!(ValueNode::Object(object(vec![])).as_object().is_some());
    assert!(null().as_object().is_none());
    let node = ArrayNode {
        items: vec![integer(1)],
        range: here(),
    };
    assert_eq!(node.get(0), Some(&integer(1)));
    assert_eq!(node.get(1), None);
    assert!(!node.is_empty());
    assert_eq!(ValueNode::Array(node).range(), here());
    assert_eq!(key("a"), StringNode { value: "a".to_string(), range: here() });
}

#[test]
fn numbers() {
    assert_eq!(Number::from_i64(-3), Number::Integer(-3));
    assert_eq!(Number::from_u64(3), Number::Integer(3));
    assert!(Number::Integer(0).is_i64());
    assert!(Number::Integer(0).is_u64());
    assert!(!Number::Integer(-1).is_u64());
    assert!(!Number::Integer(0).is_f64());
    let float = Number::Float(FloatText { text: "1.5".to_string() });
    assert!(float.is_f64());
    assert!(!float.is_i64());
    assert_eq!(float.as_i64(), None);
    assert_eq!(float.as_u64(), None);
    assert_eq!(Number::Integer(7).as_u64(), Some(7));
    assert_eq!(Number::Integer(-7).to_string(), "-7");
    assert_eq!(Number::Integer(i64::MIN).to_string(), "-9223372036854775808");
    assert_eq!(float.to_string(), "1.5");
    assert_eq!(Number::Float(FloatText { text: "2".to_string() }).to_string(), "2.0");
    assert_eq!(Number::Float(FloatText { text: "-2".to_string() }).to_string(), "-2.0");
    assert_eq!(Number::Float(FloatText { text: "inf".to_string() }).to_string(), "inf");
    assert_eq!(Number::Float(FloatText { text: "NaN".to_string() }).to_string(), "NaN");
    assert_eq!(float.duplicate(), float);
}

#[test]
fn value_nodes_render_as_json() {
    let node = ValueNode::Object(object(vec![
        ("a", array(vec![integer(1), null(), boolean(false), float("2"), string("x\"y")])),
        ("b", ValueNode::Object(object(vec![]))),
        ("c", array(vec![])),
    ]));
    assert_eq!(
        node.to_string(),
        "{a: [1, null, false, 2.0, \"x\"y\"], b: {}, c: []}"
    );
    assert_eq!(object(vec![("k", integer(1))]).to_string(), "{k: 1}");
    assert_eq!(
        ArrayNode { items: vec![integer(1), integer(2)], range: here() }.to_string(),
        "[1, 2]"
    );
}

#[test]
fn nodes_become_values() {
    let node = ValueNode::Object(object(vec![
        ("a", integer(1)),
        ("b", array(vec![null(), string("s")])),
        ("a", boolean(true)),
    ]));
    let value = Value::from_node(&node);
    let mut expected = Object::new();
    expected.insert("a".to_string(), Value::Bool(true));
    expected.insert(
        "b".to_string(),
        Value::Array(vec![Value::Null, Value::String("s".to_string())]),
    );
    assert_eq!(value, Value::Object(expected));
    let object_value = Object::from_node(&object(vec![("x", float("1.5"))]));
    assert_eq!(object_value.len(), 1);
    assert_eq!(
        object_value.get("x"),
        Some(&Value::Number(Number::Float(FloatText { text: "1.5".to_string() })))
    );
    assert_eq!(object_value.get("y"), None);
    assert_eq!(
        Value::from_array_node(&ArrayNode { items: vec![integer(1)], range: here() }),
        Value::Array(vec![Value::Number(Number::Integer(1))])
    );
    assert_eq!(
        Value::from_object_node(&object(vec![])),
        Value::Object(Object::new())
    );
}

#[test]
fn object_keeps_the_order_of_first_insertion() {
    let mut object = Object::new();
    assert!(object.is_empty());
    object.insert("b".to_string(), Value::Bool(true));
    object.insert("a".to_string(), Value::Null);
    object.insert("b".to_string(), Value::Bool(false));
    assert_eq!(object.len(), 2);
    let keys: Vec<&str> = object.entries().iter().map(|(k, _)| k.as_str()).collect();
    assert_eq!(keys, vec!["b", "a"]);
    assert_eq!(object.get("b"), Some(&Value::Bool(false)));
    assert_eq!(object.get("a"), Some(&Value::Null));
}

#[test]
fn display_values_render() {
    assert_eq!(DisplayValue::Boolean(true).to_string(), "true");
    assert_eq!(DisplayValue::Boolean(false).to_string(), "false");
    assert_eq!(DisplayValue::Integer(-42).to_string(), "-42");
    assert_eq!(DisplayValue::Integer(0).to_string(), "0");
    assert_eq!(
        DisplayValue::Float(FloatText { text: "1.5".to_string() }).to_string(),
        "1.5"
    );
    assert_eq!(
        DisplayValue::String("say \"hi\"".to_string()).to_string(),
        "\"say \\\"hi\\\"\""
    );
    assert_eq!(
        DisplayValue::LocalDate("2001-02-03".to_string()).to_string(),
        "2001-02-03"
    );
    assert_eq!(
        DisplayValue::OffsetDateTime("2001-02-03T04:05:06Z".to_string()).to_string(),
        "2001-02-03T04:05:06Z"
    );
    assert_eq!(
        DisplayValue::LocalDateTime("2001-02-03T04:05:06".to_string()).to_string(),
        "2001-02-03T04:05:06"
    );
    assert_eq!(DisplayValue::LocalTime("04:05:06".to_string()).to_string(), "04:05:06");
    assert_eq!(
        DisplayValue::Array(vec![
            DisplayValue::Integer(1),
            DisplayValue::Array(vec![]),
            DisplayValue::String("a".to_string()),
        ])
        .to_string(),
        "[1, [], \"a\"]"
    );
    assert_eq!(
        DisplayValue::Table(vec![
            ("a".to_string(), DisplayValue::Integer(1)),
            ("b".to_string(), DisplayValue::Table(vec![])),
        ])
        .to_string(),
        "{ a: 1, b: {  } }"
    );
    let value = DisplayValue::Array(vec![DisplayValue::Boolean(true)]);
    assert_eq!(value.clone().to_string(), value.to_string());
}

#[test]
fn json_values_become_display_values() {
    assert!(DisplayValue::try_from_json(&Value::Null).is_err());
    let mut inner = Object::new();
    inner.insert("k".to_string(), Value::Number(Number::Integer(1)));
    let value = Value::Array(vec![
        Value::Bool(true),
        Value::String("s".to_string()),
        Value::Number(Number::Float(FloatText { text: "2.5".to_string() })),
        Value::Object(inner),
    ]);
    assert_eq!(
        DisplayValue::try_from_json(&value).unwrap().to_string(),
        "[true, \"s\", 2.5, { k: 1 }]"
    );
    let mut object = Object::new();
    object.insert("a".to_string(), Value::Null);
    object.insert("b".to_string(), Value::Bool(false));
    object.insert("c".to_string(), Value::Null);
    object.insert("d".to_string(), Value::Array(vec![]));
    assert_eq!(
        DisplayValue::from_object(&object).to_string(),
        "{ b: false, d: [] }"
    );
}

fn texts(values: Option<Vec<DisplayValue>>) -> Option<Vec<String>> {
    values.map(|values| values.iter().map(|value| value.to_string()).collect())
}

#[test]
fn enumerate_of_scalar_schemas() {
    let schema = ValueSchema::Boolean(BooleanSchema {
        const_value: Some(true),
        enumerate: Some(vec![false, true]),
        ..BooleanSchema::default()
    });
    assert_eq!(
        texts(schema.get_enumerate()),
        Some(vec!["true".to_string(), "false".to_string(), "true".to_string()])
    );
    let schema = ValueSchema::Integer(IntegerSchema {
        enumerate: Some(vec![3, 1]),
        ..IntegerSchema::default()
    });
    assert_eq!(
        texts(schema.get_enumerate()),
        Some(vec!["3".to_string(), "1".to_string()])
    );
    let schema = ValueSchema::String(StringSchema {
        const_value: Some("only".to_string()),
        ..StringSchema::default()
    });
    assert_eq!(texts(schema.get_enumerate()), Some(vec!["\"only\"".to_string()]));
    let schema = ValueSchema::Float(FloatSchema {
        const_value: Some(FloatText { text: "0.5".to_string() }),
        enumerate: Some(vec![FloatText { text: "1.5".to_string() }]),
        ..FloatSchema::default()
    });
    assert_eq!(
        texts(schema.get_enumerate()),
        Some(vec!["0.5".to_string(), "1.5".to_string()])
    );
    let schema = ValueSchema::LocalTime(LocalTimeSchema {
        enumerate: Some(vec!["01:02:03".to_string()]),
        ..LocalTimeSchema::default()
    });
    assert_eq!(texts(schema.get_enumerate()), Some(vec!["01:02:03".to_string()]));
    let schema = ValueSchema::LocalDate(LocalDateSchema {
        const_value: Some("2001-02-03".to_string()),
        ..LocalDateSchema::default()
    });
    assert!(matches!(
        schema.get_enumerate().unwrap().as_slice(),
        [DisplayValue::LocalDate(_)]
    ));
}

#[test]
fn enumerate_of_nothing_is_none() {
    assert!(ValueSchema::Null.get_enumerate().is_none());
    assert!(ValueSchema::Array(ArraySchema::default()).get_enumerate().is_none());
    assert!(ValueSchema::Boolean(BooleanSchema::default()).get_enumerate().is_none());
    assert!(ValueSchema::Integer(IntegerSchema {
        enumerate: Some(vec![]),
        ..IntegerSchema::default()
    })
    .get_enumerate()
    .is_none());
    assert!(get_enumerate_from_schemas(&vec![]).is_none());
    assert!(get_enumerate_from_schemas(&vec![Referable::Ref("#/x".to_string())]).is_none());
}

#[test]
fn enumerate_of_combinations() {
    let flag = || {
        Referable::Resolved(ValueSchema::Boolean(BooleanSchema {
            const_value: Some(true),
            ..BooleanSchema::default()
        }))
    };
    let numbers = || {
        Referable::Resolved(ValueSchema::Integer(IntegerSchema {
            enumerate: Some(vec![1, 2]),
            ..IntegerSchema::default()
        }))
    };
    let nested = Referable::Resolved(ValueSchema::AnyOf(AnyOfSchema {
        range: Range::default(),
        schemas: vec![numbers(), Referable::Ref("#/defs/x".to_string()), flag()],
    }));
    let schema = ValueSchema::OneOf(OneOfSchema {
        range: Range::default(),
        schemas: vec![
            flag(),
            Referable::Resolved(ValueSchema::Null),
            nested,
            Referable::Resolved(ValueSchema::AllOf(AllOfSchema {
                range: Range::default(),
                schemas: vec![],
            })),
        ],
    });
    assert_eq!(
        texts(schema.get_enumerate()),
        Some(vec![
            "true".to_string(),
            "1".to_string(),
            "2".to_string(),
            "true".to_string()
        ])
    );
    assert_eq!(
        texts(get_enumerate_from_schemas(&vec![numbers(), flag()])),
        Some(vec!["1".to_string(), "2".to_string(), "true".to_string()])
    );
}

#[test]
fn display_values_of_date_time_texts() {
    assert_eq!(
        DisplayValue::try_new_local_time("07:32:00").unwrap().to_string(),
        "07:32:00"
    );
    assert!(matches!(
        DisplayValue::try_new_local_time("07:32:00.5"),
        Ok(DisplayValue::LocalTime(_))
    ));
    assert!(matches!(
        DisplayValue::try_new_local_time("24:00:00"),
        Err(tombi::date_time::Error::ExpectedLocalTime)
    ));
    assert!(matches!(
        DisplayValue::try_new_local_time("1979-05-27"),
        Err(tombi::date_time::Error::ExpectedLocalTime)
    ));
    assert!(matches!(
        DisplayValue::try_new_local_date("1979-05-27"),
        Ok(DisplayValue::LocalDate(_))
    ));
    assert!(matches!(
        DisplayValue::try_new_local_date("1979-5-27"),
        Err(tombi::date_time::Error::ExpectedLocalDate)
    ));
    assert!(matches!(
        DisplayValue::try_new_local_date(""),
        Err(tombi::date_time::Error::ExpectedLocalDate)
    ));
    assert!(matches!(
        DisplayValue::try_new_local_date_time("1979-05-27T07:32:00"),
        Ok(DisplayValue::LocalDateTime(_))
    ));
    assert!(matches!(
        DisplayValue::try_new_local_date_time("1979-05-27T07:32:00Z"),
        Err(tombi::date_time::Error::ExpectedLocalDateTime)
    ));
    assert!(matches!(
        DisplayValue::try_new_offset_date_time("1979-05-27T07:32:00"),
        Ok(DisplayValue::OffsetDateTime(_))
    ));
    assert!(matches!(
        DisplayValue::try_new_offset_date_time("1979-05-27T07:32:00Z"),
        Err(tombi::date_time::Error::ExpectedLocalDateTime)
    ));
}

#[test]
fn value_nodes_can_be_changed_in_place() {
    let mut node = array(vec![integer(1)]);
    node.as_array_mut().unwrap().items.push(integer(2));
    assert_eq!(node, array(vec![integer(1), integer(2)]));
    assert!(node.as_object_mut().is_none());
    let mut node = ValueNode::Object(object(vec![]));
    node.as_object_mut()
        .unwrap()
        .properties
        .push((key("a"), boolean(true)));
    assert_eq!(node.as_object().unwrap().get("a"), Some(&boolean(true)));
    assert!(node.as_array_mut().is_none());
    let mut scalar = integer(1);
    assert!(scalar.as_array_mut().is_none());
    assert!(scalar.as_object_mut().is_none());
    assert_eq!(scalar, integer(1));
}

#[test]
fn nodes_and_values_can_be_copied() {
    let node = ValueNode::Object(object(vec![
        ("a", array(vec![integer(1), null(), float("2.5"), string("s")])),
        ("b", boolean(true)),
    ]));
    assert_eq!(node.clone(), node);
    assert_eq!(node.clone().to_string(), node.to_string());
    let inner = node.as_object().unwrap();
    assert_eq!(inner.clone(), *inner);
    let items = ArrayNode { items: vec![integer(1)], range: here() };
    assert_eq!(items.clone(), items);
    let value = Value::from_node(&node);
    assert_eq!(value.clone(), value);
    let mut object = Object::new();
    object.insert("k".to_string(), value);
    assert_eq!(object.clone(), object);
}
