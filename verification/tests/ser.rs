use xml_rpc::{Double, EncodeError, Serializer, Value};

fn double(v: f64) -> Double {
    Double::parse(&v.to_string()).unwrap()
}

fn seq_of(items: Vec<Value>) -> Value {
    let mut seq = Serializer {}.serialize_seq(Some(items.len())).unwrap();
    for item in items {
        seq.serialize_element(item).unwrap();
    }
    seq.end().unwrap()
}

fn ints(items: &[i8]) -> Value {
    seq_of(items.iter().map(|v| Serializer {}.serialize_i8(*v).unwrap()).collect())
}

fn map_of(entries: Vec<(Value, Value)>) -> Result<Value, EncodeError> {
    let mut map = Serializer {}.serialize_map(Some(entries.len()))?;
    for (key, value) in entries {
        map.serialize_key(key)?;
        map.serialize_value(value)?;
    }
    map.end()
}

fn expected_lists(names: [&str; 3]) -> Value {
    Value::Struct(vec![
        (
            names[0].into(),
            Value::Array(vec![Value::Int(44), Value::Int(12)]),
        ),
        (names[1].into(), Value::Array(vec![])),
        (
            names[2].into(),
            Value::Array(vec![Value::Int(-3), Value::Int(44), Value::Int(28)]),
        ),
    ])
}

#[test]
fn writes_bool() {
    assert_eq!(Serializer {}.serialize_bool(true).unwrap(), Value::Bool(true));
    assert_eq!(Serializer {}.serialize_bool(false).unwrap(), Value::Bool(false));
}

#[test]
fn writes_integers_as_ints_or_strings_if_too_big() {
    assert_eq!(Serializer {}.serialize_u8(200u8).unwrap(), Value::Int(200));
    assert_eq!(
        Serializer {}.serialize_u16(42_000u16).unwrap(),
        Value::Int(42_000)
    );
    assert_eq!(
        Serializer {}.serialize_u32(4_200_000_000u32).unwrap(),
        Value::String("4200000000".into())
    );
    assert_eq!(
        Serializer {}
            .serialize_u64(10_000_000_000_000_000_000u64)
            .unwrap(),
        Value::String("10000000000000000000".into())
    );
    assert_eq!(
        Serializer {}.serialize_i8(-42 as i8).unwrap(),
        Value::Int(-42)
    );
    assert_eq!(
        Serializer {}.serialize_i16(-26_000 as i16).unwrap(),
        Value::Int(-26_000)
    );
    assert_eq!(
        Serializer {}.serialize_i32(-2_000_000_000 as i32).unwrap(),
        Value::Int(-2000000000)
    );
    assert_eq!(
        Serializer {}
            .serialize_i64(-8_000_000_000_000_000_000 as i64)
            .unwrap(),
        Value::String("-8000000000000000000".into())
    );
    assert_eq!(Serializer {}.serialize_i8(42i8).unwrap(), Value::Int(42));
    assert_eq!(
        Serializer {}.serialize_i16(26_000i16).unwrap(),
        Value::Int(26_000)
    );
    assert_eq!(
        Serializer {}.serialize_i32(2_000_000_000i32).unwrap(),
        Value::Int(2000000000)
    );
    assert_eq!(
        Serializer {}
            .serialize_i64(8_000_000_000_000_000_000i64)
            .unwrap(),
        Value::String("8000000000000000000".into())
    );
}

#[test]
fn writes_floats() {
    assert_eq!(
        Serializer {}
            .serialize_f64(double(f64::from(3.25f32)))
            .unwrap(),
        Value::Double(double(3.25f64))
    );
    assert_eq!(
        Serializer {}.serialize_f64(double(3.25f64)).unwrap(),
        Value::Double(double(3.25f64))
    );
}

#[test]
fn writes_chars_as_strings() {
    assert_eq!(
        Serializer {}.serialize_char('A').unwrap(),
        Value::String("A".into())
    );
    assert_eq!(
        Serializer {}.serialize_char(' ').unwrap(),
        Value::String(" ".into())
    );
}

#[test]
fn writes_strings() {
    assert_eq!(
        Serializer {}.serialize_str("static string").unwrap(),
        Value::String("static string".into())
    );
    assert_eq!(
        Serializer {}
            .serialize_str(&String::from("string object"))
            .unwrap(),
        Value::String("string object".into())
    );
}

#[test]
fn writes_bytes_as_base64() {
    assert_eq!(
        Serializer {}.serialize_bytes(b"0123").unwrap(),
        Value::Base64(vec![48, 49, 50, 51])
    );
}

#[test]
fn writes_options_as_one_elem_or_empty_array() {
    assert_eq!(
        Serializer {}.serialize_none().unwrap(),
        Value::Array(Vec::new())
    );
    assert_eq!(
        Serializer {}
            .serialize_some(Serializer {}.serialize_i32(33i32).unwrap())
            .unwrap(),
        Value::Array(vec![Value::Int(33)])
    );
    assert_eq!(
        Serializer {}
            .serialize_some(Serializer {}.serialize_str("txt").unwrap())
            .unwrap(),
        Value::Array(vec![Value::String("txt".into())])
    );
}

#[test]
fn writes_units_as_empty_struct() {
    assert_eq!(
        Serializer {}.serialize_unit().unwrap(),
        Value::Struct(Vec::new())
    );

    assert_eq!(
        Serializer {}.serialize_unit_struct("Helper").unwrap(),
        Value::Struct(Vec::new())
    );
}

#[test]
fn writes_newtype_struct_as_its_content() {
    assert_eq!(
        Serializer {}
            .serialize_newtype_struct("HelperInt", Serializer {}.serialize_i32(33).unwrap())
            .unwrap(),
        Value::Int(33)
    );
    assert_eq!(
        Serializer {}
            .serialize_newtype_struct("HelperString", Serializer {}.serialize_str("txt").unwrap())
            .unwrap(),
        Value::String("txt".into())
    );
}

#[test]
fn writes_vector_as_array() {
    assert_eq!(
        seq_of(
            [33, 15, 44, 12]
                .iter()
                .map(|v| Serializer {}.serialize_i32(*v).unwrap())
                .collect()
        ),
        Value::Array(vec![
            Value::Int(33),
            Value::Int(15),
            Value::Int(44),
            Value::Int(12),
        ])
    );
    assert_eq!(
        seq_of(
            ['a', 'b', 'c', 'd']
                .iter()
                .map(|v| Serializer {}.serialize_char(*v).unwrap())
                .collect()
        ),
        Value::Array(vec![
            Value::String("a".into()),
            Value::String("b".into()),
            Value::String("c".into()),
            Value::String("d".into()),
        ])
    );
}

#[test]
fn writes_tuple_as_array() {
    let mut tuple = Serializer {}.serialize_tuple(4).unwrap();
    tuple
        .serialize_element(Serializer {}.serialize_i32(4).unwrap())
        .unwrap();
    tuple
        .serialize_element(Serializer {}.serialize_i64(1_000_000_000_000i64).unwrap())
        .unwrap();
    tuple
        .serialize_element(Serializer {}.serialize_str("hello").unwrap())
        .unwrap();
    tuple
        .serialize_element(Serializer {}.serialize_bool(true).unwrap())
        .unwrap();
    assert_eq!(
        tuple.end().unwrap(),
        Value::Array(vec![
            Value::Int(4),
            Value::String("1000000000000".into()),
            Value::String("hello".into()),
            Value::Bool(true),
        ])
    );

    let mut helper = Serializer {}.serialize_tuple_struct("Helper", 4).unwrap();
    helper
        .serialize_field(Serializer {}.serialize_u8(4).unwrap())
        .unwrap();
    helper
        .serialize_field(Serializer {}.serialize_u64(1_000_000_000_000u64).unwrap())
        .unwrap();
    helper
        .serialize_field(Serializer {}.serialize_str("hello").unwrap())
        .unwrap();
    helper
        .serialize_field(Serializer {}.serialize_bool(true).unwrap())
        .unwrap();
    assert_eq!(
        helper.end().unwrap(),
        Value::Array(vec![
            Value::Int(4),
            Value::String("1000000000000".into()),
            Value::String("hello".into()),
            Value::Bool(true),
        ])
    );
}

#[test]
fn writes_struct_as_struct() {
    let mut helper = Serializer {}.serialize_struct("Helper", 4).unwrap();
    helper
        .serialize_field("foo", Serializer {}.serialize_u8(4).unwrap())
        .unwrap();
    helper
        .serialize_field(
            "bar",
            Serializer {}.serialize_u64(1_000_000_000_000u64).unwrap(),
        )
        .unwrap();
    helper
        .serialize_field("baz", Serializer {}.serialize_str("hello").unwrap())
        .unwrap();
    helper
        .serialize_field("qux", Serializer {}.serialize_bool(true).unwrap())
        .unwrap();

    assert_eq!(
        helper.end().unwrap(),
        Value::Struct(vec![
            ("foo".into(), Value::Int(4)),
            ("bar".into(), Value::String("1000000000000".into())),
            ("baz".into(), Value::String("hello".into())),
            ("qux".into(), Value::Bool(true)),
        ])
    );
}

#[test]
fn writes_map_as_struct() {
    let data = vec![
        (Serializer {}.serialize_str("foo").unwrap(), ints(&[44, 12])),
        (Serializer {}.serialize_str("bar").unwrap(), ints(&[])),
        (
            Serializer {}.serialize_str("baz").unwrap(),
            ints(&[-3, 44, 28]),
        ),
    ];

    assert_eq!(map_of(data).unwrap(), expected_lists(["foo", "bar", "baz"]));
}

#[test]
fn ser_map_accepts_string_keys() {
    let data = vec![
        (
            Serializer {}.serialize_str(&String::from("foo")).unwrap(),
            ints(&[44, 12]),
        ),
        (
            Serializer {}.serialize_str(&String::from("bar")).unwrap(),
            ints(&[]),
        ),
        (
            Serializer {}.serialize_str(&String::from("baz")).unwrap(),
            ints(&[-3, 44, 28]),
        ),
    ];

    assert_eq!(map_of(data).unwrap(), expected_lists(["foo", "bar", "baz"]));
}

#[test]
fn ser_map_accepts_integer_keys() {
    let data = vec![
        (Serializer {}.serialize_i32(12).unwrap(), ints(&[44, 12])),
        (Serializer {}.serialize_i32(-33).unwrap(), ints(&[])),
        (Serializer {}.serialize_i32(44).unwrap(), ints(&[-3, 44, 28])),
    ];

    assert_eq!(map_of(data).unwrap(), expected_lists(["12", "-33", "44"]));
}

#[test]
fn ser_map_accepts_char_keys() {
    let data = vec![
        (Serializer {}.serialize_char('a').unwrap(), ints(&[44, 12])),
        (Serializer {}.serialize_char('b').unwrap(), ints(&[])),
        (
            Serializer {}.serialize_char('c').unwrap(),
            ints(&[-3, 44, 28]),
        ),
    ];

    assert_eq!(map_of(data).unwrap(), expected_lists(["a", "b", "c"]));
}

#[test]
fn ser_map_accepts_boolean_keys() {
    let data = vec![
        (Serializer {}.serialize_bool(true).unwrap(), ints(&[44, 12])),
        (Serializer {}.serialize_bool(false).unwrap(), ints(&[])),
    ];

    assert_eq!(
        map_of(data).unwrap(),
        Value::Struct(vec![
            (
                "true".into(),
                Value::Array(vec![Value::Int(44), Value::Int(12)]),
            ),
            ("false".into(), Value::Array(vec![])),
        ])
    );
}

#[test]
fn rejects_maps_with_unsupported_keys() {
    let some = |v: i32| {
        Serializer {}
            .serialize_some(Serializer {}.serialize_i32(v).unwrap())
            .unwrap()
    };
    let data = vec![
        (some(4), ints(&[44, 12])),
        (some(3), ints(&[])),
        (some(2), ints(&[-3, 44, 28])),
    ];
    assert_eq!(map_of(data).unwrap_err(), EncodeError::UnsupportedKey);
}

#[test]
fn writes_variant_as_one_member_struct() {
    assert_eq!(
        Serializer {}
            .serialize_unit_variant("Helper", 0, "Foo")
            .unwrap(),
        Value::Struct(vec![("Foo".into(), Value::Struct(vec![]))])
    );

    assert_eq!(
        Serializer {}
            .serialize_newtype_variant("Helper", 1, "Bar", Serializer {}.serialize_i32(44).unwrap())
            .unwrap(),
        Value::Struct(vec![("Bar".into(), Value::Int(44))])
    );

    let mut baz = Serializer {}
        .serialize_tuple_variant("Helper", 2, "Baz", 2)
        .unwrap();
    baz.serialize_field(Serializer {}.serialize_bool(false).unwrap())
        .unwrap();
    baz.serialize_field(Serializer {}.serialize_str("tsk").unwrap())
        .unwrap();
    assert_eq!(
        baz.end().unwrap(),
        Value::Struct(vec![(
            "Baz".into(),
            Value::Array(vec![Value::Bool(false), Value::String("tsk".into())]),
        )])
    );

    let mut qux = Serializer {}
        .serialize_struct_variant("Helper", 3, "Qux", 2)
        .unwrap();
    qux.serialize_field("alpha", Serializer {}.serialize_i32(-4).unwrap())
        .unwrap();
    qux.serialize_field(
        "beta",
        seq_of(
            [true, false, true]
                .iter()
                .map(|v| Serializer {}.serialize_bool(*v).unwrap())
                .collect(),
        ),
    )
    .unwrap();
    assert_eq!(
        qux.end().unwrap(),
        Value::Struct(vec![(
            "Qux".into(),
            Value::Struct(vec![
                ("alpha".into(), Value::Int(-4)),
                (
                    "beta".into(),
                    Value::Array(vec![
                        Value::Bool(true),
                        Value::Bool(false),
                        Value::Bool(true),
                    ]),
                ),
            ]),
        )])
    );
}
