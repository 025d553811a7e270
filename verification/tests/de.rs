use xml_rpc::{Double, Value};

fn double(v: f64) -> Value {
    Value::Double(Double::parse(&v.to_string()).unwrap())
}

fn elements(value: Value) -> Vec<Value> {
    let mut cursor = value.deserialize_seq().unwrap();
    let mut out = Vec::new();
    while let Some(item) = cursor.next_element() {
        out.push(item);
    }
    cursor.end().unwrap();
    out
}

fn entries(value: Value) -> Vec<(Value, Value)> {
    let mut cursor = value.deserialize_map().unwrap();
    let mut out = Vec::new();
    while let Some(key) = cursor.next_key() {
        out.push((key, cursor.next_value().unwrap()));
    }
    out
}

fn small_ints(value: Value) -> Vec<i8> {
    elements(value)
        .into_iter()
        .map(|v| v.deserialize_i8().unwrap())
        .collect()
}

fn lists(names: [&str; 3]) -> Value {
    Value::Struct(vec![
        (
            names[0].into(),
            Value::Array(vec![Value::Int(44), Value::Int(12)]),
        ),
        (names[1].into(), Value::Array(vec![])),
        (
            names[2].into(),
            Value::Array(vec![Value::Int(-3), Value::Int(44), Value::Int(28)]),
        ),
    ])
}

#[test]
fn reads_bool() {
    assert_eq!(true, Value::Bool(true).deserialize_bool().unwrap());
    assert_eq!(false, Value::Bool(false).deserialize_bool().unwrap());
}

#[test]
fn reads_integers_as_ints_or_strings_if_too_big() {
    assert_eq!(200u8, Value::Int(200).deserialize_u8().unwrap());
    assert_eq!(42_000u16, Value::Int(42_000).deserialize_u16().unwrap());
    assert_eq!(
        4_200_000_000u32,
        Value::String("4200000000".into())
            .deserialize_u32()
            .unwrap()
    );
    assert_eq!(
        10_000_000_000_000_000_000u64,
        Value::String("10000000000000000000".into())
            .deserialize_u64()
            .unwrap()
    );
    assert_eq!((-42 as i8), Value::Int(-42).deserialize_i8().unwrap());
    assert_eq!(
        (-26_000 as i16),
        Value::Int(-26_000).deserialize_i16().unwrap()
    );
    assert_eq!(
        (-2_000_000_000 as i32),
        Value::Int(-2000000000).deserialize_i32().unwrap()
    );
    assert_eq!(
        (-8_000_000_000_000_000_000 as i64),
        Value::String("-8000000000000000000".into())
            .deserialize_i64()
            .unwrap()
    );
    assert_eq!(42i8, Value::Int(42).deserialize_i8().unwrap());
    assert_eq!(26_000i16, Value::Int(26_000).deserialize_i16().unwrap());
    assert_eq!(
        2_000_000_000i32,
        Value::Int(2000000000).deserialize_i32().unwrap()
    );
    assert_eq!(
        8_000_000_000_000_000_000i64,
        Value::String("8000000000000000000".into())
            .deserialize_i64()
            .unwrap()
    );
}

#[test]
fn reads_floats() {
    let read: f64 = double(3.25f64)
        .deserialize_f64()
        .unwrap()
        .as_str()
        .parse()
        .unwrap();
    assert_eq!(3.25f32, read as f32);
    assert_eq!(3.25f64, read);
}

#[test]
fn reads_chars_as_strings() {
    assert_eq!('A', Value::String("A".into()).deserialize_char().unwrap());
    assert_eq!(' ', Value::String(" ".into()).deserialize_char().unwrap());
}

#[test]
fn reads_strings() {
    assert_eq!(
        String::from("string object"),
        Value::String("string object".into())
            .deserialize_string()
            .unwrap()
    );
}

#[test]
fn reads_bytes_as_base64() {
    let data: Vec<u8> = Value::Base64(vec![48, 49, 50, 51])
        .deserialize_byte_buf()
        .unwrap();
    assert_eq!(data, vec![48, 49, 50, 51]);
}

#[test]
fn reads_options_as_one_elem_or_empty_array() {
    let none: Option<i32> = None;
    assert_eq!(
        none,
        Value::Array(Vec::new())
            .deserialize_option()
            .unwrap()
            .map(|v| v.deserialize_i32().unwrap())
    );
    assert_eq!(
        Some(33i32),
        Value::Array(vec![Value::Int(33)])
            .deserialize_option()
            .unwrap()
            .map(|v| v.deserialize_i32().unwrap())
    );
    assert_eq!(
        Some(String::from("txt")),
        Value::Array(vec![Value::String("txt".into())])
            .deserialize_option()
            .unwrap()
            .map(|v| v.deserialize_string().unwrap())
    );
}

#[test]
fn reads_units_as_empty_struct() {
    assert_eq!(
        (),
        Value::Struct(Vec::new())
            .deserialize_unit_struct("Helper")
            .unwrap()
    );
}

#[test]
fn reads_newtype_struct_as_its_content() {
    assert_eq!(
        33,
        Value::Int(33)
            .deserialize_newtype_struct("HelperInt")
            .unwrap()
            .deserialize_i32()
            .unwrap()
    );
    assert_eq!(
        String::from("txt"),
        Value::String("txt".into())
            .deserialize_newtype_struct("HelperString")
            .unwrap()
            .deserialize_string()
            .unwrap()
    );
}

#[test]
fn reads_vector_as_array() {
    assert_eq!(
        vec![33usize, 15, 44, 12],
        elements(Value::Array(vec![
            Value::Int(33),
            Value::Int(15),
            Value::Int(44),
            Value::Int(12),
        ]))
        .into_iter()
        .map(|v| v.deserialize_u64().unwrap() as usize)
        .collect::<Vec<usize>>()
    );
    assert_eq!(
        vec!['a', 'b', 'c', 'd'],
        elements(Value::Array(vec![
            Value::String("a".into()),
            Value::String("b".into()),
            Value::String("c".into()),
            Value::String("d".into()),
        ]))
        .into_iter()
        .map(|v| v.deserialize_char().unwrap())
        .collect::<Vec<char>>()
    );
}

#[test]
fn reads_tuple_as_array() {
    let mut helper = Value::Array(vec![
        Value::Int(4),
        Value::String("1000000000000".into()),
        Value::String("hello".into()),
        Value::Bool(true),
    ])
    .deserialize_tuple_struct("Helper", 4)
    .unwrap();

    assert_eq!(
        (4u8, 1_000_000_000_000u64, String::from("hello"), true),
        (
            helper.next_element().unwrap().deserialize_u8().unwrap(),
            helper.next_element().unwrap().deserialize_u64().unwrap(),
            helper.next_element().unwrap().deserialize_string().unwrap(),
            helper.next_element().unwrap().deserialize_bool().unwrap(),
        )
    );
    helper.end().unwrap();
}

#[test]
fn reads_struct_as_struct() {
    let members = Value::Struct(vec![
        ("foo".into(), Value::Int(4)),
        ("bar".into(), Value::String("1000000000000".into())),
        ("baz".into(), Value::String("hello".into())),
        ("qux".into(), Value::Bool(true)),
    ]);

    let mut fields = members
        .deserialize_struct("Helper", &["foo", "bar", "baz", "qux"])
        .unwrap()
        .into_iter();
    assert_eq!(
        (4u8, 1_000_000_000_000u64, String::from("hello"), true),
        (
            fields.next().unwrap().deserialize_u8().unwrap(),
            fields.next().unwrap().deserialize_u64().unwrap(),
            fields.next().unwrap().deserialize_string().unwrap(),
            fields.next().unwrap().deserialize_bool().unwrap(),
        )
    );
}

#[test]
fn reads_map_as_struct() {
    let data = vec![
        (String::from("foo"), vec![44i8, 12]),
        (String::from("bar"), vec![]),
        (String::from("baz"), vec![-3, 44, 28]),
    ];

    assert_eq!(
        data,
        entries(lists(["foo", "bar", "baz"]))
            .into_iter()
            .map(|(k, v)| (k.deserialize_string().unwrap(), small_ints(v)))
            .collect::<Vec<_>>()
    );
}

#[test]
fn de_map_accepts_string_keys() {
    let data = vec![
        (String::from("foo"), vec![44i8, 12]),
        (String::from("bar"), vec![]),
        (String::from("baz"), vec![-3, 44, 28]),
    ];

    assert_eq!(
        data,
        entries(lists(["foo", "bar", "baz"]))
            .into_iter()
            .map(|(k, v)| (k.deserialize_string().unwrap(), small_ints(v)))
            .collect::<Vec<_>>()
    );
}

#[test]
fn de_map_accepts_integer_keys() {
    let data = vec![(12, vec![44i8, 12]), (-33, vec![]), (44, vec![-3, 44, 28])];

    assert_eq!(
        data,
        entries(lists(["12", "-33", "44"]))
            .into_iter()
            .map(|(k, v)| (k.deserialize_i32().unwrap(), small_ints(v)))
            .collect::<Vec<_>>()
    );
}

#[test]
fn de_map_accepts_char_keys() {
    let data = vec![
        ('a', vec![44i8, 12]),
        ('b', vec![]),
        ('c', vec![-3, 44, 28]),
    ];

    assert_eq!(
        data,
        entries(lists(["a", "b", "c"]))
            .into_iter()
            .map(|(k, v)| (k.deserialize_char().unwrap(), small_ints(v)))
            .collect::<Vec<_>>()
    );
}

#[test]
fn de_map_accepts_boolean_keys() {
    let data = vec![(true, vec![44i8, 12]), (false, vec![])];

    let members = Value::Struct(vec![
        (
            "true".into(),
            Value::Array(vec![Value::Int(44), Value::Int(12)]),
        ),
        ("false".into(), Value::Array(vec![])),
    ]);

    assert_eq!(
        data,
        entries(members)
            .into_iter()
            .map(|(k, v)| (k.deserialize_bool().unwrap(), small_ints(v)))
            .collect::<Vec<_>>()
    );
}

#[test]
fn reads_variant_as_one_member_struct() {
    let variants = ["Foo", "Bar", "Baz", "Qux"];

    let foo = Value::Struct(vec![("Foo".into(), Value::Struct(vec![]))])
        .deserialize_enum("Helper", &variants)
        .unwrap();
    let (name, content) = foo.variant_seed();
    assert_eq!("Foo", name.deserialize_string().unwrap());
    assert_eq!((), content.unit_variant().unwrap());

    let bar = Value::Struct(vec![("Bar".into(), Value::Int(44))])
        .deserialize_enum("Helper", &variants)
        .unwrap();
    let (name, content) = bar.variant_seed();
    assert_eq!("Bar", name.deserialize_string().unwrap());
    assert_eq!(
        44,
        content
            .newtype_variant_seed()
            .unwrap()
            .deserialize_i32()
            .unwrap()
    );

    let baz = Value::Struct(vec![(
        "Baz".into(),
        Value::Array(vec![Value::Bool(false), Value::String("tsk".into())]),
    )])
    .deserialize_enum("Helper", &variants)
    .unwrap();
    let (name, content) = baz.variant_seed();
    assert_eq!("Baz", name.deserialize_string().unwrap());
    let mut fields = content.tuple_variant(2).unwrap();
    assert_eq!(
        (false, String::from("tsk")),
        (
            fields.next_element().unwrap().deserialize_bool().unwrap(),
            fields.next_element().unwrap().deserialize_string().unwrap(),
        )
    );
    fields.end().unwrap();

    let qux = Value::Struct(vec![(
        "Qux".into(),
        Value::Struct(vec![
            ("alpha".into(), Value::Int(-4)),
            (
                "beta".into(),
                Value::Array(vec![
                    Value::Bool(true),
                    Value::Bool(false),
                    Value::Bool(true),
                ]),
            ),
        ]),
    )])
    .deserialize_enum("Helper", &variants)
    .unwrap();
    let (name, content) = qux.variant_seed();
    assert_eq!("Qux", name.deserialize_string().unwrap());
    let mut fields = content
        .struct_variant(&["alpha", "beta"])
        .unwrap()
        .into_iter();
    assert_eq!(-4, fields.next().unwrap().deserialize_i32().unwrap());
    assert_eq!(
        vec![true, false, true],
        elements(fields.next().unwrap())
            .into_iter()
            .map(|v| v.deserialize_bool().unwrap())
            .collect::<Vec<bool>>()
    );
}
