use quick_xml::writer::Writer;
use xml_rpc::markup::parse_document;
use xml_rpc::{DateTime, Double, Value};

fn double(v: f64) -> Value {
    Value::Double(Double::parse(&v.to_string()).unwrap())
}

fn number(v: Value) -> f64 {
    v.into_f64().unwrap().as_str().parse().unwrap()
}

fn write_string(value: Value) -> String {
    let mut writer = Writer::new(Vec::new());
    value.write_xml(&mut writer);
    String::from_utf8(writer.into_inner()).unwrap()
}

#[test]
fn integer_encoding() {
    assert_eq!("<value><i4>12</i4></value>", write_string(Value::Int(12)));

    assert_eq!("<value><i4>-33</i4></value>", write_string(Value::Int(-33)));
}

#[test]
fn bool_encoding() {
    assert_eq!(
        "<value><boolean>1</boolean></value>",
        write_string(Value::Bool(true))
    );
    assert_eq!(
        "<value><boolean>0</boolean></value>",
        write_string(Value::Bool(false))
    );
}

#[test]
fn string_encoding() {
    assert_eq!(
        "<value><string>abcd</string></value>",
        write_string(Value::String("abcd".into()))
    );

    assert_eq!(
        "<value><string>abcd&lt;3</string></value>",
        write_string(Value::String("abcd<3".into()))
    );

    assert_eq!(
        "<value><string></string></value>",
        write_string(Value::String("".into()))
    );
}

#[test]
fn double_encoding() {
    assert_eq!(
        "<value><double>2.5</double></value>",
        write_string(double(2.5))
    );

    assert_eq!(
        "<value><double>-3000000000000</double></value>",
        write_string(double(-3_000_000_000_000.0))
    );

    assert_eq!(
        "<value><double>inf</double></value>",
        write_string(double(f64::INFINITY))
    );

    assert_eq!(
        "<value><double>NaN</double></value>",
        write_string(double(f64::NAN))
    );
}

#[test]
fn datetime_encoding() {
    assert_eq!(
        "<value><dateTime.iso8601>1996-12-19T16:39:57-08:00</dateTime.iso8601></value>",
        write_string(Value::DateTime(
            DateTime::parse_from_rfc3339("1996-12-19T16:39:57-08:00").unwrap()
        ))
    );
}

#[test]
fn base64_encoding() {
    assert_eq!(
        "<value><base64>eW91IGNhbid0IHJlYWQgdGhpcyE=</base64></value>",
        write_string(Value::Base64(b"you can't read this!".to_vec()))
    );
}

#[test]
fn array_encoding() {
    assert_eq!(
        "<value><array><data></data></array></value>",
        write_string(Value::Array(vec![]))
    );

    assert_eq!(
        "<value><array><data>\
            <value><i4>5</i4></value>\
            <value><string>foo</string></value>\
            </data></array></value>",
        write_string(Value::Array(vec![
            Value::Int(5),
            Value::String("foo".into()),
        ]))
    );
}

#[test]
fn struct_encoding() {
    assert_eq!(
        "<value><struct></struct></value>",
        write_string(Value::Struct(vec![]))
    );

    assert_eq!(
        "<value><struct>\
            <member>\
                <name>foo</name>\
                <value><i4>5</i4></value>\
            </member>\
            <member>\
                <name>foo&lt;3</name>\
                <value><string>foo</string></value>\
            </member>\
            </struct></value>",
        write_string(Value::Struct(vec![
            ("foo".into(), Value::Int(5)),
            ("foo<3".into(), Value::String("foo".into())),
        ]))
    );
}

fn read_string(value: &str) -> Value {
    let document = parse_document(value).unwrap();
    Value::read_xml(&document[0]).unwrap()
}

#[test]
fn integer_decoding() {
    assert_eq!(read_string("<value><i4>12</i4></value>"), Value::Int(12));

    assert_eq!(read_string("<value><i4>-33</i4></value>"), Value::Int(-33));
}

#[test]
fn bool_decoding() {
    assert_eq!(
        read_string("<value><boolean>1</boolean></value>"),
        Value::Bool(true)
    );
    assert_eq!(
        read_string("<value><boolean>0</boolean></value>"),
        Value::Bool(false)
    );
}

#[test]
fn string_decoding() {
    assert_eq!(
        read_string("<value><string>abcd</string></value>"),
        Value::String("abcd".into())
    );

    assert_eq!(
        read_string("<value><string>abcd&lt;3</string></value>"),
        Value::String("abcd<3".into())
    );

    assert_eq!(
        read_string("<value><string></string></value>"),
        Value::String("".into())
    );
}

#[test]
fn double_decoding() {
    assert_eq!(
        number(read_string("<value><double>2.5</double></value>")),
        2.5
    );
    assert_eq!(
        read_string("<value><double>2.5</double></value>"),
        double(2.5)
    );

    assert_eq!(
        number(read_string("<value><double>-3000000000000</double></value>")),
        -3_000_000_000_000.0
    );
    assert_eq!(
        read_string("<value><double>-3000000000000</double></value>"),
        double(-3_000_000_000_000.0)
    );

    assert_eq!(
        number(read_string("<value><double>inf</double></value>")),
        f64::INFINITY
    );
    assert_eq!(
        read_string("<value><double>inf</double></value>"),
        double(f64::INFINITY)
    );

    assert!(number(read_string("<value><double>NaN</double></value>")).is_nan());
}

#[test]
fn datetime_decoding() {
    assert_eq!(
        read_string(
            "<value><dateTime.iso8601>1996-12-19T16:39:57-08:00</dateTime.iso8601></value>"
        ),
        Value::DateTime(DateTime::parse_from_rfc3339("1996-12-19T16:39:57-08:00").unwrap())
    );
}

#[test]
fn base64_decoding() {
    assert_eq!(
        read_string("<value><base64>eW91IGNhbid0IHJlYWQgdGhpcyE=</base64></value>"),
        Value::Base64(b"you can't read this!".to_vec())
    );
}

#[test]
fn array_decoding() {
    assert_eq!(
        read_string("<value><array><data></data></array></value>"),
        Value::Array(vec![])
    );

    assert_eq!(
        read_string(
            "<value><array><data>\
            <value><i4>5</i4></value>\
            <value><string>foo</string></value>\
            </data></array></value>"
        ),
        Value::Array(vec![Value::Int(5), Value::String("foo".into()),])
    );
}

#[test]
fn struct_decoding() {
    assert_eq!(
        read_string("<value><struct></struct></value>"),
        Value::Struct(vec![])
    );

    assert_eq!(
        read_string(
            "<value><struct>\
            <member>\
                <name>foo</name>\
                <value><i4>5</i4></value>\
            </member>\
            <member>\
                <name>foo&lt;3</name>\
                <value><string>foo</string></value>\
            </member>\
            </struct></value>"
        ),
        Value::Struct(vec![
            ("foo".into(), Value::Int(5)),
            ("foo<3".into(), Value::String("foo".into())),
        ])
    );
}

#[test]
fn tolerates_whitespace_inside_value_tag() {
    assert_eq!(read_string("<value>   <i4>12</i4></value>"), Value::Int(12));
}
