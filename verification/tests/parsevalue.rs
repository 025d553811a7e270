use xml_rpc::error::LeafKind;
use xml_rpc::{parse, Call, DateTime, DecodeError, Double, Fault, Response, ToXml, Value};

static BAD_DATA: &'static str = "Bad data provided";

fn double(v: f64) -> Value {
    Value::Double(Double::parse(&v.to_string()).unwrap())
}

fn foo_and_bar() -> Value {
    Value::Struct(vec![
        ("foo".into(), Value::Int(42)),
        ("bar".into(), Value::String("baz".into())),
    ])
}

#[test]
fn parsevalue_reads_pod_xml_value() {
    let data = r#"<?xml version="1.0"?><string>South Dakota</string>"#;
    let data = parse::xml(data).expect(BAD_DATA);
    assert_eq!(data, Value::String("South Dakota".into()));
    let data = r#"<?xml version="1.0"?><string />"#;
    let data = parse::xml(data).expect(BAD_DATA);
    assert_eq!(data, Value::String("".into()));
    let data = r#"<?xml version="1.0"?><string></string>"#;
    let data = parse::xml(data).expect(BAD_DATA);
    assert_eq!(data, Value::String("".into()));

    let data = r#"<?xml version="1.0"?><int>-33</int>"#;
    let data = parse::xml(data).expect(BAD_DATA);
    assert_eq!(data, Value::Int(-33));
    let data = r#"<?xml version="1.0"?><i4>-33</i4>"#;
    let data = parse::xml(data).expect(BAD_DATA);
    assert_eq!(data, Value::Int(-33));

    let data = r#"<?xml version="1.0"?><boolean>1</boolean>"#;
    let data = parse::xml(data).expect(BAD_DATA);
    assert_eq!(data, Value::Bool(true));
    let data = r#"<?xml version="1.0"?><boolean>0</boolean>"#;
    let data = parse::xml(data).expect(BAD_DATA);
    assert_eq!(data, Value::Bool(false));

    let data = r#"<?xml version="1.0"?><double>-44.2</double>"#;
    let data = parse::xml(data).expect(BAD_DATA);
    assert_eq!(data, double(-44.2));

    let data = r#"<?xml version="1.0"?><dateTime.iso8601>33</dateTime.iso8601>"#;
    assert_eq!(
        parse::xml(data),
        Err(DecodeError::InvalidLeaf {
            kind: LeafKind::DateTime,
            text: "33".into(),
        })
    );
    let data = r#"<?xml version="1.0"?><dateTime.iso8601>2033-03-03T03:33:33Z</dateTime.iso8601>"#;
    let data = parse::xml(data).expect(BAD_DATA);
    assert_eq!(
        data,
        Value::DateTime(DateTime::parse_from_rfc3339("2033-03-03T03:33:33+00:00").unwrap())
    );

    let data = r#"<?xml version="1.0"?><base64>Zm9vYmFy</base64>"#;
    let data = parse::xml(data).expect(BAD_DATA);
    assert_eq!(data, Value::Base64("foobar".into()));
}

#[test]
fn reads_empty_array_xml_value() {
    let data = r#"<?xml version="1.0"?>
<array>
    <data>
    </data>
</array>"#;
    let data = parse::xml(data).expect(BAD_DATA);
    assert_eq!(data, Value::Array(vec![]));
}

#[test]
fn parsevalue_reads_array_xml_value() {
    let data = r#"<?xml version="1.0"?>
<array>
    <data>
        <value><i4>33</i4></value>
        <value><i4>-12</i4></value>
        <value><i4>44</i4></value>
    </data>
</array>"#;
    let data = parse::xml(data).expect(BAD_DATA);
    assert_eq!(
        data,
        Value::Array(vec![Value::Int(33), Value::Int(-12), Value::Int(44)])
    );
}

#[test]
fn reads_empty_struct_xml_value() {
    let data = r#"<?xml version="1.0"?><struct></struct>"#;
    let data = parse::xml(data).expect(BAD_DATA);
    assert_eq!(data, Value::Struct(Vec::new()));
}

#[test]
fn reads_tagged_and_untagged_strings() {
    let data = r#"<?xml version="1.0"?>
<array>
    <data>
        <value><string>foo</string></value>
        <value><string></string></value>
        <value><string /></value>
        <value>bar</value>
        <value></value>
        <value />
    </data>
</array>"#;
    let data = parse::xml(data).expect(BAD_DATA);
    assert_eq!(
        data,
        Value::Array(vec![
            Value::String("foo".into()),
            Value::String(String::new()),
            Value::String(String::new()),
            Value::String("bar".into()),
            Value::String(String::new()),
            Value::String(String::new()),
        ])
    );
}

#[test]
fn parsevalue_reads_struct_xml_value() {
    let data = r#"<?xml version="1.0"?>
<struct>
    <member>
        <name>foo</name>
        <value><i4>42</i4></value>
    </member>
    <member>
        <name>bar</name>
        <value><string>baz</string></value>
    </member>
</struct>"#;
    let data = parse::xml(data).expect(BAD_DATA);
    assert_eq!(data, foo_and_bar());
}

#[test]
fn parsevalue_reads_response() {
    let fields = Value::Struct(vec![
        ("foo".into(), Value::Int(42)),
        ("bar".into(), Value::String("baz".into())),
        ("bar2".into(), Value::String("baz2".into())),
    ]);
    let params = vec![Value::String("South Dakota".into()), fields];
    let data = r#"<?xml version="1.0"?>
<methodResponse>
    <params>
        <param>
            <value><string>South Dakota</string></value>
        </param>
        <param>
            <value>
                <struct>
                    <member>
                        <name>foo</name>
                        <value><i4>42</i4></value>
                    </member>
                    <member>
                        <name>bar</name>
                        <value><string>baz</string></value>
                    </member>
                    <member>
                        <name>bar2</name>
                        <value>baz2</value>
                    </member>
                </struct>
            </value>
        </param>
    </params>
</methodResponse>"#;
    let data = parse::response(data).expect(BAD_DATA);
    assert_eq!(data, Response::Success(params));
}

#[test]
fn parsevalue_reads_fault() {
    let data = r#"<?xml version="1.0"?>
<methodResponse>
    <fault>
        <value>
            <struct>
                <member>
                    <name>faultCode</name>
                    <value><int>4</int></value>
                </member>
                <member>
                    <name>faultString</name>
                    <value><string>Too many parameters.</string></value>
                </member>
            </struct>
        </value>
    </fault>
</methodResponse>"#;
    let data = parse::response(data).expect(BAD_DATA);
    assert_eq!(
        data,
        Response::Failure(Fault {
            code: 4,
            message: "Too many parameters.".into(),
        })
    );
}

#[test]
fn parsevalue_reads_call() {
    let data = r#"<?xml version="1.0"?>
<methodCall>
    <methodName>foobar</methodName>
    <params>
        <param>
            <value><string>South Dakota</string></value>
        </param>
        <param>
            <value>
                <struct>
                    <member>
                        <name>foo</name>
                        <value><i4>42</i4></value>
                    </member>
                    <member>
                        <name>bar</name>
                        <value><string>baz</string></value>
                    </member>
                </struct>
            </value>
        </param>
    </params>
</methodCall>"#;
    let data = parse::call(data).expect(BAD_DATA);
    assert_eq!(data.name, String::from("foobar"));
    assert_eq!(
        data.params,
        vec![Value::String("South Dakota".into()), foo_and_bar()]
    );
}

#[test]
fn reads_array_structure_xml_value() {
    let data = r#"<?xml version="1.0"?>
<array>
    <data>
        <value><i4>33</i4></value>
        <value><i4>-12</i4></value>
        <value><i4>44</i4></value>
    </data>
</array>"#;
    let data = parse::xml(data).expect(BAD_DATA);
    let mut cursor = data.deserialize_seq().expect(BAD_DATA);
    let mut data = Vec::new();
    while let Some(item) = cursor.next_element() {
        data.push(item.deserialize_i32().expect(BAD_DATA));
    }
    cursor.end().expect(BAD_DATA);
    assert_eq!(data, vec![33, -12, 44]);
}

fn ser_and_de(value: Value) {
    ser_and_de_response_value(Response::Success(vec![value]));
}

fn ser_and_de_call_value(value: Call) {
    let data = value.to_xml();
    let data = parse::call(&data).expect(BAD_DATA);
    assert_eq!(value, data);
}

fn ser_and_de_response_value(value: Response) {
    let data = value.to_xml();
    let data = parse::response(&data).expect(BAD_DATA);
    assert_eq!(value, data);
}

#[test]
fn writes_pod_xml_value() {
    ser_and_de(Value::String("South Dakota".into()));
    ser_and_de(Value::String("".into()));
    ser_and_de(Value::String("".into()));
    ser_and_de(Value::Int(-33));
    ser_and_de(Value::Int(-33));
    ser_and_de(Value::Bool(true));
    ser_and_de(Value::Bool(false));
    ser_and_de(double(-44.2));
    ser_and_de(Value::DateTime(
        DateTime::parse_from_rfc3339("2033-03-03T03:33:33+03:00").unwrap(),
    ));
    ser_and_de(Value::Base64("ASDF=".into()));
}

#[test]
fn writes_array_xml_value() {
    ser_and_de(Value::Array(vec![
        Value::Int(33),
        Value::Int(-12),
        Value::Int(44),
    ]));
}

#[test]
fn writes_struct_xml_value() {
    ser_and_de(foo_and_bar());
}

#[test]
fn writes_response() {
    let params = vec![Value::String("South Dakota".into()), foo_and_bar()];
    ser_and_de_response_value(Response::Success(params))
}

#[test]
fn writes_fault() {
    ser_and_de_response_value(Response::Failure(Fault {
        code: 4,
        message: "Too many parameters.".into(),
    }));
}

#[test]
fn writes_call() {
    ser_and_de_call_value(Call {
        name: String::from("foobar"),
        params: vec![Value::String("South Dakota".into()), foo_and_bar()],
    });
}

#[test]
fn reads_and_writes_empty_call() {
    ser_and_de_call_value(Call {
        name: String::new(),
        params: Vec::new(),
    })
}

#[test]
fn reads_and_writes_empty_response() {
    ser_and_de_response_value(Response::Success(vec![]))
}
