use xml_rpc::{Request, Response, Value};

#[test]
fn encodes_success_response() {
    assert_eq!(
        Response::success(vec![
            Value::String("South Dakota".into()),
            Value::Struct(vec![
                ("foo".into(), Value::Int(42)),
                ("bar".into(), Value::String("baz".into())),
                ("bar2".into(), Value::String("baz2".into())),
            ]),
        ])
        .write_xml_string(),
        "<?xml version=\"1.0\"?>\
        <methodResponse>\
            <params>\
                <param>\
                    <value><string>South Dakota</string></value>\
                </param>\
                <param>\
                    <value>\
                        <struct>\
                            <member>\
                                <name>foo</name>\
                                <value><i4>42</i4></value>\
                            </member>\
                            <member>\
                                <name>bar</name>\
                                <value><string>baz</string></value>\
                            </member>\
                            <member>\
                                <name>bar2</name>\
                                <value><string>baz2</string></value>\
                            </member>\
                        </struct>\
                    </value>\
                </param>\
            </params>\
        </methodResponse>",
    );
}

#[test]
fn encodes_failure_response() {
    assert_eq!(
        Response::failure(4, "Too many parameters.".into()).write_xml_string(),
        "<?xml version=\"1.0\"?>\
        <methodResponse>\
            <fault>\
                <value>\
                    <struct>\
                        <member>\
                            <name>faultCode</name>\
                            <value><i4>4</i4></value>\
                        </member>\
                        <member>\
                            <name>faultString</name>\
                            <value><string>Too many parameters.</string></value>\
                        </member>\
                    </struct>\
                </value>\
            </fault>\
        </methodResponse>",
    );
}

#[test]
fn encodes_request() {
    assert_eq!(
        Request::new(
            "foobar".into(),
            vec![
                Value::String("South Dakota".into()),
                Value::Struct(vec![
                    ("foo".into(), Value::Int(42)),
                    ("bar".into(), Value::String("baz".into())),
                ])
            ]
        )
        .write_xml_string(),
        "<?xml version=\"1.0\"?>\
        <methodCall>\
            <methodName>foobar</methodName>\
            <params>\
                <param>\
                    <value><string>South Dakota</string></value>\
                </param>\
                <param>\
                    <value>\
                        <struct>\
                            <member>\
                                <name>foo</name>\
                                <value><i4>42</i4></value>\
                            </member>\
                            <member>\
                                <name>bar</name>\
                                <value><string>baz</string></value>\
                            </member>\
                        </struct>\
                    </value>\
                </param>\
            </params>\
        </methodCall>",
    );
}

#[test]
fn decodes_success_response() {
    assert_eq!(
        Response::success(vec![
            Value::String("South Dakota".into()),
            Value::Struct(vec![
                ("foo".into(), Value::Int(42)),
                ("bar".into(), Value::String("baz".into())),
                ("bar2".into(), Value::String("baz2".into())),
            ]),
        ]),
        Response::read_xml(
            r#"<?xml version="1.0"?>
<methodResponse>
    <params>
        <param>
            <value><string>South Dakota</string></value>
        </param>
        <param>
            <value>
                <struct>
                    <member>
                        <name>foo</name>
                        <value><int>42</int></value>
                    </member>
                    <member>
                        <name>bar</name>
                        <value><string>baz</string></value>
                    </member>
                    <member>
                        <name>bar2</name>
                        <value>baz2</value>
                    </member>
                </struct>
            </value>
        </param>
    </params>
</methodResponse>"#
        )
        .unwrap(),
    );
}

#[test]
fn decodes_failure_response() {
    assert_eq!(
        Response::failure(4, "Too many parameters.".into()),
        Response::read_xml(
            r#"<?xml version="1.0"?>
<methodResponse>
    <fault>
        <value>
            <struct>
                <member>
                    <name>faultCode</name>
                    <value><int>4</int></value>
                </member>
                <member>
                    <name>faultString</name>
                    <value><string>Too many parameters.</string></value>
                </member>
            </struct>
        </value>
    </fault>
</methodResponse>"#
        )
        .unwrap(),
    );
}

#[test]
fn decodes_request() {
    assert_eq!(
        Request::new(
            "foobar".into(),
            vec![
                Value::String("South Dakota".into()),
                Value::Struct(vec![
                    ("foo".into(), Value::Int(42)),
                    ("bar".into(), Value::String("baz".into())),
                ])
            ]
        ),
        Request::read_xml(
            r#"<?xml version="1.0"?>
<methodCall>
    <methodName>foobar</methodName>
    <params>
        <param>
            <value><string>South Dakota</string></value>
        </param>
        <param>
            <value>
                <struct>
                    <member>
                        <name>foo</name>
                        <value><i4>42</i4></value>
                    </member>
                    <member>
                        <name>bar</name>
                        <value><string>baz</string></value>
                    </member>
                </struct>
            </value>
        </param>
    </params>
</methodCall>"#
        )
        .unwrap(),
    );
}
