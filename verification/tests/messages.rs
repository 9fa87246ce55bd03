use typed_schema::Error;

fn s(x: &str) -> String {
    x.to_owned()
}

#[test]
fn every_error_has_its_message() {
    let cases = vec![
        (Error::EmptyTypeName, "empty type name"),
        (Error::EmptyOpName, "empty op name"),
        (Error::EmptyFieldName { ty: s("user") }, "type user has an empty field name"),
        (Error::EmptyHttpPath { op: s("user.get") }, "op user.get has an empty HTTP path"),
        (
            Error::EmptyMetricAttr { ty: s("user"), field: s("score"), attr: "grain" },
            "type user field score has an empty metric grain",
        ),
        (Error::DuplicateType(s("user")), "duplicate type: user"),
        (Error::DuplicateOp(s("user.get")), "duplicate op: user.get"),
        (Error::DuplicateField { ty: s("user"), field: s("id") }, "type user has duplicate field id"),
        (
            Error::MissingInput { op: s("user.get"), ty: s("get_user") },
            "op user.get references missing input type get_user",
        ),
        (
            Error::MissingOutput { op: s("user.get"), ty: s("user") },
            "op user.get references missing output type user",
        ),
        (
            Error::MissingSchemaProperties { ty: s("user") },
            "type user has fields but its JSON Schema has no properties",
        ),
        (
            Error::MissingSchemaField { ty: s("user"), field: s("id") },
            "type user field id is missing from JSON Schema properties",
        ),
    ];
    for (err, text) in cases {
        assert_eq!(err.message(), text);
    }
}
