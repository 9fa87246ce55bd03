use serde_json::Value;
use typed_schema::attr::{
    Attr, AttrKind, ExprArg, Lit, Meta, MetaBody, MetaKey, OpArg, OpAttrInput, OpAttrs, SerdeContainer,
    SerdeField, ShapeAttrs, SubBody, SubMeta, Target,
};
use typed_schema::case::{pascal, rename_all, words};
use typed_schema::check::check_fields;
use typed_schema::diag::{MacroError, Problem};
use typed_schema::{Error, Field, Metric, Type};

fn object(entries: Vec<(&str, Value)>) -> Value {
    let mut map = serde_json::Map::new();
    for (k, v) in entries {
        map.insert(k.to_owned(), v);
    }
    Value::Object(map)
}

fn schema_with(names: &[&str]) -> Value {
    let props = names.iter().map(|n| (*n, object(vec![]))).collect::<Vec<_>>();
    object(vec![("properties", object(props))])
}

fn field(name: &str) -> Field {
    Field { name: name.to_owned(), ident: name.to_owned(), ty: "String".to_owned(), metric: None }
}

fn ty(fields: Vec<Field>, schema: Value) -> Type {
    Type { name: "user".to_owned(), rust: "User".to_owned(), desc: None, schema, fields }
}

fn s(x: &str) -> String {
    x.to_owned()
}

#[test]
fn words_concatenate_to_the_lowered_identifier_without_separators() {
    for ident in ["__User--id_", "a_B-c", "", "_-_", "Score_VALUE"] {
        let lowered: String =
            ident.chars().filter(|c| *c != '_' && *c != '-').map(|c| c.to_ascii_lowercase()).collect();
        assert_eq!(words(ident).concat(), lowered);
    }
    assert_eq!(words("__User--id_"), vec![s("user"), s("id")]);
}

#[test]
fn pascal_has_no_separators_and_lowers_to_the_words() {
    assert_eq!(pascal("user_id"), "UserId");
    assert_eq!(pascal("_a--b_"), "AB");
    for ident in ["user_id", "_a--b_", "Score-VALUE_x"] {
        let p = pascal(ident);
        assert!(!p.contains('_') && !p.contains('-'));
        assert_eq!(p.to_ascii_lowercase(), words(ident).concat());
    }
}

#[test]
fn kebab_and_screaming_styles_follow_snake_case() {
    for x in ["user_id", "__User--ID_x_", "a-b_c", ""] {
        let snake = rename_all("snake_case", x).unwrap();
        assert_eq!(rename_all("kebab-case", x).unwrap(), snake.replace('_', "-"));
        assert_eq!(rename_all("SCREAMING_SNAKE_CASE", x).unwrap(), snake.to_ascii_uppercase());
        assert_eq!(
            rename_all("SCREAMING-KEBAB-CASE", x).unwrap(),
            snake.replace('_', "-").to_ascii_uppercase()
        );
    }
}

#[test]
fn six_case_styles_are_idempotent() {
    let styles =
        ["lowercase", "UPPERCASE", "snake_case", "SCREAMING_SNAKE_CASE", "kebab-case", "SCREAMING-KEBAB-CASE"];
    for style in styles {
        for x in ["user_id", "__User--ID_x_", "scoreValue", "a-b_c"] {
            let y = rename_all(style, x).unwrap();
            assert_eq!(rename_all(style, &y), Some(y.clone()));
        }
    }
    assert_eq!(rename_all("PascalCase", "user_id"), Some(s("UserId")));
    assert_eq!(rename_all("PascalCase", "UserId"), Some(s("Userid")));
}

#[test]
fn plain_snake_names_get_serde_names() {
    let x = "user2_id_x9";
    assert_eq!(rename_all("lowercase", x), Some(s(x)));
    assert_eq!(rename_all("snake_case", x), Some(s(x)));
    assert_eq!(rename_all("UPPERCASE", x), Some(s("USER2_ID_X9")));
    assert_eq!(rename_all("SCREAMING_SNAKE_CASE", x), Some(s("USER2_ID_X9")));
    assert_eq!(rename_all("kebab-case", x), Some(s("user2-id-x9")));
    assert_eq!(rename_all("SCREAMING-KEBAB-CASE", x), Some(s("USER2-ID-X9")));
    assert_eq!(rename_all("PascalCase", x), Some(s("User2IdX9")));
    assert_eq!(rename_all("camelCase", x), Some(s("user2IdX9")));
}

#[test]
fn field_check_reports_the_first_offending_field() {
    let t = ty(vec![field("a"), field("a"), field(" ")], schema_with(&["a"]));
    assert_eq!(check_fields(&t), Err(Error::DuplicateField { ty: s("user"), field: s("a") }));
    let t = ty(vec![field("a"), field("\u{3000}"), field("a")], schema_with(&["a"]));
    assert_eq!(check_fields(&t), Err(Error::EmptyFieldName { ty: s("user") }));
    let mut scored = field("b");
    scored.metric = Some(Metric { calc: s("sum"), grain: Some(s("\t")), sources: vec![s("")] });
    let t = ty(vec![field("a"), scored], schema_with(&["a", "b"]));
    assert_eq!(
        check_fields(&t),
        Err(Error::EmptyMetricAttr { ty: s("user"), field: s("b"), attr: "grain" })
    );
}

#[test]
fn field_check_reports_the_first_missing_property() {
    let t = ty(vec![field("a"), field("b"), field("c")], schema_with(&["a"]));
    assert_eq!(check_fields(&t), Err(Error::MissingSchemaField { ty: s("user"), field: s("b") }));
    let t = ty(vec![field("a"), field("")], object(vec![]));
    assert_eq!(check_fields(&t), Err(Error::EmptyFieldName { ty: s("user") }));
    let t = ty(vec![field("a")], object(vec![]));
    assert_eq!(check_fields(&t), Err(Error::MissingSchemaProperties { ty: s("user") }));
    assert_eq!(check_fields(&ty(vec![], object(vec![]))), Ok(()));
}

#[test]
fn white_space_is_unicode_white_space() {
    let t = ty(vec![field("\u{85}\u{a0}\u{2028}")], schema_with(&["x"]));
    assert_eq!(check_fields(&t), Err(Error::EmptyFieldName { ty: s("user") }));
    let t = ty(vec![field("\u{200b}")], schema_with(&["\u{200b}"]));
    assert_eq!(check_fields(&t), Ok(()));
}

#[test]
fn messages_name_every_payload() {
    let errors = vec![
        (Error::EmptyMetricAttr { ty: s("t1"), field: s("f1"), attr: "source" }, vec!["t1", "f1", "source"]),
        (Error::DuplicateType(s("dup")), vec!["dup"]),
        (Error::MissingInput { op: s("o.get"), ty: s("in_t") }, vec!["o.get", "in_t"]),
        (Error::MissingSchemaField { ty: s("tt"), field: s("ff") }, vec!["tt", "ff"]),
        (Error::EmptyTypeName, vec![]),
    ];
    for (e, payloads) in errors {
        let m = e.message();
        assert!(!m.is_empty());
        for p in payloads {
            assert!(m.contains(p), "{m} lacks {p}");
        }
    }
}

fn value_item(key: MetaKey, v: &str, at: usize) -> Meta {
    Meta { key, body: MetaBody::Value(ExprArg { lit: Some(v.to_owned()), at: at + 1 }), at }
}

fn attr(kind: AttrKind, metas: Vec<Meta>) -> Attr {
    Attr { kind, metas, syntax: None, at: 900 }
}

#[test]
fn accepted_shape_settings_hold_their_items() {
    let attrs = vec![
        attr(AttrKind::Shape, vec![value_item(MetaKey::Source, "raw", 10), value_item(MetaKey::Calc, "sum", 20)]),
        attr(AttrKind::Other, vec![value_item(MetaKey::Calc, "ignored", 30)]),
        attr(AttrKind::Shape, vec![value_item(MetaKey::Source, "mart", 40), value_item(MetaKey::Name, "score", 50)]),
    ];
    let got = ShapeAttrs::field(&attrs).unwrap();
    assert_eq!(got.name, Some(Lit { value: s("score"), at: 51 }));
    assert_eq!(got.calc, Some(Lit { value: s("sum"), at: 21 }));
    assert_eq!(got.desc, None);
    assert_eq!(got.grain, None);
    let sources: Vec<Option<String>> = got.sources.iter().map(|e| e.lit.clone()).collect();
    assert_eq!(sources, vec![Some(s("raw")), Some(s("mart"))]);
    let twice = vec![attr(AttrKind::Shape, vec![value_item(MetaKey::Calc, "a", 1)]), attr(
        AttrKind::Shape,
        vec![value_item(MetaKey::Calc, "b", 5)],
    )];
    assert_eq!(
        ShapeAttrs::field(&twice).err(),
        Some(MacroError { problem: Problem::DuplicateShapeCalc, at: Some(6) })
    );
    let mut settings = ShapeAttrs::empty();
    assert!(settings.parse(&attrs, Target::Field).is_ok());
    assert!(settings.parse(&[attr(AttrKind::Shape, vec![value_item(MetaKey::Source, "more", 60)])], Target::Field).is_ok());
    assert_eq!(settings.sources.len(), 3);
}

fn list_item(key: MetaKey, subs: Vec<SubMeta>, at: usize) -> Meta {
    Meta { key, body: MetaBody::List(subs, None), at }
}

fn direction(key: MetaKey, v: &str, at: usize) -> SubMeta {
    SubMeta { key, body: SubBody::Value(ExprArg { lit: Some(v.to_owned()), at: at + 1 }), at }
}

#[test]
fn accepted_serde_field_settings_hold_their_items() {
    let attrs = vec![
        attr(AttrKind::Serde, vec![
            list_item(MetaKey::Rename, vec![direction(MetaKey::Deserialize, "in_name", 10)], 9),
            Meta { key: MetaKey::Skip, body: MetaBody::Bare, at: 20 },
        ]),
        attr(AttrKind::Serde, vec![
            list_item(MetaKey::Rename, vec![direction(MetaKey::Serialize, "out_name", 30)], 29),
            value_item(MetaKey::Rename, "wire", 40),
            value_item(MetaKey::Other, "whatever", 50),
        ]),
    ];
    let got = SerdeField::from_attrs(&attrs).unwrap();
    assert_eq!(got.rename, Some(Lit { value: s("wire"), at: 41 }));
    assert_eq!(got.directional_rename, Some(Lit { value: s("in_name"), at: 11 }));
    assert!(got.skip);
    assert!(!got.skip_serializing);
    assert!(!got.flatten);
}

#[test]
fn accepted_serde_container_settings_hold_their_items() {
    let attrs = vec![attr(AttrKind::Serde, vec![
        value_item(MetaKey::Other, "kind", 1),
        value_item(MetaKey::RenameAll, "snake_case", 10),
        Meta { key: MetaKey::Other, body: MetaBody::Bare, at: 20 },
    ])];
    let got = SerdeContainer::from_attrs(&attrs).unwrap();
    assert_eq!(got.rename_all, Some(Lit { value: s("snake_case"), at: 11 }));
    assert_eq!(got.directional_rename_all, None);
    let twice = vec![attr(AttrKind::Serde, vec![
        value_item(MetaKey::RenameAll, "a", 1),
        value_item(MetaKey::RenameAll, "b", 5),
    ])];
    assert_eq!(
        SerdeContainer::from_attrs(&twice).err(),
        Some(MacroError { problem: Problem::DuplicateSerdeRenameAll, at: Some(6) })
    );
}

#[test]
fn accepted_op_settings_hold_their_arguments() {
    let no_op = vec![OpAttrInput { is_op: false, args: Ok(vec![]), at: 3 }];
    assert_eq!(
        OpAttrs::from_attrs(&no_op).err(),
        Some(MacroError { problem: Problem::MissingOpAttribute, at: None })
    );
    let one = vec![
        OpAttrInput { is_op: false, args: Ok(vec![]), at: 3 },
        OpAttrInput {
            is_op: true,
            args: Ok(vec![OpArg::Name(Lit { value: s("user.get"), at: 7 }), OpArg::Input(8)]),
            at: 5,
        },
    ];
    let got = OpAttrs::from_attrs(&one).unwrap();
    assert_eq!(got.name, Some(Lit { value: s("user.get"), at: 7 }));
    assert_eq!(got.input, Some(8));
    assert_eq!(got.output, None);
    assert_eq!(got.http, None);
    assert_eq!(got.desc, None);
}
