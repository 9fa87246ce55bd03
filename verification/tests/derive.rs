use typed_schema::attr::{
    Attr, AttrKind, ExprArg, HttpArg, Lit, Meta, MetaBody, MetaKey, OpArg, OpAttrInput, OpAttrs,
    SerdeContainer, SerdeField, ShapeAttrs, SubBody, SubMeta,
};
use typed_schema::derive::{
    field_name, fields, method, op_plan, shape_plan, DataInput, FieldInput, OpInput, ShapeInput,
    VariantInput,
};
use typed_schema::diag::{MacroError, Problem};
use typed_schema::Method;

fn lit_arg(s: &str, at: usize) -> ExprArg {
    ExprArg { lit: Some(s.to_owned()), at }
}

fn item(key: MetaKey, body: MetaBody, at: usize) -> Meta {
    Meta { key, body, at }
}

fn value(key: MetaKey, s: &str, at: usize) -> Meta {
    item(key, MetaBody::Value(lit_arg(s, at + 1)), at)
}

fn attr(kind: AttrKind, metas: Vec<Meta>) -> Attr {
    Attr { kind, metas, syntax: None, at: 900 }
}

fn err(problem: Problem, at: usize) -> MacroError {
    MacroError { problem, at: Some(at) }
}

fn field(ident: &str, attrs: Vec<Attr>, at: usize) -> FieldInput {
    FieldInput { ident: Some(ident.to_owned()), ty: "String".to_owned(), attrs, at }
}

fn shape_input(attrs: Vec<Attr>, data: DataInput) -> ShapeInput {
    ShapeInput { ident_at: 1, attrs, data }
}

fn named(attrs: Vec<Attr>) -> Vec<Attr> {
    let mut all = vec![attr(AttrKind::Shape, vec![value(MetaKey::Name, "thing", 2)])];
    all.extend(attrs);
    all
}

fn op_input(args: Vec<OpArg>) -> OpInput {
    OpInput {
        ident_at: 1,
        generics_at: None,
        unit_struct: true,
        attrs: vec![OpAttrInput { is_op: true, args: Ok(args), at: 5 }],
    }
}

fn name_arg(s: &str, at: usize) -> OpArg {
    OpArg::Name(Lit { value: s.to_owned(), at })
}

#[test]
fn shape_requires_a_name() {
    let input = shape_input(vec![], DataInput::Unit);
    assert_eq!(shape_plan(&input).unwrap_err(), err(Problem::MissingShapeName, 1));
}

#[test]
fn shape_settings_are_checked_for_their_target() {
    let on_container = ShapeAttrs::container(&[attr(AttrKind::Shape, vec![value(MetaKey::Calc, "1 + 1", 10)])]);
    assert_eq!(on_container.unwrap_err(), err(Problem::CalcOnFieldsOnly, 10));
    let on_field = ShapeAttrs::field(&[attr(AttrKind::Shape, vec![value(MetaKey::Desc, "d", 10)])]);
    assert_eq!(on_field.unwrap_err(), err(Problem::DescOnContainersOnly, 10));
    let grain = ShapeAttrs::container(&[attr(AttrKind::Shape, vec![value(MetaKey::Grain, "g", 10)])]);
    assert_eq!(grain.unwrap_err(), err(Problem::GrainOnFieldsOnly, 10));
    let source = ShapeAttrs::container(&[attr(AttrKind::Shape, vec![value(MetaKey::Source, "s", 10)])]);
    assert_eq!(source.unwrap_err(), err(Problem::SourceOnFieldsOnly, 10));
    let unknown = ShapeAttrs::container(&[attr(AttrKind::Shape, vec![value(MetaKey::Rename, "x", 10)])]);
    assert_eq!(unknown.unwrap_err(), err(Problem::UnsupportedShapeAttribute, 10));
}

#[test]
fn shape_settings_are_given_once() {
    let twice = ShapeAttrs::container(&[
        attr(AttrKind::Shape, vec![value(MetaKey::Name, "a", 10)]),
        attr(AttrKind::Shape, vec![value(MetaKey::Name, "b", 20)]),
    ]);
    assert_eq!(twice.unwrap_err(), err(Problem::DuplicateShapeName, 21));
    let sources = ShapeAttrs::field(&[attr(
        AttrKind::Shape,
        vec![value(MetaKey::Source, "a", 10), value(MetaKey::Source, "b", 20)],
    )])
    .unwrap();
    assert_eq!(sources.sources.len(), 2);
    assert!(sources.any());
    assert!(!ShapeAttrs::field(&[]).unwrap().any());
}

#[test]
fn shape_values_must_be_string_literals_after_eq() {
    let not_string = ShapeAttrs::container(&[attr(
        AttrKind::Shape,
        vec![item(MetaKey::Name, MetaBody::Value(ExprArg { lit: None, at: 11 }), 10)],
    )]);
    assert_eq!(not_string.unwrap_err(), err(Problem::ExpectedString, 11));
    let bare = ShapeAttrs::container(&[attr(AttrKind::Shape, vec![item(MetaKey::Name, MetaBody::Bare, 10)])]);
    assert_eq!(bare.unwrap_err(), err(Problem::ExpectedEq, 10));
}

#[test]
fn syntax_errors_come_after_the_items_read_before_them() {
    let a = Attr {
        kind: AttrKind::Shape,
        metas: vec![value(MetaKey::Name, "a", 10)],
        syntax: Some(50),
        at: 900,
    };
    assert_eq!(ShapeAttrs::container(&[a]).unwrap_err(), err(Problem::Syntax, 50));
    let b = Attr {
        kind: AttrKind::Shape,
        metas: vec![value(MetaKey::Calc, "a", 10)],
        syntax: Some(50),
        at: 900,
    };
    assert_eq!(ShapeAttrs::container(&[b]).unwrap_err(), err(Problem::CalcOnFieldsOnly, 10));
}

#[test]
fn metric_requires_calc() {
    let input = shape_input(
        named(vec![]),
        DataInput::Named(vec![field(
            "score",
            vec![attr(AttrKind::Shape, vec![value(MetaKey::Grain, "user", 10)])],
            7,
        )]),
    );
    assert_eq!(shape_plan(&input).unwrap_err(), err(Problem::MetricRequiresCalc, 7));
}

#[test]
fn skipped_fields_refuse_shape_settings() {
    let input = shape_input(
        named(vec![]),
        DataInput::Named(vec![field(
            "extra",
            vec![
                attr(AttrKind::Serde, vec![item(MetaKey::Flatten, MetaBody::Bare, 10)]),
                attr(AttrKind::Shape, vec![value(MetaKey::Calc, "extra.id", 12)]),
            ],
            7,
        )]),
    );
    assert_eq!(shape_plan(&input).unwrap_err(), err(Problem::ShapeOnSkippedField, 7));
}

#[test]
fn directional_renames_need_a_shape_name() {
    let directional = vec![attr(
        AttrKind::Serde,
        vec![item(
            MetaKey::Rename,
            MetaBody::List(
                vec![
                    SubMeta { key: MetaKey::Serialize, body: SubBody::Value(lit_arg("fieldOut", 11)), at: 10 },
                    SubMeta { key: MetaKey::Deserialize, body: SubBody::Value(lit_arg("field_in", 13)), at: 12 },
                ],
                None,
            ),
            9,
        )],
    )];
    let input = shape_input(named(vec![]), DataInput::Named(vec![field("field_name", directional, 7)]));
    assert_eq!(shape_plan(&input).unwrap_err(), err(Problem::DirectionalRename, 11));

    let serde = SerdeField::from_attrs(&[]).unwrap();
    let shape = ShapeAttrs::field(&[attr(AttrKind::Shape, vec![value(MetaKey::Name, "wire", 10)])]).unwrap();
    let container = SerdeContainer {
        rename_all: None,
        directional_rename_all: Some(Lit { value: "camelCase".to_owned(), at: 30 }),
    };
    assert_eq!(field_name("field_name", &shape, &serde, &container).unwrap(), "wire");
    let no_shape = ShapeAttrs::field(&[]).unwrap();
    assert_eq!(
        field_name("field_name", &no_shape, &serde, &container).unwrap_err(),
        err(Problem::DirectionalRenameAll, 30)
    );
}

#[test]
fn unsupported_rename_all_is_refused() {
    let input = shape_input(
        named(vec![attr(AttrKind::Serde, vec![value(MetaKey::RenameAll, "not-a-case", 20)])]),
        DataInput::Named(vec![field("field_name", vec![], 7)]),
    );
    assert_eq!(shape_plan(&input).unwrap_err(), err(Problem::UnsupportedRenameAll, 21));
}

#[test]
fn serde_rename_all_forms() {
    let bare = SerdeContainer::from_attrs(&[attr(AttrKind::Serde, vec![item(MetaKey::RenameAll, MetaBody::Bare, 10)])]);
    assert_eq!(bare.unwrap_err(), err(Problem::ExpectedParens, 10));
    let twice = SerdeContainer::from_attrs(&[attr(
        AttrKind::Serde,
        vec![value(MetaKey::RenameAll, "camelCase", 10), value(MetaKey::RenameAll, "snake_case", 20)],
    )]);
    assert_eq!(twice.unwrap_err(), err(Problem::DuplicateSerdeRenameAll, 21));
    let ignored = SerdeContainer::from_attrs(&[attr(
        AttrKind::Serde,
        vec![item(MetaKey::Other, MetaBody::Bare, 10), value(MetaKey::Other, "kind", 12)],
    )])
    .unwrap();
    assert_eq!(ignored, SerdeContainer { rename_all: None, directional_rename_all: None });
    let list = SerdeContainer::from_attrs(&[attr(
        AttrKind::Serde,
        vec![item(MetaKey::Other, MetaBody::List(vec![], None), 10)],
    )]);
    assert_eq!(list.unwrap_err(), err(Problem::ExpectedComma, 10));
}

#[test]
fn serde_flags_are_read() {
    let flags = SerdeField::from_attrs(&[attr(
        AttrKind::Serde,
        vec![
            item(MetaKey::Skip, MetaBody::Bare, 10),
            item(MetaKey::SkipSerializing, MetaBody::Bare, 11),
            value(MetaKey::Other, "Option::is_none", 12),
        ],
    )])
    .unwrap();
    assert!(flags.skip && flags.skip_serializing && !flags.flatten);
    let with_value = SerdeField::from_attrs(&[attr(AttrKind::Serde, vec![value(MetaKey::Flatten, "x", 10)])]);
    assert_eq!(with_value.unwrap_err(), err(Problem::ExpectedComma, 10));
}

#[test]
fn shape_on_tuple_fields_variants_and_unions_is_refused() {
    let tuple = shape_input(
        named(vec![]),
        DataInput::Unnamed(vec![FieldInput {
            ident: None,
            ty: "String".to_owned(),
            attrs: vec![Attr { kind: AttrKind::Shape, metas: vec![], syntax: None, at: 40 }],
            at: 7,
        }]),
    );
    assert_eq!(shape_plan(&tuple).unwrap_err(), err(Problem::ShapeOnUnnamedField, 40));
    let variant = shape_input(
        named(vec![]),
        DataInput::Enum(vec![
            VariantInput { attrs: vec![], fields: vec![] },
            VariantInput {
                attrs: vec![Attr { kind: AttrKind::Shape, metas: vec![], syntax: None, at: 41 }],
                fields: vec![],
            },
        ]),
    );
    assert_eq!(shape_plan(&variant).unwrap_err(), err(Problem::ShapeOnVariant, 41));
    let union = shape_input(named(vec![]), DataInput::Union(42));
    assert_eq!(shape_plan(&union).unwrap_err(), err(Problem::ShapeOnUnion, 42));
    let plain_enum = shape_input(named(vec![]), DataInput::Enum(vec![VariantInput { attrs: vec![], fields: vec![] }]));
    assert!(shape_plan(&plain_enum).unwrap().fields.is_empty());
}

#[test]
fn fields_of_a_struct_keep_their_order() {
    let container = SerdeContainer { rename_all: Some(Lit { value: "SCREAMING-KEBAB-CASE".to_owned(), at: 3 }), directional_rename_all: None };
    let plans = fields(&DataInput::Named(vec![field("a_b", vec![], 7), field("c", vec![], 8)]), &container).unwrap();
    assert_eq!(plans.iter().map(|p| p.name.as_str()).collect::<Vec<_>>(), vec!["A-B", "C"]);
    assert_eq!(plans.iter().map(|p| p.at).collect::<Vec<_>>(), vec![7, 8]);
}

#[test]
fn op_plans_and_their_errors() {
    let ok = op_input(vec![
        name_arg("x.get", 2),
        OpArg::Input(3),
        OpArg::Output(4),
        OpArg::Http(HttpArg { method: "post".to_owned(), method_at: 6, path: Lit { value: "/x".to_owned(), at: 7 } }),
    ]);
    let plan = op_plan(&ok).unwrap();
    assert_eq!(plan.http.map(|(m, p)| (m, p.value)), Some((Method::Post, "/x".to_owned())));
    assert!(plan.desc.is_none());

    let no_output = op_input(vec![name_arg("x.get", 2), OpArg::Input(3)]);
    assert_eq!(op_plan(&no_output).unwrap_err(), err(Problem::MissingOpOutput, 1));
    let no_input = op_input(vec![name_arg("x.get", 2), OpArg::Output(4)]);
    assert_eq!(op_plan(&no_input).unwrap_err(), err(Problem::MissingOpInput, 1));
    let no_name = op_input(vec![OpArg::Input(3), OpArg::Output(4)]);
    assert_eq!(op_plan(&no_name).unwrap_err(), err(Problem::MissingOpName, 1));
    let twice = op_input(vec![name_arg("a", 2), name_arg("b", 3)]);
    assert_eq!(op_plan(&twice).unwrap_err(), err(Problem::DuplicateOpName, 3));

    let generic = OpInput { generics_at: Some(9), ..op_input(vec![]) };
    assert_eq!(op_plan(&generic).unwrap_err(), err(Problem::GenericOp, 9));
    let not_unit = OpInput { unit_struct: false, ..op_input(vec![]) };
    assert_eq!(op_plan(&not_unit).unwrap_err(), err(Problem::OpNotUnitStruct, 1));
    let no_attr = OpInput { attrs: vec![], ..op_input(vec![]) };
    assert_eq!(op_plan(&no_attr).unwrap_err(), MacroError { problem: Problem::MissingOpAttribute, at: None });
    let two_attrs = OpInput {
        attrs: vec![
            OpAttrInput { is_op: true, args: Ok(vec![]), at: 5 },
            OpAttrInput { is_op: false, args: Ok(vec![]), at: 6 },
            OpAttrInput { is_op: true, args: Err(99), at: 7 },
        ],
        ..op_input(vec![])
    };
    assert_eq!(op_plan(&two_attrs).unwrap_err(), err(Problem::DuplicateOpAttribute, 7));
    let broken = OpInput { attrs: vec![OpAttrInput { is_op: true, args: Err(99), at: 5 }], ..op_input(vec![]) };
    assert_eq!(op_plan(&broken).unwrap_err(), err(Problem::Syntax, 99));
}

#[test]
fn op_settings_are_given_once() {
    let attrs = [OpAttrInput {
        is_op: true,
        args: Ok(vec![
            OpArg::Http(HttpArg { method: "GET".to_owned(), method_at: 6, path: Lit { value: "/a".to_owned(), at: 7 } }),
            OpArg::Http(HttpArg { method: "PUT".to_owned(), method_at: 8, path: Lit { value: "/b".to_owned(), at: 9 } }),
        ]),
        at: 5,
    }];
    assert_eq!(OpAttrs::from_attrs(&attrs).unwrap_err(), err(Problem::DuplicateOpHttp, 8));
}

#[test]
fn methods_are_read_in_any_case() {
    assert_eq!(method("get", 1), Ok(Method::Get));
    assert_eq!(method("Post", 1), Ok(Method::Post));
    assert_eq!(method("PUT", 1), Ok(Method::Put));
    assert_eq!(method("patch", 1), Ok(Method::Patch));
    assert_eq!(method("delete", 1), Ok(Method::Delete));
    assert_eq!(method("HEAD", 4), Err(err(Problem::UnsupportedMethod, 4)));
}

#[test]
fn problems_have_their_texts() {
    assert_eq!(Problem::MissingShapeName.text(), "missing #[shape(name = \"...\")]");
    assert_eq!(
        Problem::UnsupportedMethod.text(),
        "unsupported HTTP method; expected GET, POST, PUT, PATCH, or DELETE"
    );
    assert_eq!(Problem::DuplicateOpAttribute.text(), "duplicate op attribute");
}
