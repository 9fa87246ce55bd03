use serde_json::Value;
use typed_schema::attr::{Attr, AttrKind, ExprArg, HttpArg, Lit, Meta, MetaBody, MetaKey, OpArg, OpAttrInput};
use typed_schema::derive::{op_plan, shape_plan, DataInput, FieldInput, FieldPlan, OpInput, ShapeInput};
use typed_schema::order::assemble;
use typed_schema::{check, Error, Field, Http, Index, Method, Metric, Op, OpSpec, Shape, Type};

const RAW_USER_SCORE: &str = "raw.user_score";
const MART_USER_SCORE: &str = "mart.user_score";
const USER: &str = "user";

fn object(entries: Vec<(&str, Value)>) -> Value {
    let mut map = serde_json::Map::new();
    for (k, v) in entries {
        map.insert(k.to_owned(), v);
    }
    Value::Object(map)
}

fn string_schema() -> Value {
    object(vec![("type", Value::String("string".to_owned()))])
}

fn properties_schema(names: &[&str]) -> Value {
    let props = names.iter().map(|n| (*n, string_schema())).collect::<Vec<_>>();
    object(vec![
        ("type", Value::String("object".to_owned())),
        ("properties", object(props)),
    ])
}

struct GetUser;
struct User;
struct GetUserOp;

impl Shape for GetUser {
    fn shape() -> Type {
        Type {
            name: "get_user".to_owned(),
            rust: "index::GetUser".to_owned(),
            desc: Some("Get user input".to_owned()),
            schema: properties_schema(&["id"]),
            fields: vec![Field { name: "id".to_owned(), ident: "id".to_owned(), ty: "String".to_owned(), metric: None }],
        }
    }

    fn name() -> &'static str {
        "get_user"
    }
}

impl Shape for User {
    fn shape() -> Type {
        Type {
            name: "user".to_owned(),
            rust: "index::User".to_owned(),
            desc: Some("User output".to_owned()),
            schema: properties_schema(&["id", "score"]),
            fields: vec![
                Field { name: "id".to_owned(), ident: "id".to_owned(), ty: "String".to_owned(), metric: None },
                Field {
                    name: "score".to_owned(),
                    ident: "score".to_owned(),
                    ty: "i64".to_owned(),
                    metric: Some(Metric {
                        calc: "base + bonus".to_owned(),
                        grain: Some("user".to_owned()),
                        sources: vec!["mart.user_score".to_owned()],
                    }),
                },
            ],
        }
    }

    fn name() -> &'static str {
        "user"
    }
}

impl OpSpec for GetUserOp {
    fn op() -> Op {
        Op {
            name: "user.get".to_owned(),
            desc: Some("Get one user".to_owned()),
            input: <GetUser as Shape>::name().to_owned(),
            output: <User as Shape>::name().to_owned(),
            http: Some(Http { method: Method::Get, path: "/users/{id}".to_owned() }),
        }
    }
}

fn build_index(types: Vec<Type>, ops: Vec<Op>) -> Index {
    let (index, checked) = assemble(types, ops);
    if let Err(err) = checked {
        panic!("invalid typed schema index: {}", err.message());
    }
    index
}

fn lit_arg(s: &str, at: usize) -> ExprArg {
    ExprArg { lit: Some(s.to_owned()), at }
}

fn expr_arg(at: usize) -> ExprArg {
    ExprArg { lit: None, at }
}

fn item(key: MetaKey, body: MetaBody, at: usize) -> Meta {
    Meta { key, body, at }
}

fn attr(kind: AttrKind, metas: Vec<Meta>) -> Attr {
    Attr { kind, metas, syntax: None, at: 0 }
}

fn field_input(ident: &str, ty: &str, attrs: Vec<Attr>, at: usize) -> FieldInput {
    FieldInput { ident: Some(ident.to_owned()), ty: ty.to_owned(), attrs, at }
}

/// The `User` item as the derive reads it.
fn user_input() -> ShapeInput {
    ShapeInput {
        ident_at: 1,
        attrs: vec![attr(
            AttrKind::Shape,
            vec![
                item(MetaKey::Name, MetaBody::Value(lit_arg("user", 2)), 3),
                item(MetaKey::Desc, MetaBody::Value(lit_arg("User output", 4)), 5),
            ],
        )],
        data: DataInput::Named(vec![
            field_input("id", "String", vec![], 10),
            field_input(
                "score",
                "i64",
                vec![attr(
                    AttrKind::Shape,
                    vec![
                        item(MetaKey::Calc, MetaBody::Value(lit_arg("base + bonus", 21)), 22),
                        item(MetaKey::Grain, MetaBody::Value(lit_arg("user", 23)), 24),
                        item(MetaKey::Source, MetaBody::Value(lit_arg("mart.user_score", 25)), 26),
                    ],
                )],
                20,
            ),
        ]),
    }
}

/// Where an expression of the `WireUser` attributes evaluates to: its index, its value.
const WIRE_EXPRS: [(usize, &str); 3] = [(41, USER), (43, RAW_USER_SCORE), (45, MART_USER_SCORE)];

fn wire_value(e: &ExprArg) -> String {
    match &e.lit {
        Some(s) => s.clone(),
        None => WIRE_EXPRS.iter().find(|(at, _)| *at == e.at).unwrap().1.to_owned(),
    }
}

/// The `WireUser` item as the derive reads it.
fn wire_user_input() -> ShapeInput {
    ShapeInput {
        ident_at: 1,
        attrs: vec![
            attr(AttrKind::Serde, vec![item(MetaKey::RenameAll, MetaBody::Value(lit_arg("camelCase", 2)), 3)]),
            attr(AttrKind::Shape, vec![item(MetaKey::Name, MetaBody::Value(lit_arg("wire_user", 4)), 5)]),
            attr(AttrKind::Other, vec![item(MetaKey::Other, MetaBody::Bare, 6)]),
        ],
        data: DataInput::Named(vec![
            field_input("user_id", "String", vec![], 10),
            field_input(
                "user_kind",
                "String",
                vec![attr(AttrKind::Serde, vec![item(MetaKey::Rename, MetaBody::Value(lit_arg("kind", 21)), 22)])],
                20,
            ),
            field_input(
                "score_value",
                "i64",
                vec![
                    attr(
                        AttrKind::Serde,
                        vec![item(MetaKey::Rename, MetaBody::Value(lit_arg("scoreValue", 31)), 32)],
                    ),
                    attr(
                        AttrKind::Shape,
                        vec![
                            item(MetaKey::Name, MetaBody::Value(lit_arg("scoreValue", 33)), 34),
                            item(MetaKey::Calc, MetaBody::Value(lit_arg("base + bonus", 35)), 36),
                            item(MetaKey::Grain, MetaBody::Value(expr_arg(41)), 42),
                            item(MetaKey::Source, MetaBody::Value(expr_arg(43)), 44),
                            item(MetaKey::Source, MetaBody::Value(expr_arg(45)), 46),
                        ],
                    ),
                ],
                30,
            ),
            field_input(
                "skipped",
                "Option<String>",
                vec![attr(AttrKind::Serde, vec![item(MetaKey::Skip, MetaBody::Bare, 51)])],
                50,
            ),
            field_input(
                "internal_score",
                "Option<i64>",
                vec![attr(AttrKind::Serde, vec![item(MetaKey::SkipSerializing, MetaBody::Bare, 61)])],
                60,
            ),
            field_input(
                "extra",
                "WireExtra",
                vec![attr(AttrKind::Serde, vec![item(MetaKey::Flatten, MetaBody::Bare, 71)])],
                70,
            ),
        ]),
    }
}

/// The index field a field plan stands for, with its expressions evaluated.
fn index_field(plan: &FieldPlan) -> Field {
    Field {
        name: plan.name.clone(),
        ident: plan.ident.clone(),
        ty: plan.ty.clone(),
        metric: plan.metric.as_ref().map(|m| Metric {
            calc: m.calc.value.clone(),
            grain: m.grain.as_ref().map(wire_value),
            sources: m.sources.iter().map(wire_value).collect(),
        }),
    }
}

fn get_user_op_input() -> OpInput {
    OpInput {
        ident_at: 1,
        generics_at: None,
        unit_struct: true,
        attrs: vec![OpAttrInput {
            is_op: true,
            args: Ok(vec![
                OpArg::Name(Lit { value: "user.get".to_owned(), at: 2 }),
                OpArg::Input(3),
                OpArg::Output(4),
                OpArg::Http(HttpArg {
                    method: "GET".to_owned(),
                    method_at: 5,
                    path: Lit { value: "/users/{id}".to_owned(), at: 6 },
                }),
                OpArg::Desc(Lit { value: "Get one user".to_owned(), at: 7 }),
            ]),
            at: 0,
        }],
    }
}

#[test]
fn index_macro_builds_sorted_schema() {
    let index = build_index(vec![User::shape(), GetUser::shape()], vec![GetUserOp::op()]);

    assert_eq!(index.version, typed_schema::VERSION);
    assert_eq!(
        index.types.iter().map(|ty| ty.name.as_str()).collect::<Vec<_>>(),
        vec!["get_user", "user"]
    );
    assert_eq!(index.ops[0].name, "user.get");
    assert_eq!(index.ops[0].input, "get_user");
    assert_eq!(index.ops[0].output, "user");
    assert_eq!(
        index.ops[0].http,
        Some(Http {
            method: Method::Get,
            path: "/users/{id}".to_owned(),
        })
    );
    check(&index).unwrap();

    let plan = op_plan(&get_user_op_input()).unwrap();
    assert_eq!(plan.name.value, "user.get");
    assert_eq!((plan.input, plan.output), (3, 4));
    assert_eq!(plan.http.as_ref().map(|(m, p)| (*m, p.value.as_str())), Some((Method::Get, "/users/{id}")));
    assert_eq!(plan.desc.map(|d| d.value), Some("Get one user".to_owned()));
}

#[test]
fn field_metric_is_kept() {
    let plan = shape_plan(&user_input()).unwrap();
    assert_eq!(plan.name.value, "user");
    let score = plan.fields.iter().find(|field| field.name == "score").unwrap();
    let field = index_field(score);

    assert_eq!(
        field.metric.as_ref(),
        Some(&Metric {
            calc: "base + bonus".to_owned(),
            grain: Some("user".to_owned()),
            sources: vec!["mart.user_score".to_owned()],
        })
    );
    assert_eq!(field.ident, "score");
    assert_eq!(field.ty, "i64");
    assert!(User::shape().schema.is_object());
}

#[test]
fn field_metric_keeps_multiple_sources() {
    let plan = shape_plan(&wire_user_input()).unwrap();
    let score = plan.fields.iter().find(|field| field.name == "scoreValue").unwrap();
    let field = index_field(score);
    let metric = field.metric.as_ref().unwrap();

    assert_eq!(metric.grain.as_deref(), Some("user"));
    assert_eq!(
        metric.sources,
        vec!["raw.user_score".to_owned(), "mart.user_score".to_owned()]
    );
}

#[test]
fn serde_wire_names_are_used_for_fields() {
    let plan = shape_plan(&wire_user_input()).unwrap();
    let fields = plan.fields.iter().map(index_field).collect::<Vec<_>>();

    assert_eq!(
        fields.iter().map(|field| (field.name.as_str(), field.ident.as_str())).collect::<Vec<_>>(),
        vec![("userId", "user_id"), ("kind", "user_kind"), ("scoreValue", "score_value")]
    );
    assert!(fields.iter().find(|field| field.name == "kind").unwrap().metric.is_none());
    let ty = Type {
        name: plan.name.value.clone(),
        rust: "index::WireUser".to_owned(),
        desc: None,
        schema: properties_schema(&["userId", "kind", "scoreValue", "extraId"]),
        fields,
    };
    check(&Index {
        version: typed_schema::VERSION.to_owned(),
        types: vec![ty],
        ops: Vec::new(),
    })
    .unwrap();
}

#[test]
#[should_panic(expected = "invalid typed schema index: op user.get references missing input type get_user")]
fn index_macro_checks_output() {
    let _ = build_index(vec![User::shape()], vec![GetUserOp::op()]);
}

#[test]
fn check_rejects_duplicate_types() {
    let ty = bare_type("user");
    let index = Index {
        version: typed_schema::VERSION.to_owned(),
        types: vec![ty.clone(), ty],
        ops: Vec::new(),
    };

    assert_eq!(check(&index), Err(Error::DuplicateType("user".to_owned())));
}

#[test]
fn check_rejects_empty_type_name() {
    let index = Index {
        version: typed_schema::VERSION.to_owned(),
        types: vec![bare_type("")],
        ops: Vec::new(),
    };

    assert_eq!(check(&index), Err(Error::EmptyTypeName));
}

#[test]
fn check_rejects_empty_op_name() {
    let index = Index {
        version: typed_schema::VERSION.to_owned(),
        types: vec![bare_type("input"), bare_type("output")],
        ops: vec![bare_op("", "input", "output")],
    };

    assert_eq!(check(&index), Err(Error::EmptyOpName));
}

#[test]
fn check_rejects_empty_http_path() {
    let mut op = bare_op("user.get", "input", "output");
    op.http = Some(Http {
        method: Method::Get,
        path: " ".to_owned(),
    });
    let index = Index {
        version: typed_schema::VERSION.to_owned(),
        types: vec![bare_type("input"), bare_type("output")],
        ops: vec![op],
    };

    assert_eq!(
        check(&index),
        Err(Error::EmptyHttpPath {
            op: "user.get".to_owned(),
        })
    );
}

#[test]
fn check_rejects_bad_fields() {
    let cases = [
        (
            type_with_fields(vec![bare_field("field"), bare_field("field")]),
            Error::DuplicateField {
                ty: "user".to_owned(),
                field: "field".to_owned(),
            },
        ),
        (
            type_with_fields(vec![bare_field("")]),
            Error::EmptyFieldName {
                ty: "user".to_owned(),
            },
        ),
        (
            type_with_fields(vec![field_with_metric(
                "field",
                Metric {
                    calc: " ".to_owned(),
                    ..metric()
                },
            )]),
            Error::EmptyMetricAttr {
                ty: "user".to_owned(),
                field: "field".to_owned(),
                attr: "calc",
            },
        ),
    ];

    for (ty, err) in cases {
        let index = Index {
            version: typed_schema::VERSION.to_owned(),
            types: vec![ty],
            ops: Vec::new(),
        };
        assert_eq!(check(&index), Err(err));
    }
}

#[test]
fn check_rejects_schema_mismatch() {
    let missing_properties = type_with_schema_and_fields(object(vec![]), vec![bare_field("field")]);
    let missing_field = type_with_schema_and_fields(
        object(vec![
            ("type", Value::String("object".to_owned())),
            ("properties", object(vec![("other", string_schema())])),
        ]),
        vec![bare_field("field")],
    );

    assert_eq!(
        check(&Index {
            version: typed_schema::VERSION.to_owned(),
            types: vec![missing_properties],
            ops: Vec::new(),
        }),
        Err(Error::MissingSchemaProperties {
            ty: "user".to_owned(),
        })
    );
    assert_eq!(
        check(&Index {
            version: typed_schema::VERSION.to_owned(),
            types: vec![missing_field],
            ops: Vec::new(),
        }),
        Err(Error::MissingSchemaField {
            ty: "user".to_owned(),
            field: "field".to_owned(),
        })
    );
}

#[test]
fn check_rejects_duplicate_ops() {
    let op = bare_op("user.get", "input", "output");
    let index = Index {
        version: typed_schema::VERSION.to_owned(),
        types: vec![bare_type("input"), bare_type("output")],
        ops: vec![op.clone(), op],
    };

    assert_eq!(check(&index), Err(Error::DuplicateOp("user.get".to_owned())));
}

#[test]
fn check_rejects_missing_input() {
    let index = Index {
        version: typed_schema::VERSION.to_owned(),
        types: vec![bare_type("output")],
        ops: vec![bare_op("user.get", "input", "output")],
    };

    assert_eq!(
        check(&index),
        Err(Error::MissingInput {
            op: "user.get".to_owned(),
            ty: "input".to_owned(),
        })
    );
}

#[test]
fn check_rejects_missing_output() {
    let index = Index {
        version: typed_schema::VERSION.to_owned(),
        types: vec![bare_type("input")],
        ops: vec![bare_op("user.get", "input", "output")],
    };

    assert_eq!(
        check(&index),
        Err(Error::MissingOutput {
            op: "user.get".to_owned(),
            ty: "output".to_owned(),
        })
    );
}

fn bare_type(name: &str) -> Type {
    Type {
        name: name.to_owned(),
        rust: name.to_owned(),
        desc: None,
        schema: object(vec![]),
        fields: Vec::new(),
    }
}

fn type_with_fields(fields: Vec<Field>) -> Type {
    let names = fields
        .iter()
        .filter(|field| !field.name.trim().is_empty())
        .map(|field| field.name.as_str())
        .collect::<Vec<_>>();
    let schema = properties_schema(&names);
    type_with_schema_and_fields(schema, fields)
}

fn type_with_schema_and_fields(schema: Value, fields: Vec<Field>) -> Type {
    Type {
        name: "user".to_owned(),
        rust: "User".to_owned(),
        desc: None,
        schema,
        fields,
    }
}

fn bare_field(name: &str) -> Field {
    Field {
        name: name.to_owned(),
        ident: name.to_owned(),
        ty: "String".to_owned(),
        metric: None,
    }
}

fn field_with_metric(name: &str, metric: Metric) -> Field {
    Field {
        metric: Some(metric),
        ..bare_field(name)
    }
}

fn metric() -> Metric {
    Metric {
        calc: "base + bonus".to_owned(),
        grain: Some("user".to_owned()),
        sources: vec!["mart.user_score".to_owned()],
    }
}

fn bare_op(name: &str, input: &str, output: &str) -> Op {
    Op {
        name: name.to_owned(),
        desc: None,
        input: input.to_owned(),
        output: output.to_owned(),
        http: None,
    }
}
