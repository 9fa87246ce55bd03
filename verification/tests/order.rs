use serde_json::Value;
use typed_schema::{check, Error, Field, Index, Metric, Op, Type};

fn ty(name: &str, rust: &str) -> Type {
    Type {
        name: name.to_owned(),
        rust: rust.to_owned(),
        desc: None,
        schema: Value::Object(serde_json::Map::new()),
        fields: Vec::new(),
    }
}

fn op(name: &str) -> Op {
    Op { name: name.to_owned(), desc: None, input: "a".to_owned(), output: "a".to_owned(), http: None }
}

#[test]
fn sort_orders_by_name_and_keeps_equal_names_in_order() {
    let mut index = Index::new();
    index.types = vec![ty("b", "first b"), ty("a", "a"), ty("b", "second b"), ty("B", "upper"), ty("", "empty")];
    index.ops = vec![op("z"), op("y.get"), op("y")];
    index.sort();
    assert_eq!(
        index.types.iter().map(|t| (t.name.as_str(), t.rust.as_str())).collect::<Vec<_>>(),
        vec![("", "empty"), ("B", "upper"), ("a", "a"), ("b", "first b"), ("b", "second b")]
    );
    assert_eq!(index.ops.iter().map(|o| o.name.as_str()).collect::<Vec<_>>(), vec!["y", "y.get", "z"]);
    assert_eq!(index.version, typed_schema::VERSION);
}

#[test]
fn sort_orders_by_characters() {
    let mut index = Index::default();
    index.types = vec![ty("é", "e acute"), ty("z", "z"), ty("ab", "ab"), ty("a", "a")];
    index.sort();
    assert_eq!(
        index.types.iter().map(|t| t.name.as_str()).collect::<Vec<_>>(),
        vec!["a", "ab", "z", "é"]
    );
}

#[test]
fn check_reports_the_first_error_in_index_order() {
    let index = Index {
        version: typed_schema::VERSION.to_owned(),
        types: vec![ty("a", "a"), ty("a", "a2"), ty(" ", "blank")],
        ops: vec![op("")],
    };
    assert_eq!(check(&index), Err(Error::DuplicateType("a".to_owned())));
}

#[test]
fn blank_names_hold_only_white_space() {
    let index = Index {
        version: typed_schema::VERSION.to_owned(),
        types: vec![ty(" \t\n\u{3000}", "blank")],
        ops: vec![],
    };
    assert_eq!(check(&index), Err(Error::EmptyTypeName));
    let ok = Index { version: typed_schema::VERSION.to_owned(), types: vec![ty(" x ", "x")], ops: vec![] };
    assert_eq!(check(&ok), Ok(()));
}

#[test]
fn metric_attributes_are_checked_in_order() {
    let mut t = ty("user", "User");
    let mut props = serde_json::Map::new();
    props.insert("score".to_owned(), Value::Null);
    let mut schema = serde_json::Map::new();
    schema.insert("properties".to_owned(), Value::Object(props));
    t.schema = Value::Object(schema);
    t.fields = vec![Field {
        name: "score".to_owned(),
        ident: "score".to_owned(),
        ty: "i64".to_owned(),
        metric: Some(Metric { calc: "x".to_owned(), grain: Some("y".to_owned()), sources: vec!["s".to_owned(), "".to_owned()] }),
    }];
    let index = Index { version: typed_schema::VERSION.to_owned(), types: vec![t.clone()], ops: vec![] };
    assert_eq!(
        check(&index),
        Err(Error::EmptyMetricAttr { ty: "user".to_owned(), field: "score".to_owned(), attr: "source" })
    );
    t.fields[0].metric = Some(Metric { calc: "x".to_owned(), grain: Some(" ".to_owned()), sources: vec![] });
    let index = Index { version: typed_schema::VERSION.to_owned(), types: vec![t.clone()], ops: vec![] };
    assert_eq!(
        check(&index),
        Err(Error::EmptyMetricAttr { ty: "user".to_owned(), field: "score".to_owned(), attr: "grain" })
    );
    t.fields[0].metric = None;
    let index = Index { version: typed_schema::VERSION.to_owned(), types: vec![t], ops: vec![] };
    assert_eq!(check(&index), Ok(()));
}

#[test]
fn sorting_twice_is_sorting_once() {
    let mut index = Index::new();
    index.types = vec![ty("c", "c"), ty("a", "a1"), ty("b", "b"), ty("a", "a2")];
    index.ops = vec![op("b"), op("a")];
    index.sort();
    let once = index.clone();
    index.sort();
    assert_eq!(index, once);
}

#[test]
fn check_verdict_does_not_depend_on_order() {
    let good = Index {
        version: typed_schema::VERSION.to_owned(),
        types: vec![ty("b", "b"), ty("a", "a")],
        ops: vec![Op { input: "b".to_owned(), output: "a".to_owned(), ..op("x") }],
    };
    let mut sorted = good.clone();
    sorted.sort();
    assert_eq!(check(&good), Ok(()));
    assert_eq!(check(&sorted), Ok(()));

    let bad = Index {
        version: typed_schema::VERSION.to_owned(),
        types: vec![ty("b", "b"), ty(" ", "blank"), ty("a", "a"), ty("b", "b2")],
        ops: vec![],
    };
    let mut sorted_bad = bad.clone();
    sorted_bad.sort();
    assert_eq!(check(&bad), Err(Error::EmptyTypeName));
    assert_eq!(check(&sorted_bad), Err(Error::EmptyTypeName));
}

fn tool_type(name: &str, rust: &str, fields: &[&str]) -> Type {
    let mut props = serde_json::Map::new();
    for f in fields {
        props.insert((*f).to_owned(), Value::Object(serde_json::Map::new()));
    }
    let mut schema = serde_json::Map::new();
    schema.insert("type".to_owned(), Value::String("object".to_owned()));
    schema.insert("properties".to_owned(), Value::Object(props));
    Type {
        name: name.to_owned(),
        rust: format!("typed_schema::tool::{rust}"),
        desc: None,
        schema: Value::Object(schema),
        fields: fields
            .iter()
            .map(|f| Field { name: (*f).to_owned(), ident: (*f).to_owned(), ty: "String".to_owned(), metric: None })
            .collect(),
    }
}

#[test]
fn tool_types_have_schema_index_entries() {
    let (index, checked) = typed_schema::order::assemble(
        vec![
            tool_type("tool_action", "Action", &[]),
            tool_type("tool_call", "Call", &["id", "tool", "args"]),
            tool_type("tool_draft", "Draft", &["calls", "action"]),
            tool_type("tool_manifest", "Manifest", &["version", "tools", "refs"]),
            tool_type("tool_def", "Tool", &["name", "desc", "input", "schema"]),
        ],
        Vec::new(),
    );
    assert_eq!(checked, Ok(()));
    let names = index.types.iter().map(|ty| ty.name.as_str()).collect::<Vec<_>>();
    assert_eq!(names, vec!["tool_action", "tool_call", "tool_def", "tool_draft", "tool_manifest"]);
}
