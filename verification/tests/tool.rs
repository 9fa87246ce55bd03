use serde_json::Value;
use typed_schema::tool::{tool_schema, Manifest, Tool};
use typed_schema::{Shape, Type};

fn object(entries: Vec<(&str, Value)>) -> Value {
    let mut map = serde_json::Map::new();
    for (k, v) in entries {
        map.insert(k.to_owned(), v);
    }
    Value::Object(map)
}

fn string(s: &str) -> Value {
    Value::String(s.to_owned())
}

struct ReadOrder;

impl Shape for ReadOrder {
    fn shape() -> Type {
        Type {
            name: "order_read".to_owned(),
            rust: "tool::ReadOrder".to_owned(),
            desc: None,
            schema: object(vec![
                ("$schema", string("https://json-schema.org/draft/2020-12/schema")),
                ("title", string("ReadOrder")),
                ("type", string("object")),
                ("properties", object(vec![("order_id", object(vec![("type", string("string"))]))])),
                ("required", Value::Array(vec![string("order_id")])),
                ("additionalProperties", Value::Bool(false)),
            ]),
            fields: Vec::new(),
        }
    }

    fn name() -> &'static str {
        "order_read"
    }
}

#[test]
fn tool_is_projected_from_owned_shape() {
    let tool = Tool::for_shape::<ReadOrder>("order_read", "Read one order without mutating state.");

    assert_eq!(tool.name, "order_read");
    assert_eq!(tool.input, "order_read");
    assert_eq!(tool.desc.as_deref(), Some("Read one order without mutating state."));
    assert!(tool.schema.get("$schema").is_none());
    assert_eq!(tool.schema["properties"]["order_id"]["type"], string("string"));
}

#[test]
fn manifest_projects_openai_function_tools() {
    let manifest = Manifest::new(vec![Tool::for_shape::<ReadOrder>(
        "order_read",
        "Read one order without mutating state.",
    )])
    .refs(object(vec![("owner", string("typed-schema-test"))]));

    assert_eq!(manifest.version, typed_schema::VERSION);
    assert_eq!(manifest.refs["owner"], string("typed-schema-test"));

    let tools = manifest.openai_tools();
    assert_eq!(tools.len(), 1);
    assert_eq!(tools[0]["type"], string("function"));
    assert_eq!(tools[0]["function"]["name"], string("order_read"));
    assert_eq!(tools[0]["function"]["description"], string("Read one order without mutating state."));
    assert_eq!(
        tools[0]["function"]["parameters"]["properties"]["order_id"]["type"],
        string("string")
    );
}

#[test]
fn new_manifest_has_null_refs() {
    let manifest = Manifest::new(Vec::new());
    assert!(manifest.refs.is_null());
    assert!(manifest.openai_tools().is_empty());
}

#[test]
fn openai_without_desc_has_no_description() {
    let tool = Tool {
        name: "ping".to_owned(),
        desc: None,
        input: "ping_input".to_owned(),
        schema: object(vec![("type", string("object"))]),
    };
    let value = tool.openai();
    let function = value["function"].as_object().unwrap();
    assert_eq!(function.len(), 2);
    assert!(function.get("description").is_none());
    assert_eq!(value["function"]["parameters"], object(vec![("type", string("object"))]));
    assert_eq!(value.as_object().unwrap().len(), 2);
}

#[test]
fn tool_schema_keeps_non_objects_and_other_keys() {
    assert_eq!(tool_schema(Value::Bool(true)), Value::Bool(true));
    assert_eq!(tool_schema(Value::Null), Value::Null);
    let schema = object(vec![("$schema", string("x")), ("type", string("object"))]);
    let stripped = tool_schema(schema);
    assert_eq!(stripped, object(vec![("type", string("object"))]));
    assert_eq!(tool_schema(stripped.clone()), stripped);
}

#[test]
fn from_type_takes_name_and_schema_of_the_type() {
    let tool = Tool::from_type("read", "Reads.", ReadOrder::shape());
    assert_eq!(tool.name, "read");
    assert_eq!(tool.input, "order_read");
    assert_eq!(tool.desc.as_deref(), Some("Reads."));
    assert!(tool.schema.get("$schema").is_none());
    assert_eq!(tool.schema["title"], string("ReadOrder"));
}

#[test]
fn tool_schema_keeps_numbers_and_drops_only_dollar_schema() {
    let schema = object(vec![
        ("$schema", string("https://json-schema.org/draft/2020-12/schema")),
        ("minimum", Value::from(3)),
        ("maximum", Value::from(2.5)),
        ("enum", Value::Array(vec![Value::from(-1), Value::Null, Value::Bool(true)])),
    ]);
    let kept = tool_schema(schema);
    assert_eq!(
        kept,
        object(vec![
            ("minimum", Value::from(3)),
            ("maximum", Value::from(2.5)),
            ("enum", Value::Array(vec![Value::from(-1), Value::Null, Value::Bool(true)])),
        ])
    );
    assert_eq!(tool_schema(Value::from(7)), Value::from(7));
}
