//! Tools for function-calling models: definitions projected from index types, manifests of
//! tools, and the drafts of calls a model answers with.
use vstd::prelude::*;
use crate::json::{
    json_from_object, json_into_object, json_map_insert, json_map_new, json_map_remove,
    json_null, json_object_view, json_string, json_view, Json,
};
use crate::laws::law_openai_is_function_tool;
use crate::model::{Shape, Type, VERSION};

verus! {

/// A set of tools, with the version and free-form references.
#[derive(Clone, Debug, PartialEq)]
pub struct Manifest {
    pub version: String,
    pub tools: Vec<Tool>,
    pub refs: serde_json::Value,
}

/// A tool: its name, description, the index type it takes and that type's JSON schema.
#[derive(Clone, Debug, PartialEq)]
pub struct Tool {
    pub name: String,
    pub desc: Option<String>,
    pub input: String,
    pub schema: serde_json::Value,
}

/// What a model answers: tool calls, and possibly an action instead of an answer.
#[derive(Clone, Debug, PartialEq)]
pub struct Draft {
    pub calls: Vec<Call>,
    pub action: Option<Action>,
}

/// One call of a tool, with the id the provider gave it and its arguments.
#[derive(Clone, Debug, PartialEq)]
pub struct Call {
    pub id: Option<String>,
    pub tool: String,
    pub args: serde_json::Value,
}

/// What a model does instead of calling tools: ask for clarification, or refuse.
#[derive(Clone, Debug, PartialEq, Eq)]
pub enum Action {
    Clarify { field: Option<String>, question: Option<String> },
    Unsupported { field: Option<String>, reason: Option<String> },
}

/// A JSON schema without its `$schema` key: an object loses that entry, anything else is
/// kept as it is.
pub open spec fn tool_schema_spec(schema: Json) -> Json {
    match schema {
        Json::Object(m) => Json::Object(m.remove("$schema"@)),
        other => other,
    }
}

/// The OpenAI function-tool object of a tool: `{"type": "function", "function": {"name",
/// "parameters", and "description" where the tool has one}}`.
pub open spec fn openai_spec(t: Tool) -> Json {
    let f = Map::<Seq<char>, Json>::empty().insert("name"@, Json::Str(t.name@)).insert(
        "parameters"@,
        json_view(t.schema),
    );
    let f = match t.desc {
        Some(d) => f.insert("description"@, Json::Str(d@)),
        None => f,
    };
    Json::Object(
        Map::<Seq<char>, Json>::empty().insert("type"@, Json::Str("function"@)).insert(
            "function"@,
            Json::Object(f),
        ),
    )
}

/// The description of a tool as characters, where it has one.
pub open spec fn desc_view(desc: Option<String>) -> Option<Seq<char>> {
    match desc {
        Some(d) => Some(d@),
        None => None,
    }
}

/// Whether `v` is an OpenAI function-tool object for the function `name`, described by
/// `desc` where there is a description, taking `params`: an object with exactly the keys
/// `type`, which is the string `function`, and `function`, an object with exactly `name`,
/// `parameters` and, where there is a description, `description`.
pub open spec fn is_function_tool(v: Json, name: Seq<char>, desc: Option<Seq<char>>, params: Json) -> bool {
    match v {
        Json::Object(o) => {
            &&& o.dom() == set!["type"@, "function"@]
            &&& o["type"@] == Json::Str("function"@)
            &&& match o["function"@] {
                Json::Object(f) => {
                    &&& f["name"@] == Json::Str(name)
                    &&& f["parameters"@] == params
                    &&& match desc {
                        Some(d) => f.dom() == set!["name"@, "parameters"@, "description"@]
                            && f["description"@] == Json::Str(d),
                        None => f.dom() == set!["name"@, "parameters"@],
                    }
                },
                _ => false,
            }
        },
        _ => false,
    }
}

/// Drops the `$schema` entry of a schema object; every other entry, and any value that is
/// not an object, is kept as it is.
pub fn tool_schema(schema: serde_json::Value) -> (r: serde_json::Value)
    ensures
        json_view(r) == tool_schema_spec(json_view(schema)),
        json_view(r) matches Json::Object(m) ==> !m.dom().contains("$schema"@),
        json_view(schema) matches Json::Object(m) ==> json_view(r) == Json::Object(
            m.remove("$schema"@),
        ),
        !(json_view(schema) is Object) ==> json_view(r) == json_view(schema),
{
    match json_into_object(schema) {
        Ok(mut map) => {
            let _ = json_map_remove(&mut map, "$schema");
            json_from_object(map)
        },
        Err(other) => other,
    }
}

impl Manifest {
    /// A manifest of `tools` at the current version, with no references.
    pub fn new(tools: Vec<Tool>) -> (r: Self)
        ensures
            r.version@ == VERSION@,
            r.tools == tools,
            json_view(r.refs) == Json::Null,
    {
        Manifest { version: VERSION.to_owned(), tools, refs: json_null() }
    }

    /// The manifest with its references replaced by `refs`.
    pub fn refs(self, refs: serde_json::Value) -> (r: Self)
        ensures
            r.version == self.version,
            r.tools == self.tools,
            r.refs == refs,
    {
        let mut out = self;
        out.refs = refs;
        out
    }

    /// The OpenAI function-tool object of each tool, in order.
    pub fn openai_tools(&self) -> (r: Vec<serde_json::Value>)
        ensures
            r@.len() == self.tools@.len(),
            forall|i: int| 0 <= i < r@.len() ==> json_view(#[trigger] r@[i]) == openai_spec(self.tools@[i]),
            forall|i: int|
                0 <= i < r@.len() ==> is_function_tool(
                    json_view(#[trigger] r@[i]),
                    self.tools@[i].name@,
                    desc_view(self.tools@[i].desc),
                    json_view(self.tools@[i].schema),
                ),
    {
        let mut r: Vec<serde_json::Value> = Vec::new();
        let mut i: usize = 0;
        while i < self.tools.len()
            invariant
                i <= self.tools@.len(),
                r@.len() == i,
                forall|j: int| 0 <= j < i ==> json_view(#[trigger] r@[j]) == openai_spec(self.tools@[j]),
            decreases self.tools.len() - i,
        {
            r.push(self.tools[i].openai());
            i = i + 1;
        }
        assert forall|i: int| 0 <= i < r@.len() implies is_function_tool(
            json_view(#[trigger] r@[i]),
            self.tools@[i].name@,
            desc_view(self.tools@[i].desc),
            json_view(self.tools@[i].schema),
        ) by {
            law_openai_is_function_tool(self.tools@[i]);
        }
        r
    }
}

impl Tool {
    /// The tool `name` described by `desc` that takes the index type `shape`: its input is the
    /// type's name and its schema the type's schema without `$schema`.
    pub fn from_type(name: &str, desc: &str, shape: Type) -> (r: Self)
        ensures
            r.name@ == name@,
            r.desc matches Some(d) && d@ == desc@,
            r.input == shape.name,
            json_view(r.schema) == tool_schema_spec(json_view(shape.schema)),
            json_view(r.schema) matches Json::Object(m) ==> !m.dom().contains("$schema"@),
    {
        Tool {
            name: name.to_owned(),
            desc: Some(desc.to_owned()),
            input: shape.name,
            schema: tool_schema(shape.schema),
        }
    }

    /// The tool `name` described by `desc` that takes the index type `T`: for the type
    /// `T::shape()` gives back, the tool's input is that type's name and its schema is that
    /// type's schema without `$schema`.
    pub fn for_shape<T: Shape>(name: &str, desc: &str) -> (r: Self)
        ensures
            r.name@ == name@,
            r.desc matches Some(d) && d@ == desc@,
            exists|s: Type|
                call_ensures(T::shape, (), s) && r.input == s.name && json_view(r.schema)
                    == tool_schema_spec(#[trigger] json_view(s.schema)),
            json_view(r.schema) matches Json::Object(m) ==> !m.dom().contains("$schema"@),
    {
        let shape = T::shape();
        let ghost s = shape;
        assert(call_ensures(T::shape, (), s));
        let r = Self::from_type(name, desc, shape);
        assert(call_ensures(T::shape, (), s) && r.input == s.name && json_view(r.schema)
            == tool_schema_spec(json_view(s.schema)));
        r
    }

    /// The OpenAI function-tool object of this tool.
    pub fn openai(&self) -> (r: serde_json::Value)
        ensures
            json_view(r) == openai_spec(*self),
            is_function_tool(json_view(r), self.name@, desc_view(self.desc), json_view(self.schema)),
    {
        proof {
            law_openai_is_function_tool(*self);
        }
        let mut function = json_map_new();
        assert(json_object_view(function) =~= Map::<Seq<char>, Json>::empty());
        json_map_insert(&mut function, "name".to_owned(), json_string(self.name.clone()));
        json_map_insert(&mut function, "parameters".to_owned(), self.schema.clone());
        match &self.desc {
            Some(desc) => {
                json_map_insert(&mut function, "description".to_owned(), json_string(desc.clone()));
            },
            None => {},
        }
        let mut object = json_map_new();
        assert(json_object_view(object) =~= Map::<Seq<char>, Json>::empty());
        json_map_insert(&mut object, "type".to_owned(), json_string("function".to_owned()));
        json_map_insert(&mut object, "function".to_owned(), json_from_object(function));
        json_from_object(object)
    }
}

} // verus!
