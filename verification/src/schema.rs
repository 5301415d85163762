//! Describing a function as a tool: its description from its
//! documentation, and the JSON schema of its parameters from its arguments.
use crate::json::{Json, JsonView};
use crate::text::{str_eq, trim, trimmed};
use vstd::prelude::*;
use vstd::string::StringExecFns;

verus! {

/// The JSON type for an argument of the given Rust type: `string`,
/// `integer`, `number` or `boolean`. A type not known here counts as a
/// string.
pub open spec fn json_type_of(rust_type: Seq<char>) -> Seq<char> {
    if rust_type == "String"@ {
        "string"@
    } else if rust_type == "i32"@ || rust_type == "i64"@ || rust_type == "usize"@ {
        "integer"@
    } else if rust_type == "f32"@ || rust_type == "f64"@ {
        "number"@
    } else if rust_type == "bool"@ {
        "boolean"@
    } else {
        "string"@
    }
}

/// The JSON type for an argument of the given Rust type.
pub fn rust_type_to_json_type(rust_type: &str) -> (json_type: &'static str)
    ensures
        json_type@ == json_type_of(rust_type@),
{
    if str_eq(rust_type, "String") {
        "string"
    } else if str_eq(rust_type, "i32") || str_eq(rust_type, "i64") || str_eq(rust_type, "usize") {
        "integer"
    } else if str_eq(rust_type, "f32") || str_eq(rust_type, "f64") {
        "number"
    } else if str_eq(rust_type, "bool") {
        "boolean"
    } else {
        "string"
    }
}

/// The schema of one argument.
pub open spec fn property_schema(rust_type: Seq<char>) -> JsonView {
    JsonView::Object(
        seq![
            ("type"@, JsonView::Str(json_type_of(rust_type))),
            ("description"@, JsonView::Str(Seq::empty())),
        ],
    )
}

/// The object with the schemas of the first `upto` arguments, each under
/// the name of its argument. Of two arguments with one name, the later one
/// counts.
pub open spec fn properties_upto(arguments: Seq<(Seq<char>, Seq<char>)>, upto: int) -> JsonView
    decreases upto,
{
    if upto <= 0 || upto > arguments.len() {
        JsonView::Object(Seq::empty())
    } else {
        properties_upto(arguments, upto - 1).with_member(
            arguments[upto - 1].0,
            property_schema(arguments[upto - 1].1),
        )
    }
}

/// The schema of the parameters of a function with the given arguments,
/// each a name and a Rust type: an object in which every argument is
/// required.
pub open spec fn parameters_schema(arguments: Seq<(Seq<char>, Seq<char>)>) -> JsonView {
    JsonView::Object(
        seq![
            ("type"@, JsonView::Str("object"@)),
            ("properties"@, properties_upto(arguments, arguments.len() as int)),
            (
                "required"@,
                JsonView::Array(Seq::new(arguments.len(), |i: int| JsonView::Str(arguments[i].0))),
            ),
        ],
    )
}

/// The lines of the first `upto` documentation comments, each without the
/// white space at its ends and with one blank behind it.
pub open spec fn description_upto(lines: Seq<Seq<char>>, upto: int) -> Seq<char>
    decreases upto,
{
    if upto <= 0 || upto > lines.len() {
        Seq::empty()
    } else {
        description_upto(lines, upto - 1) + trimmed(lines[upto - 1]) + " "@
    }
}

fn member(key: &str, value: Json) -> (pair: (String, Json))
    ensures
        pair.deep_view() == (key@, value@),
{
    (key.to_owned(), value)
}

fn make_property(rust_type: &str) -> (schema: Json)
    ensures
        schema@ == property_schema(rust_type@),
{
    let mut members: Vec<(String, Json)> = Vec::new();
    members.push(member("type", Json::string(rust_type_to_json_type(rust_type))));
    members.push(member("description", Json::Str(String::new())));
    assert(members.deep_view() =~= property_schema(rust_type@)->Object_0);
    Json::object(members)
}

/// The schema of the parameters of a function with the given arguments,
/// each a name and a Rust type.
pub fn tool_parameters_schema(arguments: &[(String, String)]) -> (schema: Json)
    ensures
        schema@ == parameters_schema(arguments.deep_view()),
{
    let ghost all = arguments.deep_view();
    let empty: Vec<(String, Json)> = Vec::new();
    assert(empty.deep_view() =~= Seq::<(Seq<char>, JsonView)>::empty());
    let mut properties = Json::object(empty);
    let mut required: Vec<Json> = Vec::new();
    let mut i: usize = 0;
    while i < arguments.len()
        invariant
            i <= arguments.len(),
            all == arguments.deep_view(),
            properties@ == properties_upto(all, i as int),
            required@.len() == i,
            forall|k: int| 0 <= k < i ==> (#[trigger] required@[k])@ == JsonView::Str(all[k].0),
        decreases arguments.len() - i,
    {
        let argument = &arguments[i];
        assert(all[i as int] == (argument.0@, argument.1@));
        properties = properties.with_member(argument.0.as_str(), make_property(argument.1.as_str()));
        required.push(Json::string(argument.0.as_str()));
        i += 1;
    }
    assert(required.deep_view() =~= Seq::new(all.len(), |i: int| JsonView::Str(all[i].0)));
    let mut members: Vec<(String, Json)> = Vec::new();
    members.push(member("type", Json::string("object")));
    members.push(member("properties", properties));
    members.push(member("required", Json::array(required)));
    assert(members.deep_view() =~= parameters_schema(all)->Object_0);
    Json::object(members)
}

/// The description of a tool, from the lines of the documentation of its
/// function: the lines, each without the white space at its ends, with one
/// blank between them.
pub fn tool_description(doc_lines: &[String]) -> (description: String)
    ensures
        description@ == trimmed(description_upto(doc_lines.deep_view(), doc_lines.len() as int)),
{
    let mut text = String::new();
    let mut i: usize = 0;
    assert(text@ =~= description_upto(doc_lines.deep_view(), 0));
    while i < doc_lines.len()
        invariant
            i <= doc_lines.len(),
            text@ == description_upto(doc_lines.deep_view(), i as int),
        decreases doc_lines.len() - i,
    {
        assert(doc_lines.deep_view()[i as int] == doc_lines@[i as int]@);
        text.append(trim(doc_lines[i].as_str()));
        text.append(" ");
        i += 1;
    }
    String::from_str(trim(text.as_str()))
}

} // verus!
