//! Tools and the choice among them.
use crate::json::{Json, JsonV};
use crate::models::openai::ToolV;
use crate::models::{anthropic, openai};
use crate::text::{opt_text, same};
use crate::translate::schema::{normalize_schema, normalized};
use vstd::prelude::*;

verus! {

/// The upstream form of a tool: a function with its schema in normal form.
pub open spec fn tool_translated(tool: anthropic::Tool) -> ToolV {
    ToolV {
        tool_type: "function"@,
        name: tool.name@,
        description: opt_text(tool.description),
        parameters: normalized(tool.input_schema@),
    }
}

/// The upstream form of a tool.
pub fn translate_tool(tool: anthropic::Tool) -> (r: openai::Tool)
    ensures
        r@ == tool_translated(tool),
{
    openai::Tool {
        tool_type: "function".to_string(),
        function: openai::Function {
            name: tool.name,
            description: tool.description,
            parameters: normalize_schema(tool.input_schema),
        },
    }
}

/// Whether the tool is a batch tool, which no upstream knows.
pub fn is_batch_tool(tool: &anthropic::Tool) -> (r: bool)
    ensures
        r == (opt_text(tool.tool_type) == Some("BatchTool"@)),
{
    match &tool.tool_type {
        Some(t) => same(t.as_str(), "BatchTool"),
        None => false,
    }
}

/// The upstream choice of one named function.
pub open spec fn named_choice(name: Seq<char>) -> JsonV {
    JsonV::Object(
        map![
            "type"@ => JsonV::String("function"@),
            "function"@ => JsonV::Object(map!["name"@ => JsonV::String(name)]),
        ],
    )
}

/// The upstream form of a tool choice.
pub open spec fn choice_translated(choice: JsonV) -> Option<JsonV> {
    match choice.str_at("type"@) {
        Some(t) => if t == "auto"@ {
            Some(JsonV::String("auto"@))
        } else if t == "any"@ {
            Some(JsonV::String("required"@))
        } else if t == "none"@ {
            Some(JsonV::String("none"@))
        } else if t == "tool"@ {
            match choice.str_at("name"@) {
                Some(name) => Some(named_choice(name)),
                None => None,
            }
        } else {
            None
        },
        None => None,
    }
}

/// Whether the upstream may call several tools at once: the opposite of what the client
/// disables, where it says anything.
pub open spec fn parallel_allowed(choice: JsonV) -> Option<bool> {
    match choice.bool_at("disable_parallel_tool_use"@) {
        Some(disabled) => Some(!disabled),
        None => None,
    }
}

/// The upstream form of a tool choice, and whether several tools may be called at once.
pub fn translate_tool_choice(choice: &Json) -> (r: (Option<Json>, Option<bool>))
    ensures
        openai::opt_json_view(r.0) == choice_translated(choice@),
        r.1 == parallel_allowed(choice@),
{
    let parallel = match choice.bool_at("disable_parallel_tool_use") {
        Some(disabled) => Some(!disabled),
        None => None,
    };
    let translated = match choice.str_at("type") {
        Some(t) => if same(t.as_str(), "auto") {
            Some(Json::text("auto"))
        } else if same(t.as_str(), "any") {
            Some(Json::text("required"))
        } else if same(t.as_str(), "none") {
            Some(Json::text("none"))
        } else if same(t.as_str(), "tool") {
            match choice.str_at("name") {
                Some(name) => {
                    let function = Json::empty_object().with("name", Json::text(name.as_str()));
                    Some(
                        Json::empty_object().with("type", Json::text("function")).with(
                            "function",
                            function,
                        ),
                    )
                },
                None => None,
            }
        } else {
            None
        },
        None => None,
    };
    (translated, parallel)
}

} // verus!
