//! Tool descriptors and tool calls.

use vstd::prelude::*;
use crate::json::{JsonValue, JsonSpec};

verus! {

/// A tool offered to the provider: a name, a description and a JSON-Schema
/// object describing its input.
#[derive(Debug, PartialEq)]
pub struct Tool {
    pub name: String,
    pub description: String,
    pub input_schema: JsonValue,
}

/// A model-emitted intent to invoke a named tool with JSON arguments.
#[derive(Debug, PartialEq)]
pub struct ToolCall {
    pub name: String,
    pub arguments: JsonValue,
}

/// The mathematical shape of a tool descriptor.
#[verifier::ext_equal]
pub struct ToolSpec {
    pub name: Seq<char>,
    pub description: Seq<char>,
    pub input_schema: JsonSpec,
}

/// The mathematical shape of a tool call.
#[verifier::ext_equal]
pub struct ToolCallSpec {
    pub name: Seq<char>,
    pub arguments: JsonSpec,
}

impl DeepView for Tool {
    type V = ToolSpec;

    open spec fn deep_view(&self) -> ToolSpec {
        ToolSpec {
            name: self.name@,
            description: self.description@,
            input_schema: self.input_schema.deep_view(),
        }
    }
}

impl DeepView for ToolCall {
    type V = ToolCallSpec;

    open spec fn deep_view(&self) -> ToolCallSpec {
        ToolCallSpec { name: self.name@, arguments: self.arguments.deep_view() }
    }
}

impl Tool {
    /// A tool descriptor from its parts.
    pub fn new(name: &str, description: &str, input_schema: JsonValue) -> (r: Tool)
        ensures
            r.deep_view() == (ToolSpec {
                name: name@,
                description: description@,
                input_schema: input_schema.deep_view(),
            }),
    {
        Tool { name: name.to_owned(), description: description.to_owned(), input_schema }
    }
}

impl ToolCall {
    /// A tool call from its parts.
    pub fn new(name: &str, arguments: JsonValue) -> (r: ToolCall)
        ensures
            r.deep_view() == (ToolCallSpec { name: name@, arguments: arguments.deep_view() }),
    {
        ToolCall { name: name.to_owned(), arguments }
    }

    /// A structurally equal copy of the call.
    pub fn duplicate(&self) -> (r: ToolCall)
        ensures
            r.deep_view() == self.deep_view(),
    {
        ToolCall { name: self.name.clone(), arguments: self.arguments.duplicate() }
    }
}

} // verus!
