//! What a tool is: its definition, its output, and the trait to implement.

use vstd::prelude::*;

use crate::engine::error::ExecutionError;
use crate::json::{Json, JsonView};
use crate::protocol::model::{DescriptorView, ToolDescriptor};

verus! {

/// The name, description and input schema of a tool.
#[derive(Debug, PartialEq, Eq)]
pub struct ToolDefinition {
    pub name: String,
    pub description: String,
    pub input_schema: Json,
}

impl View for ToolDefinition {
    type V = DescriptorView;

    open spec fn view(&self) -> DescriptorView {
        DescriptorView {
            name: self.name@,
            description: self.description@,
            input_schema: self.input_schema@,
        }
    }
}

impl ToolDefinition {
    /// The same metadata as it is sent to a client.
    pub fn descriptor(&self) -> (descriptor: ToolDescriptor)
        ensures
            descriptor@ == self@,
    {
        ToolDescriptor {
            name: self.name.clone(),
            description: self.description.clone(),
            input_schema: self.input_schema.clone(),
        }
    }
}

/// What a tool returns.
#[derive(Debug, PartialEq, Eq)]
pub struct ToolOutput {
    pub content: Json,
}

impl ToolOutput {
    /// Output made of text.
    pub fn text(text: String) -> (output: Self)
        ensures
            output.content@ == JsonView::Text(text@),
    {
        ToolOutput { content: Json::Text(text) }
    }

    /// Structured output.
    pub fn json(content: Json) -> (output: Self)
        ensures
            output.content == content,
    {
        ToolOutput { content }
    }
}

/// A tool, as far as it decides without running: what it declares, whether it
/// may run beside other tools, how an invocation is described, and which
/// arguments it refuses beyond its schema.
pub trait Tool {
    fn definition(&self) -> ToolDefinition;

    fn is_concurrency_safe(&self, arguments: &Json) -> (safe: bool)
        default_ensures
            !safe,
    {
        false
    }

    fn invocation_detail(&self, arguments: &Json) -> (detail: String)
        default_ensures
            detail@ == Seq::<char>::empty(),
    {
        String::new()
    }

    fn validate(&self, arguments: &Json) -> (outcome: Result<(), ExecutionError>)
        default_ensures
            outcome is Ok,
    {
        Ok(())
    }
}

/// The string member `key` of the arguments, or nothing.
pub fn text_argument(arguments: &Json, key: &str) -> (text: String)
    ensures
        text@ == match arguments@.text_member(key@) {
            Some(text) => text,
            None => Seq::empty(),
        },
{
    match arguments.get_str(key) {
        Some(text) => text.to_owned(),
        None => String::new(),
    }
}

} // verus!
