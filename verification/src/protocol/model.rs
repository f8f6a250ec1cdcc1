//! Execution requests, their results, and tool descriptions.

use vstd::prelude::*;

use crate::json::{Json, JsonView};

verus! {

/// A fully authorized request ready for execution.
#[derive(Debug, PartialEq, Eq)]
pub struct ExecutionRequest {
    pub id: String,
    pub tool: String,
    pub arguments: Json,
}

/// What an [`ExecutionRequest`] says.
pub struct RequestView {
    pub id: Seq<char>,
    pub tool: Seq<char>,
    pub arguments: JsonView,
}

impl View for ExecutionRequest {
    type V = RequestView;

    open spec fn view(&self) -> RequestView {
        RequestView { id: self.id@, tool: self.tool@, arguments: self.arguments@ }
    }
}

impl Clone for ExecutionRequest {
    fn clone(&self) -> (copy: Self)
        ensures
            copy@ == self@,
    {
        ExecutionRequest {
            id: self.id.clone(),
            tool: self.tool.clone(),
            arguments: self.arguments.clone(),
        }
    }
}

/// The terminal outcome of one execution request.
#[derive(Debug, PartialEq, Eq)]
pub struct ExecutionResult {
    pub execution_id: String,
    pub tool: String,
    pub content: Json,
    pub is_error: bool,
}

/// What an [`ExecutionResult`] says.
pub struct ResultView {
    pub execution_id: Seq<char>,
    pub tool: Seq<char>,
    pub content: JsonView,
    pub is_error: bool,
}

impl View for ExecutionResult {
    type V = ResultView;

    open spec fn view(&self) -> ResultView {
        ResultView {
            execution_id: self.execution_id@,
            tool: self.tool@,
            content: self.content@,
            is_error: self.is_error,
        }
    }
}

impl Clone for ExecutionResult {
    fn clone(&self) -> (copy: Self)
        ensures
            copy@ == self@,
    {
        ExecutionResult {
            execution_id: self.execution_id.clone(),
            tool: self.tool.clone(),
            content: self.content.clone(),
            is_error: self.is_error,
        }
    }
}

/// Tool metadata: what a tool declares, and what capability discovery returns.
#[derive(Debug, PartialEq, Eq)]
pub struct ToolDescriptor {
    pub name: String,
    pub description: String,
    pub input_schema: Json,
}

/// What a [`ToolDescriptor`] says.
pub struct DescriptorView {
    pub name: Seq<char>,
    pub description: Seq<char>,
    pub input_schema: JsonView,
}

impl View for ToolDescriptor {
    type V = DescriptorView;

    open spec fn view(&self) -> DescriptorView {
        DescriptorView {
            name: self.name@,
            description: self.description@,
            input_schema: self.input_schema@,
        }
    }
}

impl Clone for ToolDescriptor {
    fn clone(&self) -> (copy: Self)
        ensures
            copy@ == self@,
    {
        ToolDescriptor {
            name: self.name.clone(),
            description: self.description.clone(),
            input_schema: self.input_schema.clone(),
        }
    }
}

/// What each descriptor of a list says.
pub open spec fn descriptors_view(list: Seq<ToolDescriptor>) -> Seq<DescriptorView> {
    Seq::new(list.len(), |i: int| list[i]@)
}

/// What a request, a result and a descriptor say is all that they hold.
pub proof fn law_models_are_seen_whole(
    request: ExecutionRequest,
    result: ExecutionResult,
    descriptor: ToolDescriptor,
)
    ensures
        request@.id == request.id@,
        request@.tool == request.tool@,
        request@.arguments == request.arguments@,
        result@.execution_id == result.execution_id@,
        result@.tool == result.tool@,
        result@.content == result.content@,
        result@.is_error == result.is_error,
        descriptor@.name == descriptor.name@,
        descriptor@.description == descriptor.description@,
        descriptor@.input_schema == descriptor.input_schema@,
{
}

/// A list of descriptors says what each of them says, in order.
pub proof fn law_descriptors_are_seen_in_order(list: Seq<ToolDescriptor>, i: int)
    requires
        0 <= i < list.len(),
    ensures
        descriptors_view(list).len() == list.len(),
        descriptors_view(list)[i].name == list[i].name@,
        descriptors_view(list)[i].description == list[i].description@,
        descriptors_view(list)[i].input_schema == list[i].input_schema@,
{
}

} // verus!
