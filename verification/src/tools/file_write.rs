//! `Write`: create or overwrite a UTF-8 text file.

use vstd::prelude::*;
use vstd::utf8::{decode_utf8, encode_utf8, valid_utf8};

use crate::engine::error::{tool_failure, ErrorView, ExecutionError};
use crate::engine::execution::outcome_error;
use crate::engine::tool::{Tool, ToolDefinition, ToolOutput};
use crate::json::{lemma_member_at, members_view, with_member, Json, JsonView, NumberView};
use crate::runtime::shell::{type_json, type_schema};
use crate::text::{clip, clipped, from_utf8, law_clipping_keeps_the_beginning, texts};
use crate::tools::file_read::path_detail;
use crate::tools::shared::{
    change_refusal, missing_string, object_schema, object_schema_json, only, path_refusal,
    required_string, required_string_any, text_refusal, text_under, FileReadRecord, FileReadState,
};

verus! {

/// The tool. `S` is the record of what was read, which the file tools share.
pub struct FileWriteTool<S> {
    read_file_state: S,
}

/// Why arguments are refused: the path and the content must be there.
pub open spec fn write_refusal(arguments: JsonView) -> Option<ErrorView> {
    match path_refusal(arguments) {
        Some(refusal) => Some(refusal),
        None => text_refusal(arguments, "content"@),
    }
}

/// What a call asks for.
#[derive(Debug, PartialEq, Eq)]
pub struct WriteRequest {
    pub input_path: String,
    pub content: String,
}

/// How much of what was written is shown.
pub const WRITE_CONTENT_PREVIEW_CHARS: usize = 20_000;

/// What a call asks for, or what is missing.
pub fn write_request(arguments: &Json) -> (request: Result<WriteRequest, ExecutionError>)
    ensures
        match (
            request,
            text_under(arguments@, "file_path"@, "path"@),
            arguments@.text_member("content"@),
        ) {
            (Ok(request), Some(path), Some(content)) => request.input_path@ == path
                && request.content@ == content,
            (Err(error), None, _) => error@ == missing_string("file_path"@),
            (Err(error), Some(_), None) => error@ == missing_string("content"@),
            _ => false,
        },
{
    let input_path = match required_string_any(arguments, "file_path", "path") {
        Ok(path) => path,
        Err(error) => {
            return Err(error);
        },
    };
    match required_string(arguments, "content") {
        Ok(content) => Ok(WriteRequest { input_path, content }),
        Err(error) => Err(error),
    }
}

/// What lies at a path that is to be written.
#[derive(Debug, PartialEq, Eq)]
pub enum Existing {
    /// Nothing.
    Missing,
    /// A text file, with what it holds.
    Text(String),
    /// Something that is no text, or that cannot be read.
    Other,
}

/// What came of reading a path that is to be written.
#[derive(Debug, PartialEq, Eq)]
pub enum Attempt {
    /// Nothing is there.
    NotFound,
    /// It was read.
    Read(Vec<u8>),
    /// It could not be read.
    Failed,
}

/// What lies at a path, given what came of reading it: only where nothing is
/// there is nothing existing.
pub fn existing_file(attempt: Attempt) -> (existing: Existing)
    ensures
        match attempt {
            Attempt::NotFound => existing is Missing,
            Attempt::Read(bytes) => if valid_utf8(bytes@) {
                existing matches Existing::Text(text) && text@ == decode_utf8(bytes@)
            } else {
                existing is Other
            },
            Attempt::Failed => existing is Other,
        },
{
    match attempt {
        Attempt::NotFound => Existing::Missing,
        Attempt::Read(bytes) => match from_utf8(bytes) {
            Some(text) => Existing::Text(text),
            None => Existing::Other,
        },
        Attempt::Failed => Existing::Other,
    }
}

/// Why what lies at a path may not be overwritten: a text file must have been
/// read whole and be what was read, and anything else that is there cannot have
/// been.
pub open spec fn overwrite_refusal(
    records: Map<Seq<char>, FileReadRecord>,
    path: Seq<char>,
    existing: Existing,
) -> Option<Seq<char>> {
    match existing {
        Existing::Missing => None,
        Existing::Text(text) => change_refusal(records, path, text@),
        Existing::Other => Some("file has not been read yet; read it with Read first"@),
    }
}

/// Whether a file may be written: one that is not there may, one that is must
/// have been read.
pub fn check_write(state: &FileReadState, path: &str, existing: &Existing) -> (checked: Result<
    (),
    ExecutionError,
>)
    ensures
        match (checked, overwrite_refusal(state@, path@, *existing)) {
            (Ok(_), None) => true,
            (Err(error), Some(message)) => error@ == (ErrorView::ToolExecution {
                tool: "Write"@,
                message,
            }),
            _ => false,
        },
{
    match existing {
        Existing::Missing => Ok(()),
        Existing::Text(text) => state.ensure_file_was_read_and_unchanged(
            "Write",
            path,
            text.as_str(),
        ),
        Existing::Other => Err(
            tool_failure("Write", "file has not been read yet; read it with Read first"),
        ),
    }
}

/// What is taken down of a file that was written.
pub fn written_record(content: &str, timestamp_ms: u64) -> (record: FileReadRecord)
    ensures
        record.content@ == content@,
        record.timestamp_ms == timestamp_ms,
        !record.is_partial_view,
        record.offset is None,
        record.limit is None,
{
    FileReadRecord {
        content: content.to_owned(),
        timestamp_ms,
        is_partial_view: false,
        offset: None,
        limit: None,
    }
}

/// The result of a call.
pub open spec fn write_result(input_path: Seq<char>, path: Seq<char>, content: Seq<char>) -> JsonView {
    JsonView::Object(
        seq![
            ("file_path"@, JsonView::Text(input_path)),
            ("path"@, JsonView::Text(path)),
            ("written"@, JsonView::Bool(true)),
            (
                "bytes"@,
                JsonView::Number(NumberView::Unsigned(encode_utf8(content).len() as u64)),
            ),
            ("content_preview"@, JsonView::Text(clipped(content, 20_000))),
            ("content_truncated"@, JsonView::Bool(content.len() > 20_000)),
        ],
    )
}

/// The beginning of what was written, and whether there is more.
pub fn content_preview(content: &str) -> (preview: (String, bool))
    ensures
        preview.0@ == clipped(content@, 20_000),
        preview.1 == (content@.len() > 20_000),
{
    clip(content, WRITE_CONTENT_PREVIEW_CHARS)
}

/// What a call returns.
pub fn write_output(request: &WriteRequest, path: &str) -> (output: ToolOutput)
    requires
        encode_utf8(request.content@).len() <= usize::MAX,
    ensures
        output.content@ == write_result(request.input_path@, path@, request.content@),
        output.content@.text_member("file_path"@) == Some(request.input_path@),
        output.content@.text_member("path"@) == Some(path@),
        output.content@.member("written"@) == Some(JsonView::Bool(true)),
        output.content@.unsigned_member("bytes"@) == Some(
            encode_utf8(request.content@).len() as u64,
        ),
        output.content@.text_member("content_preview"@) == Some(
            clipped(request.content@, 20_000),
        ),
        output.content@.member("content_truncated"@) == Some(
            JsonView::Bool(request.content@.len() > 20_000),
        ),
{
    let (preview, truncated) = content_preview(request.content.as_str());
    let bytes: usize = request.content.as_str().len();
    let members = with_member(Vec::new(), "file_path", Json::text(request.input_path.as_str()));
    let members = with_member(members, "path", Json::text(path));
    let members = with_member(members, "written", Json::Bool(true));
    let members = with_member(members, "bytes", Json::unsigned(bytes as u64));
    let members = with_member(members, "content_preview", Json::text(preview.as_str()));
    let members = with_member(members, "content_truncated", Json::Bool(truncated));
    assert(members_view(Seq::empty()) =~= Seq::empty());
    assert(members_view(members@) =~= write_result(
        request.input_path@,
        path@,
        request.content@,
    )->Object_0);
    proof {
        law_writes_are_found_by_key(request.input_path@, path@, request.content@);
    }
    ToolOutput::json(Json::object(members))
}

impl<S> FileWriteTool<S> {
    pub closed spec fn state(self) -> S {
        self.read_file_state
    }

    pub fn new(read_file_state: S) -> (tool: Self)
        ensures
            tool.state() == read_file_state,
    {
        FileWriteTool { read_file_state }
    }

    pub fn read_file_state(&self) -> (state: &S)
        ensures
            *state == self.state(),
    {
        &self.read_file_state
    }
}

/// The input schema of the tool.
pub open spec fn write_schema() -> JsonView {
    object_schema(
        seq![("file_path"@, type_schema("string"@)), ("content"@, type_schema("string"@))],
        seq!["file_path"@, "content"@],
    )
}

impl<S> Tool for FileWriteTool<S> {
    fn definition(&self) -> (definition: ToolDefinition)
        ensures
            definition@.name == "Write"@,
            definition@.description
                == "Create or overwrite a UTF-8 text file. Existing files must be read first with Read."@,
            definition@.input_schema == write_schema(),
    {
        let properties = with_member(Vec::new(), "file_path", type_json("string"));
        let properties = with_member(properties, "content", type_json("string"));
        assert(members_view(Seq::empty()) =~= Seq::empty());
        assert(members_view(properties@) =~= write_schema()->Object_0[1].1->Object_0);
        let mut required = only("file_path");
        let ghost first = texts(required@);
        required.push("content".to_owned());
        assert(texts(required@) =~= first.push("content"@));
        assert(first.push("content"@) =~= seq!["file_path"@, "content"@]);
        ToolDefinition {
            name: "Write".to_owned(),
            description:
                "Create or overwrite a UTF-8 text file. Existing files must be read first with Read.".to_owned(),
            input_schema: object_schema_json(properties, &required),
        }
    }

    fn invocation_detail(&self, arguments: &Json) -> (detail: String)
        ensures
            detail@ == match text_under(arguments@, "file_path"@, "path"@) {
                Some(path) => path,
                None => Seq::empty(),
            },
    {
        path_detail(arguments)
    }

    fn validate(&self, arguments: &Json) -> (outcome: Result<(), ExecutionError>)
        ensures
            outcome_error(outcome) == write_refusal(arguments@),
    {
        match write_request(arguments) {
            Ok(_) => Ok(()),
            Err(error) => Err(error),
        }
    }
}

/// Whatever lies at a path and was never read or written through the record is
/// not overwritten.
pub proof fn law_unread_files_are_not_overwritten(
    records: Map<Seq<char>, FileReadRecord>,
    path: Seq<char>,
    existing: Existing,
)
    requires
        !records.contains_key(path),
    ensures
        overwrite_refusal(records, path, existing) is None <==> existing is Missing,
{
}

/// What was written may be changed again without another read, as long as the
/// file still holds it.
pub proof fn law_written_files_count_as_read(
    records: Map<Seq<char>, FileReadRecord>,
    path: Seq<char>,
    record: FileReadRecord,
)
    requires
        !record.is_partial_view,
    ensures
        change_refusal(records.insert(path, record), path, record.content@) is None,
{
}

/// The result of a write tells the path that was asked for and the path that was
/// written, how many bytes were, the beginning of what was, and whether there is
/// more of it, each under its key.
pub proof fn law_writes_are_found_by_key(input_path: Seq<char>, path: Seq<char>, content: Seq<char>)
    ensures
        ({
            let result = write_result(input_path, path, content);
            &&& result.text_member("file_path"@) == Some(input_path)
            &&& result.text_member("path"@) == Some(path)
            &&& result.member("written"@) == Some(JsonView::Bool(true))
            &&& result.unsigned_member("bytes"@) == Some(encode_utf8(content).len() as u64)
            &&& result.text_member("content_preview"@) matches Some(preview)
                && preview.is_prefix_of(content) && (preview.len() < 20_000 ==> preview == content)
                && preview.len() <= 20_000
            &&& result.text_member("content_preview"@) == Some(clipped(content, 20_000))
            &&& result.member("content_truncated"@) == Some(
                JsonView::Bool(content.len() > 20_000),
            )
        }),
{
    reveal_strlit("file_path");
    reveal_strlit("path");
    reveal_strlit("written");
    reveal_strlit("bytes");
    reveal_strlit("content_preview");
    reveal_strlit("content_truncated");
    assert("file_path"@.len() == 9 && "path"@.len() == 4 && "written"@.len() == 7);
    assert("bytes"@.len() == 5 && "content_preview"@.len() == 15 && "content_truncated"@.len()
        == 17);
    let members = write_result(input_path, path, content)->Object_0;
    lemma_member_at(members, "file_path"@, 0);
    lemma_member_at(members, "path"@, 1);
    lemma_member_at(members, "written"@, 2);
    lemma_member_at(members, "bytes"@, 3);
    lemma_member_at(members, "content_preview"@, 4);
    lemma_member_at(members, "content_truncated"@, 5);
    law_clipping_keeps_the_beginning(content, 20_000);
}

/// Arguments are accepted exactly where a path and the content are there; where
/// one is missing, the refusal names it.
pub proof fn law_writes_need_a_path_and_the_content(arguments: JsonView)
    ensures
        write_refusal(arguments) is None <==> (arguments.text_member("file_path"@) is Some
            || arguments.text_member("path"@) is Some) && arguments.text_member("content"@)
            is Some,
        write_refusal(arguments) matches Some(error) ==> error == ErrorView::Other(
            "missing required string argument `"@ + (if arguments.text_member("file_path"@) is None
                && arguments.text_member("path"@) is None {
                "file_path"@
            } else {
                "content"@
            }) + "`"@,
        ),
{
}

/// A file that is there is overwritten only where it was read whole and still
/// holds what was read; what is no text is never overwritten.
pub proof fn law_overwriting_needs_a_current_read(
    records: Map<Seq<char>, FileReadRecord>,
    path: Seq<char>,
    existing: Existing,
)
    ensures
        overwrite_refusal(records, path, existing) is None <==> match existing {
            Existing::Missing => true,
            Existing::Text(text) => records.contains_key(path) && !records[path].is_partial_view
                && records[path].content@ == text@,
            Existing::Other => false,
        },
{
}

} // verus!
