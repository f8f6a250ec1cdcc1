//! `Read`: read a UTF-8 text file, whole or some of its lines.

use vstd::prelude::*;
use vstd::utf8::{decode_utf8, valid_utf8};

use crate::engine::error::{tool_failure, ErrorView, ExecutionError};
use crate::engine::execution::outcome_error;
use crate::engine::tool::{Tool, ToolDefinition, ToolOutput};
use crate::json::{lemma_member_at, members_view, with_member, Json, JsonView, NumberView};
use crate::text::{
    contains_text, decimal, decimal_text, from_utf8, join, joined, law_decimals_read_back,
    law_joined_parts_split_again, law_occurrences_split_the_text, law_pieces_make_up_the_text,
    lines, lines_of, split_on, strip_return, texts,
};
use crate::tools::shared::{
    missing_string, object_schema, object_schema_json, only, optional_usize_any,
    path_refusal, required_string_any, size_under, text_under, FileReadRecord, FileReadState,
    DEFAULT_MAX_FILE_READ_BYTES,
};

verus! {

/// The tool. `S` is the record of what was read, which the file tools share.
pub struct FileReadTool<S> {
    read_file_state: S,
    max_file_read_bytes: usize,
}

/// What a call asks for.
#[derive(Debug, PartialEq, Eq)]
pub struct ReadRequest {
    pub input_path: String,
    /// The first line, counted from 1.
    pub start_line: usize,
    pub max_lines: Option<usize>,
}

/// Some lines with their numbers, which count from 1.
pub open spec fn numbered(all: Seq<Seq<char>>, start_line: usize, max_lines: Option<usize>) -> Seq<
    Seq<char>,
> {
    let first = start_line - 1;
    let left = if all.len() > first {
        all.len() - first
    } else {
        0
    };
    let count = match max_lines {
        Some(limit) => if left > limit {
            limit as int
        } else {
            left
        },
        None => left,
    };
    Seq::new(count as nat, |i: int| decimal((first + i + 1) as nat) + ": "@ + all[first + i])
}

/// What a call shows of a file.
pub open spec fn rendering(content: Seq<char>, start_line: usize, max_lines: Option<usize>) -> Seq<
    char,
> {
    let all = lines_of(content);
    let shown = numbered(all, start_line, max_lines);
    if content.len() == 0 {
        "<system-reminder>Warning: the file exists but the contents are empty.</system-reminder>"@
    } else if shown.len() == 0 {
        "<system-reminder>Warning: the file exists but is shorter than the provided offset ("@
            + decimal(start_line as nat) + "). The file has "@ + decimal(all.len())
            + " lines.</system-reminder>"@
    } else {
        joined(shown, "\n"@)
    }
}

/// Whether a call shows less than the whole file.
pub open spec fn partial(line_count: nat, start_line: usize, max_lines: Option<usize>) -> bool {
    start_line > 1 || (max_lines matches Some(limit) && limit < line_count)
}

/// The lines that a call shows, with their numbers.
fn number_lines(all: &Vec<String>, start_line: usize, max_lines: Option<usize>) -> (shown: Vec<
    String,
>)
    requires
        start_line >= 1,
    ensures
        texts(shown@) == numbered(texts(all@), start_line, max_lines),
{
    let first: usize = start_line - 1;
    let total: usize = all.len();
    let left: usize = if total > first {
        total - first
    } else {
        0
    };
    let count: usize = match max_lines {
        Some(limit) => if left > limit {
            limit
        } else {
            left
        },
        None => left,
    };
    let mut shown: Vec<String> = Vec::new();
    let mut i: usize = 0;
    while i < count
        invariant
            i <= count <= left,
            left == if total > first {
                (total - first) as usize
            } else {
                0
            },
            total == all@.len(),
            first == start_line - 1,
            shown@.len() == i,
            forall|j: int|
                0 <= j < i ==> #[trigger] shown@[j]@ == decimal((first + j + 1) as nat) + ": "@
                    + all@[first + j]@,
        decreases count - i,
    {
        let number = decimal_text(first as u128 + i as u128 + 1);
        shown.push(number.concat(": ").concat(all[first + i].as_str()));
        i += 1;
    }
    assert(texts(shown@) =~= numbered(texts(all@), start_line, max_lines));
    shown
}

/// The result of a call.
pub open spec fn read_result(
    input_path: Seq<char>,
    path: Seq<char>,
    content: Seq<char>,
    start_line: usize,
    max_lines: Option<usize>,
) -> JsonView {
    JsonView::Object(
        seq![
            ("file_path"@, JsonView::Text(input_path)),
            ("path"@, JsonView::Text(path)),
            ("content"@, JsonView::Text(rendering(content, start_line, max_lines))),
            ("start_line"@, JsonView::Number(NumberView::Unsigned(start_line as u64))),
            (
                "total_lines"@,
                JsonView::Number(NumberView::Unsigned(lines_of(content).len() as u64)),
            ),
        ],
    )
}

/// What went wrong with a file, as it is told: a file that is not there gets
/// both paths, any other error its own text.
pub fn friendly_file_error(cwd: &str, path: &str, not_found: bool, error: &str) -> (text: String)
    ensures
        text@ == if not_found {
            "File does not exist. Current working directory: "@ + cwd@ + ". Requested path: "@
                + path@
        } else {
            error@
        },
{
    if not_found {
        "File does not exist. Current working directory: ".to_owned().concat(cwd).concat(
            ". Requested path: ",
        ).concat(path)
    } else {
        error.to_owned()
    }
}

/// What a call asks for, or what is missing.
pub fn read_request(arguments: &Json) -> (request: Result<ReadRequest, ExecutionError>)
    ensures
        match (request, text_under(arguments@, "file_path"@, "path"@)) {
            (Ok(request), Some(path)) => {
                &&& request.input_path@ == path
                &&& request.start_line == match size_under(
                    arguments@,
                    "offset"@,
                    "start_line"@,
                ) {
                    Some(n) => if n >= 1 {
                        n
                    } else {
                        1
                    },
                    None => 1,
                }
                &&& request.start_line >= 1
                &&& request.max_lines == size_under(arguments@, "limit"@, "max_lines"@)
            },
            (Err(error), None) => error@ == missing_string("file_path"@),
            _ => false,
        },
{
    let input_path = match required_string_any(arguments, "file_path", "path") {
        Ok(path) => path,
        Err(error) => {
            return Err(error);
        },
    };
    let start_line: usize = match optional_usize_any(arguments, "offset", "start_line") {
        Some(n) => if n >= 1 {
            n
        } else {
            1
        },
        None => 1,
    };
    let max_lines: Option<usize> = optional_usize_any(arguments, "limit", "max_lines");
    Ok(ReadRequest { input_path, start_line, max_lines })
}

/// Why the bytes of a file are no text.
pub open spec fn text_refusal(bytes: Seq<u8>) -> Option<Seq<char>> {
    if bytes.contains(0u8) {
        Some("file appears to be binary; Read only supports UTF-8 text"@)
    } else if !valid_utf8(bytes) {
        Some("file is not valid UTF-8 text"@)
    } else {
        None
    }
}

fn holds_zero(bytes: &Vec<u8>) -> (yes: bool)
    ensures
        yes == bytes@.contains(0u8),
{
    let mut i: usize = 0;
    while i < bytes.len()
        invariant
            i <= bytes@.len(),
            forall|j: int| 0 <= j < i ==> #[trigger] bytes@[j] != 0,
        decreases bytes.len() - i,
    {
        if bytes[i] == 0 {
            assert(bytes@[i as int] == 0u8);
            return true;
        }
        i += 1;
    }
    false
}

/// The text of a file.
pub fn file_text(bytes: Vec<u8>) -> (text: Result<String, ExecutionError>)
    ensures
        match (text, text_refusal(bytes@)) {
            (Ok(text), None) => text@ == decode_utf8(bytes@),
            (Err(error), Some(message)) => error@ == (ErrorView::ToolExecution {
                tool: "Read"@,
                message,
            }),
            _ => false,
        },
{
    if holds_zero(&bytes) {
        return Err(
            tool_failure("Read", "file appears to be binary; Read only supports UTF-8 text"),
        );
    }
    match from_utf8(bytes) {
        Some(text) => Ok(text),
        None => Err(tool_failure("Read", "file is not valid UTF-8 text")),
    }
}

impl Default for FileReadTool<FileReadState> {
    fn default() -> (tool: Self)
        ensures
            tool.state()@ == Map::<Seq<char>, FileReadRecord>::empty(),
            tool.max_bytes() == DEFAULT_MAX_FILE_READ_BYTES,
    {
        FileReadTool::new(FileReadState::new())
    }
}

impl<S> FileReadTool<S> {
    pub closed spec fn state(self) -> S {
        self.read_file_state
    }

    pub closed spec fn max_bytes(self) -> usize {
        self.max_file_read_bytes
    }

    pub fn new(read_file_state: S) -> (tool: Self)
        ensures
            tool.state() == read_file_state,
            tool.max_bytes() == DEFAULT_MAX_FILE_READ_BYTES,
    {
        FileReadTool { read_file_state, max_file_read_bytes: DEFAULT_MAX_FILE_READ_BYTES }
    }

    pub fn with_max_file_read_bytes(self, bytes: usize) -> (tool: Self)
        ensures
            tool.state() == self.state(),
            tool.max_bytes() == bytes,
    {
        FileReadTool { read_file_state: self.read_file_state, max_file_read_bytes: bytes }
    }

    pub fn read_file_state(&self) -> (state: &S)
        ensures
            *state == self.state(),
    {
        &self.read_file_state
    }

    /// Refuses a file that is too large to be read.
    pub fn check_size(&self, length: u64, path: &str) -> (checked: Result<(), ExecutionError>)
        ensures
            match checked {
                Ok(_) => length <= self.max_bytes(),
                Err(error) => length > self.max_bytes() && error@ == (ErrorView::ToolExecution {
                    tool: "Read"@,
                    message: "file exceeds maximum read size ("@ + decimal(self.max_bytes() as nat)
                        + " bytes): "@ + path@,
                }),
            },
    {
        if length > self.max_file_read_bytes as u64 {
            let most = decimal_text(self.max_file_read_bytes as u128);
            let message = "file exceeds maximum read size (".to_owned().concat(
                most.as_str(),
            ).concat(" bytes): ").concat(path);
            return Err(tool_failure("Read", message.as_str()));
        }
        Ok(())
    }
}

/// What a call returns of the text of a file, and what is taken down of it.
pub fn read_output(request: &ReadRequest, path: &str, content: &str, timestamp_ms: u64) -> (output:
    (ToolOutput, FileReadRecord))
    requires
        request.start_line >= 1,
    ensures
        output.0.content@ == read_result(
            request.input_path@,
            path@,
            content@,
            request.start_line,
            request.max_lines,
        ),
        output.0.content@.text_member("file_path"@) == Some(request.input_path@),
        output.0.content@.text_member("path"@) == Some(path@),
        output.0.content@.text_member("content"@) == Some(
            rendering(content@, request.start_line, request.max_lines),
        ),
        output.0.content@.unsigned_member("start_line"@) == Some(request.start_line as u64),
        output.0.content@.unsigned_member("total_lines"@) == Some(lines_of(content@).len() as u64),
        output.1.content@ == content@,
        output.1.timestamp_ms == timestamp_ms,
        output.1.is_partial_view == partial(
            lines_of(content@).len(),
            request.start_line,
            request.max_lines,
        ),
        output.1.offset == Some(request.start_line),
        output.1.limit == request.max_lines,
{
    let all = lines(content);
    let line_count: usize = all.len();
    assert(lines_of(content@).len() == line_count);
    let shown = number_lines(&all, request.start_line, request.max_lines);
    assert(texts(shown@).len() == shown@.len());
    let rendered = if content.is_empty() {
        "<system-reminder>Warning: the file exists but the contents are empty.</system-reminder>".to_owned()
    } else if shown.len() == 0 {
        let start = decimal_text(request.start_line as u128);
        let count = decimal_text(line_count as u128);
        "<system-reminder>Warning: the file exists but is shorter than the provided offset (".to_owned().concat(
            start.as_str(),
        ).concat("). The file has ").concat(count.as_str()).concat(" lines.</system-reminder>")
    } else {
        join(&shown, "\n")
    };
    let limited = match request.max_lines {
        Some(limit) => limit < line_count,
        None => false,
    };
    let members = with_member(Vec::new(), "file_path", Json::text(request.input_path.as_str()));
    let members = with_member(members, "path", Json::text(path));
    let members = with_member(members, "content", Json::text(rendered.as_str()));
    let members = with_member(members, "start_line", Json::unsigned(request.start_line as u64));
    let members = with_member(members, "total_lines", Json::unsigned(line_count as u64));
    assert(members_view(Seq::empty()) =~= Seq::empty());
    assert(members_view(members@) =~= read_result(
        request.input_path@,
        path@,
        content@,
        request.start_line,
        request.max_lines,
    )->Object_0);
    proof {
        law_reads_are_found_by_key(
            request.input_path@,
            path@,
            content@,
            request.start_line,
            request.max_lines,
        );
    }
    (
        ToolOutput::json(Json::object(members)),
        FileReadRecord {
            content: content.to_owned(),
            timestamp_ms,
            is_partial_view: request.start_line > 1 || limited,
            offset: Some(request.start_line),
            limit: request.max_lines,
        },
    )
}

/// A property with a type and a description.
pub open spec fn described(kind: Seq<char>, description: Seq<char>) -> JsonView {
    JsonView::Object(
        seq![("type"@, JsonView::Text(kind)), ("description"@, JsonView::Text(description))],
    )
}

/// A property with a type and a description.
pub fn described_json(kind: &str, description: &str) -> (json: Json)
    ensures
        json@ == described(kind@, description@),
{
    let members = with_member(Vec::new(), "type", Json::text(kind));
    let members = with_member(members, "description", Json::text(description));
    assert(members_view(Seq::empty()) =~= Seq::empty());
    assert(members_view(members@) =~= described(kind@, description@)->Object_0);
    Json::object(members)
}

/// The input schema of the tool.
pub open spec fn read_schema() -> JsonView {
    object_schema(
        seq![
            (
                "file_path"@,
                described("string"@, "Path to the file to read, absolute or relative to cwd."@),
            ),
            (
                "offset"@,
                described("integer"@, "1-indexed line number to start reading from."@),
            ),
            ("limit"@, described("integer"@, "Maximum number of lines to read."@)),
        ],
        seq!["file_path"@],
    )
}

/// What the tool says of itself.
pub const READ_DESCRIPTION: &'static str =
    "Read a UTF-8 text file. Use this before editing an existing file. The returned `content` prefixes each line with its 1-indexed line number for display; provide the original file text (without line-number prefixes) to `Edit` when editing.";

/// The path that a call names, or nothing.
pub fn path_detail(arguments: &Json) -> (detail: String)
    ensures
        detail@ == match text_under(arguments@, "file_path"@, "path"@) {
            Some(path) => path,
            None => Seq::empty(),
        },
{
    match required_string_any(arguments, "file_path", "path") {
        Ok(path) => path,
        Err(_) => String::new(),
    }
}

impl<S> Tool for FileReadTool<S> {
    fn definition(&self) -> (definition: ToolDefinition)
        ensures
            definition@.name == "Read"@,
            definition@.description == READ_DESCRIPTION@,
            definition@.input_schema == read_schema(),
    {
        let properties = with_member(
            Vec::new(),
            "file_path",
            described_json("string", "Path to the file to read, absolute or relative to cwd."),
        );
        let properties = with_member(
            properties,
            "offset",
            described_json("integer", "1-indexed line number to start reading from."),
        );
        let properties = with_member(
            properties,
            "limit",
            described_json("integer", "Maximum number of lines to read."),
        );
        let ghost wanted = read_schema()->Object_0[1].1->Object_0;
        assert(members_view(Seq::empty()) =~= Seq::empty());
        assert(members_view(properties@) =~= wanted);
        ToolDefinition {
            name: "Read".to_owned(),
            description: READ_DESCRIPTION.to_owned(),
            input_schema: object_schema_json(properties, &only("file_path")),
        }
    }

    fn is_concurrency_safe(&self, arguments: &Json) -> (safe: bool)
        ensures
            safe,
    {
        true
    }

    fn invocation_detail(&self, arguments: &Json) -> (detail: String)
        ensures
            detail@ == match text_under(arguments@, "file_path"@, "path"@) {
                Some(path) => path,
                None => Seq::empty(),
            },
    {
        path_detail(arguments)
    }

    fn validate(&self, arguments: &Json) -> (outcome: Result<(), ExecutionError>)
        ensures
            outcome_error(outcome) == path_refusal(arguments@),
    {
        match required_string_any(arguments, "file_path", "path") {
            Ok(_) => Ok(()),
            Err(error) => Err(error),
        }
    }
}

/// Reading a file without an offset and a limit shows every line and counts as
/// a whole read.
pub proof fn law_plain_reads_are_whole(content: Seq<char>)
    ensures
        !partial(lines_of(content).len(), 1, None),
        numbered(lines_of(content), 1, None).len() == lines_of(content).len(),
        forall|i: int|
            0 <= i < lines_of(content).len() ==> #[trigger] numbered(lines_of(content), 1, None)[i]
                == decimal((i + 1) as nat) + ": "@ + lines_of(content)[i],
{
}

/// The result of a read tells the path that was asked for and the path that was
/// read, what is shown of the file, the first line and the number of all lines,
/// each under its key.
pub proof fn law_reads_are_found_by_key(
    input_path: Seq<char>,
    path: Seq<char>,
    content: Seq<char>,
    start_line: usize,
    max_lines: Option<usize>,
)
    ensures
        ({
            let result = read_result(input_path, path, content, start_line, max_lines);
            &&& result.text_member("file_path"@) == Some(input_path)
            &&& result.text_member("path"@) == Some(path)
            &&& result.text_member("content"@) == Some(rendering(content, start_line, max_lines))
            &&& result.unsigned_member("start_line"@) == Some(start_line as u64)
            &&& result.unsigned_member("total_lines"@) == Some(lines_of(content).len() as u64)
        }),
{
    reveal_strlit("file_path");
    reveal_strlit("path");
    reveal_strlit("content");
    reveal_strlit("start_line");
    reveal_strlit("total_lines");
    assert("file_path"@.len() == 9 && "path"@.len() == 4 && "content"@.len() == 7);
    assert("start_line"@.len() == 10 && "total_lines"@.len() == 11);
    let members = read_result(input_path, path, content, start_line, max_lines)->Object_0;
    lemma_member_at(members, "file_path"@, 0);
    lemma_member_at(members, "path"@, 1);
    lemma_member_at(members, "content"@, 2);
    lemma_member_at(members, "start_line"@, 3);
    lemma_member_at(members, "total_lines"@, 4);
}

/// A read shows the lines that were asked for: those from the first line on, as
/// many as the limit allows, in order and without a gap, each behind its own
/// number.
pub proof fn law_reads_show_the_lines_asked_for(
    all: Seq<Seq<char>>,
    start_line: usize,
    max_lines: Option<usize>,
    line: int,
)
    requires
        start_line >= 1,
    ensures
        ({
            let shown = numbered(all, start_line, max_lines);
            let asked = start_line <= line && (max_lines matches Some(limit) ==> line < start_line
                + limit);
            &&& max_lines matches Some(limit) ==> shown.len() <= limit
            &&& asked && line <= all.len() ==> {
                &&& line - start_line < shown.len()
                &&& shown[line - start_line] == decimal(line as nat) + ": "@ + all[line - 1]
            }
            &&& start_line + shown.len() <= all.len() + 1 || shown.len() == 0
        }),
{
}

/// What a read shows of a file that has the lines asked for are these lines and
/// nothing else: the text splits into them again.
pub proof fn law_shown_text_is_the_lines(
    content: Seq<char>,
    start_line: usize,
    max_lines: Option<usize>,
)
    requires
        start_line >= 1,
        content.len() > 0,
        numbered(lines_of(content), start_line, max_lines).len() > 0,
    ensures
        split_on(rendering(content, start_line, max_lines), '\n') == numbered(
            lines_of(content),
            start_line,
            max_lines,
        ),
{
    reveal_strlit("\n");
    reveal_strlit(": ");
    let all = lines_of(content);
    let shown = numbered(all, start_line, max_lines);
    let pieces = split_on(content, '\n');
    law_pieces_make_up_the_text(content, '\n');
    assert forall|i: int| 0 <= i < shown.len() implies !(#[trigger] shown[i]).contains('\n') by {
        let at = start_line - 1 + i;
        let number = decimal((at + 1) as nat);
        law_decimals_read_back((at + 1) as nat);
        let line = all[at];
        assert(!pieces[at].contains('\n'));
        assert(line == pieces[at] || line == strip_return(pieces[at]));
        if shown[i].contains('\n') {
            let k = choose|k: int| 0 <= k < shown[i].len() && shown[i][k] == '\n';
            if k < number.len() {
                assert(number[k] == '\n');
            } else if k < number.len() + 2 {
                assert(": "@[k - number.len()] == '\n');
            } else {
                assert(line[k - number.len() - 2] == '\n');
                assert(pieces[at][k - number.len() - 2] == '\n');
            }
        }
    }
    assert("\n"@ =~= seq!['\n']);
    law_joined_parts_split_again(shown, '\n');
}

/// A read counts as whole exactly where it begins with the first line and shows
/// every line.
pub proof fn law_whole_reads_show_every_line(
    all: Seq<Seq<char>>,
    start_line: usize,
    max_lines: Option<usize>,
)
    requires
        start_line >= 1,
    ensures
        !partial(all.len(), start_line, max_lines) <==> start_line == 1 && numbered(
            all,
            start_line,
            max_lines,
        ).len() == all.len(),
{
}

/// Bytes are taken as a text exactly where they are UTF-8 and hold no zero.
pub proof fn law_only_texts_are_read(bytes: Seq<u8>)
    ensures
        text_refusal(bytes) is None <==> valid_utf8(bytes) && forall|i: int|
            0 <= i < bytes.len() ==> #[trigger] bytes[i] != 0,
{
    if bytes.contains(0u8) {
        let i = choose|i: int| 0 <= i < bytes.len() && bytes[i] == 0u8;
        assert(bytes[i] == 0);
    }
}

/// A read that has nothing to show says so: that the file is empty, or where the
/// read was to begin and how many lines there are.
pub proof fn law_empty_reads_say_why(
    content: Seq<char>,
    start_line: usize,
    max_lines: Option<usize>,
)
    requires
        start_line >= 1,
    ensures
        content.len() == 0 ==> rendering(content, start_line, max_lines)
            == "<system-reminder>Warning: the file exists but the contents are empty.</system-reminder>"@,
        content.len() > 0 && start_line > lines_of(content).len() ==> contains_text(
            rendering(content, start_line, max_lines),
            decimal(start_line as nat),
        ) && contains_text(
            rendering(content, start_line, max_lines),
            decimal(lines_of(content).len()),
        ),
{
    let first =
        "<system-reminder>Warning: the file exists but is shorter than the provided offset ("@;
    let start = decimal(start_line as nat);
    let between = "). The file has "@;
    let count = decimal(lines_of(content).len());
    let last = " lines.</system-reminder>"@;
    law_occurrences_split_the_text(first, start, between + count + last);
    law_occurrences_split_the_text(first + start + between, count, last);
    let whole = first + start + between + count + last;
    assert(first + start + (between + count + last) =~= whole);
}

/// A described property names its type and its description, each under its key.
pub proof fn law_descriptions_are_found_by_key(kind: Seq<char>, description: Seq<char>)
    ensures
        described(kind, description).text_member("type"@) == Some(kind),
        described(kind, description).text_member("description"@) == Some(description),
{
    reveal_strlit("type");
    reveal_strlit("description");
    assert("type"@.len() != "description"@.len());
    let members = described(kind, description)->Object_0;
    assert(members[1].0 != "type"@);
    lemma_member_at(members, "type"@, 0);
    lemma_member_at(members, "description"@, 1);
}

} // verus!
