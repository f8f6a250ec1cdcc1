//! `Edit`: replace a text that occurs exactly once in a file.

use vstd::prelude::*;

use crate::engine::error::{tool_failure, ErrorView, ExecutionError};
use crate::engine::execution::outcome_error;
use crate::engine::tool::{Tool, ToolDefinition, ToolOutput};
use crate::json::{lemma_member_at, members_view, with_member, Json, JsonView};
use crate::runtime::shell::{type_json, type_schema};
use crate::text::{chars_of, matches_at, occurs_at, string_of, texts};
use crate::tools::file_read::path_detail;
use crate::tools::shared::{
    missing_string, object_schema, object_schema_json, only, path_refusal, required_string,
    required_string_any, text_refusal, text_under,
};

verus! {

/// The tool. `S` is the record of what was read, which the file tools share.
pub struct FileEditTool<S> {
    read_file_state: S,
}

/// Why arguments are refused: the path and both texts must be there.
pub open spec fn edit_refusal(arguments: JsonView) -> Option<ErrorView> {
    match path_refusal(arguments) {
        Some(refusal) => Some(refusal),
        None => match text_refusal(arguments, "old_string"@) {
            Some(refusal) => Some(refusal),
            None => text_refusal(arguments, "new_string"@),
        },
    }
}

/// What a call asks for.
#[derive(Debug, PartialEq, Eq)]
pub struct EditRequest {
    pub input_path: String,
    pub old_string: String,
    pub new_string: String,
}

/// What a call asks for, or what is missing.
pub fn edit_request(arguments: &Json) -> (request: Result<EditRequest, ExecutionError>)
    ensures
        match request {
            Ok(request) => {
                &&& text_under(arguments@, "file_path"@, "path"@) == Some(request.input_path@)
                &&& arguments@.text_member("old_string"@) == Some(request.old_string@)
                &&& arguments@.text_member("new_string"@) == Some(request.new_string@)
            },
            Err(error) => if text_under(arguments@, "file_path"@, "path"@) is None {
                error@ == missing_string("file_path"@)
            } else if arguments@.text_member("old_string"@) is None {
                error@ == missing_string("old_string"@)
            } else {
                arguments@.text_member("new_string"@) is None && error@ == missing_string(
                    "new_string"@,
                )
            },
        },
{
    let input_path = match required_string_any(arguments, "file_path", "path") {
        Ok(path) => path,
        Err(error) => {
            return Err(error);
        },
    };
    let old_string = match required_string(arguments, "old_string") {
        Ok(text) => text,
        Err(error) => {
            return Err(error);
        },
    };
    match required_string(arguments, "new_string") {
        Ok(new_string) => Ok(EditRequest { input_path, old_string, new_string }),
        Err(error) => Err(error),
    }
}

/// Whether `needle` occurs in `text` at `at` and nowhere else.
pub open spec fn occurs_only_at(text: Seq<char>, needle: Seq<char>, at: int) -> bool {
    occurs_at(text, needle, at) && forall|i: int| #[trigger] occurs_at(text, needle, i) ==> i == at
}

/// `text` with what stands at `at`, as long as `old`, replaced by `new`.
pub open spec fn replaced(text: Seq<char>, old: Seq<char>, new: Seq<char>, at: int) -> Seq<char> {
    text.take(at) + new + text.skip(at + old.len())
}

/// Replaces the only occurrence of a text. A text that does not occur, occurs
/// more than once, or is empty is refused.
pub fn replace_only(content: &str, old_string: &str, new_string: &str) -> (edited: Result<
    String,
    ExecutionError,
>)
    ensures
        match edited {
            Ok(edited) => old_string@.len() > 0 && exists|at: int| #[trigger]
                occurs_only_at(content@, old_string@, at) && edited@ == replaced(
                    content@,
                    old_string@,
                    new_string@,
                    at,
                ),
            Err(error) => {
                ||| old_string@.len() == 0 && error@ == (ErrorView::ToolExecution {
                    tool: "Edit"@,
                    message: "old_string must not be empty"@,
                })
                ||| old_string@.len() > 0 && (forall|i: int| !#[trigger]
                    occurs_at(content@, old_string@, i)) && error@ == (ErrorView::ToolExecution {
                    tool: "Edit"@,
                    message: "old_string was not found in the file"@,
                })
                ||| old_string@.len() > 0 && (exists|i: int, j: int|
                    i != j && #[trigger] occurs_at(content@, old_string@, i)
                        && #[trigger] occurs_at(content@, old_string@, j)) && error@ == (
                ErrorView::ToolExecution {
                    tool: "Edit"@,
                    message: "old_string occurs more than once in the file"@,
                })
            },
        },
{
    if old_string.is_empty() {
        return Err(tool_failure("Edit", "old_string must not be empty"));
    }
    let text = chars_of(content);
    let needle = chars_of(old_string);
    let n: usize = text.len();
    let mut found: Option<usize> = None;
    let mut i: usize = 0;
    while i < n
        invariant
            i <= n == text@.len(),
            text@ == content@,
            needle@ == old_string@,
            old_string@.len() > 0,
            match found {
                None => forall|j: int| 0 <= j < i ==> !#[trigger] occurs_at(
                    content@,
                    old_string@,
                    j,
                ),
                Some(at) => at < i && occurs_at(content@, old_string@, at as int) && forall|j: int|
                    0 <= j < i && #[trigger] occurs_at(content@, old_string@, j) ==> j == at,
            },
        decreases n - i,
    {
        if matches_at(&text, &needle, i) {
            match found {
                Some(at) => {
                    assert(occurs_at(content@, old_string@, at as int) && occurs_at(
                        content@,
                        old_string@,
                        i as int,
                    ));
                    return Err(
                        tool_failure("Edit", "old_string occurs more than once in the file"),
                    );
                },
                None => {
                    found = Some(i);
                },
            }
        }
        i += 1;
    }
    match found {
        None => Err(tool_failure("Edit", "old_string was not found in the file")),
        Some(at) => {
            assert(occurs_only_at(content@, old_string@, at as int));
            let end: usize = at + needle.len();
            assert(text@.subrange(0, at as int) =~= content@.take(at as int));
            assert(text@.subrange(end as int, n as int) =~= content@.skip(at + old_string@.len()));
            let before = string_of(&text, 0, at);
            let after = string_of(&text, end, n);
            Ok(before.concat(new_string).concat(after.as_str()))
        },
    }
}

/// The result of a call.
pub open spec fn edit_result(input_path: Seq<char>, path: Seq<char>) -> JsonView {
    JsonView::Object(
        seq![
            ("file_path"@, JsonView::Text(input_path)),
            ("path"@, JsonView::Text(path)),
            ("edited"@, JsonView::Bool(true)),
        ],
    )
}

/// What a call returns.
pub fn edit_output(request: &EditRequest, path: &str) -> (output: ToolOutput)
    ensures
        output.content@ == edit_result(request.input_path@, path@),
        output.content@.text_member("file_path"@) == Some(request.input_path@),
        output.content@.text_member("path"@) == Some(path@),
        output.content@.member("edited"@) == Some(JsonView::Bool(true)),
{
    let members = with_member(Vec::new(), "file_path", Json::text(request.input_path.as_str()));
    let members = with_member(members, "path", Json::text(path));
    let members = with_member(members, "edited", Json::Bool(true));
    assert(members_view(Seq::empty()) =~= Seq::empty());
    assert(members_view(members@) =~= edit_result(request.input_path@, path@)->Object_0);
    proof {
        law_edits_are_found_by_key(request.input_path@, path@);
    }
    ToolOutput::json(Json::object(members))
}

impl<S> FileEditTool<S> {
    pub closed spec fn state(self) -> S {
        self.read_file_state
    }

    pub fn new(read_file_state: S) -> (tool: Self)
        ensures
            tool.state() == read_file_state,
    {
        FileEditTool { read_file_state }
    }

    pub fn read_file_state(&self) -> (state: &S)
        ensures
            *state == self.state(),
    {
        &self.read_file_state
    }
}

/// The input schema of the tool.
pub open spec fn edit_schema() -> JsonView {
    object_schema(
        seq![
            ("file_path"@, type_schema("string"@)),
            ("old_string"@, type_schema("string"@)),
            ("new_string"@, type_schema("string"@)),
        ],
        seq!["file_path"@, "old_string"@, "new_string"@],
    )
}

impl<S> Tool for FileEditTool<S> {
    fn definition(&self) -> (definition: ToolDefinition)
        ensures
            definition@.name == "Edit"@,
            definition@.description
                == "Replace a text that occurs exactly once in a file. Read the file first with Read."@,
            definition@.input_schema == edit_schema(),
    {
        let properties = with_member(Vec::new(), "file_path", type_json("string"));
        let properties = with_member(properties, "old_string", type_json("string"));
        let properties = with_member(properties, "new_string", type_json("string"));
        assert(members_view(Seq::empty()) =~= Seq::empty());
        assert(members_view(properties@) =~= edit_schema()->Object_0[1].1->Object_0);
        let mut required = only("file_path");
        let ghost first = texts(required@);
        required.push("old_string".to_owned());
        assert(texts(required@) =~= first.push("old_string"@));
        required.push("new_string".to_owned());
        assert(texts(required@) =~= first.push("old_string"@).push("new_string"@));
        assert(texts(required@) =~= seq!["file_path"@, "old_string"@, "new_string"@]);
        ToolDefinition {
            name: "Edit".to_owned(),
            description:
                "Replace a text that occurs exactly once in a file. Read the file first with Read.".to_owned(),
            input_schema: object_schema_json(properties, &required),
        }
    }

    fn invocation_detail(&self, arguments: &Json) -> (detail: String)
        ensures
            detail@ == match text_under(arguments@, "file_path"@, "path"@) {
                Some(path) => path,
                None => Seq::empty(),
            },
    {
        path_detail(arguments)
    }

    fn validate(&self, arguments: &Json) -> (outcome: Result<(), ExecutionError>)
        ensures
            outcome_error(outcome) == edit_refusal(arguments@),
    {
        match edit_request(arguments) {
            Ok(_) => Ok(()),
            Err(error) => Err(error),
        }
    }
}

/// An edit touches nothing but the text that it replaces.
pub proof fn law_edit_keeps_the_rest(
    text: Seq<char>,
    old: Seq<char>,
    new: Seq<char>,
    at: int,
)
    requires
        occurs_only_at(text, old, at),
    ensures
        text == text.take(at) + old + text.skip(at + old.len()),
        replaced(text, old, new, at).take(at) == text.take(at),
        replaced(text, old, new, at).skip(at + new.len()) == text.skip(at + old.len()),
        occurs_at(replaced(text, old, new, at), new, at),
{
    assert(text.subrange(at, at + old.len()) == old);
    assert(text =~= text.take(at) + old + text.skip(at + old.len()));
    let after = replaced(text, old, new, at);
    assert(after.take(at) =~= text.take(at));
    assert(after.skip(at + new.len()) =~= text.skip(at + old.len()));
    assert(after.subrange(at, at + new.len()) =~= new);
}

/// An edit that is taken back leaves the text as it was.
pub proof fn law_edits_can_be_taken_back(
    text: Seq<char>,
    old: Seq<char>,
    new: Seq<char>,
    at: int,
)
    requires
        occurs_only_at(text, old, at),
    ensures
        replaced(replaced(text, old, new, at), new, old, at) == text,
        replaced(text, old, new, at).len() == text.len() - old.len() + new.len(),
{
    assert(text.subrange(at, at + old.len()) == old);
    let after = replaced(text, old, new, at);
    assert(after.take(at) =~= text.take(at));
    assert(after.skip(at + new.len()) =~= text.skip(at + old.len()));
    assert(replaced(after, new, old, at) =~= text);
}

/// The text that an edit replaces stands at one place and at no other.
pub proof fn law_replaced_texts_occur_once(
    before: Seq<char>,
    old: Seq<char>,
    after: Seq<char>,
    at: int,
    other: int,
)
    requires
        occurs_only_at(before + old + after, old, at),
        0 <= other <= before.len() + after.len(),
        (before + old + after).subrange(other, other + old.len()) == old,
    ensures
        at == other,
        at == before.len(),
{
    let text = before + old + after;
    assert(occurs_at(text, old, other));
    assert(text.subrange(before.len() as int, (before.len() + old.len()) as int) =~= old);
    assert(occurs_at(text, old, before.len() as int));
}

/// The result of an edit tells the path that was asked for and the path that was
/// edited, each under its key.
pub proof fn law_edits_are_found_by_key(input_path: Seq<char>, path: Seq<char>)
    ensures
        edit_result(input_path, path).text_member("file_path"@) == Some(input_path),
        edit_result(input_path, path).text_member("path"@) == Some(path),
        edit_result(input_path, path).member("edited"@) == Some(JsonView::Bool(true)),
{
    reveal_strlit("file_path");
    reveal_strlit("path");
    reveal_strlit("edited");
    assert("file_path"@.len() == 9 && "path"@.len() == 4 && "edited"@.len() == 6);
    let members = edit_result(input_path, path)->Object_0;
    lemma_member_at(members, "file_path"@, 0);
    lemma_member_at(members, "path"@, 1);
    lemma_member_at(members, "edited"@, 2);
}

/// Arguments are accepted exactly where a path and both texts are there; where
/// one is missing, the refusal names it.
pub proof fn law_edits_need_a_path_and_both_texts(arguments: JsonView)
    ensures
        edit_refusal(arguments) is None <==> (arguments.text_member("file_path"@) is Some
            || arguments.text_member("path"@) is Some) && arguments.text_member("old_string"@)
            is Some && arguments.text_member("new_string"@) is Some,
        edit_refusal(arguments) matches Some(ErrorView::Other(message)) ==> {
            ||| message == "missing required string argument `"@ + "file_path"@ + "`"@
                && arguments.text_member("file_path"@) is None
            ||| message == "missing required string argument `"@ + "old_string"@ + "`"@
                && arguments.text_member("old_string"@) is None
            ||| message == "missing required string argument `"@ + "new_string"@ + "`"@
                && arguments.text_member("new_string"@) is None
        },
        edit_refusal(arguments) matches Some(error) ==> error is Other,
{
}

} // verus!
