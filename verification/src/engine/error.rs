//! Errors of tools and of the executor.

use vstd::prelude::*;

verus! {

/// Errors returned by tools and executor extension points. The variant also
/// drives the failure classification exposed to observers.
#[derive(Debug, PartialEq, Eq)]
pub enum ExecutionError {
    ToolExecution { tool: String, message: String },
    ToolValidation { tool: String, message: String },
    ToolNotFound(String),
    BlockingWorker(String),
    TimedOut { message: String },
    Cancelled { message: String },
    Panicked(String),
    Other(String),
}

/// What an [`ExecutionError`] says.
pub enum ErrorView {
    ToolExecution { tool: Seq<char>, message: Seq<char> },
    ToolValidation { tool: Seq<char>, message: Seq<char> },
    ToolNotFound(Seq<char>),
    BlockingWorker(Seq<char>),
    TimedOut { message: Seq<char> },
    Cancelled { message: Seq<char> },
    Panicked(Seq<char>),
    Other(Seq<char>),
}

impl View for ExecutionError {
    type V = ErrorView;

    open spec fn view(&self) -> ErrorView {
        match self {
            ExecutionError::ToolExecution { tool, message } => ErrorView::ToolExecution {
                tool: tool@,
                message: message@,
            },
            ExecutionError::ToolValidation { tool, message } => ErrorView::ToolValidation {
                tool: tool@,
                message: message@,
            },
            ExecutionError::ToolNotFound(name) => ErrorView::ToolNotFound(name@),
            ExecutionError::BlockingWorker(reason) => ErrorView::BlockingWorker(reason@),
            ExecutionError::TimedOut { message } => ErrorView::TimedOut { message: message@ },
            ExecutionError::Cancelled { message } => ErrorView::Cancelled { message: message@ },
            ExecutionError::Panicked(message) => ErrorView::Panicked(message@),
            ExecutionError::Other(message) => ErrorView::Other(message@),
        }
    }
}

impl ErrorView {
    /// The stable machine-readable code of an error.
    pub open spec fn code(self) -> Seq<char> {
        match self {
            ErrorView::ToolExecution { .. } => "execution_error"@,
            ErrorView::ToolValidation { .. } => "validation_error"@,
            ErrorView::ToolNotFound(_) => "tool_not_found"@,
            ErrorView::BlockingWorker(_) => "execution_error"@,
            ErrorView::TimedOut { .. } => "timed_out"@,
            ErrorView::Cancelled { .. } => "cancelled"@,
            ErrorView::Panicked(_) => "execution_panic"@,
            ErrorView::Other(_) => "execution_error"@,
        }
    }

    /// The sentence shown to a person.
    pub open spec fn sentence(self) -> Seq<char> {
        match self {
            ErrorView::ToolExecution { tool, message } => "tool `"@ + tool
                + "` execution failed: "@ + message,
            ErrorView::ToolValidation { tool, message } => "tool `"@ + tool
                + "` validation failed: "@ + message,
            ErrorView::ToolNotFound(name) => "tool `"@ + name + "` not found"@,
            ErrorView::BlockingWorker(reason) => "blocking worker failed: "@ + reason,
            ErrorView::TimedOut { message } => message,
            ErrorView::Cancelled { message } => message,
            ErrorView::Panicked(message) => "tool panicked: "@ + message,
            ErrorView::Other(message) => message,
        }
    }
}

impl Clone for ExecutionError {
    fn clone(&self) -> (copy: Self)
        ensures
            copy@ == self@,
    {
        match self {
            ExecutionError::ToolExecution { tool, message } => ExecutionError::ToolExecution {
                tool: tool.clone(),
                message: message.clone(),
            },
            ExecutionError::ToolValidation { tool, message } => ExecutionError::ToolValidation {
                tool: tool.clone(),
                message: message.clone(),
            },
            ExecutionError::ToolNotFound(name) => ExecutionError::ToolNotFound(name.clone()),
            ExecutionError::BlockingWorker(reason) => ExecutionError::BlockingWorker(
                reason.clone(),
            ),
            ExecutionError::TimedOut { message } => ExecutionError::TimedOut {
                message: message.clone(),
            },
            ExecutionError::Cancelled { message } => ExecutionError::Cancelled {
                message: message.clone(),
            },
            ExecutionError::Panicked(message) => ExecutionError::Panicked(message.clone()),
            ExecutionError::Other(message) => ExecutionError::Other(message.clone()),
        }
    }
}

impl ExecutionError {
    /// Stable machine-readable code used across the process boundary.
    pub fn code(&self) -> (code: &'static str)
        ensures
            code@ == self@.code(),
    {
        match self {
            ExecutionError::ToolExecution { .. } => "execution_error",
            ExecutionError::BlockingWorker(_) => "execution_error",
            ExecutionError::ToolValidation { .. } => "validation_error",
            ExecutionError::ToolNotFound(_) => "tool_not_found",
            ExecutionError::TimedOut { .. } => "timed_out",
            ExecutionError::Cancelled { .. } => "cancelled",
            ExecutionError::Panicked(_) => "execution_panic",
            ExecutionError::Other(_) => "execution_error",
        }
    }

    /// The sentence shown to a person.
    pub fn describe(&self) -> (sentence: String)
        ensures
            sentence@ == self@.sentence(),
    {
        match self {
            ExecutionError::ToolExecution { tool, message } => "tool `".to_owned().concat(
                tool.as_str(),
            ).concat("` execution failed: ").concat(message.as_str()),
            ExecutionError::ToolValidation { tool, message } => "tool `".to_owned().concat(
                tool.as_str(),
            ).concat("` validation failed: ").concat(message.as_str()),
            ExecutionError::ToolNotFound(name) => "tool `".to_owned().concat(name.as_str()).concat(
                "` not found",
            ),
            ExecutionError::BlockingWorker(reason) => "blocking worker failed: ".to_owned().concat(
                reason.as_str(),
            ),
            ExecutionError::TimedOut { message } => message.clone(),
            ExecutionError::Cancelled { message } => message.clone(),
            ExecutionError::Panicked(message) => "tool panicked: ".to_owned().concat(
                message.as_str(),
            ),
            ExecutionError::Other(message) => message.clone(),
        }
    }
}

/// What work on a blocking worker came to: its own outcome, or why the worker
/// did not finish.
pub fn blocking_outcome<T>(joined: Result<Result<T, ExecutionError>, String>) -> (outcome: Result<
    T,
    ExecutionError,
>)
    ensures
        match joined {
            Ok(finished) => outcome == finished,
            Err(reason) => outcome matches Err(error) && error@ == ErrorView::BlockingWorker(
                reason@,
            ),
        },
{
    match joined {
        Ok(finished) => finished,
        Err(reason) => Err(ExecutionError::BlockingWorker(reason)),
    }
}

/// An error of a running tool.
pub fn tool_failure(tool: &str, message: &str) -> (error: ExecutionError)
    ensures
        error@ == (ErrorView::ToolExecution { tool: tool@, message: message@ }),
{
    ExecutionError::ToolExecution { tool: tool.to_owned(), message: message.to_owned() }
}

/// The code of an error tells what a caller must know of it: whether the
/// arguments were refused, the tool is unknown, the time ran out, the execution
/// was cancelled or the tool panicked; every other failure has one code. No two
/// of these codes are the same.
pub proof fn law_codes_tell_failures_apart(error: ErrorView)
    ensures
        error.code() == "validation_error"@ <==> error is ToolValidation,
        error.code() == "tool_not_found"@ <==> error is ToolNotFound,
        error.code() == "timed_out"@ <==> error is TimedOut,
        error.code() == "cancelled"@ <==> error is Cancelled,
        error.code() == "execution_panic"@ <==> error is Panicked,
        error.code() == "execution_error"@ <==> error is ToolExecution || error is BlockingWorker
            || error is Other,
{
    reveal_strlit("execution_error");
    reveal_strlit("validation_error");
    reveal_strlit("tool_not_found");
    reveal_strlit("timed_out");
    reveal_strlit("cancelled");
    reveal_strlit("execution_panic");
    assert("execution_error"@.len() == 15);
    assert("execution_panic"@.len() == 15);
    assert("execution_error"@[10] == 'e');
    assert("execution_panic"@[10] == 'p');
    assert("validation_error"@.len() == 16);
    assert("tool_not_found"@.len() == 14);
    assert("timed_out"@.len() == 9);
    assert("cancelled"@.len() == 9);
    assert("timed_out"@[0] == 't');
    assert("cancelled"@[0] == 'c');
}

/// The sentence of an error ends in what was said of it, and names the tool
/// where the error does: nothing of the message is lost.
pub proof fn law_sentences_keep_the_message(error: ErrorView)
    ensures
        match error {
            ErrorView::ToolExecution { tool, message } => {
                &&& message.is_suffix_of(error.sentence())
                &&& error.sentence().skip("tool `"@.len() as int).take(tool.len() as int) == tool
            },
            ErrorView::ToolValidation { tool, message } => {
                &&& message.is_suffix_of(error.sentence())
                &&& error.sentence().skip("tool `"@.len() as int).take(tool.len() as int) == tool
            },
            ErrorView::ToolNotFound(name) => error.sentence().skip("tool `"@.len() as int).take(
                name.len() as int,
            ) == name,
            ErrorView::BlockingWorker(reason) => reason.is_suffix_of(error.sentence()),
            ErrorView::Panicked(message) => message.is_suffix_of(error.sentence()),
            ErrorView::TimedOut { message } => error.sentence() == message,
            ErrorView::Cancelled { message } => error.sentence() == message,
            ErrorView::Other(message) => error.sentence() == message,
        },
{
    let sentence = error.sentence();
    let start = "tool `"@.len() as int;
    match error {
        ErrorView::ToolExecution { tool, message } => {
            assert(sentence.subrange(sentence.len() - message.len(), sentence.len() as int)
                =~= message);
            assert(sentence.skip(start).take(tool.len() as int) =~= tool);
        },
        ErrorView::ToolValidation { tool, message } => {
            assert(sentence.subrange(sentence.len() - message.len(), sentence.len() as int)
                =~= message);
            assert(sentence.skip(start).take(tool.len() as int) =~= tool);
        },
        ErrorView::ToolNotFound(name) => {
            assert(sentence.skip(start).take(name.len() as int) =~= name);
        },
        ErrorView::BlockingWorker(reason) => {
            assert(sentence.subrange(sentence.len() - reason.len(), sentence.len() as int)
                =~= reason);
        },
        ErrorView::Panicked(message) => {
            assert(sentence.subrange(sentence.len() - message.len(), sentence.len() as int)
                =~= message);
        },
        _ => {},
    }
}

/// What an error says is all that it holds.
pub proof fn law_errors_are_seen_whole(error: ExecutionError)
    ensures
        match error {
            ExecutionError::ToolExecution { tool, message } => error@
                matches ErrorView::ToolExecution { tool: t, message: m } && t == tool@ && m
                == message@,
            ExecutionError::ToolValidation { tool, message } => error@
                matches ErrorView::ToolValidation { tool: t, message: m } && t == tool@ && m
                == message@,
            ExecutionError::ToolNotFound(name) => error@ matches ErrorView::ToolNotFound(n) && n
                == name@,
            ExecutionError::BlockingWorker(reason) => error@ matches ErrorView::BlockingWorker(r)
                && r == reason@,
            ExecutionError::TimedOut { message } => error@ matches ErrorView::TimedOut {
                message: m,
            } && m == message@,
            ExecutionError::Cancelled { message } => error@ matches ErrorView::Cancelled {
                message: m,
            } && m == message@,
            ExecutionError::Panicked(message) => error@ matches ErrorView::Panicked(m) && m
                == message@,
            ExecutionError::Other(message) => error@ matches ErrorView::Other(m) && m == message@,
        },
{
}

} // verus!
