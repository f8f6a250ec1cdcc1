//! What a client is configured with, and how it fails.

use vstd::prelude::*;

use crate::text::{contains_text, law_occurrences_split_the_text, texts};

verus! {

/// Where the executor runs, and for which workspace.
#[derive(Debug, PartialEq, Eq)]
pub struct WslClientConfig {
    pub distribution: String,
    pub guest_program: String,
    pub workspace: String,
}

impl WslClientConfig {
    pub fn new(distribution: &str, guest_program: &str, workspace: &str) -> (config: Self)
        ensures
            config.distribution@ == distribution@,
            config.guest_program@ == guest_program@,
            config.workspace@ == workspace@,
    {
        WslClientConfig {
            distribution: distribution.to_owned(),
            guest_program: guest_program.to_owned(),
            workspace: workspace.to_owned(),
        }
    }

    /// The arguments of the `wsl.exe` call that starts or finds the daemon.
    pub fn bootstrap_args(&self) -> (args: Vec<String>)
        ensures
            texts(args@) == seq![
                "--distribution"@,
                self.distribution@,
                "--exec"@,
                self.guest_program@,
                "ensure-running"@,
            ],
    {
        let mut args: Vec<String> = Vec::new();
        args.push("--distribution".to_owned());
        args.push(self.distribution.clone());
        args.push("--exec".to_owned());
        args.push(self.guest_program.clone());
        args.push("ensure-running".to_owned());
        assert(texts(args@) =~= seq![
            "--distribution"@,
            self.distribution@,
            "--exec"@,
            self.guest_program@,
            "ensure-running"@,
        ]);
        args
    }
}

/// Why a request of a client failed.
#[derive(Debug, PartialEq, Eq)]
pub enum ClientError {
    UnsupportedPlatform,
    Spawn(String),
    InvalidWorkspace(String),
    Handshake(String),
    Disconnected,
    DuplicateExecutionId(String),
    Remote { code: String, message: String },
}

/// What a [`ClientError`] says.
pub enum ClientErrorView {
    UnsupportedPlatform,
    Spawn(Seq<char>),
    InvalidWorkspace(Seq<char>),
    Handshake(Seq<char>),
    Disconnected,
    DuplicateExecutionId(Seq<char>),
    Remote { code: Seq<char>, message: Seq<char> },
}

impl View for ClientError {
    type V = ClientErrorView;

    open spec fn view(&self) -> ClientErrorView {
        match self {
            ClientError::UnsupportedPlatform => ClientErrorView::UnsupportedPlatform,
            ClientError::Spawn(text) => ClientErrorView::Spawn(text@),
            ClientError::InvalidWorkspace(text) => ClientErrorView::InvalidWorkspace(text@),
            ClientError::Handshake(text) => ClientErrorView::Handshake(text@),
            ClientError::Disconnected => ClientErrorView::Disconnected,
            ClientError::DuplicateExecutionId(id) => ClientErrorView::DuplicateExecutionId(id@),
            ClientError::Remote { code, message } => ClientErrorView::Remote {
                code: code@,
                message: message@,
            },
        }
    }
}

impl ClientErrorView {
    /// The sentence shown to a person.
    pub open spec fn sentence(self) -> Seq<char> {
        match self {
            ClientErrorView::UnsupportedPlatform => "this client is only available on Windows"@,
            ClientErrorView::Spawn(text) => "failed to start WSL executor: "@ + text,
            ClientErrorView::InvalidWorkspace(text) => "invalid WSL workspace: "@ + text,
            ClientErrorView::Handshake(text) => "protocol handshake failed: "@ + text,
            ClientErrorView::Disconnected => "transport disconnected"@,
            ClientErrorView::DuplicateExecutionId(id) => "execution id `"@ + id
                + "` is already pending"@,
            ClientErrorView::Remote { code, message } => "guest rejected the request ("@ + code
                + "): "@ + message,
        }
    }
}

impl ClientError {
    /// The sentence shown to a person.
    pub fn describe(&self) -> (sentence: String)
        ensures
            sentence@ == self@.sentence(),
    {
        match self {
            ClientError::UnsupportedPlatform => "this client is only available on Windows".to_owned(
            ),
            ClientError::Spawn(text) => "failed to start WSL executor: ".to_owned().concat(
                text.as_str(),
            ),
            ClientError::InvalidWorkspace(text) => "invalid WSL workspace: ".to_owned().concat(
                text.as_str(),
            ),
            ClientError::Handshake(text) => "protocol handshake failed: ".to_owned().concat(
                text.as_str(),
            ),
            ClientError::Disconnected => "transport disconnected".to_owned(),
            ClientError::DuplicateExecutionId(id) => "execution id `".to_owned().concat(
                id.as_str(),
            ).concat("` is already pending"),
            ClientError::Remote { code, message } => "guest rejected the request (".to_owned(
            ).concat(code.as_str()).concat("): ").concat(message.as_str()),
        }
    }
}

/// The sentence of an error ends in what was said of it, and a refusal of the
/// executor shows its code as well: nothing of the message is lost.
pub proof fn law_client_sentences_keep_the_message(error: ClientErrorView)
    ensures
        match error {
            ClientErrorView::Spawn(text) => text.is_suffix_of(error.sentence()),
            ClientErrorView::InvalidWorkspace(text) => text.is_suffix_of(error.sentence()),
            ClientErrorView::Handshake(text) => text.is_suffix_of(error.sentence()),
            ClientErrorView::DuplicateExecutionId(id) => contains_text(error.sentence(), id),
            ClientErrorView::Remote { code, message } => message.is_suffix_of(error.sentence())
                && contains_text(error.sentence(), code),
            _ => true,
        },
{
    let sentence = error.sentence();
    match error {
        ClientErrorView::Spawn(text) => {
            assert(sentence.subrange(sentence.len() - text.len(), sentence.len() as int) =~= text);
        },
        ClientErrorView::InvalidWorkspace(text) => {
            assert(sentence.subrange(sentence.len() - text.len(), sentence.len() as int) =~= text);
        },
        ClientErrorView::Handshake(text) => {
            assert(sentence.subrange(sentence.len() - text.len(), sentence.len() as int) =~= text);
        },
        ClientErrorView::DuplicateExecutionId(id) => {
            law_occurrences_split_the_text("execution id `"@, id, "` is already pending"@);
        },
        ClientErrorView::Remote { code, message } => {
            law_occurrences_split_the_text(
                "guest rejected the request ("@,
                code,
                "): "@ + message,
            );
            assert("guest rejected the request ("@ + code + ("): "@ + message) =~= sentence);
            assert(sentence.subrange(sentence.len() - message.len(), sentence.len() as int)
                =~= message);
        },
        _ => {},
    }
}

} // verus!
