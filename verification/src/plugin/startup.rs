//! Starting the process of a plugin: what is done, step by step, until it runs or
//! is stopped.

use vstd::prelude::*;

use crate::plugin::manifest::{ManifestView, PluginManifest};
use crate::plugin::messages::{PluginRequest, PluginRequestView, PLUGIN_PROTOCOL_VERSION};
use crate::plugin::supervisor::{
    check_handshake, handshake_accepted, handshake_refusal, hello, PluginRuntimeConfig,
    ReadOutcome,
};

verus! {

/// What a step came to.
#[derive(Debug, PartialEq, Eq)]
pub enum StartReply {
    /// The process was started, or why it was not.
    Spawned(Result<(), String>),
    /// The greeting was written, or why it was not.
    Greeted(Result<(), String>),
    /// What was read of the process, `None` where nothing came in time; `shown` is
    /// what was read, for the error.
    Answered { read: Option<ReadOutcome>, shown: String },
}

/// What is to be done next.
#[derive(Debug, PartialEq, Eq)]
pub enum StartStep {
    /// Write this.
    Greet(PluginRequest),
    /// Read one message, for at most so many nanoseconds.
    Await(u128),
    /// The plugin runs.
    Ready,
    /// Nothing was started; the text says why.
    Failed(String),
    /// Stop the process; the text says why.
    Stop(String),
}

/// What a [`StartStep`] says.
pub enum StartStepView {
    Greet(PluginRequestView),
    Await(u128),
    Ready,
    Failed(Seq<char>),
    Stop(Seq<char>),
}

impl View for StartStep {
    type V = StartStepView;

    open spec fn view(&self) -> StartStepView {
        match self {
            StartStep::Greet(request) => StartStepView::Greet(request@),
            StartStep::Await(timeout) => StartStepView::Await(*timeout),
            StartStep::Ready => StartStepView::Ready,
            StartStep::Failed(error) => StartStepView::Failed(error@),
            StartStep::Stop(error) => StartStepView::Stop(error@),
        }
    }
}

/// What follows a step: a process that was started is greeted, has the start
/// timeout to answer, and is stopped unless it answers as it must.
pub open spec fn after_start_reply(
    manifest: ManifestView,
    start_timeout: u128,
    reply: StartReply,
) -> StartStepView {
    match reply {
        StartReply::Spawned(Ok(_)) => StartStepView::Greet(
            PluginRequestView::Hello {
                protocol_version: PLUGIN_PROTOCOL_VERSION,
                package_id: manifest.id,
            },
        ),
        StartReply::Spawned(Err(error)) => StartStepView::Failed("spawn failed: "@ + error@),
        StartReply::Greeted(Ok(_)) => StartStepView::Await(start_timeout),
        StartReply::Greeted(Err(error)) => StartStepView::Stop(error@),
        StartReply::Answered { read, shown } => if handshake_accepted(read) {
            StartStepView::Ready
        } else {
            StartStepView::Stop(handshake_refusal(read, shown@))
        },
    }
}

/// What follows a step of starting a plugin.
pub fn start_step(manifest: &PluginManifest, config: &PluginRuntimeConfig, reply: StartReply) -> (
    step: StartStep)
    ensures
        step@ == after_start_reply(manifest@, config.start_timeout, reply),
{
    match reply {
        StartReply::Spawned(Ok(_)) => StartStep::Greet(hello(manifest)),
        StartReply::Spawned(Err(error)) => StartStep::Failed(
            "spawn failed: ".to_owned().concat(error.as_str()),
        ),
        StartReply::Greeted(Ok(_)) => StartStep::Await(config.start_timeout),
        StartReply::Greeted(Err(error)) => StartStep::Stop(error),
        StartReply::Answered { read, shown } => match check_handshake(read, shown.as_str()) {
            Ok(_) => StartStep::Ready,
            Err(error) => StartStep::Stop(error),
        },
    }
}

/// A process that was started ends up running exactly where it answered its
/// greeting in time and with the version of the protocol; otherwise it is
/// stopped. Only where none was started is there nothing to stop.
pub proof fn law_started_plugins_run_or_are_stopped(
    manifest: ManifestView,
    start_timeout: u128,
    spawned: Result<(), String>,
    greeted: Result<(), String>,
    read: Option<ReadOutcome>,
    shown: String,
)
    ensures
        ({
            let first = after_start_reply(manifest, start_timeout, StartReply::Spawned(spawned));
            let second = after_start_reply(manifest, start_timeout, StartReply::Greeted(greeted));
            let third = after_start_reply(
                manifest,
                start_timeout,
                StartReply::Answered { read, shown },
            );
            &&& first is Failed <==> spawned is Err
            &&& first is Greet <==> spawned is Ok
            &&& second is Stop <==> greeted is Err
            &&& second == StartStepView::Await(start_timeout) <==> greeted is Ok
            &&& third is Ready <==> handshake_accepted(read)
            &&& third is Stop <==> !handshake_accepted(read)
        }),
{
}

/// The greeting of a process names its package and the version of the protocol,
/// and where it does not come to run, the reason that was given is told.
pub proof fn law_starts_are_greeted_by_name(
    manifest: ManifestView,
    start_timeout: u128,
    error: String,
    read: Option<ReadOutcome>,
    shown: String,
)
    ensures
        after_start_reply(manifest, start_timeout, StartReply::Spawned(Ok(())))
            matches StartStepView::Greet(PluginRequestView::Hello { protocol_version, package_id })
            && protocol_version == PLUGIN_PROTOCOL_VERSION && package_id == manifest.id,
        after_start_reply(manifest, start_timeout, StartReply::Spawned(Err(error)))
            matches StartStepView::Failed(told) && error@.is_suffix_of(told),
        after_start_reply(manifest, start_timeout, StartReply::Greeted(Err(error)))
            matches StartStepView::Stop(told) && told == error@,
        !handshake_accepted(read) ==> (after_start_reply(
            manifest,
            start_timeout,
            StartReply::Answered { read, shown },
        ) matches StartStepView::Stop(told) && told == handshake_refusal(read, shown@)),
{
    let told = "spawn failed: "@ + error@;
    assert(told.subrange(told.len() - error@.len(), told.len() as int) =~= error@);
}

} // verus!
