//! The decisions of the dispatcher.
//!
//! The agent that surrounds this library receives messages, publishes messages,
//! calls its runtime and sleeps. What it does next at each point is decided here:
//! which handler a message goes to, what becomes of a start command, and what is
//! noted of a task when it starts, ends or is stopped.

use crate::crypto::WorkloadKey;
use crate::intake::{acquire_inline, base64_standard_decoded, inline_outcome};
use crate::messages::{
    liveliness_message, namespace_of, registry_request, BinarySource, LivelinessMessage, Proplet,
    RegistryRequest, StartConfig, StartError, StartFailure, StartRequest, ValidationError,
    ALIVE_STATUS, CHUNK_TOPIC, START_TOPIC, STOP_TOPIC,
};
use crate::registry::{TaskRegistry, TaskState};
use vstd::prelude::*;

verus! {

/// Whether `text` ends in `suffix`.
pub open spec fn has_suffix(text: Seq<char>, suffix: Seq<char>) -> bool {
    suffix.len() <= text.len() && text.subrange(text.len() - suffix.len(), text.len() as int)
        == suffix
}

/// Whether `text` ends in `suffix`.
pub fn ends_with(text: &str, suffix: &str) -> (r: bool)
    ensures
        r == has_suffix(text@, suffix@),
{
    let n = text.unicode_len();
    let m = suffix.unicode_len();
    if m > n {
        return false;
    }
    let offset = n - m;
    let mut i: usize = 0;
    while i < m
        invariant
            n == text@.len(),
            m == suffix@.len(),
            m <= n,
            offset == n - m,
            i <= m,
            forall|j: int| 0 <= j < i ==> text@[offset + j] == suffix@[j],
        decreases m - i,
    {
        if text.get_char(offset + i) != suffix.get_char(i) {
            proof {
                assert(text@.subrange(n - m, n as int)[i as int] == text@[offset + i]);
            }
            return false;
        }
        i += 1;
    }
    proof {
        assert(text@.subrange(n - m, n as int) =~= suffix@);
    }
    true
}

/// The handler that a message goes to.
#[derive(Debug, Clone, Copy, PartialEq, Eq)]
pub enum Route {
    /// A command to start a task.
    Start,
    /// A command to stop a task.
    Stop,
    /// A chunk of a binary.
    Chunk,
    /// A topic that the agent does not know: the message is dropped, which is no fault.
    Ignored,
}

/// The handler for a message that arrived on `topic`, by the end of the topic.
pub open spec fn route_of(topic: Seq<char>) -> Route {
    if has_suffix(topic, START_TOPIC@) {
        Route::Start
    } else if has_suffix(topic, STOP_TOPIC@) {
        Route::Stop
    } else if has_suffix(topic, CHUNK_TOPIC@) {
        Route::Chunk
    } else {
        Route::Ignored
    }
}

/// Chooses the handler for a message that arrived on `topic`.
pub fn route(topic: &str) -> (r: Route)
    ensures
        r == route_of(topic@),
{
    if ends_with(topic, START_TOPIC) {
        Route::Start
    } else if ends_with(topic, STOP_TOPIC) {
        Route::Stop
    } else if ends_with(topic, CHUNK_TOPIC) {
        Route::Chunk
    } else {
        Route::Ignored
    }
}

/// What becomes of a start command.
#[derive(Debug, Clone, PartialEq, Eq)]
pub enum StartDecision {
    /// The request is dropped; nothing is published, for there may be no task to
    /// report on.
    Reject(ValidationError),
    /// The binary is at hand, opened: the task can be launched.
    Run(Vec<u8>),
    /// The binary is to be requested from the registry, with this request, and
    /// waited for.
    Fetch(RegistryRequest),
    /// No binary can be had: the failure is reported to the requester, and the
    /// task is never entered.
    Fail(StartError),
}

/// Whether `decision` is what becomes of `request` under `key`: a request that
/// is not valid is rejected; else the binary is taken from the one place that
/// the request names, and the task can run if the binary is had, and fails if not.
pub open spec fn decides(request: &StartRequest, key: Seq<u8>, decision: StartDecision) -> bool {
    match request.validity() {
        Err(error) => decision matches StartDecision::Reject(e) && e == error,
        Ok(_) => match request.source_of() {
            BinarySource::Inline => match base64_standard_decoded(request.file@) {
                Some(sealed) => match inline_outcome(sealed, request.checksum@, key) {
                    Ok(plain) => decision matches StartDecision::Run(binary) && binary@ == plain,
                    Err(failure) => decision matches StartDecision::Fail(error) && error@
                        == failure,
                },
                None => decision matches StartDecision::Fail(StartError::Encoding(_)),
            },
            BinarySource::Registry => decision matches StartDecision::Fetch(asked)
                && asked.app_name@ == request.image_url@,
            BinarySource::Missing => decision matches StartDecision::Fail(error) && error@
                == StartFailure::NoBinary,
        },
    }
}

/// Whether `config` hands `request` and `binary` on to the runtime unchanged.
pub open spec fn hands_on(request: StartRequest, binary: Vec<u8>, config: StartConfig) -> bool {
    &&& config.id@ == request.id@
    &&& config.function_name == request.name
    &&& config.daemon == request.daemon
    &&& config.wasm_binary == binary
    &&& config.cli_args == request.cli_args
    &&& config.env@ == match request.env {
        Some(env) => env@,
        None => Seq::empty(),
    }
    &&& config.args == request.inputs
}

/// Decides what becomes of a start command. Exactly one way of obtaining the
/// binary is taken.
pub fn begin_start(request: &StartRequest, key: &WorkloadKey) -> (decision: StartDecision)
    ensures
        decides(request, key@, decision),
{
    match request.validate() {
        Err(error) => {
            return StartDecision::Reject(error);
        },
        Ok(_) => {},
    }
    match request.source() {
        BinarySource::Inline => match acquire_inline(
            request.file.as_str(),
            request.checksum.as_str(),
            key,
        ) {
            Ok(binary) => StartDecision::Run(binary),
            Err(error) => StartDecision::Fail(error),
        },
        BinarySource::Registry => StartDecision::Fetch(
            registry_request(request.image_url.as_str()),
        ),
        BinarySource::Missing => StartDecision::Fail(StartError::NoBinary),
    }
}

/// Enters the task of `request` as running and makes up what the runtime is
/// handed to start it with `binary`.
pub fn launch(tasks: &mut TaskRegistry, request: StartRequest, binary: Vec<u8>) -> (config:
    StartConfig)
    ensures
        final(tasks)@ == old(tasks)@.insert(request.id@, TaskState::Running),
        hands_on(request, binary, config),
{
    tasks.mark_running(request.id.clone());
    let env = match request.env {
        Some(env) => env,
        None => Vec::new(),
    };
    StartConfig {
        id: request.id,
        function_name: request.name,
        daemon: request.daemon,
        wasm_binary: binary,
        cli_args: request.cli_args,
        env,
        args: request.inputs,
    }
}

/// Notes that the task `task_id` has ended, however it ended.
pub fn finish(tasks: &mut TaskRegistry, task_id: &str)
    ensures
        final(tasks)@ == old(tasks)@.remove(task_id@),
{
    let _ = tasks.remove(task_id);
}

/// Notes that the task `task_id` was stopped. The task leaves the registry
/// whether or not the runtime stopped it cleanly; what the runtime answered is
/// what the handler answers.
pub fn finish_stop(tasks: &mut TaskRegistry, task_id: &str, stopped: Result<(), String>) -> (r:
    Result<(), String>)
    ensures
        final(tasks)@ == old(tasks)@.remove(task_id@),
        r == stopped,
{
    let _ = tasks.remove(task_id);
    stopped
}

/// Notes that the agent is alive and how many tasks it runs, and makes up the
/// heartbeat that says so.
pub fn heartbeat(
    proplet: &mut Proplet,
    tasks: &TaskRegistry,
    client_id: &str,
    namespace: Option<&str>,
) -> (message: LivelinessMessage)
    ensures
        final(proplet).alive,
        final(proplet).task_count == tasks@.dom().len(),
        final(proplet).id == old(proplet).id,
        final(proplet).name == old(proplet).name,
        message.proplet_id@ == client_id@,
        message.status@ == ALIVE_STATUS@,
        message.namespace@ == namespace_of(
            match namespace {
                Some(text) => Some(text@),
                None => None,
            },
        ),
{
    proplet.set_alive(true);
    proplet.task_count = tasks.count();
    liveliness_message(client_id, namespace)
}

/// The three kinds of message exclude each other: no topic ends in two of the
/// suffixes that the agent listens on.
pub proof fn lemma_routes_exclude_each_other(topic: Seq<char>)
    ensures
        !(has_suffix(topic, START_TOPIC@) && has_suffix(topic, STOP_TOPIC@)),
        !(has_suffix(topic, START_TOPIC@) && has_suffix(topic, CHUNK_TOPIC@)),
        !(has_suffix(topic, STOP_TOPIC@) && has_suffix(topic, CHUNK_TOPIC@)),
{
    reveal_strlit("control/manager/start");
    reveal_strlit("control/manager/stop");
    reveal_strlit("registry/server");
    let n = topic.len() as int;
    if has_suffix(topic, START_TOPIC@) {
        assert(topic.subrange(n - 21, n)[20] == 't');
        assert(topic[n - 1] == 't');
    }
    if has_suffix(topic, STOP_TOPIC@) {
        assert(topic.subrange(n - 20, n)[19] == 'p');
        assert(topic[n - 1] == 'p');
    }
    if has_suffix(topic, CHUNK_TOPIC@) {
        assert(topic.subrange(n - 15, n)[14] == 'r');
        assert(topic[n - 1] == 'r');
    }
}

} // verus!
