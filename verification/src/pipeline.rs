//! The life of one start command, step by step.
//!
//! Between the arrival of a start command and the publishing of its result the
//! agent publishes, pauses and calls its runtime. What it is to do next is given
//! by [`step`]: from where the command stands and what has just happened to where
//! it stands then and what is to be done. The agent does what it is told and
//! comes back with the next event.

use crate::assembler::{ChunkAssembler, Transfers};
use crate::crypto::WorkloadKey;
use crate::dispatch::{begin_start, decides, finish, hands_on, launch, StartDecision};
use crate::intake::{after_poll, poll_binary, polled, Poll};
use crate::messages::{
    completion_report, failure_report, reports_failure, reports_outcome, RegistryRequest,
    ResultMessage, StartConfig, StartError, StartRequest, ValidationError,
};
use crate::registry::{TaskRegistry, TaskState};
use vstd::prelude::*;

verus! {

/// Where a start command stands.
#[derive(Debug, Clone, PartialEq, Eq)]
pub enum StartState {
    /// It has arrived, and nothing is decided.
    Received(StartRequest),
    /// Its binary is being requested from the registry.
    Requested(StartRequest),
    /// Its binary has been waited for since `started`.
    Waiting { request: StartRequest, started: u64 },
    /// Its task is entered as running, and the runtime works on it.
    Running { task_id: String },
    /// The outcome of its task is being published; the task is still entered.
    Reporting { task_id: String },
    /// Nothing more comes of it.
    Done,
}

/// What has just happened.
#[derive(Debug, PartialEq, Eq)]
pub enum StartEvent {
    /// It is time to go on, at clock reading `now`: the command has just arrived,
    /// the request to the registry has been published, or a pause is over.
    Tick { now: u64 },
    /// The runtime has ended, with the output of the task or the text of its error.
    Completed(Result<Vec<u8>, String>),
    /// The result has been handed to the channel, whether or not it went out.
    Published,
}

/// What the agent is to do.
#[derive(Debug, Clone, PartialEq, Eq)]
pub enum StartAction {
    /// Fail with this error and publish nothing: there may be no task to report on.
    Drop(ValidationError),
    /// Publish `report` as the result of the task, then fail with `failure`.
    Report { report: ResultMessage, failure: StartError },
    /// Publish this request to the registry, then tick.
    Request(RegistryRequest),
    /// Pause for the polling interval, then tick.
    Pause,
    /// Hand this to the runtime and do not wait for it: the handler has
    /// succeeded. When the runtime ends, say that it has completed.
    Invoke(StartConfig),
    /// Publish this result; if it does not go out, let it be. Then say that it
    /// was published.
    Publish(ResultMessage),
    /// Nothing.
    Nothing,
}

/// Whether, for a command that has just arrived, `next` and `action` are what
/// [`decides`] leads to, and the tasks are entered accordingly.
pub open spec fn begins(
    request: StartRequest,
    key: Seq<u8>,
    proplet_id: u128,
    tasks: Map<Seq<char>, TaskState>,
    tasks_after: Map<Seq<char>, TaskState>,
    next: StartState,
    action: StartAction,
) -> bool {
    match action {
        StartAction::Drop(error) => {
            &&& decides(&request, key, StartDecision::Reject(error))
            &&& next is Done
            &&& tasks_after == tasks
        },
        StartAction::Report { report, failure } => {
            &&& decides(&request, key, StartDecision::Fail(failure))
            &&& reports_failure(report, request.id@, proplet_id, failure@)
            &&& next is Done
            &&& tasks_after == tasks
        },
        StartAction::Request(asked) => {
            &&& decides(&request, key, StartDecision::Fetch(asked))
            &&& next == StartState::Requested(request)
            &&& tasks_after == tasks
        },
        StartAction::Invoke(config) => {
            &&& decides(&request, key, StartDecision::Run(config.wasm_binary))
            &&& hands_on(request, config.wasm_binary, config)
            &&& next matches StartState::Running { task_id } && task_id@ == request.id@
            &&& tasks_after == tasks.insert(request.id@, TaskState::Running)
        },
        _ => false,
    }
}

/// Whether, for a command whose binary has been waited for since `started`,
/// `next` and `action` are what a look at the assembler at `now` leads to.
pub open spec fn waits(
    request: StartRequest,
    started: u64,
    now: u64,
    key: Seq<u8>,
    proplet_id: u128,
    transfers: Transfers,
    tasks: Map<Seq<char>, TaskState>,
    tasks_after: Map<Seq<char>, TaskState>,
    next: StartState,
    action: StartAction,
) -> bool {
    match action {
        StartAction::Pause => {
            &&& polled(Poll::Pending, transfers, request.image_url@, key, started, now)
            &&& next == StartState::Waiting { request, started }
            &&& tasks_after == tasks
        },
        StartAction::Report { report, failure } => {
            &&& polled(Poll::Failed(failure), transfers, request.image_url@, key, started, now)
            &&& reports_failure(report, request.id@, proplet_id, failure@)
            &&& next is Done
            &&& tasks_after == tasks
        },
        StartAction::Invoke(config) => {
            &&& polled(
                Poll::Ready(config.wasm_binary),
                transfers,
                request.image_url@,
                key,
                started,
                now,
            )
            &&& hands_on(request, config.wasm_binary, config)
            &&& next matches StartState::Running { task_id } && task_id@ == request.id@
            &&& tasks_after == tasks.insert(request.id@, TaskState::Running)
        },
        _ => false,
    }
}

/// Whether `next` and `action` are the step from `state` on `event`, and the
/// transfers and the tasks are after it what the step makes of them.
///
/// A command that has arrived is decided on the first tick. One whose binary
/// was requested begins to wait on the tick after the request was published,
/// and looks at the assembler on that tick and on every later one. A task that
/// runs is reported when the runtime has completed, and leaves the registry
/// when the report was published. Any other event changes nothing.
pub open spec fn steps(
    state: StartState,
    event: StartEvent,
    key: Seq<u8>,
    proplet_id: u128,
    transfers: Transfers,
    transfers_after: Transfers,
    tasks: Map<Seq<char>, TaskState>,
    tasks_after: Map<Seq<char>, TaskState>,
    next: StartState,
    action: StartAction,
) -> bool {
    match (state, event) {
        (StartState::Received(request), StartEvent::Tick { now }) => {
            &&& transfers_after == transfers
            &&& begins(request, key, proplet_id, tasks, tasks_after, next, action)
        },
        (StartState::Requested(request), StartEvent::Tick { now }) => {
            &&& transfers_after == after_poll(transfers, request.image_url@, now, now)
            &&& waits(request, now, now, key, proplet_id, transfers, tasks, tasks_after, next, action)
        },
        (StartState::Waiting { request, started }, StartEvent::Tick { now }) => {
            &&& transfers_after == after_poll(transfers, request.image_url@, started, now)
            &&& waits(
                request,
                started,
                now,
                key,
                proplet_id,
                transfers,
                tasks,
                tasks_after,
                next,
                action,
            )
        },
        (StartState::Running { task_id }, StartEvent::Completed(outcome)) => {
            &&& transfers_after == transfers
            &&& tasks_after == tasks
            &&& next matches StartState::Reporting { task_id: reported } && reported@ == task_id@
            &&& action matches StartAction::Publish(report) && reports_outcome(
                report,
                task_id@,
                proplet_id,
                outcome,
            )
        },
        (StartState::Reporting { task_id }, StartEvent::Published) => {
            &&& transfers_after == transfers
            &&& tasks_after == tasks.remove(task_id@)
            &&& next is Done
            &&& action is Nothing
        },
        _ => {
            &&& transfers_after == transfers
            &&& tasks_after == tasks
            &&& next == state
            &&& action is Nothing
        },
    }
}

fn wait(
    request: StartRequest,
    started: u64,
    now: u64,
    key: &WorkloadKey,
    proplet_id: u128,
    assembler: &mut ChunkAssembler,
    tasks: &mut TaskRegistry,
) -> (r: (StartState, StartAction))
    ensures
        final(assembler)@ == after_poll(old(assembler)@, request.image_url@, started, now),
        waits(
            request,
            started,
            now,
            key@,
            proplet_id,
            old(assembler)@,
            old(tasks)@,
            final(tasks)@,
            r.0,
            r.1,
        ),
{
    match poll_binary(assembler, key, request.image_url.as_str(), started, now) {
        Poll::Pending => (StartState::Waiting { request, started }, StartAction::Pause),
        Poll::Ready(binary) => {
            let config = launch(tasks, request, binary);
            (StartState::Running { task_id: config.id.clone() }, StartAction::Invoke(config))
        },
        Poll::Failed(failure) => {
            let report = failure_report(request.id.as_str(), proplet_id, &failure);
            (StartState::Done, StartAction::Report { report, failure })
        },
    }
}

/// Takes one step in the life of a start command.
pub fn step(
    state: StartState,
    event: StartEvent,
    key: &WorkloadKey,
    proplet_id: u128,
    assembler: &mut ChunkAssembler,
    tasks: &mut TaskRegistry,
) -> (r: (StartState, StartAction))
    ensures
        steps(
            state,
            event,
            key@,
            proplet_id,
            old(assembler)@,
            final(assembler)@,
            old(tasks)@,
            final(tasks)@,
            r.0,
            r.1,
        ),
{
    match (state, event) {
        (StartState::Received(request), StartEvent::Tick { now }) => {
            match begin_start(&request, key) {
                StartDecision::Reject(error) => (StartState::Done, StartAction::Drop(error)),
                StartDecision::Run(binary) => {
                    let config = launch(tasks, request, binary);
                    (
                        StartState::Running { task_id: config.id.clone() },
                        StartAction::Invoke(config),
                    )
                },
                StartDecision::Fetch(asked) => (
                    StartState::Requested(request),
                    StartAction::Request(asked),
                ),
                StartDecision::Fail(failure) => {
                    let report = failure_report(request.id.as_str(), proplet_id, &failure);
                    (StartState::Done, StartAction::Report { report, failure })
                },
            }
        },
        (StartState::Requested(request), StartEvent::Tick { now }) => wait(
            request,
            now,
            now,
            key,
            proplet_id,
            assembler,
            tasks,
        ),
        (StartState::Waiting { request, started }, StartEvent::Tick { now }) => wait(
            request,
            started,
            now,
            key,
            proplet_id,
            assembler,
            tasks,
        ),
        (StartState::Running { task_id }, StartEvent::Completed(outcome)) => {
            let report = completion_report(task_id.clone(), proplet_id, outcome);
            (StartState::Reporting { task_id }, StartAction::Publish(report))
        },
        (StartState::Reporting { task_id }, StartEvent::Published) => {
            finish(tasks, task_id.as_str());
            (StartState::Done, StartAction::Nothing)
        },
        (state, _) => (state, StartAction::Nothing),
    }
}

/// Whether `action` publishes a result.
pub open spec fn publishes(action: StartAction) -> bool {
    action is Report || action is Publish
}

/// The number of results that `state` may still lead to.
pub open spec fn results_ahead(state: StartState) -> nat {
    match state {
        StartState::Received(_) => 1,
        StartState::Requested(_) => 1,
        StartState::Waiting { .. } => 1,
        StartState::Running { .. } => 1,
        StartState::Reporting { .. } => 0,
        StartState::Done => 0,
    }
}

/// At most one result is published for a command: every step that publishes one
/// leads to where none is ahead, and no step leads to where more are ahead than
/// before.
pub proof fn lemma_one_result_at_most(
    state: StartState,
    event: StartEvent,
    key: Seq<u8>,
    proplet_id: u128,
    transfers: Transfers,
    transfers_after: Transfers,
    tasks: Map<Seq<char>, TaskState>,
    tasks_after: Map<Seq<char>, TaskState>,
    next: StartState,
    action: StartAction,
)
    requires
        steps(
            state,
            event,
            key,
            proplet_id,
            transfers,
            transfers_after,
            tasks,
            tasks_after,
            next,
            action,
        ),
    ensures
        results_ahead(next) <= results_ahead(state),
        publishes(action) ==> results_ahead(state) == 1 && results_ahead(next) == 0,
{
}

/// A task is entered exactly when it is handed to the runtime, and leaves
/// exactly when its report was published; no other step touches the tasks.
pub proof fn lemma_tasks_follow_the_steps(
    state: StartState,
    event: StartEvent,
    key: Seq<u8>,
    proplet_id: u128,
    transfers: Transfers,
    transfers_after: Transfers,
    tasks: Map<Seq<char>, TaskState>,
    tasks_after: Map<Seq<char>, TaskState>,
    next: StartState,
    action: StartAction,
)
    requires
        steps(
            state,
            event,
            key,
            proplet_id,
            transfers,
            transfers_after,
            tasks,
            tasks_after,
            next,
            action,
        ),
    ensures
        action matches StartAction::Invoke(config) ==> tasks_after == tasks.insert(
            config.id@,
            TaskState::Running,
        ),
        state matches StartState::Reporting { task_id } ==> (event is Published ==> tasks_after
            == tasks.remove(task_id@)),
        !(action is Invoke) && !(state is Reporting && event is Published) ==> tasks_after
            == tasks,
        action is Drop ==> tasks_after == tasks && next is Done,
{
}

} // verus!
