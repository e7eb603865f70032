//! The messages of the control channel, and the errors that are reported over it.

use crate::crypto::DecryptError;
use vstd::prelude::*;
use vstd::string::*;

verus! {

/// Topic suffix on which start commands arrive.
pub const START_TOPIC: &'static str = "control/manager/start";

/// Topic suffix on which stop commands arrive.
pub const STOP_TOPIC: &'static str = "control/manager/stop";

/// Topic suffix on which the registry delivers chunks.
pub const CHUNK_TOPIC: &'static str = "registry/server";

/// Topic suffix on which the agent announces itself once.
pub const DISCOVERY_TOPIC: &'static str = "control/proplet/create";

/// Topic suffix of the heartbeat.
pub const LIVELINESS_TOPIC: &'static str = "control/proplet/alive";

/// Topic suffix on which results are published.
pub const RESULTS_TOPIC: &'static str = "control/proplet/results";

/// Topic suffix on which a binary is requested from the registry.
pub const REGISTRY_REQUEST_TOPIC: &'static str = "registry/proplet";

/// The namespace announced when none is configured.
pub const DEFAULT_NAMESPACE: &'static str = "default";

/// The status that a heartbeat announces.
pub const ALIVE_STATUS: &'static str = "alive";

/// Why a request is not processed at all.
#[derive(Debug, Clone, Copy, PartialEq, Eq)]
pub enum ValidationError {
    /// The request names no task.
    MissingId,
}

impl ValidationError {
    /// The text of this error.
    pub open spec fn text(self) -> Seq<char> {
        "task id is required"@
    }

    /// The text under which this error is logged.
    pub fn message(&self) -> (s: String)
        ensures
            s@ == self.text(),
    {
        String::from_str("task id is required")
    }
}

/// Why no binary could be had for a start command.
#[derive(Debug, Clone, PartialEq, Eq)]
pub enum StartError {
    /// The inline payload is no base64; the text is the decoder's.
    Encoding(String),
    /// The inline payload does not have the checksum that the request announces.
    ChecksumMismatch { expected: String, computed: String },
    /// The inline payload could not be opened.
    Decrypt(DecryptError),
    /// The request carries neither a payload nor the name of a binary to fetch.
    NoBinary,
    /// The registry did not deliver the binary in time.
    RegistryTimeout,
    /// The reassembled binary does not have the checksum that its chunks announced.
    ReassemblyChecksum,
    /// The reassembled binary could not be opened.
    ReassemblyDecrypt,
}

/// The model of a [`StartError`].
pub enum StartFailure {
    Encoding(Seq<char>),
    ChecksumMismatch { expected: Seq<char>, computed: Seq<char> },
    Decrypt(DecryptError),
    NoBinary,
    RegistryTimeout,
    ReassemblyChecksum,
    ReassemblyDecrypt,
}

impl StartFailure {
    /// The text under which the failure is reported to the requester.
    pub open spec fn report_text(self) -> Seq<char> {
        match self {
            StartFailure::Encoding(text) => text,
            StartFailure::ChecksumMismatch { expected, computed } => {
                "Checksum mismatch. Expected: "@ + expected + ", Got: "@ + computed
            },
            StartFailure::Decrypt(error) => error.text(),
            StartFailure::NoBinary => "No wasm binary or image URL provided"@,
            StartFailure::RegistryTimeout => "Timeout waiting for binary chunks"@,
            StartFailure::ReassemblyChecksum => "Checksum mismatch during reassembly"@,
            StartFailure::ReassemblyDecrypt => "Failed to decrypt assembled chunks"@,
        }
    }

    /// The text with which the handler fails.
    pub open spec fn text(self) -> Seq<char> {
        match self {
            StartFailure::ChecksumMismatch { .. } => "Checksum mismatch"@,
            _ => self.report_text(),
        }
    }
}

impl View for StartError {
    type V = StartFailure;

    open spec fn view(&self) -> StartFailure {
        match self {
            StartError::Encoding(text) => StartFailure::Encoding(text@),
            StartError::ChecksumMismatch { expected, computed } => StartFailure::ChecksumMismatch {
                expected: expected@,
                computed: computed@,
            },
            StartError::Decrypt(error) => StartFailure::Decrypt(*error),
            StartError::NoBinary => StartFailure::NoBinary,
            StartError::RegistryTimeout => StartFailure::RegistryTimeout,
            StartError::ReassemblyChecksum => StartFailure::ReassemblyChecksum,
            StartError::ReassemblyDecrypt => StartFailure::ReassemblyDecrypt,
        }
    }
}

impl StartError {
    /// The text under which the failure is reported to the requester.
    pub fn report(&self) -> (s: String)
        ensures
            s@ == self@.report_text(),
    {
        match self {
            StartError::Encoding(text) => text.clone(),
            StartError::ChecksumMismatch { expected, computed } => {
                let mut s = String::from_str("Checksum mismatch. Expected: ");
                s.append(expected.as_str());
                s.append(", Got: ");
                s.append(computed.as_str());
                s
            },
            StartError::Decrypt(error) => error.message(),
            StartError::NoBinary => String::from_str("No wasm binary or image URL provided"),
            StartError::RegistryTimeout => String::from_str("Timeout waiting for binary chunks"),
            StartError::ReassemblyChecksum => String::from_str(
                "Checksum mismatch during reassembly",
            ),
            StartError::ReassemblyDecrypt => String::from_str(
                "Failed to decrypt assembled chunks",
            ),
        }
    }

    /// The text with which the handler fails.
    pub fn message(&self) -> (s: String)
        ensures
            s@ == self@.text(),
    {
        match self {
            StartError::ChecksumMismatch { .. } => String::from_str("Checksum mismatch"),
            _ => self.report(),
        }
    }
}

/// A command to start a task.
#[derive(Debug, Clone, PartialEq, Eq)]
pub struct StartRequest {
    /// The id of the task, assigned by the manager.
    pub id: String,
    /// The name of the function to run.
    pub name: String,
    /// The sealed binary in base64; empty if the binary is to be fetched.
    pub file: String,
    /// The checksum of the sealed binary; empty if none is announced.
    pub checksum: String,
    /// The name under which the registry holds the binary; empty if it is sent inline.
    pub image_url: String,
    /// Whether the task keeps running after it has answered.
    pub daemon: bool,
    /// The command line of the task.
    pub cli_args: Vec<String>,
    /// The environment of the task, if any is given.
    pub env: Option<Vec<(String, String)>>,
    /// The input of the function.
    pub inputs: Vec<u8>,
}

/// Where the binary of a start command comes from.
#[derive(Debug, Clone, Copy, PartialEq, Eq)]
pub enum BinarySource {
    /// It is sent along, sealed and in base64.
    Inline,
    /// It is fetched from the registry in chunks.
    Registry,
    /// The request names none.
    Missing,
}

impl StartRequest {
    /// Whether the request can be processed at all: it must name its task.
    pub open spec fn validity(&self) -> Result<(), ValidationError> {
        if self.id@.len() == 0 {
            Err(ValidationError::MissingId)
        } else {
            Ok(())
        }
    }

    /// Checks that the request can be processed at all.
    pub fn validate(&self) -> (r: Result<(), ValidationError>)
        ensures
            r == self.validity(),
    {
        if self.id.as_str().is_empty() {
            Err(ValidationError::MissingId)
        } else {
            Ok(())
        }
    }

    /// The one way in which the binary of this request is obtained: inline if a
    /// payload is sent along, else from the registry if a name is given.
    pub open spec fn source_of(&self) -> BinarySource {
        if self.file@.len() > 0 {
            BinarySource::Inline
        } else if self.image_url@.len() > 0 {
            BinarySource::Registry
        } else {
            BinarySource::Missing
        }
    }

    /// Decides where the binary comes from.
    pub fn source(&self) -> (source: BinarySource)
        ensures
            source == self.source_of(),
    {
        if !self.file.as_str().is_empty() {
            BinarySource::Inline
        } else if !self.image_url.as_str().is_empty() {
            BinarySource::Registry
        } else {
            BinarySource::Missing
        }
    }
}

/// A command to stop a task.
#[derive(Debug, Clone, PartialEq, Eq)]
pub struct StopRequest {
    /// The id of the task.
    pub id: String,
}

impl StopRequest {
    /// Whether the request can be processed: it must name its task.
    pub open spec fn validity(&self) -> Result<(), ValidationError> {
        if self.id@.len() == 0 {
            Err(ValidationError::MissingId)
        } else {
            Ok(())
        }
    }

    /// Checks that the request can be processed.
    pub fn validate(&self) -> (r: Result<(), ValidationError>)
        ensures
            r == self.validity(),
    {
        if self.id.as_str().is_empty() {
            Err(ValidationError::MissingId)
        } else {
            Ok(())
        }
    }
}

/// What the runtime is handed to start a task.
#[derive(Debug, Clone, PartialEq, Eq)]
pub struct StartConfig {
    pub id: String,
    pub function_name: String,
    pub daemon: bool,
    pub wasm_binary: Vec<u8>,
    pub cli_args: Vec<String>,
    pub env: Vec<(String, String)>,
    pub args: Vec<u8>,
}

/// The outcome of a task, as published: either the output, or the error.
#[derive(Debug, Clone, PartialEq, Eq)]
pub struct ResultMessage {
    pub task_id: String,
    pub proplet_id: u128,
    pub result: Vec<u8>,
    pub error: Option<String>,
}

/// The request for a binary that the registry holds.
#[derive(Debug, Clone, PartialEq, Eq)]
pub struct RegistryRequest {
    pub app_name: String,
}

/// The announcement that the agent makes once, at its start.
#[derive(Debug, Clone, PartialEq, Eq)]
pub struct DiscoveryMessage {
    pub proplet_id: String,
    pub namespace: String,
}

/// The heartbeat of the agent.
#[derive(Debug, Clone, PartialEq, Eq)]
pub struct LivelinessMessage {
    pub proplet_id: String,
    pub status: String,
    pub namespace: String,
}

/// The identity of the agent and what it last reported of itself.
#[derive(Debug, Clone, PartialEq, Eq)]
pub struct Proplet {
    pub id: u128,
    pub name: String,
    pub alive: bool,
    pub task_count: usize,
}

impl Proplet {
    /// The identity of an agent that has reported nothing yet.
    pub fn new(id: u128, name: String) -> (proplet: Proplet)
        ensures
            proplet.id == id,
            proplet.name == name,
            !proplet.alive,
            proplet.task_count == 0,
    {
        Proplet { id, name, alive: false, task_count: 0 }
    }

    /// Notes whether the agent is alive.
    pub fn set_alive(&mut self, alive: bool)
        ensures
            final(self).alive == alive,
            final(self).id == old(self).id,
            final(self).name == old(self).name,
            final(self).task_count == old(self).task_count,
    {
        self.alive = alive;
    }
}

/// The namespace to announce: the configured one, or `default`.
pub open spec fn namespace_of(configured: Option<Seq<char>>) -> Seq<char> {
    match configured {
        Some(namespace) => namespace,
        None => DEFAULT_NAMESPACE@,
    }
}

/// The namespace to announce: the configured one, or `default`.
pub fn namespace_or_default(configured: Option<&str>) -> (namespace: String)
    ensures
        namespace@ == namespace_of(
            match configured {
                Some(text) => Some(text@),
                None => None,
            },
        ),
{
    match configured {
        Some(text) => String::from_str(text),
        None => String::from_str(DEFAULT_NAMESPACE),
    }
}

/// Whether `report` reports `outcome` for the task `task_id`: the output of a
/// task that succeeded, or the error of one that failed. Exactly one of the two
/// is carried; the other is empty.
pub open spec fn reports_outcome(
    report: ResultMessage,
    task_id: Seq<char>,
    proplet_id: u128,
    outcome: Result<Vec<u8>, String>,
) -> bool {
    &&& report.task_id@ == task_id
    &&& report.proplet_id == proplet_id
    &&& match outcome {
        Ok(output) => report.result == output && report.error is None,
        Err(error) => report.result@.len() == 0 && report.error == Some(error),
    }
}

/// Whether `report` reports to the requester that no binary could be had for the
/// task `task_id`, and why.
pub open spec fn reports_failure(
    report: ResultMessage,
    task_id: Seq<char>,
    proplet_id: u128,
    failure: StartFailure,
) -> bool {
    &&& report.task_id@ == task_id
    &&& report.proplet_id == proplet_id
    &&& report.result@.len() == 0
    &&& report.error matches Some(text) && text@ == failure.report_text()
}

/// The message that reports the output of a task that succeeded, or the error of
/// one that failed.
pub fn completion_report(task_id: String, proplet_id: u128, outcome: Result<Vec<u8>, String>) -> (report:
    ResultMessage)
    ensures
        report.task_id == task_id,
        reports_outcome(report, task_id@, proplet_id, outcome),
{
    match outcome {
        Ok(output) => ResultMessage { task_id, proplet_id, result: output, error: None },
        Err(error) => ResultMessage {
            task_id,
            proplet_id,
            result: Vec::new(),
            error: Some(error),
        },
    }
}

/// The message that reports to the requester that no binary could be had.
pub fn failure_report(task_id: &str, proplet_id: u128, failure: &StartError) -> (report:
    ResultMessage)
    ensures
        reports_failure(report, task_id@, proplet_id, failure@),
{
    ResultMessage {
        task_id: String::from_str(task_id),
        proplet_id,
        result: Vec::new(),
        error: Some(failure.report()),
    }
}

/// The request that asks the registry for the binary called `app_name`.
pub fn registry_request(app_name: &str) -> (request: RegistryRequest)
    ensures
        request.app_name@ == app_name@,
{
    RegistryRequest { app_name: String::from_str(app_name) }
}

/// The announcement of an agent with the client id `client_id`.
pub fn discovery_message(client_id: &str, namespace: Option<&str>) -> (message: DiscoveryMessage)
    ensures
        message.proplet_id@ == client_id@,
        message.namespace@ == namespace_of(
            match namespace {
                Some(text) => Some(text@),
                None => None,
            },
        ),
{
    DiscoveryMessage {
        proplet_id: String::from_str(client_id),
        namespace: namespace_or_default(namespace),
    }
}

/// The heartbeat of an agent with the client id `client_id`.
pub fn liveliness_message(client_id: &str, namespace: Option<&str>) -> (message:
    LivelinessMessage)
    ensures
        message.proplet_id@ == client_id@,
        message.status@ == ALIVE_STATUS@,
        message.namespace@ == namespace_of(
            match namespace {
                Some(text) => Some(text@),
                None => None,
            },
        ),
{
    LivelinessMessage {
        proplet_id: String::from_str(client_id),
        status: String::from_str(ALIVE_STATUS),
        namespace: namespace_or_default(namespace),
    }
}

} // verus!
