use vstd::prelude::*;
use vstd::string::*;

use crate::engine::EngineResult;
use crate::store::{Contract, ContractStore};

verus! {

/// The largest request body the dispatcher accepts, in bytes.
pub const MAX_BODY_BYTES: usize = 2 * 1024 * 1024;

/// Why a request ended without a log record being written. Each request is
/// independent; every one of these is terminal for its request alone.
pub enum RequestError {
    /// The body exceeded the size bound; the engine was never invoked.
    PayloadTooLarge,
    /// The body could not be read.
    PayloadRead,
    /// The engine call itself could not be completed.
    EngineInvocation,
    /// The engine reported success but its output held no command string.
    OutputParse,
    /// The named command could not be started.
    ProcessSpawn,
    /// The named command did not run to completion.
    ProcessExecution,
    /// The captured output could not be persisted.
    LogWrite,
}

impl RequestError {
    /// A fixed description of the failure, for the response body.
    pub fn describe(&self) -> (r: String)
        ensures
            self is PayloadTooLarge ==> r@ == "request body exceeds the size bound"@,
            self is PayloadRead ==> r@ == "unable to read the request body"@,
            self is EngineInvocation ==> r@ == "unable to invoke the engine"@,
            self is OutputParse ==> r@ == "unable to find command in the engine output"@,
            self is ProcessSpawn ==> r@ == "unable to execute the command"@,
            self is ProcessExecution ==> r@ == "the command did not complete"@,
            self is LogWrite ==> r@ == "unable to write the command output to the log"@,
    {
        match self {
            RequestError::PayloadTooLarge => String::from_str("request body exceeds the size bound"),
            RequestError::PayloadRead => String::from_str("unable to read the request body"),
            RequestError::EngineInvocation => String::from_str("unable to invoke the engine"),
            RequestError::OutputParse => String::from_str("unable to find command in the engine output"),
            RequestError::ProcessSpawn => String::from_str("unable to execute the command"),
            RequestError::ProcessExecution => String::from_str("the command did not complete"),
            RequestError::LogWrite => String::from_str("unable to write the command output to the log"),
        }
    }
}

/// The string value under the given key of a JSON text: `Some` exactly when
/// the text parses as JSON whose top value maps the key to a string. Named
/// here because what json::parse accepts takes the whole JSON grammar to
/// state; it is a function of the text and the key alone.
pub uninterp spec fn json_str_field_of(text: Seq<char>, key: Seq<char>) -> Option<Seq<char>>;

/// Relies on json::parse and json::JsonValue::as_str: parsing yields the
/// text's JSON value or an error; indexing an object by the key yields the
/// member, and null for a missing member or a non-object; as_str yields the
/// string content exactly of a string value.
#[verifier::external_body]
fn json_str_field(text: &str, key: &str) -> (r: Option<String>)
    ensures
        r matches Some(s) ==> json_str_field_of(text@, key@) == Some(s@),
        r is None ==> json_str_field_of(text@, key@) is None,
{
    match json::parse(text) {
        Ok(value) => value[key].as_str().map(|s| s.to_owned()),
        Err(_) => None,
    }
}

/// What the dispatcher does with an engine result: answer the caller
/// directly with the engine's diagnostic text, or run the extracted command,
/// or fail the request.
pub enum CommandDecision {
    /// The engine reported failure: respond with its text verbatim, and
    /// persist nothing.
    Respond(String),
    /// The engine succeeded and named this command: run it with no
    /// arguments and log its captured output.
    Run(String),
    /// The engine reported success but its output is not a JSON object with
    /// a string member "command": the request fails and no process is
    /// spawned.
    Reject,
}

/// Interprets one engine result. On failure the diagnostic text comes back
/// verbatim; on success the command string is extracted from the output, and
/// its absence fails the request without any process being spawned.
pub fn interpret_engine_result(res: EngineResult) -> (r: CommandDecision)
    ensures
        !res.success ==> (r matches CommandDecision::Respond(d) && d@ == res.output@),
        res.success && json_str_field_of(res.output@, "command"@) is None ==> r
            == CommandDecision::Reject,
        res.success ==> (json_str_field_of(res.output@, "command"@) matches Some(c) ==> (r
            matches CommandDecision::Run(cmd) && cmd@ == c)),
{
    if res.success {
        match json_str_field(res.output.as_str(), "command") {
            Option::Some(cmd) => CommandDecision::Run(cmd),
            Option::None => CommandDecision::Reject,
        }
    } else {
        CommandDecision::Respond(res.output)
    }
}

/// Whether a request body is within the dispatcher's size bound.
pub open spec fn body_within_bound(body: &str) -> bool {
    body.spec_bytes().len() <= MAX_BODY_BYTES
}

/// The first stage of one request: take the bounded body, then resolve the
/// contract name. A body over the bound is rejected before anything else
/// happens; an unknown name is the distinguishable "not found" outcome. Only
/// an `Invoke` answer carries a contract to the engine, so neither rejected
/// requests nor unknown names ever reach it.
pub enum PrepareStep<'a> {
    /// The body exceeds the size bound: reject, invoke nothing.
    TooLarge,
    /// The store holds no contract of this name: report absence, invoke
    /// nothing.
    NotFound,
    /// The named contract, to be run by the engine against the body.
    Invoke(&'a Contract),
}

/// Decides how a request starts: rejects an oversized body, reports an
/// unknown contract name as absent, and otherwise hands back the named
/// contract for the engine to run.
pub fn prepare_request<'a>(store: &'a ContractStore, name: &String, body: &str) -> (r: PrepareStep<
    'a,
>)
    requires
        store.wf(),
    ensures
        !body_within_bound(body) ==> r is TooLarge,
        body_within_bound(body) && !store.contains_name(name@) ==> r is NotFound,
        body_within_bound(body) && store.contains_name(name@) ==> (r matches PrepareStep::Invoke(c)
            && c.name@ == name@ && c.script@ == store.spec_script(name@) && c.keys@
            == store.spec_keys(name@) && c.script@.len() > 0 && c.keys@.len() > 0),
{
    if body.as_bytes().len() > MAX_BODY_BYTES {
        return PrepareStep::TooLarge;
    }
    match store.lookup(name) {
        Option::Some(c) => PrepareStep::Invoke(c),
        Option::None => PrepareStep::NotFound,
    }
}

} // verus!
