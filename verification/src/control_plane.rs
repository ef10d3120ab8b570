//! Talking to the control plane: where the calls go, and what an answer
//! means.
//!
//! An answer to a heartbeat that says "not found" means that the control
//! plane no longer knows the node. That is told apart from every other
//! failure, because the node recovers from it by registering again.

use vstd::prelude::*;
use crate::dynamic_config::{RemoteConfig, RemoteConfigView};
use crate::heartbeat::{HeartbeatEvent, HeartbeatEventView};

verus! {

/// Why a heartbeat did not succeed.
#[derive(Debug, PartialEq, Eq)]
pub enum HeartbeatError {
    /// The control plane does not know the node.
    NodeNotFound,
    /// Any other failure: an answer with another status, which has the
    /// status and the body, or no answer at all, which has only words.
    Other { status: Option<u16>, detail: String },
}

/// A heartbeat error as plain mathematical values.
pub enum HeartbeatErrorView {
    NodeNotFound,
    Other { status: Option<u16>, detail: Seq<char> },
}

impl View for HeartbeatError {
    type V = HeartbeatErrorView;

    open spec fn view(&self) -> HeartbeatErrorView {
        match self {
            HeartbeatError::NodeNotFound => HeartbeatErrorView::NodeNotFound,
            HeartbeatError::Other { status, detail } => HeartbeatErrorView::Other {
                status: *status,
                detail: detail@,
            },
        }
    }
}

/// What an acknowledged heartbeat carries.
pub struct HeartbeatResult {
    pub config_version: u64,
    pub remote_config: Option<RemoteConfig>,
}

impl HeartbeatResult {
    /// What an acknowledged heartbeat carries, from what its answer holds.
    /// An answer without a version stands at version 0.
    pub fn from_answer(config_version: Option<u64>, remote_config: Option<RemoteConfig>) -> (result:
        HeartbeatResult)
        ensures
            result.config_version == (match config_version {
                Some(v) => v,
                None => 0,
            }),
            result.remote_config == remote_config,
    {
        HeartbeatResult {
            config_version: match config_version {
                Some(v) => v,
                None => 0,
            },
            remote_config,
        }
    }
}

/// Whether a status is one of success: 200 to 299.
pub open spec fn is_success(status: u16) -> bool {
    200 <= status <= 299
}

/// What the answer to a heartbeat means: the body on success, "node not
/// found" for 404, and another failure with status and body for the rest.
pub open spec fn heartbeat_answer(status: u16, body: Seq<char>) -> Result<
    Seq<char>,
    HeartbeatErrorView,
> {
    if is_success(status) {
        Ok(body)
    } else if status == 404 {
        Err(HeartbeatErrorView::NodeNotFound)
    } else {
        Err(HeartbeatErrorView::Other { status: Some(status), detail: body })
    }
}

/// The view of a classified answer.
pub open spec fn answer_view(r: Result<String, HeartbeatError>) -> Result<
    Seq<char>,
    HeartbeatErrorView,
> {
    match r {
        Ok(body) => Ok(body@),
        Err(e) => Err(e@),
    }
}

/// Says what the answer to a heartbeat means.
pub fn classify_heartbeat(status: u16, body: String) -> (answer: Result<String, HeartbeatError>)
    ensures
        answer_view(answer) == heartbeat_answer(status, body@),
{
    if 200 <= status && status <= 299 {
        Ok(body)
    } else if status == 404 {
        Err(HeartbeatError::NodeNotFound)
    } else {
        Err(HeartbeatError::Other { status: Some(status), detail: body })
    }
}

/// The error for a call that got no answer.
pub fn transport_failure(detail: String) -> (error: HeartbeatError)
    ensures
        error@ == (HeartbeatErrorView::Other { status: None, detail: detail@ }),
{
    HeartbeatError::Other { status: None, detail }
}

/// What the answer to a registration or to an unregistration means: the
/// body on success, nothing for any other status.
pub fn classify_plain(status: u16, body: String) -> (answer: Option<String>)
    ensures
        answer is Some <==> is_success(status),
        answer is Some ==> answer->0@ == body@,
{
    if 200 <= status && status <= 299 {
        Some(body)
    } else {
        None
    }
}

/// The event that the outcome of a heartbeat is for the heartbeat loop.
pub open spec fn beat_event(
    config_version: u64,
    remote_config: Option<RemoteConfigView>,
    error: Option<HeartbeatErrorView>,
) -> HeartbeatEventView {
    match error {
        None => HeartbeatEventView::Acknowledged { config_version, remote_config },
        Some(HeartbeatErrorView::NodeNotFound) => HeartbeatEventView::NodeNotFound,
        Some(HeartbeatErrorView::Other { .. }) => HeartbeatEventView::BeatFailed,
    }
}

/// Turns the outcome of a heartbeat into the event for the heartbeat loop.
pub fn heartbeat_event(outcome: Result<HeartbeatResult, HeartbeatError>) -> (event: HeartbeatEvent)
    ensures
        event@ == (match outcome {
            Ok(r) => beat_event(
                r.config_version,
                match r.remote_config {
                    Some(c) => Some(c@),
                    None => None,
                },
                None,
            ),
            Err(e) => beat_event(0, None, Some(e@)),
        }),
{
    match outcome {
        Ok(r) => HeartbeatEvent::Acknowledged {
            config_version: r.config_version,
            remote_config: r.remote_config,
        },
        Err(HeartbeatError::NodeNotFound) => HeartbeatEvent::NodeNotFound,
        Err(HeartbeatError::Other { .. }) => HeartbeatEvent::BeatFailed,
    }
}

/// Turns the outcome of a registration into the event for the heartbeat
/// loop.
pub fn register_event(node_id: Option<String>) -> (event: HeartbeatEvent)
    ensures
        event@ == (match node_id {
            Some(id) => HeartbeatEventView::Registered { node_id: id@ },
            None => HeartbeatEventView::RegisterFailed,
        }),
{
    match node_id {
        Some(id) => HeartbeatEvent::Registered { node_id: id },
        None => HeartbeatEvent::RegisterFailed,
    }
}

/// The path that nodes register at.
pub fn register_path() -> (path: &'static str)
    ensures
        path@ == "/nodes/register"@,
{
    "/nodes/register"
}

/// The path of the heartbeat of the node `node_id`.
pub fn heartbeat_path(node_id: &str) -> (path: String)
    ensures
        path@ == "/nodes/"@ + node_id@ + "/heartbeat"@,
{
    let mut path = "/nodes/".to_owned();
    path.append(node_id);
    path.append("/heartbeat");
    path
}

/// The path at which the node `node_id` unregisters.
pub fn unregister_path(node_id: &str) -> (path: String)
    ensures
        path@ == "/nodes/"@ + node_id@ + "/unregister"@,
{
    let mut path = "/nodes/".to_owned();
    path.append(node_id);
    path.append("/unregister");
    path
}

/// The value of the `Authorization` header for the management token.
pub fn bearer(token: &str) -> (value: String)
    ensures
        value@ == "Bearer "@ + token@,
{
    let mut value = "Bearer ".to_owned();
    value.append(token);
    value
}

/// Only the status 404 is read as "node not found"; no success and no
/// other failure is.
pub proof fn only_not_found_asks_for_registration(status: u16, body: Seq<char>)
    ensures
        heartbeat_answer(status, body) == Err::<Seq<char>, HeartbeatErrorView>(
            HeartbeatErrorView::NodeNotFound,
        ) <==> status == 404,
        heartbeat_answer(status, body) is Ok <==> is_success(status),
{
}

} // verus!
