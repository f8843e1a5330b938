//! Status and request types of the media-playback collaborator, and the
//! parsing of its IPC responses. The player process answers each property
//! query with one JSON line holding a `data` field; the parsers pull the
//! field out and the fold builds one status event from the four answers,
//! with the fixed defaults for anything missing. The process and its socket
//! live outside the library; only the response text comes through here.

use vstd::prelude::*;

verus! {

/// Inbound status from the playback collaborator.
#[derive(Debug)]
pub enum MpvEvent {
    /// The collaborator failed and reports why.
    Error(String),
    /// A full replacement snapshot of the player state.
    StatusUpdate { is_playing: bool, position: u32, duration: u32, filename: Option<String> },
}

/// Outbound request to the playback collaborator. `Play` acts as a toggle:
/// it starts the player when idle and cycles pause when one is running.
#[derive(Debug)]
pub enum MpvRequest {
    Play(String),
    GetStatus,
}

/// What a play request makes the collaborator do, decided from whether a
/// player process is already running: cycle pause on the running one, or
/// spawn a new one for the path.
#[derive(Clone, Copy, Debug, PartialEq, Eq, Structural)]
pub enum PlayStep {
    CyclePause,
    SpawnPlayer,
}

pub fn play_request_step(has_process: bool) -> (s: PlayStep)
    ensures
        s == if has_process {
            PlayStep::CyclePause
        } else {
            PlayStep::SpawnPlayer
        },
{
    if has_process {
        PlayStep::CyclePause
    } else {
        PlayStep::SpawnPlayer
    }
}

#[verifier::external_type_specification]
#[verifier::external_body]
pub struct ExValue(serde_json::Value);

/// Relies on `serde_json::from_str::<Value>`: `Some` on well-formed JSON
/// text, `None` otherwise.
#[verifier::external_body]
fn json_parse(s: &str) -> Option<serde_json::Value> {
    serde_json::from_str(s).ok()
}

/// Relies on `serde_json::Value::get`: the value under `key` when `v` is an
/// object that has it, `None` otherwise.
#[verifier::external_body]
fn json_get<'a>(v: &'a serde_json::Value, key: &str) -> Option<&'a serde_json::Value> {
    v.get(key)
}

/// Relies on `serde_json::Value::as_bool`: the boolean when `v` is one,
/// `None` otherwise.
#[verifier::external_body]
fn json_as_bool(v: &serde_json::Value) -> Option<bool> {
    v.as_bool()
}

/// Relies on `serde_json::Value::as_str`: the text when `v` is a JSON
/// string, `None` otherwise.
#[verifier::external_body]
fn json_as_str(v: &serde_json::Value) -> Option<String> {
    match v.as_str() {
        Some(s) => Some(s.to_owned()),
        None => None,
    }
}

/// Relies on `serde_json::Value::as_f64`: the whole seconds of the number
/// when `v` is one (saturating at the `u32` range), `None` otherwise.
#[verifier::external_body]
fn json_as_seconds(v: &serde_json::Value) -> Option<u32> {
    match v.as_f64() {
        Some(seconds) => Some(seconds as u32),
        None => None,
    }
}

/// The `data` field of one response line, when the line is JSON and has one.
fn response_data(resp: &str) -> Option<serde_json::Value> {
    match json_parse(resp) {
        Option::Some(v) => {
            match json_get(&v, "data") {
                Option::Some(d) => Option::Some(clone_value(d)),
                Option::None => Option::None,
            }
        },
        Option::None => Option::None,
    }
}

/// Relies on `serde_json::Value::clone`: hands back an owned copy.
#[verifier::external_body]
fn clone_value(v: &serde_json::Value) -> serde_json::Value {
    v.clone()
}

/// The boolean `data` field of a property response, if it has one.
pub fn parse_bool_response(resp: &str) -> Option<bool> {
    match response_data(resp) {
        Option::Some(d) => json_as_bool(&d),
        Option::None => Option::None,
    }
}

/// The numeric `data` field of a property response in whole seconds, if it
/// has one.
pub fn parse_seconds_response(resp: &str) -> Option<u32> {
    match response_data(resp) {
        Option::Some(d) => json_as_seconds(&d),
        Option::None => Option::None,
    }
}

/// The string `data` field of a property response, if it has one.
pub fn parse_string_response(resp: &str) -> Option<String> {
    match response_data(resp) {
        Option::Some(d) => json_as_str(&d),
        Option::None => Option::None,
    }
}

/// Fold the four property answers into one status snapshot, with the fixed
/// defaults: a player whose pause state is unknown counts as not playing,
/// unknown positions and durations count as zero, and the filename stays
/// absent when unknown.
pub fn fold_status(
    pause: Option<bool>,
    position: Option<u32>,
    duration: Option<u32>,
    filename: Option<String>,
) -> (e: MpvEvent)
    ensures
        e matches MpvEvent::StatusUpdate { is_playing, position: p, duration: d, filename: f } && {
            &&& is_playing == (pause matches Option::Some(b) && !b)
            &&& p == (match position {
                Option::Some(v) => v,
                Option::None => 0u32,
            })
            &&& d == (match duration {
                Option::Some(v) => v,
                Option::None => 0u32,
            })
            &&& f == filename
        },
{
    let is_playing = match pause {
        Option::Some(b) => !b,
        Option::None => false,
    };
    let p = match position {
        Option::Some(v) => v,
        Option::None => 0,
    };
    let d = match duration {
        Option::Some(v) => v,
        Option::None => 0,
    };
    MpvEvent::StatusUpdate { is_playing, position: p, duration: d, filename }
}

/// Build the status event straight from the four raw response lines.
pub fn status_event_from_responses(
    pause_resp: &str,
    pos_resp: &str,
    dur_resp: &str,
    file_resp: &str,
) -> (e: MpvEvent)
    ensures
        e is StatusUpdate,
{
    let pause = parse_bool_response(pause_resp);
    let position = parse_seconds_response(pos_resp);
    let duration = parse_seconds_response(dur_resp);
    let filename = parse_string_response(file_resp);
    fold_status(pause, position, duration, filename)
}

} // verus!
