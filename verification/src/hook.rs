//! What the hook does when Devin runs it: it reports the session that starts.
use vstd::prelude::*;

use crate::agent::NAME;
use crate::json::Json;
use crate::json::JsonTree;
use crate::parse::parse_bytes;
use crate::platform::texts;
use crate::text::same_text;

verus! {

/// The most bytes that a hook payload may have.
pub const MAX_HOOK_PAYLOAD: u64 = 64 * 1024;

/// A request to Luvus.
#[derive(Debug)]
pub struct Request {
    pub method: &'static str,
    pub params: Json,
}

/// The value of an environment variable, if it is set; the last one counts.
pub open spec fn variable_in(variables: Seq<(String, String)>, name: Seq<char>) -> Option<Seq<char>>
    decreases variables.len(),
{
    if variables.len() == 0 {
        None
    } else if variables.last().0@ == name {
        Some(variables.last().1@)
    } else {
        variable_in(variables.drop_last(), name)
    }
}

/// Whether an environment variable is set and not empty.
pub open spec fn is_filled(variables: Seq<(String, String)>, name: Seq<char>) -> bool {
    variable_in(variables, name) matches Some(value) && value.len() > 0
}

/// Whether the hook runs in a Luvus pane, started by Devin.
pub open spec fn is_devin_pane(variables: Seq<(String, String)>) -> bool {
    &&& variable_in(variables, "LUVUS_ENV"@) == Some("1"@)
    &&& is_filled(variables, "LUVUS_SOCKET_PATH"@)
    &&& is_filled(variables, "DEVIN_PROJECT_DIR"@)
}

/// The session that a payload says has started.
pub open spec fn started_session(payload: JsonTree) -> Option<Seq<char>> {
    if payload.text_at("hook_event_name"@) == Some("SessionStart"@) {
        payload.text_at("session_id"@)
    } else {
        None
    }
}

/// The report of a session in a pane.
pub open spec fn session_report(pane: Seq<char>, session: Seq<char>) -> JsonTree {
    JsonTree::Object(
        map![
            "pane"@ => JsonTree::Text(pane),
            "agent"@ => JsonTree::Text(NAME@),
            "session_id"@ => JsonTree::Text(session),
        ],
    )
}

/// Whether `resume_command` may answer for Devin's session `session` with a
/// command, or, for `resumable` false, with none.
pub open spec fn answers<F: Fn(&str, &str) -> Option<String>>(
    resume_command: F,
    session: Seq<char>,
    resumable: bool,
) -> bool {
    exists|agent: &str, id: &str, answer: Option<String>|
        agent@ == NAME@ && id@ == session && answer is Some == resumable && #[trigger] call_ensures(
            resume_command,
            (agent, id),
            answer,
        )
}

/// Whether `params` is what a payload is answered with: the report of the session
/// that it says has started, if that session can be resumed, and nothing
/// otherwise.
pub open spec fn params_follow<F: Fn(&str, &str) -> Option<String>>(
    params: Option<Json>,
    payload: JsonTree,
    pane: Seq<char>,
    resume_command: F,
) -> bool {
    match started_session(payload) {
        None => params is None,
        Some(session) => match params {
            Some(params) => params@ == session_report(pane, session) && answers(
                resume_command,
                session,
                true,
            ),
            None => answers(resume_command, session, false),
        },
    }
}

/// Whether `params` is what the bytes of a payload are answered with: nothing for
/// a payload that is too long or no JSON, or without a pane.
pub open spec fn params_follow_input<F: Fn(&str, &str) -> Option<String>>(
    params: Option<Json>,
    input: Seq<u8>,
    pane: Seq<char>,
    resume_command: F,
) -> bool {
    if input.len() > MAX_HOOK_PAYLOAD || pane.len() == 0 {
        params is None
    } else {
        match crate::parse::parsed_bytes(input) {
            Some(payload) => params_follow(params, payload, pane, resume_command),
            None => params is None,
        }
    }
}

/// The environment variables that [`environment_matches`] looks at.
pub fn hook_variables() -> (names: Vec<&'static str>)
    ensures
        texts(names@) == seq!["LUVUS_ENV"@, "LUVUS_SOCKET_PATH"@, "DEVIN_PROJECT_DIR"@],
{
    let mut names: Vec<&'static str> = Vec::new();
    names.push("LUVUS_ENV");
    names.push("LUVUS_SOCKET_PATH");
    names.push("DEVIN_PROJECT_DIR");
    assert(texts(names@) =~= seq!["LUVUS_ENV"@, "LUVUS_SOCKET_PATH"@, "DEVIN_PROJECT_DIR"@]);
    names
}

/// The value of an environment variable, if it is set.
fn variable<'a>(variables: &'a Vec<(String, String)>, name: &str) -> (value: Option<&'a str>)
    ensures
        match value {
            Some(value) => variable_in(variables@, name@) == Some(value@),
            None => variable_in(variables@, name@) is None,
        },
{
    let mut end: usize = variables.len();
    assert(variables@.take(end as int) =~= variables@);
    while end > 0
        invariant
            end <= variables@.len(),
            variable_in(variables@, name@) == variable_in(variables@.take(end as int), name@),
        decreases end,
    {
        assert(variables@.take(end as int).drop_last() =~= variables@.take(end - 1));
        end -= 1;
        if same_text(variables[end].0.as_str(), name) {
            return Some(variables[end].1.as_str());
        }
    }
    None
}

/// Whether the hook runs in a Luvus pane, started by Devin. The variables that are
/// set are given as names and values.
///
/// Devin sets `DEVIN_PROJECT_DIR` for every hook process, interactive or not.
/// Requiring it keeps another agent that runs the same script from reporting a
/// Devin session.
pub fn environment_matches(variables: &Vec<(String, String)>) -> (matched: bool)
    ensures
        matched == is_devin_pane(variables@),
{
    match (
        variable(variables, "LUVUS_ENV"),
        variable(variables, "LUVUS_SOCKET_PATH"),
        variable(variables, "DEVIN_PROJECT_DIR"),
    ) {
        (Some(env), Some(socket), Some(project)) => {
            same_text(env, "1") && !socket.is_empty() && !project.is_empty()
        },
        _ => false,
    }
}

/// The report of a session in a pane.
fn report(pane: &str, session: &str) -> (params: Json)
    ensures
        params@ == session_report(pane@, session@),
{
    let mut entries: Vec<(String, Json)> = Vec::new();
    let place = ("pane".to_owned(), Json::Text(pane.to_owned()));
    let agent = ("agent".to_owned(), Json::Text(NAME.to_owned()));
    let id = ("session_id".to_owned(), Json::Text(session.to_owned()));
    proof {
        crate::json::lemma_push_entry(entries@, place);
        crate::json::lemma_push_entry(entries@.push(place), agent);
        crate::json::lemma_push_entry(entries@.push(place).push(agent), id);
    }
    entries.push(place);
    entries.push(agent);
    entries.push(id);
    Json::Object(entries)
}

/// The report of the session that a payload says has started, if that session can
/// be resumed. `resume_command` gives an agent's command for resuming a session,
/// or none where the session's id is not acceptable.
pub fn payload_params<F: Fn(&str, &str) -> Option<String>>(
    payload: &Json,
    pane: &str,
    resume_command: F,
) -> (params: Option<Json>)
    requires
        forall|agent: &str, id: &str| #[trigger] call_requires(resume_command, (agent, id)),
    ensures
        params_follow(params, payload@, pane@, resume_command),
{
    match payload.text_at("hook_event_name") {
        Some(event) => {
            if !same_text(event, "SessionStart") {
                return None;
            }
        },
        None => return None,
    }
    let session = match payload.text_at("session_id") {
        Some(session) => session,
        None => return None,
    };
    match resume_command(NAME, session) {
        Some(_) => Some(report(pane, session)),
        None => None,
    }
}

/// The report of the session that the payload says has started, for the pane that
/// it starts in.
pub fn hook_params<F: Fn(&str, &str) -> Option<String>>(
    input: &[u8],
    pane: &str,
    resume_command: F,
) -> (params: Option<Json>)
    requires
        forall|agent: &str, id: &str| #[trigger] call_requires(resume_command, (agent, id)),
    ensures
        params_follow_input(params, input@, pane@, resume_command),
{
    if input.len() as u64 > MAX_HOOK_PAYLOAD || pane.is_empty() {
        return None;
    }
    match parse_bytes(input) {
        Some(payload) => payload_params(&payload, pane, resume_command),
        None => None,
    }
}

/// The request that the hook makes, if any: it reports a session that starts in a
/// Luvus pane. There is none without the payload or the pane's name.
pub fn run_hook<F: Fn(&str, &str) -> Option<String>>(
    variables: &Vec<(String, String)>,
    input: Option<Vec<u8>>,
    pane: Option<&str>,
    resume_command: F,
) -> (request: Option<Request>)
    requires
        forall|agent: &str, id: &str| #[trigger] call_requires(resume_command, (agent, id)),
    ensures
        request matches Some(request) ==> request.method@ == "pane.report_session"@,
        match (input, pane) {
            (Some(input), Some(pane)) => if is_devin_pane(variables@) {
                params_follow_input(
                    match request {
                        Some(request) => Some(request.params),
                        None => None,
                    },
                    input@,
                    pane@,
                    resume_command,
                )
            } else {
                request is None
            },
            _ => request is None,
        },
{
    if !environment_matches(variables) {
        return None;
    }
    match (input, pane) {
        (Some(input), Some(pane)) => {
            match hook_params(input.as_slice(), pane, resume_command) {
                Some(params) => Some(Request { method: "pane.report_session", params }),
                None => None,
            }
        },
        _ => None,
    }
}

/// The payload, unless reading it failed or it is longer than a payload may be.
pub open spec fn accepted(input: Option<Vec<u8>>) -> Option<Vec<u8>> {
    match input {
        Some(bytes) => if bytes@.len() <= MAX_HOOK_PAYLOAD {
            Some(bytes)
        } else {
            None
        },
        None => None,
    }
}

/// The payload, unless reading it fails or it is longer than a payload may be.
/// `read` reads everything up to the given number of bytes, or fails; it is asked
/// for one byte beyond the bound, and no more.
pub fn read_hook_input_from<F: FnOnce(u64) -> Option<Vec<u8>>>(read: F) -> (payload: Option<
    Vec<u8>,
>)
    requires
        call_requires(read, ((MAX_HOOK_PAYLOAD + 1) as u64,)),
    ensures
        exists|input: Option<Vec<u8>>| #[trigger]
            call_ensures(read, ((MAX_HOOK_PAYLOAD + 1) as u64,), input) && payload == accepted(
                input,
            ),
{
    let input = read(MAX_HOOK_PAYLOAD + 1);
    match input {
        Some(bytes) => {
            if bytes.len() as u64 <= MAX_HOOK_PAYLOAD {
                Some(bytes)
            } else {
                None
            }
        },
        None => None,
    }
}

} // verus!
