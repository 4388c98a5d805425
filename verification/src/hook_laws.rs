//! What holds of every report that the hook makes, and of when it makes none.
use vstd::prelude::*;

use crate::hook::accepted;
use crate::hook::is_devin_pane;
use crate::hook::is_filled;
use crate::hook::params_follow;
use crate::hook::params_follow_input;
use crate::hook::started_session;
use crate::hook::variable_in;
use crate::hook::MAX_HOOK_PAYLOAD;
use crate::json::Json;
use crate::json::JsonTree;

verus! {

/// Whether the variable at a place has this name and value, and none behind it has
/// the name.
pub open spec fn sets(
    variables: Seq<(String, String)>,
    at: int,
    name: Seq<char>,
    value: Seq<char>,
) -> bool {
    &&& 0 <= at < variables.len()
    &&& variables[at].0@ == name
    &&& variables[at].1@ == value
    &&& forall|later: int| at < later < variables.len() ==> (#[trigger] variables[later]).0@ != name
}

/// The value of a variable is that of the last one with its name.
pub proof fn law_last_variable_counts(
    variables: Seq<(String, String)>,
    name: Seq<char>,
    value: Seq<char>,
)
    ensures
        variable_in(variables, name) == Some(value) <==> exists|at: int|
            sets(variables, at, name, value),
    decreases variables.len(),
{
    if variables.len() > 0 {
        let rest = variables.drop_last();
        let last = variables.len() - 1;
        law_last_variable_counts(rest, name, value);
        if variables[last].0@ == name {
            if variables[last].1@ == value {
                assert(sets(variables, last, name, value));
            }
            assert forall|at: int| sets(variables, at, name, value) implies at == last by {
                if at < last {
                    assert(variables[last].0@ != name);
                }
            }
        } else {
            if exists|at: int| sets(rest, at, name, value) {
                let at = choose|at: int| sets(rest, at, name, value);
                assert forall|later: int| at < later < variables.len() implies (
                #[trigger] variables[later]).0@ != name by {
                    if later < last {
                        assert(rest[later].0@ != name);
                    }
                }
                assert(sets(variables, at, name, value));
            }
            if exists|at: int| sets(variables, at, name, value) {
                let at = choose|at: int| sets(variables, at, name, value);
                assert forall|later: int| at < later < rest.len() implies (
                #[trigger] rest[later]).0@ != name by {
                    assert(variables[later].0@ != name);
                }
                assert(sets(rest, at, name, value));
            }
        }
    }
}

/// Whether a variable is set, and to something.
proof fn lemma_filled(variables: Seq<(String, String)>, name: Seq<char>)
    ensures
        is_filled(variables, name) <==> exists|at: int, value: Seq<char>|
            value.len() > 0 && #[trigger] sets(variables, at, name, value),
{
    if is_filled(variables, name) {
        let value = variable_in(variables, name)->0;
        law_last_variable_counts(variables, name, value);
        let at = choose|at: int| sets(variables, at, name, value);
        assert(value.len() > 0 && sets(variables, at, name, value));
    }
    if exists|at: int, value: Seq<char>|
        value.len() > 0 && #[trigger] sets(variables, at, name, value) {
        let (at, value) = choose|at: int, value: Seq<char>|
            value.len() > 0 && #[trigger] sets(variables, at, name, value);
        law_last_variable_counts(variables, name, value);
    }
}

/// The hook goes on exactly where Luvus runs the pane, has a socket, and Devin runs
/// the hook in a project.
pub proof fn law_hook_runs_in_a_devin_pane(variables: Seq<(String, String)>)
    ensures
        is_devin_pane(variables) <==> {
            &&& exists|at: int| sets(variables, at, "LUVUS_ENV"@, "1"@)
            &&& exists|at: int, value: Seq<char>|
                value.len() > 0 && #[trigger] sets(variables, at, "LUVUS_SOCKET_PATH"@, value)
            &&& exists|at: int, value: Seq<char>|
                value.len() > 0 && #[trigger] sets(variables, at, "DEVIN_PROJECT_DIR"@, value)
        },
{
    law_last_variable_counts(variables, "LUVUS_ENV"@, "1"@);
    lemma_filled(variables, "LUVUS_SOCKET_PATH"@);
    lemma_filled(variables, "DEVIN_PROJECT_DIR"@);
}

/// Whether `resume_command` may answer for a session of Devin with a command, or
/// with none.
pub open spec fn may_answer<F: Fn(&str, &str) -> Option<String>>(
    resume_command: F,
    session: Seq<char>,
    with_command: bool,
) -> bool {
    exists|agent: &str, id: &str, answer: Option<String>|
        agent@ == "devin"@ && id@ == session && answer is Some == with_command
            && #[trigger] call_ensures(resume_command, (agent, id), answer)
}

/// A report is made only of a session start, and names the payload's session,
/// whole, the pane, whole, and Devin, and nothing else. The session is one for
/// which there is a command that resumes it.
pub proof fn law_report_names_the_session<F: Fn(&str, &str) -> Option<String>>(
    report: Json,
    payload: JsonTree,
    pane: Seq<char>,
    resume_command: F,
    key: Seq<char>,
)
    requires
        params_follow(Some(report), payload, pane, resume_command),
    ensures
        payload.get("hook_event_name"@) == Some(JsonTree::Text("SessionStart"@)),
        payload.get("session_id"@) is Some,
        payload.get("session_id"@)->0 is Text,
        report@ is Object,
        report@.get("session_id"@) == payload.get("session_id"@),
        report@.text_at("session_id"@) == payload.text_at("session_id"@),
        report@.get("pane"@) == Some(JsonTree::Text(pane)),
        report@.get("agent"@) == Some(JsonTree::Text("devin"@)),
        key != "pane"@ && key != "agent"@ && key != "session_id"@ ==> report@.get(key) is None,
        may_answer(resume_command, payload.text_at("session_id"@)->0, true),
{
    reveal_strlit("pane");
    reveal_strlit("agent");
    reveal_strlit("session_id");
    assert("pane"@.len() == 4 && "agent"@.len() == 5 && "session_id"@.len() == 10);
    let session = started_session(payload)->0;
    let (agent, id, answer) = choose|agent: &str, id: &str, answer: Option<String>|
        agent@ == crate::agent::NAME@ && id@ == session && answer is Some && #[trigger]
            call_ensures(resume_command, (agent, id), answer);
    assert(agent@ == "devin"@ && id@ == session && answer is Some && call_ensures(
        resume_command,
        (agent, id),
        answer,
    ));
}

/// No report is made only where the payload is of no session start, names no
/// session, or there is no command that resumes the session.
pub proof fn law_report_is_made_where_it_can_be<F: Fn(&str, &str) -> Option<String>>(
    payload: JsonTree,
    pane: Seq<char>,
    resume_command: F,
)
    requires
        params_follow(None, payload, pane, resume_command),
        payload.get("hook_event_name"@) == Some(JsonTree::Text("SessionStart"@)),
        payload.get("session_id"@) is Some,
        payload.get("session_id"@)->0 is Text,
    ensures
        may_answer(resume_command, payload.get("session_id"@)->0->Text_0, false),
{
    let session = started_session(payload)->0;
    let (agent, id, answer) = choose|agent: &str, id: &str, answer: Option<String>|
        agent@ == crate::agent::NAME@ && id@ == session && answer is None && #[trigger]
            call_ensures(resume_command, (agent, id), answer);
    assert(agent@ == "devin"@ && id@ == session && answer is None && call_ensures(
        resume_command,
        (agent, id),
        answer,
    ));
}

/// The bytes of a payload are answered as the value that they stand for; where
/// they are more than sixty-four kibibytes or no JSON, or the pane has no name,
/// there is no report.
pub proof fn law_payload_is_answered_as_its_value<F: Fn(&str, &str) -> Option<String>>(
    params: Option<Json>,
    input: Seq<u8>,
    pane: Seq<char>,
    resume_command: F,
)
    requires
        params_follow_input(params, input, pane, resume_command),
    ensures
        input.len() > 65536 ==> params is None,
        pane.len() == 0 ==> params is None,
        crate::parse::parsed_bytes(input) is None ==> params is None,
        input.len() <= 65536 && pane.len() > 0 && crate::parse::parsed_bytes(input) is Some
            ==> params_follow(
            params,
            crate::parse::parsed_bytes(input)->0,
            pane,
            resume_command,
        ),
{
}

/// What was read is the payload, unchanged, where it is no more than sixty-four
/// kibibytes; anything longer is none, and so is what could not be read.
pub proof fn law_input_is_taken_up_to_the_bound(input: Option<Vec<u8>>)
    ensures
        MAX_HOOK_PAYLOAD == 65536,
        input is None ==> accepted(input) is None,
        input matches Some(bytes) ==> {
            &&& bytes@.len() <= 65536 ==> accepted(input) == input
            &&& bytes@.len() > 65536 ==> accepted(input) is None
        },
{
}

} // verus!
