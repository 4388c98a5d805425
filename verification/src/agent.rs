//! What Luvus knows of Devin as an agent.
//!
//! Devin keeps its session history in a private store under its config
//! directory. Luvus does not open it: detection is native, and a session whose
//! exact id is already known resumes with `devin --resume <id>`.
use vstd::prelude::*;

use crate::platform::texts;

verus! {

/// The name that Luvus has for Devin.
pub const NAME: &'static str = "devin";

/// How Devin is recognised among running programs.
#[derive(Debug)]
pub struct IdentityDescriptor {
    /// Names that no other program has.
    pub distinct: Vec<&'static str>,
    /// Names to be trusted only in deliberate command or title evidence.
    pub ambiguous: Vec<&'static str>,
    /// Whether a matcher of its own looks at the program's binary.
    pub binary_matcher: bool,
    /// Packages that run it inside an interpreter.
    pub interpreter_packages: Vec<&'static str>,
    /// Which agent wins where several are recognised.
    pub overlap_priority: u32,
}

/// What Luvus can do with Devin.
#[derive(Debug)]
pub struct AgentDescriptor {
    pub id: &'static str,
    pub aliases: Vec<&'static str>,
    pub launch_command: &'static str,
    /// What stands before a task's prompt on the command line.
    pub task_prompt_args: Vec<&'static str>,
    pub identity: IdentityDescriptor,
    /// Whether Luvus may run it unattended.
    pub automation: bool,
    /// Whether Luvus finds sessions by itself.
    pub discovers_sessions: bool,
    /// Whether a stored session can be forked.
    pub forks_sessions: bool,
    /// Whether the description itself names an integration.
    pub integration: bool,
}

/// What is typed into a terminal to resume a session.
pub open spec fn resume_line(session: Seq<char>) -> Seq<char> {
    "devin --resume "@ + session + "\r"@
}

/// What Luvus can do with Devin.
pub fn descriptor() -> (agent: AgentDescriptor)
    ensures
        agent.id@ == NAME@,
        agent.launch_command@ == "devin"@,
        agent.aliases@.len() == 0,
        texts(agent.task_prompt_args@) == seq!["--"@],
        agent.identity.distinct@.len() == 0,
        texts(agent.identity.ambiguous@) == seq!["devin"@],
        !agent.identity.binary_matcher,
        agent.identity.interpreter_packages@.len() == 0,
        agent.identity.overlap_priority == 0,
        !agent.automation,
        !agent.discovers_sessions,
        !agent.forks_sessions,
        !agent.integration,
{
    // Devin reads every positional argument after `--` as the initial prompt.
    let mut task_prompt_args: Vec<&'static str> = Vec::new();
    task_prompt_args.push("--");
    assert(texts(task_prompt_args@) =~= seq!["--"@]);
    // `devin` is an ordinary given name, so trust it only in deliberate
    // command or title evidence.
    let mut ambiguous: Vec<&'static str> = Vec::new();
    ambiguous.push("devin");
    assert(texts(ambiguous@) =~= seq!["devin"@]);
    AgentDescriptor {
        id: NAME,
        aliases: Vec::new(),
        launch_command: "devin",
        task_prompt_args,
        identity: IdentityDescriptor {
            distinct: Vec::new(),
            ambiguous,
            binary_matcher: false,
            interpreter_packages: Vec::new(),
            overlap_priority: 0,
        },
        // Print mode fails in an untrusted directory, because it cannot show the
        // trust prompt there.
        automation: false,
        discovers_sessions: false,
        // Devin documents no external command that forks a stored session.
        forks_sessions: false,
        integration: false,
    }
}

/// What is typed into a terminal to resume a session.
pub fn resume(session: &str) -> (line: String)
    ensures
        line@ == resume_line(session@),
{
    "devin --resume ".to_owned().concat(session).concat("\r")
}

} // verus!
