//! The hook's place in Devin's configuration: a group among those under
//! `hooks.SessionStart`.
use vstd::prelude::*;

use crate::command::command_mentions_script;
use crate::json::Json;
use crate::json::JsonNumber;
use crate::json::JsonTree;
use crate::platform::Platform;
use crate::text::same_text;

verus! {

/// How long Devin waits for the hook, in seconds. The margin covers a cold
/// PowerShell start on Windows.
pub const HOOK_TIMEOUT_SECS: u64 = 10;

/// The hook that runs `command`.
pub open spec fn managed_hook(command: Seq<char>) -> JsonTree {
    JsonTree::Object(
        map![
            "type"@ => JsonTree::Text("command"@),
            "command"@ => JsonTree::Text(command),
            "timeout"@ => JsonTree::Number(JsonNumber::PosInt(HOOK_TIMEOUT_SECS)),
        ],
    )
}

/// The group that Luvus adds for `command`.
pub open spec fn managed(command: Seq<char>) -> JsonTree {
    JsonTree::Object(map!["hooks"@ => JsonTree::Array(seq![managed_hook(command)])])
}

/// Whether a hook runs the hook script.
pub open spec fn hook_mentions(hook: JsonTree, platform: Platform) -> bool {
    hook.text_at("command"@) matches Some(command) && crate::command::mentions(command, platform)
}

/// Whether a hook of a group runs the hook script.
pub open spec fn group_mentions(group: JsonTree, platform: Platform) -> bool {
    group.array_at("hooks"@) matches Some(hooks) && exists|i: int|
        0 <= i < hooks.len() && hook_mentions(#[trigger] hooks[i], platform)
}

/// Whether a hook runs exactly `command`.
pub open spec fn hook_uses(hook: JsonTree, command: Seq<char>) -> bool {
    hook.text_at("command"@) == Some(command)
}

/// Whether a hook of a group runs exactly `command`.
pub open spec fn group_uses(group: JsonTree, command: Seq<char>) -> bool {
    group.array_at("hooks"@) matches Some(hooks) && exists|i: int|
        0 <= i < hooks.len() && hook_uses(#[trigger] hooks[i], command)
}

/// The group that Luvus adds for `command`.
///
/// Devin's hook parser rejects the whole file for one unknown event, so the group
/// uses only fields that Devin already accepts from other tools.
pub fn managed_group(command: &str) -> (group: Json)
    ensures
        group@ == managed(command@),
{
    let mut hook: Vec<(String, Json)> = Vec::new();
    let kind = ("type".to_owned(), Json::Text("command".to_owned()));
    let runs = ("command".to_owned(), Json::Text(command.to_owned()));
    let timeout = ("timeout".to_owned(), Json::Number(JsonNumber::PosInt(HOOK_TIMEOUT_SECS)));
    proof {
        crate::json::lemma_push_entry(hook@, kind);
        crate::json::lemma_push_entry(hook@.push(kind), runs);
        crate::json::lemma_push_entry(hook@.push(kind).push(runs), timeout);
    }
    hook.push(kind);
    hook.push(runs);
    hook.push(timeout);
    let mut hooks: Vec<Json> = Vec::new();
    hooks.push(Json::Object(hook));
    assert(hooks@[0]@ == managed_hook(command@));
    assert(crate::json::item_trees(hooks@) =~= seq![managed_hook(command@)]);
    let mut group: Vec<(String, Json)> = Vec::new();
    let member = ("hooks".to_owned(), Json::Array(hooks));
    proof {
        crate::json::lemma_push_entry(group@, member);
    }
    group.push(member);
    Json::Object(group)
}

/// Whether a hook runs the hook script.
pub fn hook_mentions_script(hook: &Json, platform: Platform) -> (found: bool)
    ensures
        found == hook_mentions(hook@, platform),
{
    match hook.text_at("command") {
        Some(command) => command_mentions_script(command, platform),
        None => false,
    }
}

/// Whether a hook of a group runs the hook script.
pub fn group_mentions_script(group: &Json, platform: Platform) -> (found: bool)
    ensures
        found == group_mentions(group@, platform),
{
    match group.array_at("hooks") {
        Some(hooks) => {
            let mut i: usize = 0;
            while i < hooks.len()
                invariant
                    i <= hooks@.len(),
                    group@.array_at("hooks"@) == Some(crate::json::item_trees(hooks@)),
                    forall|j: int| 0 <= j < i ==> !hook_mentions(#[trigger] hooks@[j]@, platform),
                decreases hooks@.len() - i,
            {
                if hook_mentions_script(&hooks[i], platform) {
                    let ghost trees = group@.array_at("hooks"@)->0;
                    assert(0 <= i < trees.len() && hook_mentions(trees[i as int], platform));
                    return true;
                }
                i += 1;
            }
            assert forall|j: int| 0 <= j < hooks@.len() implies !hook_mentions(
                #[trigger] crate::json::item_trees(hooks@)[j],
                platform,
            ) by {
                assert(!hook_mentions(hooks@[j]@, platform));
            }
            false
        },
        None => false,
    }
}

/// Whether a hook runs exactly `command`.
pub fn hook_uses_command(hook: &Json, command: &str) -> (used: bool)
    ensures
        used == hook_uses(hook@, command@),
{
    match hook.text_at("command") {
        Some(text) => same_text(text, command),
        None => false,
    }
}

/// Whether a hook of a group runs exactly `command`.
pub fn group_uses_command(group: &Json, command: &str) -> (used: bool)
    ensures
        used == group_uses(group@, command@),
{
    match group.array_at("hooks") {
        Some(hooks) => {
            let mut i: usize = 0;
            while i < hooks.len()
                invariant
                    i <= hooks@.len(),
                    group@.array_at("hooks"@) == Some(crate::json::item_trees(hooks@)),
                    forall|j: int| 0 <= j < i ==> !hook_uses(#[trigger] hooks@[j]@, command@),
                decreases hooks@.len() - i,
            {
                if hook_uses_command(&hooks[i], command) {
                    let ghost trees = group@.array_at("hooks"@)->0;
                    assert(0 <= i < trees.len() && hook_uses(trees[i as int], command@));
                    return true;
                }
                i += 1;
            }
            assert forall|j: int| 0 <= j < hooks@.len() implies !hook_uses(
                #[trigger] crate::json::item_trees(hooks@)[j],
                command@,
            ) by {
                assert(!hook_uses(hooks@[j]@, command@));
            }
            false
        },
        None => false,
    }
}

} // verus!
