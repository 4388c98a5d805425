//! Adding the hook to Devin's configuration, looking it up and taking it out.
use vstd::prelude::*;

use crate::error::ErrorView;
use crate::error::IntegrationError;
use crate::groups::group_mentions_script;
use crate::groups::group_uses_command;
use crate::groups::hook_mentions_script;
use crate::groups::hook_uses_command;
use crate::groups::managed_group;
use crate::json::Json;
use crate::json::JsonTree;
use crate::platform::Platform;

verus! {

/// The configuration's `hooks`; an empty object where it has none.
pub open spec fn hooks_of(config: JsonTree) -> JsonTree {
    match config.get("hooks"@) {
        Some(hooks) => hooks,
        None => JsonTree::Object(Map::empty()),
    }
}

/// The groups on session start; an empty array where there are none.
pub open spec fn session_start_of(hooks: JsonTree) -> JsonTree {
    match hooks.get("SessionStart"@) {
        Some(groups) => groups,
        None => JsonTree::Array(seq![]),
    }
}

/// The groups on session start, if the configuration has a list of them.
pub open spec fn groups_in(config: JsonTree) -> Option<Seq<JsonTree>> {
    match config.get("hooks"@) {
        Some(hooks) => hooks.array_at("SessionStart"@),
        None => None,
    }
}

/// The configuration with these groups on session start, and all else as it is.
pub open spec fn with_groups(config: JsonTree, groups: Seq<JsonTree>) -> JsonTree {
    config.with("hooks"@, hooks_of(config).with("SessionStart"@, JsonTree::Array(groups)))
}

/// Whether a group runs the hook script and is not the group that Luvus adds.
pub open spec fn is_unmanaged(group: JsonTree, command: Seq<char>, platform: Platform) -> bool {
    crate::groups::group_mentions(group, platform) && group != crate::groups::managed(command)
}

/// The groups that are not the group that Luvus adds.
pub open spec fn other_groups(groups: Seq<JsonTree>, command: Seq<char>) -> Seq<JsonTree> {
    groups.filter(|group: JsonTree| group != crate::groups::managed(command))
}

/// The configuration with the group that Luvus adds for `command`, once and
/// behind all others; or why it is refused.
pub open spec fn registered(config: JsonTree, command: Seq<char>, platform: Platform) -> Result<
    JsonTree,
    ErrorView,
> {
    if !(config is Object) {
        Err(ErrorView::RootNotObject)
    } else if !(hooks_of(config) is Object) {
        Err(ErrorView::HooksNotObject)
    } else {
        match session_start_of(hooks_of(config)).as_array() {
            None => Err(ErrorView::SessionStartNotArray),
            Some(groups) => if exists|i: int|
                0 <= i < groups.len() && is_unmanaged(#[trigger] groups[i], command, platform) {
                Err(ErrorView::UnmanagedHook(platform))
            } else {
                Ok(
                    with_groups(
                        config,
                        other_groups(groups, command).push(crate::groups::managed(command)),
                    ),
                )
            },
        }
    }
}

/// Whether some hook on session start runs exactly `command`.
pub open spec fn is_present(config: JsonTree, command: Seq<char>) -> bool {
    groups_in(config) matches Some(groups) && exists|i: int|
        0 <= i < groups.len() && crate::groups::group_uses(#[trigger] groups[i], command)
}

/// Whether a hook runs the hook script by another command than `command`.
pub open spec fn is_edited(hook: JsonTree, command: Seq<char>, platform: Platform) -> bool {
    crate::groups::hook_mentions(hook, platform) && !crate::groups::hook_uses(hook, command)
}

/// Whether a hook of a group runs the hook script by another command than
/// `command`.
pub open spec fn has_edited(group: JsonTree, command: Seq<char>, platform: Platform) -> bool {
    group.array_at("hooks"@) matches Some(hooks) && exists|i: int|
        0 <= i < hooks.len() && is_edited(#[trigger] hooks[i], command, platform)
}

/// The hooks that do not run `command`.
pub open spec fn other_hooks(hooks: Seq<JsonTree>, command: Seq<char>) -> Seq<JsonTree> {
    hooks.filter(|hook: JsonTree| !crate::groups::hook_uses(hook, command))
}

/// A group without the hooks that run `command`; `None` where it had only such
/// hooks.
pub open spec fn pruned(group: JsonTree, command: Seq<char>) -> Option<JsonTree> {
    if !crate::groups::group_uses(group, command) {
        Some(group)
    } else {
        let hooks = other_hooks(group.array_at("hooks"@)->0, command);
        if hooks.len() == 0 {
            None
        } else {
            Some(group.with("hooks"@, JsonTree::Array(hooks)))
        }
    }
}

/// The groups without the hooks that run `command`.
pub open spec fn pruned_groups(groups: Seq<JsonTree>, command: Seq<char>) -> Seq<JsonTree> {
    groups.filter_map(|group: JsonTree| pruned(group, command))
}

/// The configuration without the hooks that run `command`; `None` where there is
/// none to take out; or why it is refused.
pub open spec fn unregistered(config: JsonTree, command: Seq<char>, platform: Platform) -> Result<
    Option<JsonTree>,
    ErrorView,
> {
    match groups_in(config) {
        None => Ok(None),
        Some(groups) => if exists|i: int|
            0 <= i < groups.len() && has_edited(#[trigger] groups[i], command, platform) {
            Err(ErrorView::EditedHook(platform))
        } else if is_present(config, command) {
            Ok(Some(with_groups(config, pruned_groups(groups, command))))
        } else {
            Ok(None)
        },
    }
}

/// Filtering one item more.
proof fn lemma_filter_step(items: Seq<JsonTree>, i: int, keep: spec_fn(JsonTree) -> bool)
    requires
        0 <= i < items.len(),
    ensures
        items.take(i + 1).filter(keep) == (if keep(items[i]) {
            items.take(i).filter(keep).push(items[i])
        } else {
            items.take(i).filter(keep)
        }),
{
    reveal(Seq::filter);
    assert(items.take(i + 1).drop_last() =~= items.take(i));
}

/// What a list says with one value more.
proof fn lemma_push_item(items: Seq<Json>, item: Json)
    ensures
        crate::json::item_trees(items.push(item)) == crate::json::item_trees(items).push(item@),
{
    assert(crate::json::item_trees(items.push(item)) =~= crate::json::item_trees(items).push(item@));
}

/// Sets the groups on session start.
fn set_groups(config: &mut Json, groups: Vec<Json>)
    ensures
        final(config)@ == with_groups(old(config)@, crate::json::item_trees(groups@)),
{
    let mut hooks: Json = match config.get("hooks") {
        Some(hooks) => hooks.clone(),
        None => {
            let empty: Vec<(String, Json)> = Vec::new();
            assert(crate::json::entry_trees(empty@) == Map::<Seq<char>, JsonTree>::empty());
            Json::Object(empty)
        },
    };
    hooks.set("SessionStart", Json::Array(groups));
    config.set("hooks", hooks);
}

/// Whether some group runs the hook script and is not the group that Luvus adds.
fn has_unmanaged(groups: &Vec<Json>, command: &str, platform: Platform) -> (found: bool)
    ensures
        found == exists|i: int|
            0 <= i < groups@.len() && is_unmanaged(
                #[trigger] crate::json::item_trees(groups@)[i],
                command@,
                platform,
            ),
{
    let expected = managed_group(command);
    let ghost trees = crate::json::item_trees(groups@);
    let mut i: usize = 0;
    while i < groups.len()
        invariant
            i <= groups@.len(),
            trees == crate::json::item_trees(groups@),
            expected@ == crate::groups::managed(command@),
            forall|j: int| 0 <= j < i ==> !is_unmanaged(#[trigger] trees[j], command@, platform),
        decreases groups@.len() - i,
    {
        assert(trees[i as int] == groups@[i as int]@);
        if group_mentions_script(&groups[i], platform) && !groups[i].same_as(&expected) {
            assert(is_unmanaged(trees[i as int], command@, platform));
            return true;
        }
        i += 1;
    }
    false
}

/// The groups that are not the group that Luvus adds.
fn keep_other_groups(groups: &Vec<Json>, command: &str) -> (kept: Vec<Json>)
    ensures
        crate::json::item_trees(kept@) == other_groups(
            crate::json::item_trees(groups@),
            command@,
        ),
{
    let expected = managed_group(command);
    let ghost trees = crate::json::item_trees(groups@);
    let ghost keep = |group: JsonTree| group != crate::groups::managed(command@);
    let mut kept: Vec<Json> = Vec::new();
    let mut i: usize = 0;
    proof {
        reveal(Seq::filter);
        assert(crate::json::item_trees(kept@) =~= trees.take(0).filter(keep));
    }
    while i < groups.len()
        invariant
            i <= groups@.len(),
            trees == crate::json::item_trees(groups@),
            expected@ == crate::groups::managed(command@),
            keep == (|group: JsonTree| group != crate::groups::managed(command@)),
            crate::json::item_trees(kept@) == trees.take(i as int).filter(keep),
        decreases groups@.len() - i,
    {
        proof {
            assert(trees[i as int] == groups@[i as int]@);
            lemma_filter_step(trees, i as int, keep);
        }
        if !groups[i].same_as(&expected) {
            let copy = groups[i].clone();
            proof {
                lemma_push_item(kept@, copy);
            }
            kept.push(copy);
        }
        i += 1;
    }
    assert(trees.take(i as int) =~= trees);
    kept
}

/// Adds the group that Luvus manages for `command` to the configuration. Refused,
/// it leaves the configuration as it is.
pub fn register_managed_group(value: &mut Json, command: &str, platform: Platform) -> (result: Result<
    (),
    IntegrationError,
>)
    ensures
        match (registered(old(value)@, command@, platform), result) {
            (Ok(config), Ok(())) => final(value)@ == config,
            (Err(refusal), Err(error)) => error@ == refusal && *final(value) == *old(value),
            _ => false,
        },
{
    match value {
        Json::Object(_) => {},
        _ => return Err(IntegrationError::RootNotObject),
    }
    let mut groups: Vec<Json> = Vec::new();
    assert(crate::json::item_trees(groups@) =~= seq![]);
    match value.get("hooks") {
        Some(hooks) => {
            match hooks {
                Json::Object(_) => {},
                _ => return Err(IntegrationError::HooksNotObject),
            }
            match hooks.get("SessionStart") {
                Some(session_start) => match session_start.as_array() {
                    Some(present) => {
                        if has_unmanaged(present, command, platform) {
                            return Err(IntegrationError::UnmanagedHook(platform));
                        }
                        groups = keep_other_groups(present, command);
                    },
                    None => return Err(IntegrationError::SessionStartNotArray),
                },
                None => {
                    reveal(Seq::filter);
                },
            }
        },
        None => {
            reveal(Seq::filter);
        },
    }
    let expected = managed_group(command);
    proof {
        lemma_push_item(groups@, expected);
    }
    groups.push(expected);
    set_groups(value, groups);
    Ok(())
}

/// Whether some hook on session start runs exactly `command`.
pub fn managed_group_present(value: &Json, command: &str) -> (present: bool)
    ensures
        present == is_present(value@, command@),
{
    let groups = match value.get("hooks") {
        Some(hooks) => match hooks.array_at("SessionStart") {
            Some(groups) => groups,
            None => return false,
        },
        None => return false,
    };
    let ghost trees = groups_in(value@)->0;
    let mut i: usize = 0;
    while i < groups.len()
        invariant
            i <= groups@.len(),
            groups_in(value@) == Some(trees),
            trees == crate::json::item_trees(groups@),
            forall|j: int|
                0 <= j < i ==> !crate::groups::group_uses(#[trigger] trees[j], command@),
        decreases groups@.len() - i,
    {
        assert(trees[i as int] == groups@[i as int]@);
        if group_uses_command(&groups[i], command) {
            assert(crate::groups::group_uses(groups_in(value@)->0[i as int], command@));
            return true;
        }
        i += 1;
    }
    false
}

/// Whether a hook of a group runs the hook script by another command than
/// `command`.
fn group_has_edited(group: &Json, command: &str, platform: Platform) -> (found: bool)
    ensures
        found == has_edited(group@, command@, platform),
{
    let hooks = match group.array_at("hooks") {
        Some(hooks) => hooks,
        None => return false,
    };
    let ghost trees = group@.array_at("hooks"@)->0;
    let mut i: usize = 0;
    while i < hooks.len()
        invariant
            i <= hooks@.len(),
            group@.array_at("hooks"@) == Some(trees),
            trees == crate::json::item_trees(hooks@),
            forall|j: int| 0 <= j < i ==> !is_edited(#[trigger] trees[j], command@, platform),
        decreases hooks@.len() - i,
    {
        assert(trees[i as int] == hooks@[i as int]@);
        if hook_mentions_script(&hooks[i], platform) && !hook_uses_command(&hooks[i], command) {
            assert(is_edited(group@.array_at("hooks"@)->0[i as int], command@, platform));
            return true;
        }
        i += 1;
    }
    false
}

/// Whether a hook of some group runs the hook script by another command than
/// `command`.
fn any_edited(groups: &Vec<Json>, command: &str, platform: Platform) -> (found: bool)
    ensures
        found == exists|i: int|
            0 <= i < groups@.len() && has_edited(
                #[trigger] crate::json::item_trees(groups@)[i],
                command@,
                platform,
            ),
{
    let ghost trees = crate::json::item_trees(groups@);
    let mut i: usize = 0;
    while i < groups.len()
        invariant
            i <= groups@.len(),
            trees == crate::json::item_trees(groups@),
            forall|j: int| 0 <= j < i ==> !has_edited(#[trigger] trees[j], command@, platform),
        decreases groups@.len() - i,
    {
        assert(trees[i as int] == groups@[i as int]@);
        if group_has_edited(&groups[i], command, platform) {
            assert(0 <= i < trees.len() && has_edited(trees[i as int], command@, platform));
            return true;
        }
        i += 1;
    }
    false
}

/// The hooks that do not run `command`.
fn keep_other_hooks(hooks: &Vec<Json>, command: &str) -> (kept: Vec<Json>)
    ensures
        crate::json::item_trees(kept@) == other_hooks(crate::json::item_trees(hooks@), command@),
{
    let ghost trees = crate::json::item_trees(hooks@);
    let ghost keep = |hook: JsonTree| !crate::groups::hook_uses(hook, command@);
    let mut kept: Vec<Json> = Vec::new();
    let mut i: usize = 0;
    proof {
        reveal(Seq::filter);
        assert(crate::json::item_trees(kept@) =~= trees.take(0).filter(keep));
    }
    while i < hooks.len()
        invariant
            i <= hooks@.len(),
            trees == crate::json::item_trees(hooks@),
            keep == (|hook: JsonTree| !crate::groups::hook_uses(hook, command@)),
            crate::json::item_trees(kept@) == trees.take(i as int).filter(keep),
        decreases hooks@.len() - i,
    {
        proof {
            assert(trees[i as int] == hooks@[i as int]@);
            lemma_filter_step(trees, i as int, keep);
        }
        if !hook_uses_command(&hooks[i], command) {
            let copy = hooks[i].clone();
            proof {
                lemma_push_item(kept@, copy);
            }
            kept.push(copy);
        }
        i += 1;
    }
    assert(trees.take(i as int) =~= trees);
    kept
}

/// A group without the hooks that run `command`, unless it had only such hooks.
fn prune_group(group: &Json, command: &str) -> (rest: Option<Json>)
    ensures
        match rest {
            Some(rest) => pruned(group@, command@) == Some(rest@),
            None => pruned(group@, command@) is None,
        },
{
    if !group_uses_command(group, command) {
        return Some(group.clone());
    }
    match group.array_at("hooks") {
        Some(hooks) => {
            let kept = keep_other_hooks(hooks, command);
            assert(crate::json::item_trees(kept@).len() == kept@.len());
            if kept.len() == 0 {
                None
            } else {
                let mut rest = group.clone();
                rest.set("hooks", Json::Array(kept));
                Some(rest)
            }
        },
        None => Some(group.clone()),
    }
}

/// The groups without the hooks that run `command`.
fn prune_groups(groups: &Vec<Json>, command: &str) -> (kept: Vec<Json>)
    ensures
        crate::json::item_trees(kept@) == pruned_groups(crate::json::item_trees(groups@), command@),
{
    let ghost trees = crate::json::item_trees(groups@);
    let ghost prune = |group: JsonTree| pruned(group, command@);
    let mut kept: Vec<Json> = Vec::new();
    let mut i: usize = 0;
    assert(crate::json::item_trees(kept@) =~= trees.take(0).filter_map(prune));
    while i < groups.len()
        invariant
            i <= groups@.len(),
            trees == crate::json::item_trees(groups@),
            prune == (|group: JsonTree| pruned(group, command@)),
            crate::json::item_trees(kept@) == trees.take(i as int).filter_map(prune),
        decreases groups@.len() - i,
    {
        assert(trees[i as int] == groups@[i as int]@);
        assert(trees.take(i + 1).drop_last() =~= trees.take(i as int));
        match prune_group(&groups[i], command) {
            Some(rest) => {
                proof {
                    lemma_push_item(kept@, rest);
                    assert(trees.take(i as int).filter_map(prune) + seq![rest@] =~= trees.take(
                        i as int,
                    ).filter_map(prune).push(rest@));
                }
                kept.push(rest);
            },
            None => {},
        }
        i += 1;
    }
    assert(trees.take(i as int) =~= trees);
    kept
}

/// Takes the hooks that run `command` out of the configuration, and says whether
/// there were any. Where there are none, or it is refused, it leaves the
/// configuration as it is.
///
/// Removing the script while another hook still runs it would leave that hook
/// pointing at a missing file, so an edited or foreign reference to the script
/// blocks this before anything changes.
pub fn unregister_managed_group(value: &mut Json, command: &str, platform: Platform) -> (result:
    Result<bool, IntegrationError>)
    ensures
        match (unregistered(old(value)@, command@, platform), result) {
            (Ok(Some(config)), Ok(removed)) => removed && final(value)@ == config,
            (Ok(None), Ok(removed)) => !removed && *final(value) == *old(value),
            (Err(refusal), Err(error)) => error@ == refusal && *final(value) == *old(value),
            _ => false,
        },
{
    let groups = match value.get("hooks") {
        Some(hooks) => match hooks.array_at("SessionStart") {
            Some(groups) => groups,
            None => return Ok(false),
        },
        None => return Ok(false),
    };
    if any_edited(groups, command, platform) {
        return Err(IntegrationError::EditedHook(platform));
    }
    if !managed_group_present(value, command) {
        return Ok(false);
    }
    let kept = prune_groups(groups, command);
    set_groups(value, kept);
    Ok(true)
}

} // verus!
