//! What adding the hook to Devin's configuration and taking it out do to each
//! setting, event, group and hook, one by one.
use vstd::prelude::*;

use crate::command::mentions;
use crate::config::groups_in;
use crate::config::has_edited;
use crate::config::hooks_of;
use crate::config::is_edited;
use crate::config::is_present;
use crate::config::is_unmanaged;
use crate::config::other_groups;
use crate::config::other_hooks;
use crate::config::pruned;
use crate::config::pruned_groups;
use crate::config::registered;
use crate::config::session_start_of;
use crate::config::unregistered;
use crate::config::with_groups;
use crate::error::ErrorView;
use crate::groups::group_mentions;
use crate::groups::group_uses;
use crate::groups::hook_mentions;
use crate::groups::hook_uses;
use crate::groups::managed;
use crate::json::JsonNumber;
use crate::json::JsonTree;
use crate::lists::are_places;
use crate::lists::keeps_exactly;
use crate::platform::Platform;

verus! {

/// What a configuration has on an event.
pub open spec fn event_in(config: JsonTree, event: Seq<char>) -> Option<JsonTree> {
    match config.get("hooks"@) {
        Some(events) => events.get(event),
        None => None,
    }
}

/// The list on session start; an empty one where there is none.
pub open spec fn start_list(config: JsonTree) -> Seq<JsonTree> {
    match event_in(config, "SessionStart"@) {
        Some(JsonTree::Array(groups)) => groups,
        _ => seq![],
    }
}

/// The hooks of a group; none where it has no list of them.
pub open spec fn hooks_of_group(group: JsonTree) -> Seq<JsonTree> {
    match group.get("hooks"@) {
        Some(JsonTree::Array(hooks)) => hooks,
        _ => seq![],
    }
}

/// The command of the hook at position `i` of the group at position `at`.
pub open spec fn command_at(groups: Seq<JsonTree>, at: int, i: int) -> Option<Seq<char>> {
    if 0 <= at < groups.len() && 0 <= i < hooks_of_group(groups[at]).len() {
        match hooks_of_group(groups[at])[i].get("command"@) {
            Some(JsonTree::Text(command)) => Some(command),
            _ => None,
        }
    } else {
        None
    }
}

/// Whether a hook has exactly this command.
pub open spec fn has_command(hook: JsonTree, command: Seq<char>) -> bool {
    hook.get("command"@) == Some(JsonTree::Text(command))
}

/// Whether two configurations are alike outside the groups on session start: in
/// every other setting, and on every other event.
pub open spec fn alike_elsewhere(before: JsonTree, after: JsonTree) -> bool {
    &&& after is Object
    &&& forall|key: Seq<char>| key != "hooks"@ ==> #[trigger] after.get(key) == before.get(key)
    &&& after.get("hooks"@) matches Some(events) && events is Object
    &&& forall|event: Seq<char>|
        event != "SessionStart"@ ==> #[trigger] event_in(after, event) == event_in(before, event)
}

/// Whether a group has hooks, all of which have this command.
pub open spec fn has_only(group: JsonTree, command: Seq<char>) -> bool {
    let hooks = hooks_of_group(group);
    hooks.len() > 0 && forall|i: int|
        0 <= i < hooks.len() ==> has_command(#[trigger] hooks[i], command)
}

/// Whether `rest` is what stays of a group when its hooks with this command go:
/// the group itself where it has no such hook; otherwise its other hooks in their
/// order, and everything else that the group has.
pub open spec fn stays_of(group: JsonTree, rest: JsonTree, command: Seq<char>) -> bool {
    let hooks = hooks_of_group(group);
    if forall|i: int| 0 <= i < hooks.len() ==> !has_command(#[trigger] hooks[i], command) {
        rest == group
    } else {
        &&& rest is Object
        &&& forall|key: Seq<char>| key != "hooks"@ ==> #[trigger] rest.get(key) == group.get(key)
        &&& rest.get("hooks"@) is Some && rest.get("hooks"@)->0 is Array
        &&& hooks_of_group(rest).len() > 0
        &&& exists|places: Seq<int>|
            #![trigger are_places(hooks, places)]
            keeps_exactly(
                hooks,
                hooks_of_group(rest),
                places,
                |hook: JsonTree| !has_command(hook, command),
            )
    }
}

/// Whether `after` has what stays of the groups of `before` at `places`, in their
/// order, and all other groups had only hooks with this command.
pub open spec fn stays_of_all(
    before: Seq<JsonTree>,
    after: Seq<JsonTree>,
    places: Seq<int>,
    command: Seq<char>,
) -> bool {
    &&& are_places(before, places)
    &&& after.len() == places.len()
    &&& forall|j: int|
        0 <= j < after.len() ==> stays_of(before[places[j]], #[trigger] after[j], command)
    &&& forall|k: int|
        0 <= k < before.len() ==> (places.contains(k) <==> !has_only(#[trigger] before[k], command))
}

/// The managed group has nothing but one hook, and that hook nothing but its kind,
/// the command, and ten seconds.
pub proof fn law_managed_group_has_one_hook(command: Seq<char>, key: Seq<char>)
    ensures
        managed(command) is Object,
        key != "hooks"@ ==> managed(command).get(key) is None,
        managed(command).get("hooks"@) is Some,
        managed(command).get("hooks"@)->0 is Array,
        hooks_of_group(managed(command)).len() == 1,
        ({
            let hook = hooks_of_group(managed(command))[0];
            &&& hook is Object
            &&& hook.get("type"@) == Some(JsonTree::Text("command"@))
            &&& hook.get("command"@) == Some(JsonTree::Text(command))
            &&& hook.get("timeout"@) == Some(JsonTree::Number(JsonNumber::PosInt(10)))
            &&& key != "type"@ && key != "command"@ && key != "timeout"@ ==> hook.get(key) is None
        }),
{
    reveal_strlit("type");
    reveal_strlit("command");
    reveal_strlit("timeout");
    assert("type"@.len() == 4 && "command"@.len() == 7 && "timeout"@.len() == 7);
    assert("timeout"@[0] == 't' && "command"@[0] == 'c');
}

/// Whether a hook of a group runs the script, by its position.
proof fn lemma_group_mentions(groups: Seq<JsonTree>, at: int, platform: Platform)
    requires
        0 <= at < groups.len(),
    ensures
        group_mentions(groups[at], platform) <==> exists|i: int|
            command_is_script(#[trigger] command_at(groups, at, i), platform),
{
    let group = groups[at];
    if group_mentions(group, platform) {
        let hooks = group.array_at("hooks"@)->0;
        let i = choose|i: int| 0 <= i < hooks.len() && hook_mentions(#[trigger] hooks[i], platform);
        assert(hooks_of_group(group) == hooks);
        assert(command_is_script(command_at(groups, at, i), platform));
    }
    if exists|i: int| command_is_script(#[trigger] command_at(groups, at, i), platform) {
        let i = choose|i: int| command_is_script(#[trigger] command_at(groups, at, i), platform);
        assert(hook_mentions(group.array_at("hooks"@)->0[i], platform));
    }
}

/// Whether there is a command, and it runs the script.
pub open spec fn command_is_script(command: Option<Seq<char>>, platform: Platform) -> bool {
    command matches Some(command) && mentions(command, platform)
}

/// Whether the hook at a place runs the script in a group that is not the managed
/// one.
pub open spec fn unmanaged_at(
    groups: Seq<JsonTree>,
    at: int,
    i: int,
    command: Seq<char>,
    platform: Platform,
) -> bool {
    &&& command_is_script(command_at(groups, at, i), platform)
    &&& groups[at] != managed(command)
}

/// Whether the hook at a place runs the script by another command.
pub open spec fn edited_at(
    groups: Seq<JsonTree>,
    at: int,
    i: int,
    command: Seq<char>,
    platform: Platform,
) -> bool {
    &&& command_is_script(command_at(groups, at, i), platform)
    &&& command_at(groups, at, i) != Some(command)
}

/// Adding the hook is refused exactly where the configuration is no object, its
/// `hooks` is there and no object, their `SessionStart` is there and no list, or a
/// hook of any group but the managed one runs the script.
pub proof fn law_registering_is_refused(
    config: JsonTree,
    command: Seq<char>,
    platform: Platform,
)
    ensures
        ({
            let events = config.get("hooks"@);
            let start = event_in(config, "SessionStart"@);
            let unmanaged = exists|at: int, i: int|
                unmanaged_at(start_list(config), at, i, command, platform);
            match registered(config, command, platform) {
                Err(ErrorView::RootNotObject) => !(config is Object),
                Err(ErrorView::HooksNotObject) => events is Some && !(events->0 is Object),
                Err(ErrorView::SessionStartNotArray) => start is Some && !(start->0 is Array),
                Err(ErrorView::UnmanagedHook(named)) => named == platform && unmanaged,
                Err(_) => false,
                Ok(_) => {
                    &&& config is Object
                    &&& events is Some ==> events->0 is Object
                    &&& start is Some ==> start->0 is Array
                    &&& !unmanaged
                },
            }
        }),
{
    let groups = start_list(config);
    if exists|at: int, i: int| unmanaged_at(groups, at, i, command, platform) {
        let (at, i) = choose|at: int, i: int| unmanaged_at(groups, at, i, command, platform);
        lemma_group_mentions(groups, at, platform);
        assert(is_unmanaged(groups[at], command, platform));
    }
    if exists|at: int|
        0 <= at < groups.len() && is_unmanaged(#[trigger] groups[at], command, platform) {
        let at = choose|at: int|
            0 <= at < groups.len() && is_unmanaged(#[trigger] groups[at], command, platform);
        lemma_group_mentions(groups, at, platform);
        let i = choose|i: int| command_is_script(#[trigger] command_at(groups, at, i), platform);
        assert(unmanaged_at(groups, at, i, command, platform));
    }
}

/// A hook has a command, or runs the script, by its text at `command`; a group by
/// any of its hooks, at whatever place.
pub proof fn law_group_is_recognised_by_any_hook(
    group: JsonTree,
    command: Seq<char>,
    platform: Platform,
)
    ensures
        hook_uses(group, command) <==> group.get("command"@) == Some(JsonTree::Text(command)),
        hook_mentions(group, platform) <==> exists|text: Seq<char>|
            group.get("command"@) == Some(JsonTree::Text(text)) && #[trigger] mentions(
                text,
                platform,
            ),
        group_uses(group, command) <==> exists|i: int| #[trigger]
            command_at(seq![group], 0, i) == Some(command),
        group_mentions(group, platform) <==> exists|i: int|
            command_is_script(#[trigger] command_at(seq![group], 0, i), platform),
{
    let groups = seq![group];
    assert(groups[0] == group);
    lemma_group_uses(groups, 0, command);
    lemma_group_mentions(groups, 0, platform);
    if hook_mentions(group, platform) {
        assert(mentions(group.text_at("command"@)->0, platform));
    }
}

/// Where the hook is added, the list on session start has every group that it had
/// before, at whatever place, and that is not the managed one, as often and in the
/// same order; behind them the managed group, once; and nothing else. Every other
/// setting and every other event is as before.
pub proof fn law_registering_keeps_every_other_group(
    config: JsonTree,
    command: Seq<char>,
    platform: Platform,
)
    requires
        registered(config, command, platform) is Ok,
    ensures
        ({
            let after = registered(config, command, platform)->Ok_0;
            let now = start_list(after);
            &&& alike_elsewhere(config, after)
            &&& now.len() > 0
            &&& now.last() == managed(command)
            &&& exists|places: Seq<int>|
                #![trigger are_places(start_list(config), places)]
                keeps_exactly(
                    start_list(config),
                    now.drop_last(),
                    places,
                    |group: JsonTree| group != managed(command),
                )
        }),
{
    let before = start_list(config);
    let after = registered(config, command, platform)->Ok_0;
    let keep = |group: JsonTree| group != managed(command);
    let others = other_groups(before, command);
    assert(before == session_start_of(hooks_of(config))->Array_0);
    assert(after == with_groups(config, others.push(managed(command))));
    assert(start_list(after) == others.push(managed(command)));
    assert(start_list(after).drop_last() =~= others);
    let places = crate::lists::lemma_filter_keeps_exactly(before, keep);
    assert(keeps_exactly(before, others, places, keep));
    assert forall|event: Seq<char>| event != "SessionStart"@ implies #[trigger] event_in(
        after,
        event,
    ) == event_in(config, event) by {
        assert(after.get("hooks"@)->0 == hooks_of(config).with(
            "SessionStart"@,
            JsonTree::Array(others.push(managed(command))),
        ));
    }
}

/// A hook with this command in a group, by its position.
proof fn lemma_group_uses(groups: Seq<JsonTree>, at: int, command: Seq<char>)
    requires
        0 <= at < groups.len(),
    ensures
        group_uses(groups[at], command) <==> exists|i: int| #[trigger]
            command_at(groups, at, i) == Some(command),
        group_uses(groups[at], command) <==> exists|i: int|
            0 <= i < hooks_of_group(groups[at]).len() && has_command(
                #[trigger] hooks_of_group(groups[at])[i],
                command,
            ),
{
    let group = groups[at];
    if group_uses(group, command) {
        let hooks = group.array_at("hooks"@)->0;
        let i = choose|i: int| 0 <= i < hooks.len() && hook_uses(#[trigger] hooks[i], command);
        assert(hooks_of_group(group) == hooks);
        assert(has_command(hooks_of_group(group)[i], command));
        assert(command_at(groups, at, i) == Some(command));
    }
    if exists|i: int| #[trigger] command_at(groups, at, i) == Some(command) {
        let i = choose|i: int| #[trigger] command_at(groups, at, i) == Some(command);
        assert(hook_uses(group.array_at("hooks"@)->0[i], command));
    }
    if exists|i: int|
        0 <= i < hooks_of_group(group).len() && has_command(
            #[trigger] hooks_of_group(group)[i],
            command,
        ) {
        let i = choose|i: int|
            0 <= i < hooks_of_group(group).len() && has_command(
                #[trigger] hooks_of_group(group)[i],
                command,
            );
        assert(hook_uses(group.array_at("hooks"@)->0[i], command));
    }
}

/// The hook is found exactly where a hook of any group on session start has its
/// command.
pub proof fn law_presence_is_a_hook_with_the_command(config: JsonTree, command: Seq<char>)
    ensures
        is_present(config, command) <==> exists|at: int, i: int| #[trigger]
            command_at(start_list(config), at, i) == Some(command),
{
    let groups = start_list(config);
    if is_present(config, command) {
        let list = groups_in(config)->0;
        assert(list == groups);
        let at = choose|at: int| 0 <= at < list.len() && group_uses(#[trigger] list[at], command);
        lemma_group_uses(groups, at, command);
        let i = choose|i: int| #[trigger] command_at(groups, at, i) == Some(command);
        assert(command_at(groups, at, i) == Some(command));
    }
    if exists|at: int, i: int| #[trigger] command_at(groups, at, i) == Some(command) {
        let (at, i) = choose|at: int, i: int| #[trigger]
            command_at(groups, at, i) == Some(command);
        assert(groups_in(config) == Some(groups));
        lemma_group_uses(groups, at, command);
        assert(group_uses(groups_in(config)->0[at], command));
    }
}

/// Taking the hook out is refused exactly where a hook of any group on session
/// start runs the script by another command; otherwise something is taken out
/// exactly where a hook of any group has the command.
pub proof fn law_unregistering_is_refused(
    config: JsonTree,
    command: Seq<char>,
    platform: Platform,
)
    ensures
        ({
            let groups = start_list(config);
            let edited = exists|at: int, i: int| edited_at(groups, at, i, command, platform);
            let ours = exists|at: int, i: int| #[trigger]
                command_at(groups, at, i) == Some(command);
            match unregistered(config, command, platform) {
                Err(ErrorView::EditedHook(named)) => named == platform && edited,
                Err(_) => false,
                Ok(Some(_)) => !edited && ours,
                Ok(None) => !edited && !ours,
            }
        }),
{
    let groups = start_list(config);
    law_presence_is_a_hook_with_the_command(config, command);
    if exists|at: int, i: int| edited_at(groups, at, i, command, platform) {
        let (at, i) = choose|at: int, i: int| edited_at(groups, at, i, command, platform);
        assert(groups_in(config) == Some(groups));
        assert(is_edited(groups[at].array_at("hooks"@)->0[i], command, platform));
        assert(has_edited(groups[at], command, platform));
    }
    if exists|at: int|
        0 <= at < groups.len() && has_edited(#[trigger] groups[at], command, platform) {
        let at = choose|at: int|
            0 <= at < groups.len() && has_edited(#[trigger] groups[at], command, platform);
        let hooks = groups[at].array_at("hooks"@)->0;
        let i = choose|i: int|
            0 <= i < hooks.len() && is_edited(#[trigger] hooks[i], command, platform);
        assert(hooks_of_group(groups[at]) == hooks);
        assert(edited_at(groups, at, i, command, platform));
    }
}

/// What stays of one group.
proof fn lemma_pruned(group: JsonTree, command: Seq<char>)
    ensures
        pruned(group, command) is None <==> has_only(group, command),
        pruned(group, command) matches Some(rest) ==> stays_of(group, rest, command),
{
    let hooks = hooks_of_group(group);
    let keep = |hook: JsonTree| !has_command(hook, command);
    let groups = seq![group];
    assert(groups[0] == group);
    lemma_group_uses(groups, 0, command);
    if group_uses(group, command) {
        let kept = other_hooks(hooks, command);
        assert(group.array_at("hooks"@) == Some(hooks));
        assert(keep =~= |hook: JsonTree| !hook_uses(hook, command)) by {
            assert forall|hook: JsonTree| #[trigger] keep(hook) == !hook_uses(hook, command) by {
            }
        }
        let places = crate::lists::lemma_filter_keeps_exactly(hooks, keep);
        assert(keeps_exactly(hooks, kept, places, keep));
        if kept.len() == 0 {
            assert forall|i: int| 0 <= i < hooks.len() implies has_command(
                #[trigger] hooks[i],
                command,
            ) by {
                if keep(hooks[i]) {
                    assert(places.contains(i));
                }
            }
        } else {
            let rest = pruned(group, command)->0;
            assert(hooks_of_group(rest) == kept);
            assert(keep(hooks[places[0]])) by {
                assert(places.contains(places[0]));
            }
        }
    } else if has_only(group, command) {
        assert(has_command(hooks_of_group(groups[0])[0], command));
    }
}

/// What stays of a list of groups.
proof fn lemma_pruned_groups(groups: Seq<JsonTree>, command: Seq<char>) -> (places: Seq<int>)
    ensures
        stays_of_all(groups, pruned_groups(groups, command), places, command),
    decreases groups.len(),
{
    if groups.len() == 0 {
        seq![]
    } else {
        let rest = groups.drop_last();
        let kept = pruned_groups(rest, command);
        let last = groups.len() - 1;
        let now = pruned_groups(groups, command);
        let places = lemma_pruned_groups(rest, command);
        lemma_pruned(groups.last(), command);
        crate::lists::lemma_place_added(groups, places);
        let all = match pruned(groups.last(), command) {
            Some(group) => {
                assert(now =~= kept + seq![group]);
                places.push(last)
            },
            None => {
                assert(now == kept);
                places
            },
        };
        assert forall|j: int| 0 <= j < now.len() implies stays_of(
            groups[all[j]],
            #[trigger] now[j],
            command,
        ) by {
            if j < kept.len() {
                assert(kept[j] == now[j]);
                assert(rest[places[j]] == groups[all[j]]);
            }
        }
        assert forall|k: int| 0 <= k < groups.len() implies (all.contains(k) <==> !has_only(
            #[trigger] groups[k],
            command,
        )) by {
            if k < last {
                assert(rest[k] == groups[k]);
                assert(places.push(last).contains(k) == places.contains(k));
            }
        }
        all
    }
}

/// Where the hook is taken out, each group on session start stays with all its
/// other hooks and all else that it has, in its order; only a group that had no
/// other hook goes. Every other setting and every other event is as before.
pub proof fn law_unregistering_keeps_every_other_hook(
    config: JsonTree,
    command: Seq<char>,
    platform: Platform,
)
    requires
        unregistered(config, command, platform) matches Ok(Some(_)),
    ensures
        ({
            let after = unregistered(config, command, platform)->Ok_0->0;
            &&& alike_elsewhere(config, after)
            &&& event_in(after, "SessionStart"@) is Some
            &&& event_in(after, "SessionStart"@)->0 is Array
            &&& exists|places: Seq<int>| #[trigger]
                stays_of_all(start_list(config), start_list(after), places, command)
        }),
{
    let groups = start_list(config);
    let after = unregistered(config, command, platform)->Ok_0->0;
    assert(groups_in(config) == Some(groups));
    let kept = pruned_groups(groups, command);
    assert(after == with_groups(config, kept));
    assert(start_list(after) == kept);
    let places = lemma_pruned_groups(groups, command);
    assert(stays_of_all(start_list(config), start_list(after), places, command));
    assert forall|event: Seq<char>| event != "SessionStart"@ implies #[trigger] event_in(
        after,
        event,
    ) == event_in(config, event) by {
        assert(after.get("hooks"@)->0 == hooks_of(config).with(
            "SessionStart"@,
            JsonTree::Array(kept),
        ));
    }
}

/// A group that stays when the hook is taken out has at every key but `hooks` what
/// it had before.
pub proof fn law_group_keeps_its_other_members(
    group: JsonTree,
    command: Seq<char>,
    key: Seq<char>,
)
    requires
        key != "hooks"@,
    ensures
        pruned(group, command) matches Some(rest) ==> rest.get(key) == group.get(key),
{
    lemma_pruned(group, command);
}

} // verus!
