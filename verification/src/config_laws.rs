//! What holds of every change to Devin's configuration: adding the hook twice is
//! adding it once, taking it out undoes adding it, and what is not Luvus's stays.
use vstd::prelude::*;

use crate::command::mentions;
use crate::config::groups_in;
use crate::config::has_edited;
use crate::config::hooks_of;
use crate::config::is_edited;
use crate::config::is_present;
use crate::config::is_unmanaged;
use crate::config::other_groups;
use crate::config::other_hooks;
use crate::config::pruned;
use crate::config::pruned_groups;
use crate::config::registered;
use crate::config::session_start_of;
use crate::config::unregistered;
use crate::config::with_groups;
use crate::error::ErrorView;
use crate::groups::group_mentions;
use crate::groups::group_uses;
use crate::groups::hook_mentions;
use crate::groups::hook_uses;
use crate::groups::managed;
use crate::groups::managed_hook;
use crate::json::JsonTree;
use crate::platform::Platform;

verus! {

/// The keys in the configuration are different.
proof fn lemma_keys()
    ensures
        "type"@ != "command"@,
        "command"@ != "timeout"@,
        "type"@ != "timeout"@,
{
    reveal_strlit("type");
    reveal_strlit("command");
    reveal_strlit("timeout");
    assert("type"@.len() == 4);
    assert("command"@.len() == 7);
    assert("timeout"@[0] == 't');
    assert("command"@[0] == 'c');
}

/// The managed group has one hook, which runs the command.
proof fn lemma_managed(command: Seq<char>)
    ensures
        managed(command).array_at("hooks"@) == Some(seq![managed_hook(command)]),
        hook_uses(managed_hook(command), command),
        group_uses(managed(command), command),
{
    lemma_keys();
    let hooks = managed(command).array_at("hooks"@)->0;
    assert(hooks =~= seq![managed_hook(command)]);
    assert(hook_uses(hooks[0], command));
}

/// Filtering keeps only items of the list that pass, and all that pass.
proof fn lemma_filter(items: Seq<JsonTree>, keep: spec_fn(JsonTree) -> bool)
    ensures
        forall|i: int|
            0 <= i < items.filter(keep).len() ==> keep(#[trigger] items.filter(keep)[i])
                && items.contains(items.filter(keep)[i]),
        (forall|i: int| 0 <= i < items.len() ==> keep(#[trigger] items[i])) ==> items.filter(keep)
            == items,
    decreases items.len(),
{
    reveal(Seq::filter);
    if items.len() > 0 {
        let rest = items.drop_last();
        lemma_filter(rest, keep);
        assert forall|item: JsonTree| rest.contains(item) implies items.contains(item) by {
            let i = choose|i: int| 0 <= i < rest.len() && rest[i] == item;
            assert(items[i] == item);
        }
        assert(items.contains(items.last())) by {
            assert(items[items.len() - 1] == items.last());
        }
        assert forall|i: int| 0 <= i < items.filter(keep).len() implies keep(
            #[trigger] items.filter(keep)[i],
        ) && items.contains(items.filter(keep)[i]) by {
            if i < rest.filter(keep).len() {
                assert(items.filter(keep)[i] == rest.filter(keep)[i]);
            }
        }
        if forall|i: int| 0 <= i < items.len() ==> keep(#[trigger] items[i]) {
            assert forall|i: int| 0 <= i < rest.len() implies keep(#[trigger] rest[i]) by {
                assert(keep(items[i]));
            }
            assert(keep(items[items.len() - 1]));
            assert(items.filter(keep) =~= items);
        }
    }
}

/// Pruning groups none of which runs the command changes nothing.
proof fn lemma_prune_nothing(groups: Seq<JsonTree>, command: Seq<char>)
    requires
        forall|i: int| 0 <= i < groups.len() ==> !group_uses(#[trigger] groups[i], command),
    ensures
        pruned_groups(groups, command) == groups,
    decreases groups.len(),
{
    if groups.len() > 0 {
        let rest = groups.drop_last();
        assert forall|i: int| 0 <= i < rest.len() implies !group_uses(
            #[trigger] rest[i],
            command,
        ) by {
            assert(!group_uses(groups[i], command));
        }
        lemma_prune_nothing(rest, command);
        assert(!group_uses(groups[groups.len() - 1], command));
        assert(pruned_groups(groups, command) =~= rest + seq![groups.last()]);
        assert(pruned_groups(groups, command) =~= groups);
    } else {
        assert(pruned_groups(groups, command) =~= groups);
    }
}

/// No group is left whole of the managed group.
proof fn lemma_prune_managed(command: Seq<char>)
    ensures
        pruned(managed(command), command) is None,
{
    lemma_managed(command);
    let hooks = seq![managed_hook(command)];
    lemma_filter(hooks, |hook: JsonTree| !hook_uses(hook, command));
    let kept = other_hooks(hooks, command);
    if kept.len() > 0 {
        assert(!hook_uses(kept[0], command));
        assert(hooks.contains(kept[0]));
    }
}

/// A configuration with its groups set reads back these groups.
proof fn lemma_groups_read_back(config: JsonTree, groups: Seq<JsonTree>)
    requires
        config is Object,
        hooks_of(config) is Object,
    ensures
        with_groups(config, groups) is Object,
        hooks_of(with_groups(config, groups)) is Object,
        groups_in(with_groups(config, groups)) == Some(groups),
        session_start_of(hooks_of(with_groups(config, groups))) == JsonTree::Array(groups),
{
}

/// Setting the groups twice is setting them the second time.
proof fn lemma_groups_set_twice(config: JsonTree, first: Seq<JsonTree>, second: Seq<JsonTree>)
    requires
        config is Object,
        hooks_of(config) is Object,
    ensures
        with_groups(with_groups(config, first), second) == with_groups(config, second),
{
    let hooks = hooks_of(config);
    let once = hooks.with("SessionStart"@, JsonTree::Array(first));
    let twice = once.with("SessionStart"@, JsonTree::Array(second));
    assert(twice->Object_0 =~= hooks.with("SessionStart"@, JsonTree::Array(second))->Object_0);
    assert(with_groups(with_groups(config, first), second)->Object_0 =~= with_groups(
        config,
        second,
    )->Object_0);
}

/// Setting the groups that are there changes nothing.
proof fn lemma_groups_set_same(config: JsonTree, groups: Seq<JsonTree>)
    requires
        groups_in(config) == Some(groups),
    ensures
        with_groups(config, groups) == config,
{
    let hooks = hooks_of(config);
    assert(hooks.with("SessionStart"@, JsonTree::Array(groups))->Object_0 =~= hooks->Object_0);
    assert(with_groups(config, groups)->Object_0 =~= config->Object_0);
}

/// The groups of a configuration that takes the managed group.
spec fn groups_before(config: JsonTree) -> Seq<JsonTree> {
    session_start_of(hooks_of(config))->Array_0
}

/// The groups that stay beside the managed group do not run the script.
proof fn lemma_others_do_not_mention(config: JsonTree, command: Seq<char>, platform: Platform)
    requires
        registered(config, command, platform) is Ok,
    ensures
        ({
            let others = other_groups(groups_before(config), command);
            forall|i: int|
                0 <= i < others.len() ==> !group_mentions(#[trigger] others[i], platform)
                    && others[i] != managed(command)
        }),
{
    let groups = groups_before(config);
    let others = other_groups(groups, command);
    lemma_filter(groups, |group: JsonTree| group != managed(command));
    assert forall|i: int| 0 <= i < others.len() implies !group_mentions(
        #[trigger] others[i],
        platform,
    ) && others[i] != managed(command) by {
        assert(groups.contains(others[i]));
        let j = choose|j: int| 0 <= j < groups.len() && groups[j] == others[i];
        assert(!is_unmanaged(groups[j], command, platform));
    }
}

/// A group that runs a command which runs the script runs the script.
proof fn lemma_uses_mentions(group: JsonTree, command: Seq<char>, platform: Platform)
    requires
        mentions(command, platform),
        group_uses(group, command),
    ensures
        group_mentions(group, platform),
{
    let hooks = group.array_at("hooks"@)->0;
    let i = choose|i: int| 0 <= i < hooks.len() && hook_uses(#[trigger] hooks[i], command);
    assert(hook_mentions(hooks[i], platform));
}

/// Whether a group on session start runs the script.
pub open spec fn runs_script(config: JsonTree, platform: Platform) -> bool {
    groups_in(config) matches Some(groups) && exists|at: int|
        0 <= at < groups.len() && group_mentions(#[trigger] groups[at], platform)
}

/// The group that Luvus adds is recognised by its command, and as running the
/// script if the command is.
pub proof fn law_managed_group_is_recognised(command: Seq<char>, platform: Platform)
    ensures
        group_uses(managed(command), command),
        mentions(command, platform) ==> group_mentions(managed(command), platform),
{
    lemma_managed(command);
    if mentions(command, platform) {
        lemma_uses_mentions(managed(command), command, platform);
    }
}

/// Adding the managed group again changes nothing.
pub proof fn law_registering_is_idempotent(
    config: JsonTree,
    command: Seq<char>,
    platform: Platform,
)
    requires
        registered(config, command, platform) is Ok,
    ensures
        ({
            let once = registered(config, command, platform)->Ok_0;
            registered(once, command, platform) == Ok::<JsonTree, ErrorView>(once)
        }),
{
    let groups = groups_before(config);
    let others = other_groups(groups, command);
    let keep = |group: JsonTree| group != managed(command);
    let now = others.push(managed(command));
    let once = with_groups(config, now);
    lemma_groups_read_back(config, now);
    lemma_others_do_not_mention(config, command, platform);
    assert forall|i: int| 0 <= i < now.len() implies !is_unmanaged(
        #[trigger] now[i],
        command,
        platform,
    ) by {
        if i < others.len() {
            assert(now[i] == others[i]);
        }
    }
    assert(other_groups(now, command) == others) by {
        lemma_filter(others, keep);
        reveal(Seq::filter);
        assert(now.drop_last() =~= others);
    }
    lemma_groups_set_same(once, now);
}

/// Once the managed group is added, it is found.
pub proof fn law_registered_is_present(config: JsonTree, command: Seq<char>, platform: Platform)
    requires
        registered(config, command, platform) is Ok,
    ensures
        is_present(registered(config, command, platform)->Ok_0, command),
{
    let others = other_groups(groups_before(config), command);
    let now = others.push(managed(command));
    lemma_groups_read_back(config, now);
    lemma_managed(command);
    let after = with_groups(config, now);
    assert(group_uses(groups_in(after)->0[others.len() as int], command));
}

/// Taking the managed group out again gives back the configuration, with the
/// groups that it had beside any earlier managed group. Where it had no list of
/// groups, an empty one stays.
pub proof fn law_unregistering_undoes_registering(
    config: JsonTree,
    command: Seq<char>,
    platform: Platform,
)
    requires
        mentions(command, platform),
        registered(config, command, platform) is Ok,
    ensures
        unregistered(registered(config, command, platform)->Ok_0, command, platform) == Ok::<
            Option<JsonTree>,
            ErrorView,
        >(
            Some(
                with_groups(
                    config,
                    other_groups(session_start_of(hooks_of(config))->Array_0, command),
                ),
            ),
        ),
{
    let others = other_groups(groups_before(config), command);
    let now = others.push(managed(command));
    let once = with_groups(config, now);
    lemma_groups_read_back(config, now);
    lemma_others_do_not_mention(config, command, platform);
    lemma_managed(command);
    law_registered_is_present(config, command, platform);
    assert forall|i: int| 0 <= i < now.len() implies !has_edited(
        #[trigger] now[i],
        command,
        platform,
    ) by {
        if i < others.len() {
            assert(now[i] == others[i]);
            assert(!group_mentions(others[i], platform));
            if has_edited(now[i], command, platform) {
                let hooks = now[i].array_at("hooks"@)->0;
                let j = choose|j: int|
                    0 <= j < hooks.len() && is_edited(#[trigger] hooks[j], command, platform);
                assert(hook_mentions(hooks[j], platform));
            }
        }
    }
    assert forall|i: int| 0 <= i < others.len() implies !group_uses(
        #[trigger] others[i],
        command,
    ) by {
        if group_uses(others[i], command) {
            lemma_uses_mentions(others[i], command, platform);
        }
    }
    lemma_prune_nothing(others, command);
    lemma_prune_managed(command);
    assert(now.drop_last() =~= others);
    assert(pruned_groups(now, command) == others);
    lemma_groups_set_twice(config, now, others);
}

/// Where the configuration had a list of groups and no hook that runs the
/// command, adding the managed group and taking it out again gives back exactly
/// that configuration.
pub proof fn law_round_trip_restores_config(
    config: JsonTree,
    command: Seq<char>,
    platform: Platform,
)
    requires
        mentions(command, platform),
        registered(config, command, platform) is Ok,
        groups_in(config) is Some,
        !is_present(config, command),
    ensures
        unregistered(registered(config, command, platform)->Ok_0, command, platform) == Ok::<
            Option<JsonTree>,
            ErrorView,
        >(Some(config)),
{
    let groups = groups_in(config)->0;
    law_unregistering_undoes_registering(config, command, platform);
    lemma_managed(command);
    let keep = |group: JsonTree| group != managed(command);
    assert forall|i: int| 0 <= i < groups.len() implies keep(#[trigger] groups[i]) by {
        assert(!group_uses(groups_in(config)->0[i], command));
    }
    lemma_filter(groups, keep);
    lemma_groups_set_same(config, groups);
}

/// Adding the managed group changes nothing else: not the other settings, nor
/// the hooks on other events, nor the other groups on session start, which stay
/// before it in their order. The only event that it may add is session start.
pub proof fn law_registering_keeps_the_rest(
    config: JsonTree,
    command: Seq<char>,
    platform: Platform,
)
    requires
        registered(config, command, platform) is Ok,
    ensures
        ({
            let after = registered(config, command, platform)->Ok_0;
            &&& forall|key: Seq<char>| key != "hooks"@ ==> #[trigger] after.get(key) == config.get(key)
            &&& forall|event: Seq<char>|
                event != "SessionStart"@ ==> #[trigger] hooks_of(after).get(event) == hooks_of(
                    config,
                ).get(event)
            &&& groups_in(after) == Some(
                other_groups(session_start_of(hooks_of(config))->Array_0, command).push(
                    managed(command),
                ),
            )
        }),
{
    let others = other_groups(groups_before(config), command);
    lemma_groups_read_back(config, others.push(managed(command)));
}

/// Taking the hook out changes nothing outside the groups on session start.
pub proof fn law_unregistering_keeps_the_rest(
    config: JsonTree,
    command: Seq<char>,
    platform: Platform,
)
    requires
        unregistered(config, command, platform) matches Ok(Some(_)),
    ensures
        ({
            let after = unregistered(config, command, platform)->Ok_0->0;
            &&& forall|key: Seq<char>| key != "hooks"@ ==> #[trigger] after.get(key) == config.get(key)
            &&& forall|event: Seq<char>|
                event != "SessionStart"@ ==> #[trigger] hooks_of(after).get(event) == hooks_of(
                    config,
                ).get(event)
        }),
{
}

/// A hook on session start that runs the script by another command blocks both
/// adding the managed group and taking it out.
pub proof fn law_edited_hook_blocks_both(
    config: JsonTree,
    command: Seq<char>,
    platform: Platform,
    at: int,
)
    requires
        groups_in(config) is Some,
        0 <= at < groups_in(config)->0.len(),
        has_edited(groups_in(config)->0[at], command, platform),
    ensures
        registered(config, command, platform) == Err::<JsonTree, ErrorView>(
            ErrorView::UnmanagedHook(platform),
        ),
        unregistered(config, command, platform) == Err::<Option<JsonTree>, ErrorView>(
            ErrorView::EditedHook(platform),
        ),
{
    let groups = groups_in(config)->0;
    let hooks = groups[at].array_at("hooks"@)->0;
    let i = choose|i: int|
        0 <= i < hooks.len() && is_edited(#[trigger] hooks[i], command, platform);
    lemma_managed(command);
    assert(hook_mentions(hooks[i], platform));
    assert(groups[at] != managed(command));
    assert(is_unmanaged(groups[at], command, platform));
    assert(session_start_of(hooks_of(config)).as_array() == Some(groups));
}

/// The hooks of a group, in order.
pub open spec fn hooks_in(group: JsonTree) -> Seq<JsonTree> {
    match group.array_at("hooks"@) {
        Some(hooks) => hooks,
        None => seq![],
    }
}

/// The hooks of all groups, in order.
pub open spec fn all_hooks(groups: Seq<JsonTree>) -> Seq<JsonTree>
    decreases groups.len(),
{
    if groups.len() == 0 {
        seq![]
    } else {
        all_hooks(groups.drop_last()) + hooks_in(groups.last())
    }
}

/// Pruning a group takes out the hooks that run the command and no others.
proof fn lemma_pruned_hooks(group: JsonTree, command: Seq<char>)
    ensures
        other_hooks(hooks_in(group), command) == (match pruned(group, command) {
            Some(rest) => hooks_in(rest),
            None => seq![],
        }),
{
    let hooks = hooks_in(group);
    let keep = |hook: JsonTree| !hook_uses(hook, command);
    if !group_uses(group, command) {
        assert forall|i: int| 0 <= i < hooks.len() implies keep(#[trigger] hooks[i]) by {
            if hook_uses(hooks[i], command) {
                assert(hook_uses(group.array_at("hooks"@)->0[i], command));
            }
        }
        lemma_filter(hooks, keep);
    } else if other_hooks(hooks, command).len() == 0 {
        assert(other_hooks(hooks, command) =~= seq![]);
    }
}

/// The hooks left after taking the command out are the hooks before that do not
/// run it, in their order.
pub proof fn law_unregistering_keeps_other_hooks(groups: Seq<JsonTree>, command: Seq<char>)
    ensures
        all_hooks(pruned_groups(groups, command)) == other_hooks(all_hooks(groups), command),
    decreases groups.len(),
{
    let keep = |hook: JsonTree| !hook_uses(hook, command);
    if groups.len() == 0 {
        reveal(Seq::filter);
        assert(pruned_groups(groups, command) =~= seq![]);
    } else {
        let rest = groups.drop_last();
        law_unregistering_keeps_other_hooks(rest, command);
        lemma_pruned_hooks(groups.last(), command);
        Seq::filter_distributes_over_add(all_hooks(rest), hooks_in(groups.last()), keep);
        match pruned(groups.last(), command) {
            Some(group) => {
                let kept = pruned_groups(rest, command) + seq![group];
                assert(pruned_groups(groups, command) == kept);
                assert(kept.drop_last() =~= pruned_groups(rest, command));
            },
            None => {
                assert(pruned_groups(groups, command) == pruned_groups(rest, command));
                assert(all_hooks(pruned_groups(rest, command)) + seq![] =~= all_hooks(
                    pruned_groups(rest, command),
                ));
            },
        }
    }
}

/// A hook of a group is one of all hooks.
proof fn lemma_hook_in_all(groups: Seq<JsonTree>, at: int, i: int)
    requires
        0 <= at < groups.len(),
        0 <= i < hooks_in(groups[at]).len(),
    ensures
        all_hooks(groups).contains(hooks_in(groups[at])[i]),
    decreases groups.len(),
{
    let hook = hooks_in(groups[at])[i];
    let rest = all_hooks(groups.drop_last());
    let last = hooks_in(groups.last());
    if at == groups.len() - 1 {
        assert((rest + last)[rest.len() + i] == hook);
    } else {
        assert(groups.drop_last()[at] == groups[at]);
        lemma_hook_in_all(groups.drop_last(), at, i);
        let j = choose|j: int| 0 <= j < rest.len() && rest[j] == hook;
        assert((rest + last)[j] == hook);
    }
}

/// One of all hooks is a hook of a group.
proof fn lemma_all_has_group(groups: Seq<JsonTree>, hook: JsonTree) -> (place: (int, int))
    requires
        all_hooks(groups).contains(hook),
    ensures
        0 <= place.0 < groups.len(),
        0 <= place.1 < hooks_in(groups[place.0]).len(),
        hooks_in(groups[place.0])[place.1] == hook,
    decreases groups.len(),
{
    let rest = all_hooks(groups.drop_last());
    let last = hooks_in(groups.last());
    let i = choose|i: int| 0 <= i < all_hooks(groups).len() && all_hooks(groups)[i] == hook;
    if i < rest.len() {
        assert(rest[i] == hook);
        let place = lemma_all_has_group(groups.drop_last(), hook);
        assert(groups.drop_last()[place.0] == groups[place.0]);
        place
    } else {
        assert(last[i - rest.len()] == hook);
        (groups.len() - 1, i - rest.len())
    }
}

/// Once the hook is taken out it is not found, and there is nothing to take out.
pub proof fn law_unregistered_is_absent(config: JsonTree, command: Seq<char>, platform: Platform)
    requires
        unregistered(config, command, platform) matches Ok(Some(_)),
    ensures
        ({
            let after = unregistered(config, command, platform)->Ok_0->0;
            &&& !is_present(after, command)
            &&& unregistered(after, command, platform) == Ok::<Option<JsonTree>, ErrorView>(None)
        }),
{
    let groups = groups_in(config)->0;
    let kept = pruned_groups(groups, command);
    let after = with_groups(config, kept);
    lemma_groups_read_back(config, kept);
    law_unregistering_keeps_other_hooks(groups, command);
    lemma_filter(all_hooks(groups), |hook: JsonTree| !hook_uses(hook, command));
    let left = other_hooks(all_hooks(groups), command);
    if is_present(after, command) {
        let at = choose|at: int| 0 <= at < kept.len() && group_uses(#[trigger] kept[at], command);
        let hooks = kept[at].array_at("hooks"@)->0;
        let i = choose|i: int| 0 <= i < hooks.len() && hook_uses(#[trigger] hooks[i], command);
        lemma_hook_in_all(kept, at, i);
        let j = choose|j: int| 0 <= j < left.len() && left[j] == hooks[i];
        assert(!hook_uses(left[j], command));
    }
    if exists|at: int| 0 <= at < kept.len() && has_edited(#[trigger] kept[at], command, platform) {
        let at = choose|at: int|
            0 <= at < kept.len() && has_edited(#[trigger] kept[at], command, platform);
        let hooks = kept[at].array_at("hooks"@)->0;
        let i = choose|i: int|
            0 <= i < hooks.len() && is_edited(#[trigger] hooks[i], command, platform);
        lemma_hook_in_all(kept, at, i);
        let j = choose|j: int| 0 <= j < left.len() && left[j] == hooks[i];
        assert(all_hooks(groups).contains(left[j]));
        let place = lemma_all_has_group(groups, hooks[i]);
        assert(is_edited(groups[place.0].array_at("hooks"@)->0[place.1], command, platform));
        assert(has_edited(groups[place.0], command, platform));
    }
}

/// Where there is nothing to take out, no group on session start runs the script.
proof fn lemma_nothing_left_to_take_out(config: JsonTree, command: Seq<char>, platform: Platform)
    requires
        unregistered(config, command, platform) == Ok::<Option<JsonTree>, ErrorView>(None),
    ensures
        !runs_script(config, platform),
{
    if runs_script(config, platform) {
        let groups = groups_in(config)->0;
        let at = choose|at: int|
            0 <= at < groups.len() && group_mentions(#[trigger] groups[at], platform);
        let hooks = groups[at].array_at("hooks"@)->0;
        let i = choose|i: int| 0 <= i < hooks.len() && hook_mentions(#[trigger] hooks[i], platform);
        if hook_uses(hooks[i], command) {
            assert(group_uses(groups[at], command));
        } else {
            assert(is_edited(hooks[i], command, platform));
            assert(has_edited(groups[at], command, platform));
        }
    }
}

/// Where taking the hook out is not refused, no group on session start runs the
/// script afterwards: no hook is left that points at a missing file.
pub proof fn law_unregistering_leaves_no_reference(
    config: JsonTree,
    command: Seq<char>,
    platform: Platform,
)
    requires
        unregistered(config, command, platform) is Ok,
    ensures
        match unregistered(config, command, platform)->Ok_0 {
            Some(after) => !runs_script(after, platform),
            None => !runs_script(config, platform),
        },
{
    match unregistered(config, command, platform)->Ok_0 {
        Some(after) => {
            law_unregistered_is_absent(config, command, platform);
            lemma_nothing_left_to_take_out(after, command, platform);
        },
        None => {
            lemma_nothing_left_to_take_out(config, command, platform);
        },
    }
}

} // verus!
