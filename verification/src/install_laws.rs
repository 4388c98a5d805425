//! What installing and removing do to the file system as a whole: an
//! installation that fails leaves everything as it was, and a removal undoes an
//! installation.
use vstd::prelude::*;

use crate::command::command_for;
use crate::command::names;
use crate::config::groups_in;
use crate::config::is_present;
use crate::config::registered;
use crate::config::unregistered;
use crate::config_laws::runs_script;
use crate::error::ErrorView;
use crate::install::config_in;
use crate::install::BytesReadView;
use crate::install::ChangesView;
use crate::install::InstallView;
use crate::install::Setup;
use crate::install::TextRead;
use crate::install::UninstallView;
use crate::json::JsonTree;
use crate::parse::parsed_text;
use crate::registration_laws::command_at;
use crate::registration_laws::start_list;

verus! {

/// The part of the file system that the integration touches, as the operations on
/// it see it.
pub struct Disk {
    /// What reading the configuration gives, unless there is none.
    pub config: Option<Result<JsonTree, ErrorView>>,
    /// Whether the configuration's path leads to a regular file, through links or
    /// not. A directory is none, nor is what cannot be looked at.
    pub config_is_file: bool,
    /// Whether the configuration's path is a symbolic link; `None` where nothing
    /// can be said of it.
    pub config_is_link: Option<bool>,
    /// What reading the hook script gives.
    pub script: BytesReadView,
}

/// Which operations fail, and with which words.
pub struct Failures {
    pub create_directory: Option<Seq<char>>,
    pub write_script: Option<Seq<char>>,
    pub make_executable: Option<Seq<char>>,
    pub write_config: Option<Seq<char>>,
    pub restore_script: Option<Seq<char>>,
    pub remove_script: Option<Seq<char>>,
}

impl Failures {
    /// Whether every operation of an installation succeeds.
    pub open spec fn none_in_install(self) -> bool {
        &&& self.create_directory is None
        &&& self.write_script is None
        &&& self.make_executable is None
        &&& self.write_config is None
    }
}

impl Disk {
    /// What reading the configuration gives; a missing one is empty.
    pub open spec fn config_read(self) -> Result<JsonTree, ErrorView> {
        match self.config {
            Some(config) => config,
            None => Ok(JsonTree::Object(Map::empty())),
        }
    }

    /// The disk with another configuration, if writing it does not fail: the write
    /// puts a regular file in place.
    pub open spec fn with_config(self, config: JsonTree, failed: Option<Seq<char>>) -> Disk {
        if failed is None {
            Disk {
                config: Some(Ok(config)),
                config_is_file: true,
                config_is_link: Some(false),
                ..self
            }
        } else {
            self
        }
    }

    /// The disk with another hook script, or none, if the change does not fail.
    pub open spec fn with_script(self, script: BytesReadView, failed: Option<Seq<char>>) -> Disk {
        if failed is None {
            Disk { script, ..self }
        } else {
            self
        }
    }

    /// Whether the hook script is there, unmodified.
    pub open spec fn has_script(self, setup: Setup) -> bool {
        self.script == BytesReadView::Contents(setup.script@)
    }
}

/// How many steps an installation still takes at most.
pub open spec fn install_steps_left(step: InstallView) -> nat {
    match step {
        InstallView::ReadConfig { .. } => 8,
        InstallView::ReadScript { .. } => 7,
        InstallView::CreateDirectory { .. } => 6,
        InstallView::WriteScript { .. } => 5,
        InstallView::MakeExecutable { .. } => 4,
        InstallView::WriteConfig { .. } => 3,
        InstallView::RestoreScript { .. } => 2,
        InstallView::RestoreExecutable { .. } => 1,
        InstallView::RemoveScript { .. } => 1,
        InstallView::Finished { .. } => 0,
    }
}

/// The disk and the result once an installation has gone through all its steps
/// from `step` on.
pub open spec fn install_from(
    setup: Setup,
    step: InstallView,
    disk: Disk,
    failures: Failures,
) -> (Disk, Result<(), ErrorView>)
    decreases install_steps_left(step),
{
    match step {
        InstallView::ReadConfig { command } => install_from(
            setup,
            setup.install_with_config(command, disk.config_read()),
            disk,
            failures,
        ),
        InstallView::ReadScript { config } => install_from(
            setup,
            setup.install_with_script(config, disk.script),
            disk,
            failures,
        ),
        InstallView::CreateDirectory { .. } => install_from(
            setup,
            step.after(failures.create_directory),
            disk,
            failures,
        ),
        InstallView::WriteScript { changes } => install_from(
            setup,
            step.after(failures.write_script),
            disk.with_script(BytesReadView::Contents(changes.script), failures.write_script),
            failures,
        ),
        InstallView::MakeExecutable { .. } => install_from(
            setup,
            step.after(failures.make_executable),
            disk,
            failures,
        ),
        InstallView::WriteConfig { changes } => install_from(
            setup,
            step.after(failures.write_config),
            disk.with_config(changes.config, failures.write_config),
            failures,
        ),
        InstallView::RestoreScript { contents, .. } => install_from(
            setup,
            step.after(failures.restore_script),
            disk.with_script(BytesReadView::Contents(contents), failures.restore_script),
            failures,
        ),
        InstallView::RestoreExecutable { .. } => install_from(
            setup,
            step.after(failures.make_executable),
            disk,
            failures,
        ),
        InstallView::RemoveScript { .. } => install_from(
            setup,
            step.after(failures.remove_script),
            disk.with_script(BytesReadView::NotFound, failures.remove_script),
            failures,
        ),
        InstallView::Finished { result } => (disk, result),
    }
}

/// The disk and the result after an installation.
pub open spec fn installed(setup: Setup, disk: Disk, failures: Failures) -> (
    Disk,
    Result<(), ErrorView>,
) {
    install_from(setup, setup.install_start(disk.config_is_link), disk, failures)
}

/// How many steps a removal still takes at most.
pub open spec fn uninstall_steps_left(step: UninstallView) -> nat {
    match step {
        UninstallView::ReadConfig { .. } => 5,
        UninstallView::CheckLink { .. } => 4,
        UninstallView::WriteConfig { .. } => 3,
        UninstallView::ReadScript => 2,
        UninstallView::RemoveScript => 1,
        UninstallView::Finished { .. } => 0,
    }
}

/// The disk and the result once a removal has gone through all its steps from
/// `step` on.
pub open spec fn uninstall_from(
    setup: Setup,
    step: UninstallView,
    disk: Disk,
    failures: Failures,
) -> (Disk, Result<(), ErrorView>)
    decreases uninstall_steps_left(step),
{
    match step {
        UninstallView::ReadConfig { command } => uninstall_from(
            setup,
            setup.uninstall_with_config(command, disk.config_read()),
            disk,
            failures,
        ),
        UninstallView::CheckLink { config } => uninstall_from(
            setup,
            setup.uninstall_with_link(config, disk.config_is_link),
            disk,
            failures,
        ),
        UninstallView::WriteConfig { config } => uninstall_from(
            setup,
            step.after(failures.write_config),
            disk.with_config(config, failures.write_config),
            failures,
        ),
        UninstallView::ReadScript => uninstall_from(
            setup,
            setup.uninstall_with_script(disk.script),
            disk,
            failures,
        ),
        UninstallView::RemoveScript => uninstall_from(
            setup,
            step.after(failures.remove_script),
            disk.with_script(BytesReadView::NotFound, failures.remove_script),
            failures,
        ),
        UninstallView::Finished { result } => (disk, result),
    }
}

/// The disk and the result after a removal.
pub open spec fn uninstalled(setup: Setup, disk: Disk, failures: Failures) -> (
    Disk,
    Result<(), ErrorView>,
) {
    uninstall_from(setup, setup.uninstall_start(disk.config_is_file), disk, failures)
}

/// Whether an installation passes all its checks: the configuration is no link,
/// the script's path is valid Unicode, the configuration takes the hook, and no
/// modified or unreadable script is in the way.
pub open spec fn accepts(setup: Setup, disk: Disk) -> bool {
    &&& disk.config_is_link != Some(true)
    &&& setup.command() matches Some(command) && disk.config_read() matches Ok(config)
        && registered(config, command, setup.platform) is Ok
    &&& disk.script is NotFound || disk.has_script(setup)
}

/// An installation succeeds exactly where its checks pass and no operation
/// fails. It then leaves the hook script and the configuration with the hook. One
/// that does not succeed leaves the configuration as it was, and, unless putting
/// it back fails, the hook script too.
pub proof fn law_install_is_all_or_nothing(setup: Setup, disk: Disk, failures: Failures)
    ensures
        ({
            let (after, result) = installed(setup, disk, failures);
            &&& result is Ok <==> accepts(setup, disk) && failures.none_in_install()
            &&& result is Ok ==> after == Disk {
                config: Some(
                    registered(
                        disk.config_read()->Ok_0,
                        setup.command()->0,
                        setup.platform,
                    ),
                ),
                config_is_file: true,
                config_is_link: Some(false),
                script: BytesReadView::Contents(setup.script@),
            }
            &&& result is Err ==> after == Disk { script: after.script, ..disk }
            &&& result is Err && failures.restore_script is None && failures.remove_script is None
                ==> after == disk
        }),
{
    reveal_with_fuel(install_from, 10);
}

/// An installation that a check refuses changes nothing at all.
pub proof fn law_refused_install_changes_nothing(setup: Setup, disk: Disk, failures: Failures)
    requires
        !accepts(setup, disk),
    ensures
        installed(setup, disk, failures).0 == disk,
        installed(setup, disk, failures).1 is Err,
{
    reveal_with_fuel(install_from, 10);
}

/// A hook script that was modified, or that cannot be read, is neither replaced
/// nor removed.
pub proof fn law_modified_script_stays(setup: Setup, disk: Disk, failures: Failures)
    requires
        !(disk.script is NotFound),
        !disk.has_script(setup),
    ensures
        installed(setup, disk, failures).1 is Err,
        installed(setup, disk, failures).0.script == disk.script,
        uninstalled(setup, disk, failures).0.script == disk.script,
{
    law_refused_install_changes_nothing(setup, disk, failures);
    reveal_with_fuel(uninstall_from, 7);
}

/// Neither an installation nor a removal changes anything where the configuration
/// is a symbolic link.
pub proof fn law_linked_config_stays(setup: Setup, disk: Disk, failures: Failures)
    requires
        disk.config_is_link == Some(true),
    ensures
        installed(setup, disk, failures).1 == Err::<(), ErrorView>(
            ErrorView::SymlinkedConfig(setup.config_shown@),
        ),
        installed(setup, disk, failures).0 == disk,
        uninstalled(setup, disk, failures).0 == disk,
{
    reveal_with_fuel(install_from, 10);
    reveal_with_fuel(uninstall_from, 7);
}

/// A configuration that cannot be read, or is not plain JSON, stays as it is, and
/// so does the hook script. An installation is refused for that reason, unless
/// there is an earlier one; so is a removal, where the configuration is a file.
pub proof fn law_unreadable_config_stays(
    setup: Setup,
    disk: Disk,
    failures: Failures,
    error: ErrorView,
)
    requires
        disk.config == Some(Err::<JsonTree, ErrorView>(error)),
    ensures
        installed(setup, disk, failures) == (
            disk,
            Err::<(), ErrorView>(
                if disk.config_is_link == Some(true) {
                    ErrorView::SymlinkedConfig(setup.config_shown@)
                } else if setup.command() is None {
                    ErrorView::PathNotUnicode
                } else {
                    error
                },
            ),
        ),
        disk.config_is_file ==> uninstalled(setup, disk, failures) == (
            disk,
            Err::<(), ErrorView>(
                if setup.command() is None {
                    ErrorView::PathNotUnicode
                } else {
                    error
                },
            ),
        ),
        !disk.config_is_file ==> uninstalled(setup, disk, failures) == (
            disk,
            Ok::<(), ErrorView>(()),
        ),
{
    reveal_with_fuel(install_from, 10);
    reveal_with_fuel(uninstall_from, 7);
}

/// Where the configuration is no file, there is nothing to remove: a removal
/// succeeds and changes nothing.
pub proof fn law_removal_without_config_does_nothing(setup: Setup, disk: Disk, failures: Failures)
    requires
        !disk.config_is_file,
    ensures
        uninstalled(setup, disk, failures) == (disk, Ok::<(), ErrorView>(())),
{
    reveal_with_fuel(uninstall_from, 7);
}

/// After an installation that succeeded, the integration is found installed.
pub proof fn law_install_is_found(setup: Setup, disk: Disk, failures: Failures)
    requires
        installed(setup, disk, failures).1 is Ok,
    ensures
        ({
            let after = installed(setup, disk, failures).0;
            setup.is_installed_with(after.script, after.config_read())
        }),
{
    law_install_is_all_or_nothing(setup, disk, failures);
    crate::config_laws::law_registered_is_present(
        disk.config_read()->Ok_0,
        setup.command()->0,
        setup.platform,
    );
}

/// Installing again after an installation that succeeded succeeds too, and
/// changes nothing.
pub proof fn law_install_is_idempotent(
    setup: Setup,
    disk: Disk,
    first: Failures,
    second: Failures,
)
    requires
        installed(setup, disk, first).1 is Ok,
        second.none_in_install(),
    ensures
        ({
            let once = installed(setup, disk, first).0;
            installed(setup, once, second) == (once, Ok::<(), ErrorView>(()))
        }),
{
    law_install_is_all_or_nothing(setup, disk, first);
    let once = installed(setup, disk, first).0;
    crate::config_laws::law_registering_is_idempotent(
        disk.config_read()->Ok_0,
        setup.command()->0,
        setup.platform,
    );
    law_install_is_all_or_nothing(setup, once, second);
    assert(accepts(setup, once));
    assert(installed(setup, once, second).1 is Ok);
    assert(installed(setup, once, second).1->Ok_0 == ());
    assert(installed(setup, once, second).0 == once);
}

/// A removal undoes an installation: where the configuration had a list of groups
/// on session start and no hook of Luvus, and no hook script was there, both end
/// as they were before the installation, the configuration as a regular file, and
/// the integration is not found.
pub proof fn law_uninstall_undoes_install(
    setup: Setup,
    disk: Disk,
    first: Failures,
    second: Failures,
)
    requires
        setup.script_path matches Some(path) && names(path@, setup.platform),
        installed(setup, disk, first).1 is Ok,
        disk.script is NotFound,
        disk.config matches Some(Ok(config)) && groups_in(config) is Some && !is_present(
            config,
            setup.command()->0,
        ),
        second.write_config is None,
        second.remove_script is None,
    ensures
        ({
            let once = installed(setup, disk, first).0;
            uninstalled(setup, once, second) == (
                Disk { config_is_file: true, config_is_link: Some(false), ..disk },
                Ok::<(), ErrorView>(()),
            )
        }),
        !setup.is_installed_with(disk.script, disk.config_read()),
{
    let command = setup.command()->0;
    let config = disk.config_read()->Ok_0;
    law_install_is_all_or_nothing(setup, disk, first);
    crate::command_laws::law_hook_command_is_recognised(setup.script_path->0@, setup.platform);
    crate::config_laws::law_round_trip_restores_config(config, command, setup.platform);
    reveal_with_fuel(uninstall_from, 7);
}

/// A removal takes the script away only where no group on session start runs it
/// any more.
pub proof fn law_removed_script_is_not_referenced(setup: Setup, disk: Disk, failures: Failures)
    requires
        !(disk.script is NotFound),
        uninstalled(setup, disk, failures).0.script is NotFound,
    ensures
        uninstalled(setup, disk, failures).0.config matches Some(Ok(config)) && !runs_script(
            config,
            setup.platform,
        ),
{
    reveal_with_fuel(uninstall_from, 7);
    crate::config_laws::law_unregistering_leaves_no_reference(
        disk.config_read()->Ok_0,
        setup.command()->0,
        setup.platform,
    );
}

/// After a removal that succeeded, another one changes nothing. The integration is
/// not found then, unless what reads as a configuration is no regular file, which
/// a removal leaves alone.
pub proof fn law_uninstall_is_final(setup: Setup, disk: Disk, first: Failures, second: Failures)
    requires
        uninstalled(setup, disk, first).1 is Ok,
    ensures
        ({
            let once = uninstalled(setup, disk, first).0;
            &&& uninstalled(setup, once, second) == (once, Ok::<(), ErrorView>(()))
            &&& disk.config is None || disk.config_is_file ==> !setup.is_installed_with(
                once.script,
                once.config_read(),
            )
        }),
{
    reveal_with_fuel(uninstall_from, 7);
    let config = disk.config_read()->Ok_0;
    let command = setup.command()->0;
    if unregistered(config, command, setup.platform) matches Ok(Some(_)) {
        crate::config_laws::law_unregistered_is_absent(config, command, setup.platform);
    }
}

/// A configuration that is missing reads as an empty object, one that cannot be
/// read as the system's words, and any other as what its text says.
pub proof fn law_config_reads_as_its_text(read: TextRead)
    ensures
        match read {
            TextRead::NotFound => config_in(read) is Ok && config_in(read)->Ok_0 is Object && (
            forall|key: Seq<char>| #[trigger] config_in(read)->Ok_0.get(key) is None),
            TextRead::Failed(words) => config_in(read) == Err::<JsonTree, ErrorView>(
                ErrorView::Io(words@),
            ),
            TextRead::Contents(text) => match parsed_text(text@) {
                Ok(config) => config_in(read) == Ok::<JsonTree, ErrorView>(config),
                Err(words) => config_in(read) == Err::<JsonTree, ErrorView>(
                    ErrorView::InvalidConfig(words),
                ),
            },
        },
{
}

/// The integration is installed exactly where the hook script is there unmodified,
/// the configuration reads, and a hook of any group on session start, at whatever
/// place, has exactly the command for the script's path.
pub proof fn law_installed_is_script_and_hook(
    setup: Setup,
    script: BytesReadView,
    config: Result<JsonTree, ErrorView>,
)
    ensures
        setup.is_installed_with(script, config) <==> {
            &&& script == BytesReadView::Contents(setup.script@)
            &&& setup.script_path is Some
            &&& config is Ok
            &&& exists|at: int, i: int| #[trigger]
                command_at(start_list(config->Ok_0), at, i) == Some(
                    command_for(setup.script_path->0@, setup.platform),
                )
        },
{
    if setup.script_path is Some && config is Ok {
        crate::registration_laws::law_presence_is_a_hook_with_the_command(
            config->Ok_0,
            command_for(setup.script_path->0@, setup.platform),
        );
    }
}

/// Groups that are put before or behind those of a configuration do not hide that
/// the integration is installed.
pub proof fn law_installed_beside_other_groups(
    setup: Setup,
    script: BytesReadView,
    config: JsonTree,
    wider: JsonTree,
    before: Seq<JsonTree>,
    behind: Seq<JsonTree>,
)
    requires
        start_list(wider) == before + start_list(config) + behind,
        setup.is_installed_with(script, Ok::<JsonTree, ErrorView>(config)),
    ensures
        setup.is_installed_with(script, Ok::<JsonTree, ErrorView>(wider)),
{
    let command = command_for(setup.script_path->0@, setup.platform);
    law_installed_is_script_and_hook(setup, script, Ok(config));
    law_installed_is_script_and_hook(setup, script, Ok(wider));
    let (at, i) = choose|at: int, i: int| #[trigger]
        command_at(start_list(config), at, i) == Some(command);
    assert(start_list(wider)[before.len() + at] == start_list(config)[at]);
    assert(command_at(start_list(wider), before.len() + at, i) == Some(command));
}

/// The first reason for which an installation fails is the one that it gives: a
/// link, a path that is not Unicode, a configuration that does not read or does not
/// take the hook, a script that does not read or was modified, and then each
/// operation in its turn.
pub proof fn law_install_gives_the_first_reason(setup: Setup, disk: Disk, failures: Failures)
    ensures
        ({
            let result = installed(setup, disk, failures).1;
            let command = command_for(setup.script_path->0@, setup.platform);
            let taken = registered(disk.config_read()->Ok_0, command, setup.platform);
            if disk.config_is_link == Some(true) {
                result == Err::<(), ErrorView>(ErrorView::SymlinkedConfig(setup.config_shown@))
            } else if setup.script_path is None {
                result == Err::<(), ErrorView>(ErrorView::PathNotUnicode)
            } else if disk.config_read() is Err {
                result == Err::<(), ErrorView>(disk.config_read()->Err_0)
            } else if taken is Err {
                result == Err::<(), ErrorView>(taken->Err_0)
            } else if disk.script is Failed {
                result == Err::<(), ErrorView>(ErrorView::Io(disk.script->Failed_0))
            } else if disk.script is Contents && disk.script->Contents_0 != setup.script@ {
                result == Err::<(), ErrorView>(ErrorView::ModifiedScript(setup.script_shown@))
            } else if failures.create_directory is Some {
                result == Err::<(), ErrorView>(ErrorView::Io(failures.create_directory->0))
            } else if failures.write_script is Some {
                result == Err::<(), ErrorView>(ErrorView::Io(failures.write_script->0))
            } else if failures.make_executable is Some {
                result == Err::<(), ErrorView>(ErrorView::Io(failures.make_executable->0))
            } else if failures.write_config is Some {
                result == Err::<(), ErrorView>(ErrorView::Io(failures.write_config->0))
            } else {
                result == Ok::<(), ErrorView>(())
            }
        }),
{
    reveal_with_fuel(install_from, 10);
}

/// What a removal leaves and answers. It does nothing where the configuration is
/// no file or has no hook of Luvus, and gives the first reason for which it fails;
/// otherwise it writes the configuration without the hook, and removes the hook
/// script where that is unmodified, whether or not that succeeds.
pub proof fn law_uninstall_outcome(setup: Setup, disk: Disk, failures: Failures)
    ensures
        ({
            let (after, result) = uninstalled(setup, disk, failures);
            let command = command_for(setup.script_path->0@, setup.platform);
            let left = unregistered(disk.config_read()->Ok_0, command, setup.platform);
            if !disk.config_is_file {
                after == disk && result == Ok::<(), ErrorView>(())
            } else if setup.script_path is None {
                after == disk && result == Err::<(), ErrorView>(ErrorView::PathNotUnicode)
            } else if disk.config_read() is Err {
                after == disk && result == Err::<(), ErrorView>(disk.config_read()->Err_0)
            } else if left is Err {
                after == disk && result == Err::<(), ErrorView>(left->Err_0)
            } else if left->Ok_0 is None {
                after == disk && result == Ok::<(), ErrorView>(())
            } else if disk.config_is_link == Some(true) {
                after == disk && result == Err::<(), ErrorView>(
                    ErrorView::SymlinkedConfig(setup.config_shown@),
                )
            } else if failures.write_config is Some {
                after == disk && result == Err::<(), ErrorView>(
                    ErrorView::Io(failures.write_config->0),
                )
            } else {
                &&& result == Ok::<(), ErrorView>(())
                &&& after.config == Some(Ok::<JsonTree, ErrorView>(left->Ok_0->0))
                &&& after.config_is_file
                &&& after.config_is_link == Some(false)
                &&& after.script == (if disk.script == BytesReadView::Contents(setup.script@)
                    && failures.remove_script is None {
                    BytesReadView::NotFound
                } else {
                    disk.script
                })
            }
        }),
{
    reveal_with_fuel(uninstall_from, 7);
}

/// Once the hook script is written, an operation that fails is followed by putting
/// the script back: its contents and its being executable where there was one, and
/// its removal where there was none. Whatever comes of that, the installation ends
/// with the words of the operation that failed.
pub proof fn law_failed_install_puts_script_back(
    changes: ChangesView,
    words: Seq<char>,
    write: Option<Seq<char>>,
    make_executable: Option<Seq<char>>,
)
    ensures
        ({
            let error = ErrorView::Io(words);
            let first = InstallView::MakeExecutable { changes }.after(Some(words));
            let end = InstallView::Finished { result: Err(error) };
            &&& InstallView::WriteConfig { changes }.after(Some(words)) == first
            &&& changes.previous matches Some(contents) ==> {
                &&& first == InstallView::RestoreScript { contents, error }
                &&& first.after(write) == InstallView::RestoreExecutable { error }
                &&& first.after(write).after(make_executable) == end
            }
            &&& changes.previous is None ==> {
                &&& first == InstallView::RemoveScript { error }
                &&& first.after(write) == end
            }
        }),
{
}

/// An installation makes the directory, writes the script, makes it executable and
/// writes the configuration, in this order, always with the same contents.
pub proof fn law_install_goes_step_by_step(changes: ChangesView)
    ensures
        ({
            let create = InstallView::CreateDirectory { changes };
            let write = InstallView::WriteScript { changes };
            let make_executable = InstallView::MakeExecutable { changes };
            let write_config = InstallView::WriteConfig { changes };
            &&& create.after(None) == write
            &&& write.after(None) == make_executable
            &&& make_executable.after(None) == write_config
            &&& write_config.after(None) == InstallView::Finished { result: Ok(()) }
        }),
{
}

/// What an installation is going to write is the configuration with the hook and
/// the script of the setup, and what it would put back is the script that it read.
pub proof fn law_install_writes_what_was_decided(
    setup: Setup,
    config: JsonTree,
    read: BytesReadView,
)
    ensures
        setup.install_with_script(config, read) is CreateDirectory ==> {
            let changes = setup.install_with_script(config, read)->CreateDirectory_changes;
            &&& changes.config == config
            &&& changes.script == setup.script@
            &&& changes.previous is None <==> read is NotFound
            &&& changes.previous matches Some(contents) ==> read == BytesReadView::Contents(contents)
        },
{
}

/// A step that only reads, and the last one, do not go on with an operation's
/// outcome.
pub proof fn law_reading_steps_wait(
    step: InstallView,
    removal: UninstallView,
    outcome: Option<Seq<char>>,
)
    ensures
        step is ReadConfig || step is ReadScript || step is Finished ==> step.after(outcome) == step,
        removal is ReadConfig || removal is CheckLink || removal is ReadScript
            || removal is Finished ==> removal.after(outcome) == removal,
{
}

} // verus!
