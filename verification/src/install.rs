//! Installing the integration, removing it and looking whether it is there, as
//! steps: each says which operation on the file system comes next, and the
//! outcome of that operation decides on the step after it.
use vstd::prelude::*;

use crate::command::hook_command;
use crate::config::managed_group_present;
use crate::config::register_managed_group;
use crate::config::unregister_managed_group;
use crate::error::ErrorView;
use crate::error::IntegrationError;
use crate::json::Json;
use crate::json::JsonTree;
use crate::parse::parse_text;
use crate::platform::Platform;

verus! {

/// What came of reading a text file.
#[derive(Debug)]
pub enum TextRead {
    Contents(String),
    NotFound,
    /// Reading failed otherwise; this is what the system says.
    Failed(String),
}

/// What came of reading a file.
#[derive(Debug)]
pub enum BytesRead {
    Contents(Vec<u8>),
    NotFound,
    /// Reading failed otherwise; this is what the system says.
    Failed(String),
}

/// What came of reading a file, as a mathematical value.
pub enum BytesReadView {
    Contents(Seq<u8>),
    NotFound,
    Failed(Seq<char>),
}

impl View for BytesRead {
    type V = BytesReadView;

    open spec fn view(&self) -> BytesReadView {
        match self {
            BytesRead::Contents(bytes) => BytesReadView::Contents(bytes@),
            BytesRead::NotFound => BytesReadView::NotFound,
            BytesRead::Failed(message) => BytesReadView::Failed(message@),
        }
    }
}

/// What a failed operation says; `None` for one that succeeded.
pub open spec fn failure(outcome: Result<(), String>) -> Option<Seq<char>> {
    match outcome {
        Ok(()) => None,
        Err(message) => Some(message@),
    }
}

/// What is installed, and where.
#[derive(Debug)]
pub struct Setup {
    pub platform: Platform,
    /// The contents of the hook script.
    pub script: Vec<u8>,
    /// The path of the hook script; `None` where it is not valid Unicode.
    pub script_path: Option<String>,
    /// The path of the hook script, as the user is shown it.
    pub script_shown: String,
    /// The path of Devin's configuration, as the user is shown it.
    pub config_shown: String,
}

/// What an installation writes, and what it puts back where it fails.
#[derive(Debug)]
pub struct Changes {
    /// The configuration to be written.
    pub config: Json,
    /// The contents of the hook script to be written.
    pub script: Vec<u8>,
    /// The contents of the hook script before; `None` where there was none.
    pub previous: Option<Vec<u8>>,
}

/// The next step of an installation.
#[derive(Debug)]
pub enum InstallStep {
    /// Read the configuration; the hook will run `command`.
    ReadConfig { command: String },
    /// Read the hook script; the configuration will be `config`.
    ReadScript { config: Json },
    /// Make the directory of the hook script, with those above it.
    CreateDirectory { changes: Changes },
    /// Write the hook script, with the contents `changes.script`.
    WriteScript { changes: Changes },
    /// Make the hook script executable.
    MakeExecutable { changes: Changes },
    /// Write the configuration `changes.config`.
    WriteConfig { changes: Changes },
    /// Write the hook script as it was before. Whether that succeeds does not
    /// matter.
    RestoreScript { contents: Vec<u8>, error: IntegrationError },
    /// Make the restored hook script executable. Whether that succeeds does not
    /// matter.
    RestoreExecutable { error: IntegrationError },
    /// Remove the hook script, as there was none before. Whether that succeeds
    /// does not matter.
    RemoveScript { error: IntegrationError },
    /// Nothing is left to do.
    Finished { result: Result<(), IntegrationError> },
}

/// The next step of a removal.
#[derive(Debug)]
pub enum UninstallStep {
    /// Read the configuration; the hook runs `command`.
    ReadConfig { command: String },
    /// Look whether the configuration is a symbolic link; it will be `config`.
    CheckLink { config: Json },
    /// Write the configuration `config`.
    WriteConfig { config: Json },
    /// Read the hook script.
    ReadScript,
    /// Remove the hook script. Whether that succeeds does not matter.
    RemoveScript,
    /// Nothing is left to do.
    Finished { result: Result<(), IntegrationError> },
}

/// [`Changes`] as a mathematical value.
pub struct ChangesView {
    pub config: JsonTree,
    pub script: Seq<u8>,
    pub previous: Option<Seq<u8>>,
}

/// [`InstallStep`] as a mathematical value.
pub enum InstallView {
    ReadConfig { command: Seq<char> },
    ReadScript { config: JsonTree },
    CreateDirectory { changes: ChangesView },
    WriteScript { changes: ChangesView },
    MakeExecutable { changes: ChangesView },
    WriteConfig { changes: ChangesView },
    RestoreScript { contents: Seq<u8>, error: ErrorView },
    RestoreExecutable { error: ErrorView },
    RemoveScript { error: ErrorView },
    Finished { result: Result<(), ErrorView> },
}

/// [`UninstallStep`] as a mathematical value.
pub enum UninstallView {
    ReadConfig { command: Seq<char> },
    CheckLink { config: JsonTree },
    WriteConfig { config: JsonTree },
    ReadScript,
    RemoveScript,
    Finished { result: Result<(), ErrorView> },
}

/// Bytes that may be missing, as a mathematical value.
pub open spec fn bytes_view(bytes: Option<Vec<u8>>) -> Option<Seq<u8>> {
    match bytes {
        Some(bytes) => Some(bytes@),
        None => None,
    }
}

/// A result as a mathematical value.
pub open spec fn result_view(result: Result<(), IntegrationError>) -> Result<(), ErrorView> {
    match result {
        Ok(()) => Ok(()),
        Err(error) => Err(error@),
    }
}

impl View for Changes {
    type V = ChangesView;

    open spec fn view(&self) -> ChangesView {
        ChangesView {
            config: self.config@,
            script: self.script@,
            previous: bytes_view(self.previous),
        }
    }
}

impl View for InstallStep {
    type V = InstallView;

    open spec fn view(&self) -> InstallView {
        match *self {
            InstallStep::ReadConfig { command } => InstallView::ReadConfig { command: command@ },
            InstallStep::ReadScript { config } => InstallView::ReadScript { config: config@ },
            InstallStep::CreateDirectory { changes } =>
                InstallView::CreateDirectory { changes: changes@ },
            InstallStep::WriteScript { changes } => InstallView::WriteScript { changes: changes@ },
            InstallStep::MakeExecutable { changes } =>
                InstallView::MakeExecutable { changes: changes@ },
            InstallStep::WriteConfig { changes } => InstallView::WriteConfig { changes: changes@ },
            InstallStep::RestoreScript { contents, error } =>
                InstallView::RestoreScript { contents: contents@, error: error@ },
            InstallStep::RestoreExecutable { error } =>
                InstallView::RestoreExecutable { error: error@ },
            InstallStep::RemoveScript { error } => InstallView::RemoveScript { error: error@ },
            InstallStep::Finished { result } =>
                InstallView::Finished { result: result_view(result) },
        }
    }
}

impl View for UninstallStep {
    type V = UninstallView;

    open spec fn view(&self) -> UninstallView {
        match *self {
            UninstallStep::ReadConfig { command } =>
                UninstallView::ReadConfig { command: command@ },
            UninstallStep::CheckLink { config } => UninstallView::CheckLink { config: config@ },
            UninstallStep::WriteConfig { config } => UninstallView::WriteConfig { config: config@ },
            UninstallStep::ReadScript => UninstallView::ReadScript,
            UninstallStep::RemoveScript => UninstallView::RemoveScript,
            UninstallStep::Finished { result } =>
                UninstallView::Finished { result: result_view(result) },
        }
    }
}

/// The configuration that was read: a missing one is empty, and one that is not
/// plain JSON is none.
pub open spec fn config_in(read: TextRead) -> Result<JsonTree, ErrorView> {
    match read {
        TextRead::Contents(text) => match crate::parse::parsed_text(text@) {
            Ok(config) => Ok(config),
            Err(message) => Err(ErrorView::InvalidConfig(message)),
        },
        TextRead::NotFound => Ok(JsonTree::Object(Map::empty())),
        TextRead::Failed(message) => Err(ErrorView::Io(message@)),
    }
}

/// Whether two byte strings are the same.
fn same_bytes(a: &Vec<u8>, b: &Vec<u8>) -> (same: bool)
    ensures
        same == (a@ == b@),
{
    if a.len() != b.len() {
        return false;
    }
    let mut i: usize = 0;
    while i < a.len()
        invariant
            a@.len() == b@.len(),
            i <= a@.len(),
            forall|j: int| 0 <= j < i ==> a@[j] == b@[j],
        decreases a@.len() - i,
    {
        if a[i] != b[i] {
            return false;
        }
        i += 1;
    }
    assert(a@ =~= b@);
    true
}

/// The same bytes again.
fn copy_bytes(bytes: &Vec<u8>) -> (copy: Vec<u8>)
    ensures
        copy@ == bytes@,
{
    let copy = bytes.clone();
    assert(copy@ =~= bytes@);
    copy
}

/// The configuration that was read.
///
/// Devin tolerates JSONC in its config. Luvus cannot rewrite comments without
/// dropping them, so anything that is not plain JSON is refused unchanged.
pub fn read_config(read: TextRead) -> (config: Result<Json, IntegrationError>)
    ensures
        match config {
            Ok(config) => config_in(read) == Ok::<JsonTree, ErrorView>(config@),
            Err(error) => config_in(read) == Err::<JsonTree, ErrorView>(error@),
        },
{
    match read {
        TextRead::Contents(text) => match parse_text(text.as_str()) {
            Ok(config) => Ok(config),
            Err(message) => Err(IntegrationError::InvalidConfig(message)),
        },
        TextRead::NotFound => {
            let empty: Vec<(String, Json)> = Vec::new();
            assert(crate::json::entry_trees(empty@) == Map::<Seq<char>, JsonTree>::empty());
            Ok(Json::Object(empty))
        },
        TextRead::Failed(message) => Err(IntegrationError::Io(message)),
    }
}

/// Refuses a configuration that is a symbolic link. `is_symlink` is `None` where
/// nothing can be said of the path.
///
/// Replacing a symlinked config would turn it into a regular file and detach a
/// dotfiles-managed target, so Luvus refuses to write through the link.
pub fn refuse_symlinked_config(is_symlink: Option<bool>, path: &str) -> (result: Result<
    (),
    IntegrationError,
>)
    ensures
        result_view(result) == (if is_symlink == Some(true) {
            Err::<(), ErrorView>(ErrorView::SymlinkedConfig(path@))
        } else {
            Ok::<(), ErrorView>(())
        }),
{
    match is_symlink {
        Some(true) => Err(IntegrationError::SymlinkedConfig(path.to_owned())),
        _ => Ok(()),
    }
}

impl Setup {
    /// The hook command, unless the script's path is not valid Unicode.
    pub open spec fn command(self) -> Option<Seq<char>> {
        match self.script_path {
            Some(path) => Some(crate::command::command_for(path@, self.platform)),
            None => None,
        }
    }

    /// The step after looking whether the configuration is a symbolic link.
    pub open spec fn install_start(self, is_symlink: Option<bool>) -> InstallView {
        if is_symlink == Some(true) {
            InstallView::Finished {
                result: Err(ErrorView::SymlinkedConfig(self.config_shown@)),
            }
        } else {
            match self.command() {
                Some(command) => InstallView::ReadConfig { command },
                None => InstallView::Finished { result: Err(ErrorView::PathNotUnicode) },
            }
        }
    }

    /// The step after reading the configuration.
    pub open spec fn install_with_config(
        self,
        command: Seq<char>,
        config: Result<JsonTree, ErrorView>,
    ) -> InstallView {
        match config {
            Err(error) => InstallView::Finished { result: Err(error) },
            Ok(config) => match crate::config::registered(config, command, self.platform) {
                Err(error) => InstallView::Finished { result: Err(error) },
                Ok(config) => InstallView::ReadScript { config },
            },
        }
    }

    /// The step after reading the hook script: a modified one is not replaced.
    pub open spec fn install_with_script(self, config: JsonTree, read: BytesReadView) -> InstallView {
        match read {
            BytesReadView::Contents(bytes) => if bytes == self.script@ {
                InstallView::CreateDirectory {
                    changes: ChangesView { config, script: self.script@, previous: Some(bytes) },
                }
            } else {
                InstallView::Finished {
                    result: Err(ErrorView::ModifiedScript(self.script_shown@)),
                }
            },
            BytesReadView::NotFound => InstallView::CreateDirectory {
                changes: ChangesView { config, script: self.script@, previous: None },
            },
            BytesReadView::Failed(message) => InstallView::Finished {
                result: Err(ErrorView::Io(message)),
            },
        }
    }

    /// The step after looking whether there is a configuration.
    pub open spec fn uninstall_start(self, config_is_file: bool) -> UninstallView {
        if !config_is_file {
            UninstallView::Finished { result: Ok(()) }
        } else {
            match self.command() {
                Some(command) => UninstallView::ReadConfig { command },
                None => UninstallView::Finished { result: Err(ErrorView::PathNotUnicode) },
            }
        }
    }

    /// The step after reading the configuration.
    pub open spec fn uninstall_with_config(
        self,
        command: Seq<char>,
        config: Result<JsonTree, ErrorView>,
    ) -> UninstallView {
        match config {
            Err(error) => UninstallView::Finished { result: Err(error) },
            Ok(config) => match crate::config::unregistered(config, command, self.platform) {
                Err(error) => UninstallView::Finished { result: Err(error) },
                Ok(Some(config)) => UninstallView::CheckLink { config },
                Ok(None) => UninstallView::Finished { result: Ok(()) },
            },
        }
    }

    /// The step after looking whether the configuration is a symbolic link.
    pub open spec fn uninstall_with_link(
        self,
        config: JsonTree,
        is_symlink: Option<bool>,
    ) -> UninstallView {
        if is_symlink == Some(true) {
            UninstallView::Finished {
                result: Err(ErrorView::SymlinkedConfig(self.config_shown@)),
            }
        } else {
            UninstallView::WriteConfig { config }
        }
    }

    /// The step after reading the hook script: a modified one is not removed.
    pub open spec fn uninstall_with_script(self, read: BytesReadView) -> UninstallView {
        if read == BytesReadView::Contents(self.script@) {
            UninstallView::RemoveScript
        } else {
            UninstallView::Finished { result: Ok(()) }
        }
    }

    /// Whether the integration is installed: the hook script is there unmodified
    /// and the configuration has a hook that runs it.
    pub open spec fn is_installed_with(
        self,
        script: BytesReadView,
        config: Result<JsonTree, ErrorView>,
    ) -> bool {
        &&& script == BytesReadView::Contents(self.script@)
        &&& self.command() matches Some(command) && config matches Ok(config)
            && crate::config::is_present(config, command)
    }

    /// The hook command, unless the script's path is not valid Unicode.
    pub fn hook_command(&self) -> (command: Result<String, IntegrationError>)
        ensures
            match command {
                Ok(command) => self.command() == Some(command@),
                Err(error) => self.command() is None && error is PathNotUnicode,
            },
    {
        match &self.script_path {
            Some(path) => hook_command(Some(path.as_str()), self.platform),
            None => hook_command(None, self.platform),
        }
    }

    /// Begins an installation, once it is known whether the configuration is a
    /// symbolic link.
    pub fn install(&self, is_symlink: Option<bool>) -> (step: InstallStep)
        ensures
            step@ == self.install_start(is_symlink),
    {
        match refuse_symlinked_config(is_symlink, self.config_shown.as_str()) {
            Ok(()) => {},
            Err(error) => return InstallStep::Finished { result: Err(error) },
        }
        match self.hook_command() {
            Ok(command) => InstallStep::ReadConfig { command },
            Err(error) => InstallStep::Finished { result: Err(error) },
        }
    }

    /// Goes on with an installation after [`InstallStep::ReadConfig`].
    pub fn install_config_read(&self, command: String, read: TextRead) -> (step: InstallStep)
        ensures
            step@ == self.install_with_config(command@, config_in(read)),
    {
        let mut config = match read_config(read) {
            Ok(config) => config,
            Err(error) => return InstallStep::Finished { result: Err(error) },
        };
        match register_managed_group(&mut config, command.as_str(), self.platform) {
            Ok(()) => InstallStep::ReadScript { config },
            Err(error) => InstallStep::Finished { result: Err(error) },
        }
    }

    /// Goes on with an installation after [`InstallStep::ReadScript`].
    pub fn install_script_read(&self, config: Json, read: BytesRead) -> (step: InstallStep)
        ensures
            step@ == self.install_with_script(config@, read@),
    {
        let script = copy_bytes(&self.script);
        match read {
            BytesRead::Contents(bytes) => {
                if same_bytes(&bytes, &self.script) {
                    let changes = Changes { config, script, previous: Some(bytes) };
                    InstallStep::CreateDirectory { changes }
                } else {
                    let error = IntegrationError::ModifiedScript(self.script_shown.clone());
                    InstallStep::Finished { result: Err(error) }
                }
            },
            BytesRead::NotFound => {
                let changes = Changes { config, script, previous: None };
                InstallStep::CreateDirectory { changes }
            },
            BytesRead::Failed(message) => {
                InstallStep::Finished { result: Err(IntegrationError::Io(message)) }
            },
        }
    }

    /// Begins a removal, once it is known whether the configuration is a file.
    pub fn uninstall(&self, config_is_file: bool) -> (step: UninstallStep)
        ensures
            step@ == self.uninstall_start(config_is_file),
    {
        if !config_is_file {
            return UninstallStep::Finished { result: Ok(()) };
        }
        match self.hook_command() {
            Ok(command) => UninstallStep::ReadConfig { command },
            Err(error) => UninstallStep::Finished { result: Err(error) },
        }
    }

    /// Goes on with a removal after [`UninstallStep::ReadConfig`].
    pub fn uninstall_config_read(&self, command: String, read: TextRead) -> (step: UninstallStep)
        ensures
            step@ == self.uninstall_with_config(command@, config_in(read)),
    {
        let mut config = match read_config(read) {
            Ok(config) => config,
            Err(error) => return UninstallStep::Finished { result: Err(error) },
        };
        match unregister_managed_group(&mut config, command.as_str(), self.platform) {
            Ok(true) => UninstallStep::CheckLink { config },
            Ok(false) => UninstallStep::Finished { result: Ok(()) },
            Err(error) => UninstallStep::Finished { result: Err(error) },
        }
    }

    /// Goes on with a removal after [`UninstallStep::CheckLink`].
    pub fn uninstall_link_checked(&self, config: Json, is_symlink: Option<bool>) -> (step:
        UninstallStep)
        ensures
            step@ == self.uninstall_with_link(config@, is_symlink),
    {
        match refuse_symlinked_config(is_symlink, self.config_shown.as_str()) {
            Ok(()) => UninstallStep::WriteConfig { config },
            Err(error) => UninstallStep::Finished { result: Err(error) },
        }
    }

    /// Goes on with a removal after [`UninstallStep::ReadScript`].
    pub fn uninstall_script_read(&self, read: BytesRead) -> (step: UninstallStep)
        ensures
            step@ == self.uninstall_with_script(read@),
    {
        if self.script_is_current(&read) {
            UninstallStep::RemoveScript
        } else {
            UninstallStep::Finished { result: Ok(()) }
        }
    }

    /// Whether the hook script is there unmodified.
    pub fn script_is_current(&self, read: &BytesRead) -> (current: bool)
        ensures
            current == (read@ == BytesReadView::Contents(self.script@)),
    {
        match read {
            BytesRead::Contents(bytes) => same_bytes(bytes, &self.script),
            _ => false,
        }
    }

    /// Whether the integration is installed, from what the hook script and the
    /// configuration hold.
    pub fn is_installed(&self, script: BytesRead, config: TextRead) -> (installed: bool)
        ensures
            installed == self.is_installed_with(script@, config_in(config)),
    {
        if !self.script_is_current(&script) {
            return false;
        }
        match (self.hook_command(), read_config(config)) {
            (Ok(command), Ok(config)) => managed_group_present(&config, command.as_str()),
            _ => false,
        }
    }
}

/// The step that begins to put the hook script back as it was before.
pub open spec fn restoring(previous: Option<Seq<u8>>, error: ErrorView) -> InstallView {
    match previous {
        Some(contents) => InstallView::RestoreScript { contents, error },
        None => InstallView::RemoveScript { error },
    }
}

/// Begins to put the hook script back as it was before, after which the
/// installation fails with `error`.
pub fn restore_script(previous: Option<Vec<u8>>, error: IntegrationError) -> (step: InstallStep)
    ensures
        step@ == restoring(bytes_view(previous), error@),
{
    match previous {
        Some(contents) => InstallStep::RestoreScript { contents, error },
        None => InstallStep::RemoveScript { error },
    }
}

impl InstallView {
    /// The step after the operation of this one, which failed with these words or
    /// did not. Once the hook script is written, a failure first puts it back.
    pub open spec fn after(self, failed: Option<Seq<char>>) -> InstallView {
        match (self, failed) {
            (InstallView::CreateDirectory { changes }, None) => InstallView::WriteScript {
                changes,
            },
            (InstallView::WriteScript { changes }, None) => InstallView::MakeExecutable {
                changes,
            },
            (InstallView::MakeExecutable { changes }, None) => InstallView::WriteConfig {
                changes,
            },
            (InstallView::WriteConfig { .. }, None) => InstallView::Finished { result: Ok(()) },
            (InstallView::CreateDirectory { .. }, Some(message)) => InstallView::Finished {
                result: Err(ErrorView::Io(message)),
            },
            (InstallView::WriteScript { .. }, Some(message)) => InstallView::Finished {
                result: Err(ErrorView::Io(message)),
            },
            (InstallView::MakeExecutable { changes }, Some(message)) => restoring(
                changes.previous,
                ErrorView::Io(message),
            ),
            (InstallView::WriteConfig { changes }, Some(message)) => restoring(
                changes.previous,
                ErrorView::Io(message),
            ),
            (InstallView::RestoreScript { contents, error }, _) => InstallView::RestoreExecutable {
                error,
            },
            (InstallView::RestoreExecutable { error }, _) => InstallView::Finished {
                result: Err(error),
            },
            (InstallView::RemoveScript { error }, _) => InstallView::Finished {
                result: Err(error),
            },
            (step, _) => step,
        }
    }
}

impl InstallStep {
    /// Goes on with an installation after a step that changes the file system. A
    /// step that reads, and the last one, stay as they are.
    pub fn done(self, outcome: Result<(), String>) -> (step: InstallStep)
        ensures
            step@ == self@.after(failure(outcome)),
    {
        match (self, outcome) {
            (InstallStep::CreateDirectory { changes }, Ok(())) => InstallStep::WriteScript {
                changes,
            },
            (InstallStep::WriteScript { changes }, Ok(())) => InstallStep::MakeExecutable {
                changes,
            },
            (InstallStep::MakeExecutable { changes }, Ok(())) => InstallStep::WriteConfig {
                changes,
            },
            (InstallStep::WriteConfig { .. }, Ok(())) => InstallStep::Finished { result: Ok(()) },
            (InstallStep::CreateDirectory { .. }, Err(message)) => InstallStep::Finished {
                result: Err(IntegrationError::Io(message)),
            },
            (InstallStep::WriteScript { .. }, Err(message)) => InstallStep::Finished {
                result: Err(IntegrationError::Io(message)),
            },
            (InstallStep::MakeExecutable { changes }, Err(message)) => restore_script(
                changes.previous,
                IntegrationError::Io(message),
            ),
            (InstallStep::WriteConfig { changes }, Err(message)) => restore_script(
                changes.previous,
                IntegrationError::Io(message),
            ),
            (InstallStep::RestoreScript { contents: _, error }, _) => {
                InstallStep::RestoreExecutable { error }
            },
            (InstallStep::RestoreExecutable { error }, _) => InstallStep::Finished {
                result: Err(error),
            },
            (InstallStep::RemoveScript { error }, _) => InstallStep::Finished {
                result: Err(error),
            },
            (step, _) => step,
        }
    }
}

impl UninstallView {
    /// The step after the operation of this one, which failed with these words or
    /// did not.
    pub open spec fn after(self, failed: Option<Seq<char>>) -> UninstallView {
        match (self, failed) {
            (UninstallView::WriteConfig { .. }, None) => UninstallView::ReadScript,
            (UninstallView::WriteConfig { .. }, Some(message)) => UninstallView::Finished {
                result: Err(ErrorView::Io(message)),
            },
            (UninstallView::RemoveScript, _) => UninstallView::Finished { result: Ok(()) },
            (step, _) => step,
        }
    }
}

impl UninstallStep {
    /// Goes on with a removal after a step that changes the file system. A step
    /// that reads, and the last one, stay as they are.
    pub fn done(self, outcome: Result<(), String>) -> (step: UninstallStep)
        ensures
            step@ == self@.after(failure(outcome)),
    {
        match (self, outcome) {
            (UninstallStep::WriteConfig { .. }, Ok(())) => UninstallStep::ReadScript,
            (UninstallStep::WriteConfig { .. }, Err(message)) => UninstallStep::Finished {
                result: Err(IntegrationError::Io(message)),
            },
            (UninstallStep::RemoveScript, _) => UninstallStep::Finished { result: Ok(()) },
            (step, _) => step,
        }
    }
}

} // verus!
