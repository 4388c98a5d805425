//! What the mathematical values of results, errors and steps say of them.
use vstd::prelude::*;

use crate::error::ErrorView;
use crate::error::IntegrationError;
use crate::install::bytes_view;
use crate::install::failure;
use crate::install::result_view;
use crate::install::BytesRead;
use crate::install::Changes;
use crate::install::InstallStep;
use crate::install::UninstallStep;

verus! {

/// What came of reading a file is told apart: its contents, that there is none, or
/// the system's words.
pub proof fn law_read_says_what_came(read: BytesRead)
    ensures
        read@ is NotFound <==> read is NotFound,
        read@ is Contents <==> read is Contents,
        read@ is Failed <==> read is Failed,
        read is Contents ==> read@->Contents_0 == read->Contents_0@,
        read is Failed ==> read@->Failed_0 == read->Failed_0@,
{
}

/// An operation that failed is told by its words, and bytes that may be missing by
/// themselves.
pub proof fn law_outcome_says_what_came(outcome: Result<(), String>, bytes: Option<Vec<u8>>)
    ensures
        failure(outcome) is None <==> outcome is Ok,
        outcome is Err ==> failure(outcome) == Some(outcome->Err_0@),
        bytes_view(bytes) is None <==> bytes is None,
        bytes is Some ==> bytes_view(bytes) == Some(bytes->0@),
{
}

/// An error says which one it is, and the text that it holds.
pub proof fn law_error_says_which_it_is(error: IntegrationError)
    ensures
        match error {
            IntegrationError::PathNotUnicode => error@ is PathNotUnicode,
            IntegrationError::InvalidConfig(text) => error@ == ErrorView::InvalidConfig(text@),
            IntegrationError::RootNotObject => error@ is RootNotObject,
            IntegrationError::HooksNotObject => error@ is HooksNotObject,
            IntegrationError::SessionStartNotArray => error@ is SessionStartNotArray,
            IntegrationError::UnmanagedHook(platform) => error@ == ErrorView::UnmanagedHook(
                platform,
            ),
            IntegrationError::EditedHook(platform) => error@ == ErrorView::EditedHook(platform),
            IntegrationError::SymlinkedConfig(path) => error@ == ErrorView::SymlinkedConfig(path@),
            IntegrationError::ModifiedScript(path) => error@ == ErrorView::ModifiedScript(path@),
            IntegrationError::Io(text) => error@ == ErrorView::Io(text@),
        },
{
}

/// A result says whether it succeeded, and with which error it did not.
pub proof fn law_result_says_whether_it_succeeded(result: Result<(), IntegrationError>)
    ensures
        result is Ok ==> result_view(result) == Ok::<(), ErrorView>(()),
        result is Err ==> result_view(result) == Err::<(), ErrorView>(result->Err_0@),
{
}

/// Changes say what is to be written and what is to be put back.
pub proof fn law_changes_say_what_is_written(changes: Changes)
    ensures
        changes@.config == changes.config@,
        changes@.script == changes.script@,
        changes@.previous == bytes_view(changes.previous),
{
}

/// A step of an installation says which operation it is, and on what.
pub proof fn law_install_step_says_what_it_does(step: InstallStep)
    ensures
        match step {
            InstallStep::ReadConfig { command } => step@ is ReadConfig
                && step@->ReadConfig_command == command@,
            InstallStep::ReadScript { config } => step@ is ReadScript
                && step@->ReadScript_config == config@,
            InstallStep::CreateDirectory { changes } => step@ is CreateDirectory
                && step@->CreateDirectory_changes == changes@,
            InstallStep::WriteScript { changes } => step@ is WriteScript
                && step@->WriteScript_changes == changes@,
            InstallStep::MakeExecutable { changes } => step@ is MakeExecutable
                && step@->MakeExecutable_changes == changes@,
            InstallStep::WriteConfig { changes } => step@ is WriteConfig
                && step@->WriteConfig_changes == changes@,
            InstallStep::RestoreScript { contents, error } => step@ is RestoreScript
                && step@->RestoreScript_contents == contents@ && step@->RestoreScript_error
                == error@,
            InstallStep::RestoreExecutable { error } => step@ is RestoreExecutable
                && step@->RestoreExecutable_error == error@,
            InstallStep::RemoveScript { error } => step@ is RemoveScript
                && step@->RemoveScript_error == error@,
            InstallStep::Finished { result } => step@ is Finished && step@->Finished_result
                == result_view(result),
        },
{
}

/// A step of a removal says which operation it is, and on what.
pub proof fn law_uninstall_step_says_what_it_does(step: UninstallStep)
    ensures
        match step {
            UninstallStep::ReadConfig { command } => step@ is ReadConfig
                && step@->ReadConfig_command == command@,
            UninstallStep::CheckLink { config } => step@ is CheckLink && step@->CheckLink_config
                == config@,
            UninstallStep::WriteConfig { config } => step@ is WriteConfig
                && step@->WriteConfig_config == config@,
            UninstallStep::ReadScript => step@ is ReadScript,
            UninstallStep::RemoveScript => step@ is RemoveScript,
            UninstallStep::Finished { result } => step@ is Finished && step@->Finished_result
                == result_view(result),
        },
{
}

} // verus!
