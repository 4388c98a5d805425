//! Why an installation, or its removal, is refused.
use vstd::prelude::*;

use crate::platform::Platform;
use crate::platform::script_name;
use crate::platform::script_name_of;

verus! {

/// Why the integration could not be installed, removed or looked up.
#[derive(Debug)]
pub enum IntegrationError {
    /// The path of the hook script is not valid Unicode.
    PathNotUnicode,
    /// The configuration is not plain JSON; this is what the parser says.
    InvalidConfig(String),
    /// The configuration is no JSON object.
    RootNotObject,
    /// The configuration's `hooks` is no JSON object.
    HooksNotObject,
    /// The configuration's `hooks.SessionStart` is no JSON array.
    SessionStartNotArray,
    /// Some other hook on session start runs the hook script.
    UnmanagedHook(Platform),
    /// The hook that runs the hook script was edited.
    EditedHook(Platform),
    /// The configuration, at this path, is a symbolic link.
    SymlinkedConfig(String),
    /// The hook script, at this path, was modified.
    ModifiedScript(String),
    /// An operation on the file system failed; this is what the system says.
    Io(String),
}

/// What an [`IntegrationError`] says, as a mathematical value.
pub enum ErrorView {
    PathNotUnicode,
    InvalidConfig(Seq<char>),
    RootNotObject,
    HooksNotObject,
    SessionStartNotArray,
    UnmanagedHook(Platform),
    EditedHook(Platform),
    SymlinkedConfig(Seq<char>),
    ModifiedScript(Seq<char>),
    Io(Seq<char>),
}

impl View for IntegrationError {
    type V = ErrorView;

    open spec fn view(&self) -> ErrorView {
        match self {
            IntegrationError::PathNotUnicode => ErrorView::PathNotUnicode,
            IntegrationError::InvalidConfig(text) => ErrorView::InvalidConfig(text@),
            IntegrationError::RootNotObject => ErrorView::RootNotObject,
            IntegrationError::HooksNotObject => ErrorView::HooksNotObject,
            IntegrationError::SessionStartNotArray => ErrorView::SessionStartNotArray,
            IntegrationError::UnmanagedHook(platform) => ErrorView::UnmanagedHook(*platform),
            IntegrationError::EditedHook(platform) => ErrorView::EditedHook(*platform),
            IntegrationError::SymlinkedConfig(path) => ErrorView::SymlinkedConfig(path@),
            IntegrationError::ModifiedScript(path) => ErrorView::ModifiedScript(path@),
            IntegrationError::Io(text) => ErrorView::Io(text@),
        }
    }
}

impl ErrorView {
    /// The words in which the user is told.
    pub open spec fn message(self) -> Seq<char> {
        match self {
            ErrorView::PathNotUnicode => "Devin integration path is not valid Unicode"@,
            ErrorView::InvalidConfig(text) => text,
            ErrorView::RootNotObject => "Devin config must contain a JSON object"@,
            ErrorView::HooksNotObject => "Devin config `hooks` must contain a JSON object"@,
            ErrorView::SessionStartNotArray =>
                "Devin `hooks.SessionStart` must contain a JSON array"@,
            ErrorView::UnmanagedHook(platform) =>
                "Devin SessionStart contains an unmanaged `"@ + script_name_of(platform)
                    + "` hook"@,
            ErrorView::EditedHook(platform) =>
                "Devin SessionStart contains an edited `"@ + script_name_of(platform)
                    + "` hook; remove it manually before uninstalling"@,
            ErrorView::SymlinkedConfig(path) =>
                "refusing to modify symlinked Devin config "@ + path
                    + "; add the hook to the link target manually"@,
            ErrorView::ModifiedScript(path) =>
                "refusing to replace modified Devin integration asset "@ + path,
            ErrorView::Io(text) => text,
        }
    }
}

impl IntegrationError {
    /// The words in which the user is told.
    pub fn message(&self) -> (message: String)
        ensures
            message@ == self@.message(),
    {
        match self {
            IntegrationError::PathNotUnicode => {
                "Devin integration path is not valid Unicode".to_owned()
            },
            IntegrationError::InvalidConfig(text) => text.clone(),
            IntegrationError::RootNotObject => "Devin config must contain a JSON object".to_owned(),
            IntegrationError::HooksNotObject => {
                "Devin config `hooks` must contain a JSON object".to_owned()
            },
            IntegrationError::SessionStartNotArray => {
                "Devin `hooks.SessionStart` must contain a JSON array".to_owned()
            },
            IntegrationError::UnmanagedHook(platform) => {
                "Devin SessionStart contains an unmanaged `".to_owned().concat(
                    script_name(*platform),
                ).concat("` hook")
            },
            IntegrationError::EditedHook(platform) => {
                "Devin SessionStart contains an edited `".to_owned().concat(
                    script_name(*platform),
                ).concat("` hook; remove it manually before uninstalling")
            },
            IntegrationError::SymlinkedConfig(path) => {
                "refusing to modify symlinked Devin config ".to_owned().concat(path).concat(
                    "; add the hook to the link target manually",
                )
            },
            IntegrationError::ModifiedScript(path) => {
                "refusing to replace modified Devin integration asset ".to_owned().concat(path)
            },
            IntegrationError::Io(text) => text.clone(),
        }
    }
}

} // verus!
