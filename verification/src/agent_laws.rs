//! What holds of every line that resumes a session, of every message to the user,
//! and of where the files are.
use vstd::prelude::*;

use crate::agent::resume_line;
use crate::error::ErrorView;
use crate::platform::config_dir_of;
use crate::platform::script_name_of;
use crate::platform::texts;
use crate::platform::Platform;

verus! {

/// The line that resumes a session holds the session's id, whole, between the
/// command and the return that sends it.
pub proof fn law_resume_line_holds_session(session: Seq<char>)
    ensures
        resume_line(session).len() == session.len() + 16,
        resume_line(session).take(15) == "devin --resume "@,
        resume_line(session).skip(15).drop_last() == session,
        resume_line(session).last() == '\r',
{
    reveal_strlit("devin --resume ");
    reveal_strlit("\r");
    let line = resume_line(session);
    assert(line.take(15) =~= "devin --resume "@);
    assert(line.skip(15).drop_last() =~= session);
}

/// A message that is about a path holds that path, whole; one that hands on what
/// the system or the parser says is these words, whole.
pub proof fn law_message_holds_path_or_words(text: Seq<char>)
    ensures
        ErrorView::InvalidConfig(text).message() == text,
        ErrorView::Io(text).message() == text,
        ErrorView::SymlinkedConfig(text).message()
            == "refusing to modify symlinked Devin config "@ + text
            + "; add the hook to the link target manually"@,
        ErrorView::ModifiedScript(text).message()
            == "refusing to replace modified Devin integration asset "@ + text,
{
}

/// A message that depends on nothing is always the same.
pub proof fn law_fixed_messages()
    ensures
        ErrorView::PathNotUnicode.message() == "Devin integration path is not valid Unicode"@,
        ErrorView::RootNotObject.message() == "Devin config must contain a JSON object"@,
        ErrorView::HooksNotObject.message() == "Devin config `hooks` must contain a JSON object"@,
        ErrorView::SessionStartNotArray.message()
            == "Devin `hooks.SessionStart` must contain a JSON array"@,
{
}

/// A message about a hook names the script of the platform.
pub proof fn law_message_names_script(platform: Platform)
    ensures
        ErrorView::UnmanagedHook(platform).message()
            == "Devin SessionStart contains an unmanaged `"@ + script_name_of(platform)
            + "` hook"@,
        ErrorView::EditedHook(platform).message() == "Devin SessionStart contains an edited `"@
            + script_name_of(platform) + "` hook; remove it manually before uninstalling"@,
{
}

/// The files are in Devin's user configuration, below the home directory.
pub proof fn law_files_are_in_user_configuration()
    ensures
        script_name_of(Platform::Unix) == "luvus-agent-hook.sh"@,
        script_name_of(Platform::Windows) == "luvus-agent-hook.ps1"@,
        config_dir_of(Platform::Unix) == seq![".config"@, "devin"@],
        config_dir_of(Platform::Windows) == seq!["AppData"@, "Roaming"@, "devin"@],
{
}

/// A list of texts has the characters of each text at its place.
pub proof fn law_texts_keep_all(list: Seq<&'static str>, i: int)
    ensures
        texts(list).len() == list.len(),
        0 <= i < list.len() ==> texts(list)[i] == list[i]@,
{
}

} // verus!
