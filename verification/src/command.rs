//! The command that Devin runs as its hook, and finding it again.
use vstd::prelude::*;
use vstd::utf8::encode_utf8;

use crate::base64::base64_encode;
use crate::base64::decode_base64;
use crate::error::IntegrationError;
use crate::platform::Platform;
use crate::platform::script_name;
use crate::text::chars_of;
use crate::text::contains;
use crate::text::is_whitespace;
use crate::text::replace;
use crate::text::text_of;
use crate::text::to_ascii_lower;
use crate::utf16::text_from_utf16_bytes;
use crate::utf16::utf16_bytes;

verus! {

/// What stands before the base64 text in the command for Windows.
pub open spec fn powershell_prefix() -> Seq<char> {
    "powershell.exe -NoProfile -NonInteractive -ExecutionPolicy Bypass -EncodedCommand "@
}

/// The PowerShell statement that runs the script at `path`: the path as a
/// single-quoted literal, in which a quote is written twice.
pub open spec fn powershell_statement(path: Seq<char>) -> Seq<char> {
    "& '"@ + crate::text::replaced(path, '\'', "''"@) + "'"@
}

/// The base64 text of a statement's little-endian UTF-16, as PowerShell's
/// `-EncodedCommand` takes it.
pub open spec fn encoded_command(statement: Seq<char>) -> Seq<char> {
    crate::base64::encoded(crate::utf16::le_bytes(crate::utf16::units_of(statement)))
}

/// The hook command for the script at `path`.
pub open spec fn command_for(path: Seq<char>, platform: Platform) -> Seq<char> {
    match platform {
        Platform::Unix => "sh '"@ + crate::text::replaced(path, '\'', "'\\''"@) + "'"@,
        Platform::Windows => powershell_prefix() + encoded_command(powershell_statement(path)),
    }
}

/// Whether a text names the hook script. File names on Windows ignore case.
pub open spec fn names(text: Seq<char>, platform: Platform) -> bool {
    let name = crate::platform::script_name_of(platform);
    match platform {
        Platform::Unix => crate::text::contains_text(text, name),
        Platform::Windows => crate::text::contains_text(crate::text::ascii_lower(text), name),
    }
}

/// The text that a word holds as base64 of little-endian UTF-16, if it holds one.
pub open spec fn hidden_text(word: Seq<char>) -> Option<Seq<char>> {
    match crate::base64::decoded(encode_utf8(word)) {
        Some(bytes) => crate::utf16::text_of_utf16_bytes(bytes),
        None => None,
    }
}

/// Whether a word names the hook script in the text that it hides.
pub open spec fn word_mentions(word: Seq<char>, platform: Platform) -> bool {
    hidden_text(word) matches Some(text) && names(text, platform)
}

/// Whether the word from `start` to `end` names the hook script in the text that
/// it hides.
pub open spec fn word_mentions_at(
    command: Seq<char>,
    start: int,
    end: int,
    platform: Platform,
) -> bool {
    &&& crate::text::is_word(command, start, end)
    &&& word_mentions(command.subrange(start, end), platform)
}

/// Whether a hook command runs the hook script: it names the script itself or in
/// one of its encoded words.
pub open spec fn mentions(command: Seq<char>, platform: Platform) -> bool {
    ||| names(command, platform)
    ||| exists|start: int, end: int| word_mentions_at(command, start, end, platform)
}

/// The hook command for Windows.
///
/// Devin runs hook commands through the user's shell (Git Bash, cmd, or
/// PowerShell), and each one rewrites a quoted path that contains `$`,
/// backticks, `%`, or apostrophes. The script path therefore travels as a
/// single-quoted PowerShell literal inside `-EncodedCommand`, whose base64 text
/// no shell can alter.
pub fn powershell_hook_command(path: &str) -> (command: String)
    ensures
        command@ == command_for(path@, Platform::Windows),
{
    let quoted = replace(path, '\'', "''");
    let statement = "& '".to_owned().concat(quoted.as_str()).concat("'");
    let bytes = utf16_bytes(statement.as_str());
    let encoded = base64_encode(bytes.as_slice());
    "powershell.exe -NoProfile -NonInteractive -ExecutionPolicy Bypass -EncodedCommand ".to_owned().concat(
    encoded.as_str())
}

/// The hook command for the script at `path`, which is `None` where the path is
/// not valid Unicode.
pub fn hook_command(path: Option<&str>, platform: Platform) -> (command: Result<
    String,
    IntegrationError,
>)
    ensures
        match (path, command) {
            (Some(path), Ok(command)) => command@ == command_for(path@, platform),
            (None, Err(error)) => error is PathNotUnicode,
            _ => false,
        },
{
    let path = match path {
        Some(path) => path,
        None => return Err(IntegrationError::PathNotUnicode),
    };
    match platform {
        Platform::Unix => {
            let quoted = replace(path, '\'', "'\\''");
            Ok("sh '".to_owned().concat(quoted.as_str()).concat("'"))
        },
        Platform::Windows => Ok(powershell_hook_command(path)),
    }
}

/// Whether `text` names the hook script. File names on Windows ignore case, so
/// any casing there still runs the same script.
pub fn names_script(text: &str, platform: Platform) -> (named: bool)
    ensures
        named == names(text@, platform),
{
    match platform {
        Platform::Unix => contains(text, script_name(platform)),
        Platform::Windows => contains(to_ascii_lower(text).as_str(), script_name(platform)),
    }
}

/// Whether a word names the hook script in the text that it hides.
fn word_mentions_script(word: &str, platform: Platform) -> (found: bool)
    ensures
        found == word_mentions(word@, platform),
{
    match decode_base64(word) {
        Some(bytes) => match text_from_utf16_bytes(&bytes) {
            Some(text) => names_script(text.as_str(), platform),
            None => false,
        },
        None => false,
    }
}

/// Whether a hook command runs the hook script. The Windows command carries the
/// script path only inside its `-EncodedCommand` text, so base64 words are
/// decoded too; an edited command with extra PowerShell flags still matches.
pub fn command_mentions_script(command: &str, platform: Platform) -> (found: bool)
    ensures
        found == mentions(command@, platform),
{
    if names_script(command, platform) {
        return true;
    }
    let chars = chars_of(command);
    let len: usize = chars.len();
    let mut at: usize = 0;
    while at < len
        invariant
            chars@ == command@,
            len == chars@.len(),
            at <= len,
            0 < at < len ==> crate::text::is_white(chars@[at - 1]) || crate::text::is_white(
                chars@[at as int],
            ),
            forall|start: int, end: int|
                start < at ==> !word_mentions_at(command@, start, end, platform),
        decreases len - at,
    {
        if is_whitespace(chars[at]) {
            at += 1;
        } else {
            let start: usize = at;
            let mut end: usize = at + 1;
            while end < len && !is_whitespace(chars[end])
                invariant
                    len == chars@.len(),
                    start < end <= len,
                    forall|i: int|
                        start <= i < end ==> !crate::text::is_white(#[trigger] chars@[i]),
                ensures
                    start < end <= len,
                    forall|i: int|
                        start <= i < end ==> !crate::text::is_white(#[trigger] chars@[i]),
                    end < len ==> crate::text::is_white(chars@[end as int]),
                decreases len - end,
            {
                end += 1;
            }
            let word = text_of(&chars, start, end);
            if word_mentions_script(word.as_str(), platform) {
                assert(word_mentions_at(command@, start as int, end as int, platform));
                return true;
            }
            assert forall|s: int, e: int| s < end implies !word_mentions_at(
                command@,
                s,
                e,
                platform,
            ) by {
                if s >= start && crate::text::is_word(command@, s, e) {
                    if s > start {
                        assert(!crate::text::is_white(chars@[s - 1]));
                    }
                    if e < end {
                        assert(!crate::text::is_white(chars@[e]));
                    }
                    if e > end {
                        assert(!crate::text::is_white(command@[end as int]));
                    }
                }
            }
            at = end;
        }
    }
    assert forall|s: int, e: int| !word_mentions_at(command@, s, e, platform) by {
    }
    false
}

} // verus!
