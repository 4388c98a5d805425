//! What holds of every hook command: no shell alters it, it runs the script at
//! the path that it was made for, and it is found again.
use vstd::prelude::*;
use vstd::utf8::encode_utf8;
use vstd::utf8::is_ascii_chars;
use vstd::utf8::is_ascii_chars_encode_utf8;

use crate::base64::digit_count;
use crate::base64::encoded;
use crate::command::command_for;
use crate::command::encoded_command;
use crate::command::hidden_text;
use crate::command::mentions;
use crate::command::names;
use crate::command::powershell_prefix;
use crate::command::powershell_statement;
use crate::command::word_mentions;
use crate::command::word_mentions_at;
use crate::platform::Platform;
use crate::platform::script_name_of;
use crate::text::ascii_lower;
use crate::text::contains_text;
use crate::text::is_white;
use crate::text::is_word;
use crate::text::occurs_at;
use crate::text::replaced;
use crate::utf16::le_bytes;
use crate::utf16::units_of;

verus! {

/// The characters that every shell leaves as they are: letters, digits, the
/// space between words, and `.`, `-`, `+`, `/` and `=`.
pub open spec fn is_plain(c: char) -> bool {
    ||| 'a' <= c <= 'z'
    ||| 'A' <= c <= 'Z'
    ||| '0' <= c <= '9'
    ||| c == ' '
    ||| c == '.'
    ||| c == '-'
    ||| c == '+'
    ||| c == '/'
    ||| c == '='
}

/// The characters that PowerShell takes for a single quote: the ASCII one and the
/// four typographic ones.
pub open spec fn is_powershell_quote(c: char) -> bool {
    c == '\'' || '\u{2018}' <= c <= '\u{201b}'
}

/// The text that PowerShell reads in a single-quoted literal, and what stands
/// behind the literal. `text` is what stands behind the opening quote: a quote
/// written twice stands for one, and a lone quote ends the literal. `None` where
/// the literal does not end, or two different quotes stand side by side in it.
pub open spec fn powershell_literal(text: Seq<char>) -> Option<(Seq<char>, Seq<char>)>
    decreases text.len(),
{
    if text.len() == 0 {
        None
    } else if !is_powershell_quote(text[0]) {
        match powershell_literal(text.skip(1)) {
            Some((literal, behind)) => Some((seq![text[0]] + literal, behind)),
            None => None,
        }
    } else if text.len() == 1 || !is_powershell_quote(text[1]) {
        Some((seq![], text.skip(1)))
    } else if text[0] == text[1] {
        match powershell_literal(text.skip(2)) {
            Some((literal, behind)) => Some((seq![text[0]] + literal, behind)),
            None => None,
        }
    } else {
        None
    }
}

/// The text that a POSIX shell reads in a word of single-quoted parts and
/// escaped characters, inside a quoted part or between two; `None` where a quoted
/// part does not end or anything else stands between two parts.
pub open spec fn shell_word(word: Seq<char>, quoted: bool) -> Option<Seq<char>>
    decreases word.len(),
{
    if word.len() == 0 {
        if quoted {
            None
        } else {
            Some(seq![])
        }
    } else if word[0] == '\'' {
        shell_word(word.skip(1), !quoted)
    } else if quoted {
        match shell_word(word.skip(1), true) {
            Some(rest) => Some(seq![word[0]] + rest),
            None => None,
        }
    } else if word[0] == '\\' && word.len() > 1 {
        match shell_word(word.skip(2), false) {
            Some(rest) => Some(seq![word[1]] + rest),
            None => None,
        }
    } else {
        None
    }
}

/// Replacing in two texts and joining them is replacing in the joined text.
pub(crate) proof fn lemma_replaced_join(a: Seq<char>, b: Seq<char>, from: char, to: Seq<char>)
    ensures
        replaced(a + b, from, to) == replaced(a, from, to) + replaced(b, from, to),
    decreases b.len(),
{
    if b.len() == 0 {
        assert(a + b =~= a);
        assert(replaced(a, from, to) + replaced(b, from, to) =~= replaced(a, from, to));
    } else {
        lemma_replaced_join(a, b.drop_last(), from, to);
        assert((a + b).drop_last() =~= a + b.drop_last());
        assert((a + b).last() == b.last());
        let end = if b.last() == from {
            to
        } else {
            seq![b.last()]
        };
        assert(replaced(a, from, to) + replaced(b.drop_last(), from, to) + end =~= replaced(
            a,
            from,
            to,
        ) + (replaced(b.drop_last(), from, to) + end));
    }
}

/// A text without the replaced character stays as it is.
proof fn lemma_replaced_absent(text: Seq<char>, from: char, to: Seq<char>)
    requires
        !text.contains(from),
    ensures
        replaced(text, from, to) == text,
    decreases text.len(),
{
    if text.len() > 0 {
        assert(text[text.len() - 1] != from);
        assert forall|c: char| text.drop_last().contains(c) implies text.contains(c) by {
            let i = choose|i: int| 0 <= i < text.drop_last().len() && text.drop_last()[i] == c;
            assert(text[i] == c);
        }
        lemma_replaced_absent(text.drop_last(), from, to);
        assert(text.drop_last() + seq![text.last()] =~= text);
    }
}

/// What a text starts with comes first when it is replaced.
pub(crate) proof fn lemma_replaced_first(text: Seq<char>, from: char, to: Seq<char>)
    requires
        text.len() > 0,
    ensures
        replaced(text, from, to) == (if text[0] == from {
            to
        } else {
            seq![text[0]]
        }) + replaced(text.skip(1), from, to),
{
    let first = text.take(1);
    assert(first + text.skip(1) =~= text);
    lemma_replaced_join(first, text.skip(1), from, to);
    assert(first.drop_last() =~= seq![]);
    assert(replaced(first, from, to) =~= (if text[0] == from {
        to
    } else {
        seq![text[0]]
    })) by {
        assert(replaced(first.drop_last(), from, to) =~= seq![]);
        assert(first.last() == text[0]);
    }
}

/// What stands in a text with a character that the part does not hold stands on
/// one side of that character.
proof fn lemma_contains_split(a: Seq<char>, c: char, b: Seq<char>, part: Seq<char>)
    requires
        part.len() > 0,
        !part.contains(c),
    ensures
        contains_text(a + seq![c] + b, part) <==> contains_text(a, part) || contains_text(b, part),
{
    let text = a + seq![c] + b;
    let behind = a.len() + 1;
    if contains_text(text, part) {
        let at = choose|at: int| occurs_at(text, part, at);
        if at + part.len() <= a.len() {
            assert(a.subrange(at, at + part.len()) =~= text.subrange(at, at + part.len()));
            assert(occurs_at(a, part, at));
        } else if at > a.len() {
            let in_b = at - behind;
            assert(b.subrange(in_b, in_b + part.len()) =~= text.subrange(at, at + part.len()));
            assert(occurs_at(b, part, in_b));
        } else {
            assert(part[a.len() - at] == text[a.len() as int]);
        }
    }
    if contains_text(a, part) {
        let at = choose|at: int| occurs_at(a, part, at);
        assert(text.subrange(at, at + part.len()) =~= a.subrange(at, at + part.len()));
        assert(occurs_at(text, part, at));
    }
    if contains_text(b, part) {
        let at = choose|at: int| occurs_at(b, part, at);
        let in_text = at + behind;
        assert(text.subrange(in_text, in_text + part.len()) =~= b.subrange(at, at + part.len()));
        assert(occurs_at(text, part, in_text));
    }
}

/// A file name of the script holds no quote and no space, but a `.`, and is
/// longer than eighteen characters.
proof fn lemma_script_name(platform: Platform)
    ensures
        !script_name_of(platform).contains('\''),
        !script_name_of(platform).contains(' '),
        script_name_of(platform).len() > 18,
        script_name_of(platform)[16] == '.',
{
    reveal_strlit("luvus-agent-hook.sh");
    reveal_strlit("luvus-agent-hook.ps1");
}

/// A short text does not name the script.
proof fn lemma_short_text_names_nothing(text: Seq<char>, platform: Platform)
    requires
        text.len() <= 18,
    ensures
        !names(text, platform),
{
    lemma_script_name(platform);
}

/// A text with a quote or a space names the script where one side of that
/// character does.
proof fn lemma_names_split(a: Seq<char>, c: char, b: Seq<char>, platform: Platform)
    requires
        c == ' ' || c == '\'',
    ensures
        names(a + seq![c] + b, platform) <==> names(a, platform) || names(b, platform),
{
    let name = script_name_of(platform);
    lemma_script_name(platform);
    match platform {
        Platform::Unix => {
            lemma_contains_split(a, c, b, name);
        },
        Platform::Windows => {
            lemma_contains_split(ascii_lower(a), c, ascii_lower(b), name);
            assert(ascii_lower(a + seq![c] + b) =~= ascii_lower(a) + seq![c] + ascii_lower(b));
        },
    }
}

/// Writing each quote of a path as something short in quotes keeps whether the
/// path names the script.
proof fn lemma_replacing_quotes_keeps_name(path: Seq<char>, to: Seq<char>, platform: Platform)
    requires
        2 <= to.len() <= 18,
        to[0] == '\'',
        to.last() == '\'',
    ensures
        names(replaced(path, '\'', to), platform) == names(path, platform),
    decreases path.len(),
{
    if path.contains('\'') {
        let i = choose|i: int| 0 <= i < path.len() && path[i] == '\'';
        let x = path.take(i);
        let y = path.skip(i + 1);
        assert(path =~= x + seq!['\''] + y);
        lemma_replacing_quotes_keeps_name(x, to, platform);
        lemma_replacing_quotes_keeps_name(y, to, platform);
        lemma_names_split(x, '\'', y, platform);

        let before = replaced(x, '\'', to);
        let after = replaced(y, '\'', to);
        let inner = to.subrange(1, to.len() - 1);
        assert(path =~= x + (seq!['\''] + y));
        lemma_replaced_join(x, seq!['\''] + y, '\'', to);
        lemma_replaced_first(seq!['\''] + y, '\'', to);
        assert((seq!['\''] + y).skip(1) =~= y);
        assert(before + (to + after) =~= before + seq!['\''] + (inner + seq!['\''] + after));
        lemma_names_split(before, '\'', inner + seq!['\''] + after, platform);
        lemma_names_split(inner, '\'', after, platform);
        lemma_short_text_names_nothing(inner, platform);
    } else {
        lemma_replaced_absent(path, '\'', to);
    }
}

/// A short text with a quoted path behind it names the script where the path
/// does.
proof fn lemma_quoting_keeps_name(
    before: Seq<char>,
    path: Seq<char>,
    to: Seq<char>,
    platform: Platform,
)
    requires
        0 < before.len() <= 18,
        before.last() == '\'',
        2 <= to.len() <= 18,
        to[0] == '\'',
        to.last() == '\'',
    ensures
        names(before + replaced(path, '\'', to) + "'"@, platform) == names(path, platform),
{
    reveal_strlit("'");
    let quoted = replaced(path, '\'', to);
    let nothing = Seq::<char>::empty();
    let whole = before + quoted + "'"@;
    assert(whole =~= before.drop_last() + seq!['\''] + (quoted + seq!['\''] + nothing));
    lemma_names_split(before.drop_last(), '\'', quoted + seq!['\''] + nothing, platform);
    lemma_names_split(quoted, '\'', nothing, platform);
    lemma_short_text_names_nothing(before.drop_last(), platform);
    lemma_short_text_names_nothing(nothing, platform);
    lemma_replacing_quotes_keeps_name(path, to, platform);
}

/// The digit for six bits is plain, no white space and no `.`.
proof fn lemma_digit_is_plain(bits: int)
    requires
        0 <= bits < 64,
    ensures
        is_plain(crate::base64::digit_char(bits)),
        !is_white(crate::base64::digit_char(bits)),
        crate::base64::digit_char(bits) != '.',
{
}

/// Base64 text is plain, one word, and without a `.`.
proof fn lemma_encoded_is_plain(bytes: Seq<u8>, i: int)
    requires
        0 <= i < encoded(bytes).len(),
    ensures
        is_plain(encoded(bytes)[i]),
        !is_white(encoded(bytes)[i]),
        encoded(bytes)[i] != '.',
{
    if i < digit_count(bytes.len()) {
        assert(0 <= crate::base64::sextet(bytes, i) < 64);
        lemma_digit_is_plain(crate::base64::sextet(bytes, i));
    }
}

/// The code units of a text with a character are not none.
proof fn lemma_units_not_empty(text: Seq<char>)
    requires
        text.len() > 0,
    ensures
        units_of(text).len() > 0,
{
}

/// Nothing that a shell could expand, split or unquote stands in the hook command
/// for Windows, whatever the path.
pub proof fn law_windows_command_is_plain(path: Seq<char>, i: int)
    requires
        0 <= i < command_for(path, Platform::Windows).len(),
    ensures
        is_plain(command_for(path, Platform::Windows)[i]),
{
    let bytes = le_bytes(units_of(powershell_statement(path)));
    let prefix = powershell_prefix();
    if i >= prefix.len() {
        lemma_encoded_is_plain(bytes, i - prefix.len());
    } else {
        reveal_strlit(
            "powershell.exe -NoProfile -NonInteractive -ExecutionPolicy Bypass -EncodedCommand ",
        );
    }
}

/// The last word of the hook command for Windows holds the statement that runs
/// the script, unaltered.
pub proof fn law_windows_command_holds_statement(path: Seq<char>)
    ensures
        ({
            let command = command_for(path, Platform::Windows);
            let start = powershell_prefix().len() as int;
            let end = command.len() as int;
            &&& is_word(command, start, end)
            &&& hidden_text(command.subrange(start, end)) == Some(powershell_statement(path))
        }),
{
    let command = command_for(path, Platform::Windows);
    let start = powershell_prefix().len() as int;
    let statement = powershell_statement(path);
    let bytes = le_bytes(units_of(statement));
    reveal_strlit("& '");
    lemma_units_not_empty(statement);
    assert(bytes.len() > 0);
    crate::base64::law_decode_undoes_encode(bytes);
    crate::utf16::law_bytes_read_back(statement);
    assert(command.subrange(start, command.len() as int) =~= encoded(bytes));
    assert forall|i: int| start <= i < command.len() implies !is_white(#[trigger] command[i]) by {
        lemma_encoded_is_plain(bytes, i - start);
    }
    reveal_strlit(
        "powershell.exe -NoProfile -NonInteractive -ExecutionPolicy Bypass -EncodedCommand ",
    );
    assert(command[start - 1] == ' ');
}

/// A PowerShell literal goes on with the rest of the path and its closing quote.
proof fn lemma_powershell_reads_rest(path: Seq<char>)
    requires
        forall|i: int| 0 <= i < path.len() ==> !('\u{2018}' <= #[trigger] path[i] <= '\u{201b}'),
    ensures
        powershell_literal(replaced(path, '\'', "''"@) + seq!['\'']) == Some(
            (path, Seq::<char>::empty()),
        ),
    decreases path.len(),
{
    reveal_strlit("''");
    let text = replaced(path, '\'', "''"@) + seq!['\''];
    if path.len() == 0 {
        assert(text =~= seq!['\'']);
        assert(text.skip(1) =~= seq![]);
        assert(path =~= seq![]);
    } else {
        let rest = path.skip(1);
        let rest_text = replaced(rest, '\'', "''"@) + seq!['\''];
        assert forall|i: int| 0 <= i < rest.len() implies !('\u{2018}' <= #[trigger] rest[i]
            <= '\u{201b}') by {
            assert(rest[i] == path[i + 1]);
        }
        lemma_powershell_reads_rest(rest);
        lemma_replaced_first(path, '\'', "''"@);
        if path[0] == '\'' {
            assert(text =~= "''"@ + rest_text);
            assert(text.skip(2) =~= rest_text);
        } else {
            assert(text =~= seq![path[0]] + rest_text);
            assert(text.skip(1) =~= rest_text);
        }
        assert(seq![path[0]] + rest =~= path);
    }
}

/// In the statement that runs a script, PowerShell reads the call operator and one
/// literal, which is the path itself and ends where the statement ends. This is so
/// of every path without a typographic single quote, which PowerShell takes for a
/// quote too.
pub proof fn law_powershell_reads_path(path: Seq<char>)
    requires
        forall|i: int| 0 <= i < path.len() ==> !('\u{2018}' <= #[trigger] path[i] <= '\u{201b}'),
    ensures
        powershell_statement(path).take(3) == "& '"@,
        powershell_literal(powershell_statement(path).skip(3)) == Some(
            (path, Seq::<char>::empty()),
        ),
{
    reveal_strlit("& '");
    reveal_strlit("'");
    let statement = powershell_statement(path);
    lemma_powershell_reads_rest(path);
    assert(statement.take(3) =~= "& '"@);
    assert(statement.skip(3) =~= replaced(path, '\'', "''"@) + seq!['\'']);
}

/// A quoted part goes on with the rest of the path and its closing quote.
proof fn lemma_shell_reads_rest(path: Seq<char>)
    ensures
        shell_word(replaced(path, '\'', "'\\''"@) + seq!['\''], true) == Some(path),
    decreases path.len(),
{
    reveal_strlit("'\\''");
    let to = "'\\''"@;
    let word = replaced(path, '\'', to) + seq!['\''];
    if path.len() == 0 {
        assert(word =~= seq!['\'']);
        assert(word.skip(1) =~= seq![]);
        assert(shell_word(word.skip(1), false) == Some(path)) by {
            assert(path =~= seq![]);
        }
    } else {
        let rest = path.skip(1);
        let rest_word = replaced(rest, '\'', to) + seq!['\''];
        lemma_shell_reads_rest(rest);
        lemma_replaced_first(path, '\'', to);
        if path[0] == '\'' {
            assert(word =~= to + rest_word);
            assert(word.skip(1) =~= seq!['\\', '\'', '\''] + rest_word);
            assert(word.skip(1).skip(2) =~= seq!['\''] + rest_word);
            assert(word.skip(1).skip(2).skip(1) =~= rest_word);
            assert(shell_word(word.skip(1).skip(2), false) == Some(rest));
            assert(shell_word(word.skip(1), false) == Some(seq!['\''] + rest));
        } else {
            assert(word =~= seq![path[0]] + rest_word);
            assert(word.skip(1) =~= rest_word);
        }
        assert(seq![path[0]] + rest =~= path);
    }
}

/// A POSIX shell reads the quoted path as one word, the path itself.
pub proof fn law_shell_reads_path(path: Seq<char>)
    ensures
        shell_word("'"@ + replaced(path, '\'', "'\\''"@) + "'"@, false) == Some(path),
{
    reveal_strlit("'");
    let word = "'"@ + replaced(path, '\'', "'\\''"@) + "'"@;
    lemma_shell_reads_rest(path);
    assert(word.skip(1) =~= replaced(path, '\'', "'\\''"@) + seq!['\'']);
}

/// The hook command on Unix is `sh` and one argument, which a POSIX shell reads as
/// one word, the path itself.
pub proof fn law_shell_command_runs_path(path: Seq<char>)
    ensures
        command_for(path, Platform::Unix).take(3) == "sh "@,
        shell_word(command_for(path, Platform::Unix).skip(3), false) == Some(path),
{
    reveal_strlit("sh ");
    reveal_strlit("sh '");
    reveal_strlit("'");
    let command = command_for(path, Platform::Unix);
    let word = "'"@ + replaced(path, '\'', "'\\''"@) + "'"@;
    law_shell_reads_path(path);
    assert(command.take(3) =~= "sh "@);
    assert(command.skip(3) =~= word);
}

/// In the hook command on Unix every character of the path stands as it is between
/// two quotes, but for a quote, which ends the quoted part, stands escaped, and
/// begins another.
pub proof fn law_shell_command_goes_by_character(before: Seq<char>, c: char, behind: Seq<char>)
    ensures
        command_for(Seq::<char>::empty(), Platform::Unix) == seq!['s', 'h', ' ', '\'', '\''],
        command_for(before + seq![c] + behind, Platform::Unix) == command_for(
            before,
            Platform::Unix,
        ).drop_last() + (if c == '\'' {
            seq!['\'', '\\', '\'', '\'']
        } else {
            seq![c]
        }) + command_for(behind, Platform::Unix).skip(4),
{
    reveal_strlit("sh '");
    reveal_strlit("'");
    reveal_strlit("'\\''");
    let to = "'\\''"@;
    crate::text_laws::law_replacing_goes_by_character(before, c, behind, '\'', to);
    assert(to =~= seq!['\'', '\\', '\'', '\'']);
    assert(command_for(Seq::<char>::empty(), Platform::Unix) =~= seq!['s', 'h', ' ', '\'', '\'']);
    assert(command_for(before, Platform::Unix).drop_last() =~= "sh '"@ + replaced(
        before,
        '\'',
        to,
    ));
    assert(command_for(behind, Platform::Unix).skip(4) =~= replaced(behind, '\'', to) + "'"@);
    assert(command_for(before + seq![c] + behind, Platform::Unix) =~= command_for(
        before,
        Platform::Unix,
    ).drop_last() + (if c == '\'' {
        to
    } else {
        seq![c]
    }) + command_for(behind, Platform::Unix).skip(4));
}

/// In the PowerShell statement every character of the path stands as it is between
/// two quotes, but for a quote, which stands twice.
pub proof fn law_powershell_statement_goes_by_character(
    before: Seq<char>,
    c: char,
    behind: Seq<char>,
)
    ensures
        powershell_statement(Seq::<char>::empty()) == seq!['&', ' ', '\'', '\''],
        powershell_statement(before + seq![c] + behind) == powershell_statement(
            before,
        ).drop_last() + (if c == '\'' {
            seq!['\'', '\'']
        } else {
            seq![c]
        }) + powershell_statement(behind).skip(3),
{
    reveal_strlit("& '");
    reveal_strlit("'");
    reveal_strlit("''");
    let to = "''"@;
    crate::text_laws::law_replacing_goes_by_character(before, c, behind, '\'', to);
    assert(to =~= seq!['\'', '\'']);
    assert(powershell_statement(Seq::<char>::empty()) =~= seq!['&', ' ', '\'', '\'']);
    assert(powershell_statement(before).drop_last() =~= "& '"@ + replaced(before, '\'', to));
    assert(powershell_statement(behind).skip(3) =~= replaced(behind, '\'', to) + "'"@);
    assert(powershell_statement(before + seq![c] + behind) =~= powershell_statement(
        before,
    ).drop_last() + (if c == '\'' {
        to
    } else {
        seq![c]
    }) + powershell_statement(behind).skip(3));
}

/// The hook command on Windows hands PowerShell the statement that runs the script
/// as base64 of its little-endian UTF-16, behind fixed options.
pub proof fn law_windows_command_hands_over_statement(path: Seq<char>)
    ensures
        ({
            let command = command_for(path, Platform::Windows);
            let options =
                "powershell.exe -NoProfile -NonInteractive -ExecutionPolicy Bypass -EncodedCommand "@;
            let bytes = le_bytes(units_of(powershell_statement(path)));
            &&& command.take(options.len() as int) == options
            &&& command.skip(options.len() as int) == encoded(bytes)
        }),
{
    let command = command_for(path, Platform::Windows);
    let options =
        "powershell.exe -NoProfile -NonInteractive -ExecutionPolicy Bypass -EncodedCommand "@;
    let bytes = le_bytes(units_of(powershell_statement(path)));
    assert(command.take(options.len() as int) =~= options);
    assert(command.skip(options.len() as int) =~= encoded(bytes));
}

/// A text names the script exactly where the script's file name stands somewhere
/// in it, on Windows in any casing.
pub proof fn law_text_names_script_by_file_name(text: Seq<char>)
    ensures
        names(text, Platform::Unix) <==> exists|before: Seq<char>, behind: Seq<char>|
            text == #[trigger] (before + "luvus-agent-hook.sh"@ + behind),
        names(text, Platform::Windows) <==> exists|
            before: Seq<char>,
            name: Seq<char>,
            behind: Seq<char>,
        |
            text == #[trigger] (before + name + behind) && ascii_lower(name)
                == "luvus-agent-hook.ps1"@,
{
    crate::text_laws::law_contains_is_in_between(text, "luvus-agent-hook.sh"@);
    let own = "luvus-agent-hook.ps1"@;
    let lower = ascii_lower(text);
    if names(text, Platform::Windows) {
        let at = choose|at: int| occurs_at(lower, own, at);
        let end = at + own.len();
        let before = text.take(at);
        let name = text.subrange(at, end);
        let behind = text.skip(end);
        assert(text =~= before + name + behind);
        assert(ascii_lower(name) =~= lower.subrange(at, end));
    }
    if exists|before: Seq<char>, name: Seq<char>, behind: Seq<char>|
        text == #[trigger] (before + name + behind) && ascii_lower(name) == own {
        let (before, name, behind) = choose|
            before: Seq<char>,
            name: Seq<char>,
            behind: Seq<char>,
        |
            text == #[trigger] (before + name + behind) && ascii_lower(name) == own;
        let at = before.len() as int;
        assert(name.len() == own.len());
        assert(lower.subrange(at, at + own.len()) =~= ascii_lower(name));
        assert(occurs_at(lower, own, at));
    }
}

/// Whether `word` is base64 of the little-endian UTF-16 of `text`.
pub open spec fn holds_text(word: Seq<char>, text: Seq<char>) -> bool {
    crate::base64::decoded(encode_utf8(word)) == Some(le_bytes(units_of(text)))
}

/// Whether a command is `before`, `word` and `behind`, and `word`, a word of it,
/// holds a text that names the script.
pub open spec fn hides_script(
    command: Seq<char>,
    before: Seq<char>,
    word: Seq<char>,
    behind: Seq<char>,
    text: Seq<char>,
    platform: Platform,
) -> bool {
    &&& command == before + word + behind
    &&& word.len() > 0
    &&& forall|i: int| 0 <= i < word.len() ==> !is_white(#[trigger] word[i])
    &&& before.len() > 0 ==> is_white(before.last())
    &&& behind.len() > 0 ==> is_white(behind[0])
    &&& holds_text(word, text)
    &&& names(text, platform)
}

/// A command runs the script exactly where it names the script, or one of its
/// words, whichever, holds a text that does.
pub proof fn law_command_runs_script_by_name_or_word(command: Seq<char>, platform: Platform)
    ensures
        mentions(command, platform) <==> names(command, platform) || exists|
            before: Seq<char>,
            word: Seq<char>,
            behind: Seq<char>,
            text: Seq<char>,
        | hides_script(command, before, word, behind, text, platform),
{
    if exists|start: int, end: int| word_mentions_at(command, start, end, platform) {
        let (start, end) = choose|start: int, end: int|
            word_mentions_at(command, start, end, platform);
        let before = command.take(start);
        let word = command.subrange(start, end);
        let behind = command.skip(end);
        let text = hidden_text(word)->0;
        assert(command =~= before + word + behind);
        crate::text_laws::law_word_stands_between_white_space(before, word, behind);
        let bytes = crate::base64::decoded(encode_utf8(word))->0;
        crate::encoding_laws::law_bytes_read_as_their_text(bytes, text);
        assert(hides_script(command, before, word, behind, text, platform));
    }
    if exists|before: Seq<char>, word: Seq<char>, behind: Seq<char>, text: Seq<char>|
        hides_script(command, before, word, behind, text, platform) {
        let (before, word, behind, text) = choose|
            before: Seq<char>,
            word: Seq<char>,
            behind: Seq<char>,
            text: Seq<char>,
        | hides_script(command, before, word, behind, text, platform);
        let start = before.len() as int;
        let end = (before.len() + word.len()) as int;
        crate::text_laws::law_word_stands_between_white_space(before, word, behind);
        assert(command.subrange(start, end) =~= word);
        crate::utf16::law_bytes_read_back(text);
        assert(word_mentions_at(command, start, end, platform));
    }
}

/// The PowerShell statement for a path names the script where the path does.
proof fn lemma_statement_names_script(path: Seq<char>, platform: Platform)
    ensures
        names(powershell_statement(path), platform) == names(path, platform),
{
    reveal_strlit("''");
    reveal_strlit("& '");
    lemma_quoting_keeps_name("& '"@, path, "''"@, platform);
}

/// The hook command for a script is recognised as running the script.
pub proof fn law_hook_command_is_recognised(path: Seq<char>, platform: Platform)
    requires
        names(path, platform),
    ensures
        mentions(command_for(path, platform), platform),
{
    match platform {
        Platform::Unix => {
            reveal_strlit("'\\''");
            reveal_strlit("sh '");
            lemma_quoting_keeps_name("sh '"@, path, "'\\''"@, platform);
        },
        Platform::Windows => {
            lemma_statement_names_script(path, platform);
            law_windows_command_holds_statement(path);
            let command = command_for(path, platform);
            assert(word_mentions_at(
                command,
                powershell_prefix().len() as int,
                command.len() as int,
                platform,
            ));
        },
    }
}

/// A hook command for Windows that was edited around its encoded word is still
/// recognised.
pub proof fn law_edited_windows_command_is_recognised(
    command: Seq<char>,
    start: int,
    end: int,
    path: Seq<char>,
)
    requires
        names(path, Platform::Windows),
        is_word(command, start, end),
        command.subrange(start, end) == encoded_command(powershell_statement(path)),
    ensures
        mentions(command, Platform::Windows),
{
    let own = command_for(path, Platform::Windows);
    let prefix = powershell_prefix().len() as int;
    law_windows_command_holds_statement(path);
    assert(own.subrange(prefix, own.len() as int) =~= encoded_command(powershell_statement(path)));
    lemma_statement_names_script(path, Platform::Windows);
    assert(word_mentions_at(command, start, end, Platform::Windows));
}

/// A command that is put together with a space runs the script where one of its
/// two sides does: nothing is lost by what is written around a command, and
/// nothing is found in two commands that is in neither.
pub proof fn law_joined_command_mentions(a: Seq<char>, b: Seq<char>, platform: Platform)
    ensures
        mentions(a + seq![' '] + b, platform) <==> mentions(a, platform) || mentions(b, platform),
{
    let joined = a + seq![' '] + b;
    let behind = a.len() + 1;
    lemma_names_split(a, ' ', b, platform);
    assert forall|start: int, end: int|
        #[trigger] word_mentions_at(joined, start, end, platform) implies {
        ||| word_mentions_at(a, start, end, platform)
        ||| word_mentions_at(b, start - behind, end - behind, platform)
    } by {
        if end <= a.len() {
            assert(a.subrange(start, end) =~= joined.subrange(start, end));
            assert forall|i: int| start <= i < end implies !is_white(#[trigger] a[i]) by {
                assert(!is_white(joined[i]));
            }
        } else {
            if start <= a.len() {
                assert(!is_white(joined[a.len() as int]));
            }
            assert(b.subrange(start - behind, end - behind) =~= joined.subrange(start, end));
            assert forall|i: int| start - behind <= i < end - behind implies !is_white(
                #[trigger] b[i],
            ) by {
                assert(!is_white(joined[i + behind]));
            }
        }
    }
    assert forall|start: int, end: int| #[trigger] word_mentions_at(a, start, end, platform) implies
        word_mentions_at(joined, start, end, platform) by {
        assert(joined.subrange(start, end) =~= a.subrange(start, end));
    }
    assert forall|start: int, end: int| #[trigger] word_mentions_at(b, start, end, platform) implies
        word_mentions_at(joined, start + behind, end + behind, platform) by {
        assert(joined.subrange(start + behind, end + behind) =~= b.subrange(start, end));
    }
}

/// One word runs the script where it names the script or hides a text that does.
proof fn lemma_word_mentions(word: Seq<char>, platform: Platform)
    requires
        word.len() > 0,
        forall|i: int| 0 <= i < word.len() ==> !is_white(#[trigger] word[i]),
    ensures
        mentions(word, platform) <==> names(word, platform) || word_mentions(word, platform),
{
    let len = word.len() as int;
    assert(word.subrange(0, len) =~= word);
    assert(is_word(word, 0, len));
    assert(word_mentions(word, platform) ==> word_mentions_at(word, 0, len, platform));
    assert forall|start: int, end: int| word_mentions_at(word, start, end, platform) implies
        word_mentions(word, platform) by {
        assert(start == 0 && end == len);
    }
}

/// A short ASCII word does not run the script if it cannot be base64 text: its
/// length is no multiple of four, or it holds a `-` or `.`.
proof fn lemma_option_mentions_nothing(word: Seq<char>, i: int, platform: Platform)
    requires
        0 < word.len() <= 18,
        is_ascii_chars(word),
        forall|k: int| 0 <= k < word.len() ==> !is_white(#[trigger] word[k]),
        word.last() != '=',
        0 <= i < word.len(),
        word.len() % 4 != 0 || word[i] == '-' || word[i] == '.',
    ensures
        !mentions(word, platform),
{
    let token = encode_utf8(word);
    is_ascii_chars_encode_utf8(word);
    assert(token[word.len() - 1] == word[word.len() - 1] as u8);
    assert(token[i] == word[i] as u8);
    assert(crate::base64::unpadded_len(token) == token.len());
    assert(!crate::base64::is_base64(token));
    lemma_word_mentions(word, platform);
    lemma_short_text_names_nothing(word, platform);
}

/// What stands before the base64 text in the hook command for Windows does not
/// run the script.
proof fn lemma_prefix_mentions_nothing(rest: Seq<char>, platform: Platform)
    ensures
        mentions(powershell_prefix() + rest, platform) == mentions(rest, platform),
{
    reveal_strlit(
        "powershell.exe -NoProfile -NonInteractive -ExecutionPolicy Bypass -EncodedCommand ",
    );
    reveal_strlit("powershell.exe");
    reveal_strlit("-NoProfile");
    reveal_strlit("-NonInteractive");
    reveal_strlit("-ExecutionPolicy");
    reveal_strlit("Bypass");
    reveal_strlit("-EncodedCommand");
    let from_encoded = "-EncodedCommand"@ + seq![' '] + rest;
    let from_bypass = "Bypass"@ + seq![' '] + from_encoded;
    let from_policy = "-ExecutionPolicy"@ + seq![' '] + from_bypass;
    let from_interactive = "-NonInteractive"@ + seq![' '] + from_policy;
    let from_profile = "-NoProfile"@ + seq![' '] + from_interactive;
    let whole = "powershell.exe"@ + seq![' '] + from_profile;
    assert(powershell_prefix() + rest =~= whole);
    law_joined_command_mentions("powershell.exe"@, from_profile, platform);
    law_joined_command_mentions("-NoProfile"@, from_interactive, platform);
    law_joined_command_mentions("-NonInteractive"@, from_policy, platform);
    law_joined_command_mentions("-ExecutionPolicy"@, from_bypass, platform);
    law_joined_command_mentions("Bypass"@, from_encoded, platform);
    law_joined_command_mentions("-EncodedCommand"@, rest, platform);
    lemma_option_mentions_nothing("powershell.exe"@, 10, platform);
    lemma_option_mentions_nothing("-NoProfile"@, 0, platform);
    lemma_option_mentions_nothing("-NonInteractive"@, 0, platform);
    lemma_option_mentions_nothing("-ExecutionPolicy"@, 0, platform);
    lemma_option_mentions_nothing("Bypass"@, 0, platform);
    lemma_option_mentions_nothing("-EncodedCommand"@, 0, platform);
}

/// Base64 text does not name the script openly.
proof fn lemma_encoded_names_nothing(bytes: Seq<u8>, platform: Platform)
    ensures
        !names(encoded(bytes), platform),
{
    let text = encoded(bytes);
    let name = script_name_of(platform);
    let searched = match platform {
        Platform::Unix => text,
        Platform::Windows => ascii_lower(text),
    };
    lemma_script_name(platform);
    assert forall|at: int| !occurs_at(searched, name, at) by {
        if occurs_at(searched, name, at) {
            assert(searched.subrange(at, at + name.len())[16] == '.');
            lemma_encoded_is_plain(bytes, at + 16);
        }
    }
}

/// The hook command for Windows is recognised exactly where its path names the
/// script: the command that runs another program's script in the same way is
/// left alone.
pub proof fn law_windows_command_is_recognised_by_path(path: Seq<char>, platform: Platform)
    ensures
        mentions(command_for(path, Platform::Windows), platform) == names(path, platform),
{
    let statement = powershell_statement(path);
    let bytes = le_bytes(units_of(statement));
    let word = encoded(bytes);
    let command = command_for(path, Platform::Windows);
    let start = powershell_prefix().len() as int;
    law_windows_command_holds_statement(path);
    assert(command.subrange(start, command.len() as int) =~= word);
    assert forall|i: int| 0 <= i < word.len() implies !is_white(#[trigger] word[i]) by {
        lemma_encoded_is_plain(bytes, i);
    }
    lemma_prefix_mentions_nothing(word, platform);
    lemma_word_mentions(word, platform);
    lemma_encoded_names_nothing(bytes, platform);
    lemma_statement_names_script(path, platform);
}

/// Every path that ends in the script's file name names the script.
pub proof fn law_script_path_names_script(before: Seq<char>, platform: Platform)
    ensures
        names(before + script_name_of(platform), platform),
{
    let name = script_name_of(platform);
    let path = before + name;
    match platform {
        Platform::Unix => {
            assert(path.subrange(before.len() as int, (before.len() + name.len()) as int) =~= name);
            assert(occurs_at(path, name, before.len() as int));
        },
        Platform::Windows => {
            reveal_strlit("luvus-agent-hook.ps1");
            let lower = ascii_lower(path);
            assert(lower.subrange(before.len() as int, (before.len() + name.len()) as int) =~= name);
            assert(occurs_at(lower, name, before.len() as int));
        },
    }
}

} // verus!
