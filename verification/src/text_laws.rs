//! What holds of every text that is searched, rewritten or split.
use vstd::prelude::*;

use crate::text::ascii_lower;
use crate::text::contains_text;
use crate::text::is_white;
use crate::text::is_word;
use crate::text::occurs_at;
use crate::text::replaced;

verus! {

/// A text contains a part exactly where it is that part with something before it
/// and something behind it.
pub proof fn law_contains_is_in_between(text: Seq<char>, part: Seq<char>)
    ensures
        contains_text(text, part) <==> exists|before: Seq<char>, behind: Seq<char>|
            text == #[trigger] (before + part + behind),
{
    if contains_text(text, part) {
        let at = choose|at: int| occurs_at(text, part, at);
        let before = text.take(at);
        let behind = text.skip(at + part.len());
        assert(text =~= before + part + behind);
    }
    if exists|before: Seq<char>, behind: Seq<char>| text == #[trigger] (before + part + behind) {
        let (before, behind) = choose|before: Seq<char>, behind: Seq<char>|
            text == #[trigger] (before + part + behind);
        let at = before.len() as int;
        assert(text.subrange(at, at + part.len()) =~= part);
        assert(occurs_at(text, part, at));
    }
}

/// Replacing goes character by character: the replaced one gives the new text,
/// every other one itself.
pub proof fn law_replacing_goes_by_character(
    before: Seq<char>,
    c: char,
    behind: Seq<char>,
    from: char,
    to: Seq<char>,
)
    ensures
        replaced(Seq::<char>::empty(), from, to) == Seq::<char>::empty(),
        replaced(before + seq![c] + behind, from, to) == replaced(before, from, to) + (if c == from {
            to
        } else {
            seq![c]
        }) + replaced(behind, from, to),
{
    let rest = seq![c] + behind;
    assert(before + seq![c] + behind =~= before + rest);
    crate::command_laws::lemma_replaced_join(before, rest, from, to);
    crate::command_laws::lemma_replaced_first(rest, from, to);
    assert(rest.skip(1) =~= behind);
    let middle = if c == from {
        to
    } else {
        seq![c]
    };
    assert(replaced(before, from, to) + (middle + replaced(behind, from, to)) =~= replaced(
        before,
        from,
        to,
    ) + middle + replaced(behind, from, to));
}

/// Lowering a text turns the letters from `A` to `Z` into those from `a` to `z`, and
/// leaves every other character as it is.
pub proof fn law_lowering_turns_ascii_letters(text: Seq<char>, i: int)
    requires
        0 <= i < text.len(),
    ensures
        ascii_lower(text).len() == text.len(),
        'A' <= text[i] <= 'Z' ==> ascii_lower(text)[i] as u32 == text[i] as u32 + 32,
        !('A' <= text[i] <= 'Z') ==> ascii_lower(text)[i] == text[i],
{
}

/// White space is what Unicode says it is.
pub proof fn law_white_space(c: char)
    ensures
        ({
            let code = c as u32;
            is_white(c) <==> (9 <= code <= 13 || code == 0x20 || code == 0x85 || code == 0xa0
                || code == 0x1680 || 0x2000 <= code <= 0x200a || code == 0x2028 || code == 0x2029
                || code == 0x202f || code == 0x205f || code == 0x3000)
        }),
{
}

/// A word is a part of the text without white space, with white space or the
/// text's end on both sides.
pub proof fn law_word_stands_between_white_space(
    before: Seq<char>,
    word: Seq<char>,
    behind: Seq<char>,
)
    ensures
        is_word(
            before + word + behind,
            before.len() as int,
            (before.len() + word.len()) as int,
        ) <==> {
            &&& word.len() > 0
            &&& forall|i: int| 0 <= i < word.len() ==> !is_white(#[trigger] word[i])
            &&& before.len() > 0 ==> is_white(before.last())
            &&& behind.len() > 0 ==> is_white(behind[0])
        },
{
    let text = before + word + behind;
    let start = before.len() as int;
    let end = (before.len() + word.len()) as int;
    if is_word(text, start, end) {
        assert forall|i: int| 0 <= i < word.len() implies !is_white(#[trigger] word[i]) by {
            assert(!is_white(text[start + i]));
        }
    }
    if forall|i: int| 0 <= i < word.len() ==> !is_white(#[trigger] word[i]) {
        assert forall|i: int| start <= i < end implies !is_white(#[trigger] text[i]) by {
            assert(!is_white(word[i - start]));
        }
    }
}

} // verus!
