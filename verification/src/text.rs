//! Splicing of strings by Unicode scalar position.

use vstd::prelude::*;

verus! {

/// `String::push` appends the given character to the end of the string.
pub assume_specification[ String::push ](s: &mut String, ch: char)
    ensures
        final(s)@ == old(s)@.push(ch),
;

/// `s` with the scalar at `pos` replaced by `ch`; a shorter `s` is first
/// padded with spaces up to `pos`.
pub open spec fn spec_set_char(s: Seq<char>, pos: int, ch: char) -> Seq<char> {
    if pos < s.len() {
        s.update(pos, ch)
    } else {
        (s + Seq::new((pos - s.len()) as nat, |i: int| ' ')).push(ch)
    }
}

/// `s` without the scalar at `pos`; `s` itself when `pos` is not in it.
pub open spec fn spec_delete(s: Seq<char>, pos: int) -> Seq<char> {
    if 0 <= pos < s.len() {
        s.remove(pos)
    } else {
        s
    }
}

/// Setting a character keeps every other character where it is: the
/// character lands at `pos`, what was before and after it stays, cells
/// between the old end and `pos` are blank, and nothing is cut off.
pub proof fn lemma_set_char_keeps_the_rest(s: Seq<char>, pos: int, ch: char)
    requires
        0 <= pos,
    ensures
        spec_set_char(s, pos, ch).len() == (if pos < s.len() {
            s.len() as int
        } else {
            pos + 1
        }),
        spec_set_char(s, pos, ch)[pos] == ch,
        forall|i: int| 0 <= i < s.len() && i != pos ==> spec_set_char(s, pos, ch)[i] == s[i],
        forall|i: int| s.len() <= i < pos ==> spec_set_char(s, pos, ch)[i] == ' ',
{
}

/// Deleting inside the text shortens it by one and shifts what follows one
/// place left; deleting at or past the end changes nothing.
pub proof fn lemma_delete_shifts_left(s: Seq<char>, pos: int)
    requires
        0 <= pos,
    ensures
        pos >= s.len() ==> spec_delete(s, pos) == s,
        pos < s.len() ==> spec_delete(s, pos).len() == s.len() - 1,
        forall|i: int| 0 <= i < pos && i < s.len() ==> spec_delete(s, pos)[i] == s[i],
        forall|i: int| pos <= i < s.len() - 1 ==> spec_delete(s, pos)[i] == s[i + 1],
{
}

/// The views of a list of strings.
pub open spec fn strings_view(v: Seq<String>) -> Seq<Seq<char>> {
    v.map_values(|s: String| s@)
}

} // verus!
