//! Scanning a line of text: character classes, runs of a class, keywords and
//! unsigned decimal numbers.

use vstd::prelude::*;

verus! {

/// Blank, tab, carriage return or line feed.
pub open spec fn is_space(c: char) -> bool {
    c == ' ' || c == '\t' || c == '\r' || c == '\n'
}

/// An ASCII decimal digit.
pub open spec fn is_digit(c: char) -> bool {
    '0' <= c <= '9'
}

/// An ASCII letter or an underscore: what an identifier starts with.
pub open spec fn is_ident_start(c: char) -> bool {
    ('a' <= c <= 'z') || ('A' <= c <= 'Z') || c == '_'
}

/// An ASCII letter, an ASCII digit or an underscore: what an identifier goes
/// on with.
pub open spec fn is_ident_part(c: char) -> bool {
    is_ident_start(c) || is_digit(c)
}

/// Where the run of spaces that starts at `i` ends.
pub open spec fn spaces_end(s: Seq<char>, i: int) -> int
    decreases s.len() - i,
{
    if 0 <= i < s.len() && is_space(s[i]) {
        spaces_end(s, i + 1)
    } else {
        i
    }
}

/// Where the run of digits that starts at `i` ends.
pub open spec fn digits_end(s: Seq<char>, i: int) -> int
    decreases s.len() - i,
{
    if 0 <= i < s.len() && is_digit(s[i]) {
        digits_end(s, i + 1)
    } else {
        i
    }
}

/// Where the run of identifier characters that starts at `i` ends.
pub open spec fn ident_part_end(s: Seq<char>, i: int) -> int
    decreases s.len() - i,
{
    if 0 <= i < s.len() && is_ident_part(s[i]) {
        ident_part_end(s, i + 1)
    } else {
        i
    }
}

/// Where the identifier that starts at `i` ends; `None` when no identifier
/// starts there.
pub open spec fn ident_end(s: Seq<char>, i: int) -> Option<int> {
    if 0 <= i < s.len() && is_ident_start(s[i]) {
        Some(ident_part_end(s, i + 1))
    } else {
        None
    }
}

/// `s` reads `tag` from index `i` on.
pub open spec fn starts_with(s: Seq<char>, i: int, tag: Seq<char>) -> bool {
    0 <= i && i + tag.len() <= s.len() && s.subrange(i, i + tag.len()) == tag
}

/// The value of a digit.
pub open spec fn digit_value(c: char) -> int {
    c as int - '0' as int
}

/// The number a sequence of digits writes in base ten; 0 for no digit.
pub open spec fn decimal_value(digits: Seq<char>) -> int
    decreases digits.len(),
{
    if digits.len() == 0 {
        0
    } else {
        decimal_value(digits.drop_last()) * 10 + digit_value(digits.last())
    }
}

/// The number written at `i`, which is at least one digit and at most
/// 65535, and where it ends.
pub open spec fn spec_u16(s: Seq<char>, i: int) -> Option<(u16, int)> {
    let j = digits_end(s, i);
    if i < j && decimal_value(s.subrange(i, j)) <= u16::MAX {
        Some((decimal_value(s.subrange(i, j)) as u16, j))
    } else {
        None
    }
}

/// A run ends at or after its start, inside the text, on the first character
/// that is not of its class.
pub proof fn lemma_spaces_end(s: Seq<char>, i: int)
    requires
        0 <= i <= s.len(),
    ensures
        i <= spaces_end(s, i) <= s.len(),
        forall|k: int| i <= k < spaces_end(s, i) ==> is_space(#[trigger] s[k]),
        spaces_end(s, i) < s.len() ==> !is_space(s[spaces_end(s, i)]),
    decreases s.len() - i,
{
    if i < s.len() && is_space(s[i]) {
        lemma_spaces_end(s, i + 1);
    }
}

/// See [`lemma_spaces_end`].
pub proof fn lemma_digits_end(s: Seq<char>, i: int)
    requires
        0 <= i <= s.len(),
    ensures
        i <= digits_end(s, i) <= s.len(),
        forall|k: int| i <= k < digits_end(s, i) ==> is_digit(#[trigger] s[k]),
        digits_end(s, i) < s.len() ==> !is_digit(s[digits_end(s, i)]),
    decreases s.len() - i,
{
    if i < s.len() && is_digit(s[i]) {
        lemma_digits_end(s, i + 1);
    }
}

/// See [`lemma_spaces_end`].
pub proof fn lemma_ident_part_end(s: Seq<char>, i: int)
    requires
        0 <= i <= s.len(),
    ensures
        i <= ident_part_end(s, i) <= s.len(),
        forall|k: int| i <= k < ident_part_end(s, i) ==> is_ident_part(#[trigger] s[k]),
        ident_part_end(s, i) < s.len() ==> !is_ident_part(s[ident_part_end(s, i)]),
    decreases s.len() - i,
{
    if i < s.len() && is_ident_part(s[i]) {
        lemma_ident_part_end(s, i + 1);
    }
}

/// Digits only ever add to a number: the value of a prefix is at most the
/// value of the whole.
pub proof fn lemma_decimal_value_grows(digits: Seq<char>, k: int)
    requires
        0 <= k <= digits.len(),
        forall|j: int| 0 <= j < digits.len() ==> is_digit(#[trigger] digits[j]),
    ensures
        0 <= decimal_value(digits.take(k)) <= decimal_value(digits),
    decreases digits.len() - k,
{
    if k == digits.len() {
        assert(digits.take(k) =~= digits);
        lemma_decimal_value_nonnegative(digits);
    } else {
        lemma_decimal_value_grows(digits, k + 1);
        assert(digits.take(k + 1).drop_last() =~= digits.take(k));
        lemma_decimal_value_nonnegative(digits.take(k));
    }
}

/// The value of a sequence of digits is not negative.
pub proof fn lemma_decimal_value_nonnegative(digits: Seq<char>)
    requires
        forall|j: int| 0 <= j < digits.len() ==> is_digit(#[trigger] digits[j]),
    ensures
        0 <= decimal_value(digits),
    decreases digits.len(),
{
    if digits.len() > 0 {
        lemma_decimal_value_nonnegative(digits.drop_last());
    }
}

/// The scalar values of `s`, one by one.
pub fn chars_of(s: &str) -> (r: Vec<char>)
    ensures
        r@ == s@,
{
    let mut out: Vec<char> = Vec::new();
    for c in it: s.chars()
        invariant
            it.seq() == s@,
            out@ == s@.take(it.index() as int),
    {
        out.push(c);
        assert(out@ =~= s@.take(it.index() + 1));
    }
    assert(s@.take(s@.len() as int) =~= s@);
    out
}

/// The text from `from` up to `to`.
pub fn string_of(chars: &Vec<char>, from: usize, to: usize) -> (r: String)
    requires
        from <= to <= chars.len(),
    ensures
        r@ == chars@.subrange(from as int, to as int),
{
    let mut out = String::new();
    let mut i: usize = from;
    while i < to
        invariant
            from <= i <= to <= chars.len(),
            out@ == chars@.subrange(from as int, i as int),
        decreases to - i,
    {
        out.push(chars[i]);
        i = i + 1;
        assert(out@ =~= chars@.subrange(from as int, i as int));
    }
    out
}

/// True for blank, tab, carriage return and line feed.
pub fn space(c: char) -> (r: bool)
    ensures
        r == is_space(c),
{
    c == ' ' || c == '\t' || c == '\r' || c == '\n'
}

/// True for an ASCII decimal digit.
pub fn digit(c: char) -> (r: bool)
    ensures
        r == is_digit(c),
{
    '0' <= c && c <= '9'
}

/// True for what an identifier starts with.
pub fn ident_start(c: char) -> (r: bool)
    ensures
        r == is_ident_start(c),
{
    ('a' <= c && c <= 'z') || ('A' <= c && c <= 'Z') || c == '_'
}

/// Skips the spaces at `i`.
pub fn skip_spaces(chars: &Vec<char>, i: usize) -> (j: usize)
    requires
        i <= chars.len(),
    ensures
        j == spaces_end(chars@, i as int),
        i <= j <= chars.len(),
{
    let mut j: usize = i;
    while j < chars.len() && space(chars[j])
        invariant
            i <= j <= chars.len(),
            spaces_end(chars@, i as int) == spaces_end(chars@, j as int),
        decreases chars.len() - j,
    {
        j = j + 1;
    }
    j
}

/// Reads the identifier at `i`, if one starts there, and says where it ends.
pub fn identifier(chars: &Vec<char>, i: usize) -> (r: Option<usize>)
    requires
        i <= chars.len(),
    ensures
        r.is_some() == ident_end(chars@, i as int).is_some(),
        r.is_some() ==> r.unwrap() == ident_end(chars@, i as int).unwrap(),
        r.is_some() ==> i < r.unwrap() <= chars.len(),
{
    if i >= chars.len() || !ident_start(chars[i]) {
        return None;
    }
    let mut j: usize = i + 1;
    while j < chars.len() && (ident_start(chars[j]) || digit(chars[j]))
        invariant
            i < j <= chars.len(),
            ident_part_end(chars@, i + 1) == ident_part_end(chars@, j as int),
        decreases chars.len() - j,
    {
        j = j + 1;
    }
    Some(j)
}

/// True when the text reads `tag` at `i`.
pub fn matches_at(chars: &Vec<char>, i: usize, tag: &str) -> (r: bool)
    requires
        i <= chars.len(),
    ensures
        r == starts_with(chars@, i as int, tag@),
{
    let n: usize = tag.unicode_len();
    if n > chars.len() - i {
        return false;
    }
    let mut k: usize = 0;
    while k < n
        invariant
            k <= n,
            n == tag@.len(),
            i + n <= chars.len(),
            forall|j: int| 0 <= j < k ==> chars@[i + j] == tag@[j],
        decreases n - k,
    {
        if chars[i + k] != tag.get_char(k) {
            assert(chars@.subrange(i as int, i + n)[k as int] != tag@[k as int]);
            return false;
        }
        k = k + 1;
    }
    assert(chars@.subrange(i as int, i + n) =~= tag@);
    true
}

/// Reads the number at `i`: at least one digit, at most 65535. Gives the
/// number and where it ends.
pub fn scan_u16(chars: &Vec<char>, i: usize) -> (r: Option<(u16, usize)>)
    requires
        i <= chars.len(),
    ensures
        r.is_some() == spec_u16(chars@, i as int).is_some(),
        r.is_some() ==> r.unwrap().0 == spec_u16(chars@, i as int).unwrap().0,
        r.is_some() ==> r.unwrap().1 == spec_u16(chars@, i as int).unwrap().1,
        r.is_some() ==> i < r.unwrap().1 <= chars.len(),
{
    let ghost end = digits_end(chars@, i as int);
    let ghost all = chars@.subrange(i as int, end);
    proof {
        lemma_digits_end(chars@, i as int);
    }
    let mut value: u32 = 0;
    let mut j: usize = i;
    while j < chars.len() && digit(chars[j])
        invariant
            i <= j <= end <= chars.len(),
            end == digits_end(chars@, i as int),
            end == digits_end(chars@, j as int),
            all == chars@.subrange(i as int, end),
            forall|k: int| 0 <= k < all.len() ==> is_digit(#[trigger] all[k]),
            value == decimal_value(chars@.subrange(i as int, j as int)),
            value <= u16::MAX,
        decreases chars.len() - j,
    {
        let d: u32 = chars[j] as u32 - '0' as u32;
        proof {
            lemma_digits_end(chars@, j + 1);
            let upto = chars@.subrange(i as int, j + 1);
            assert(upto.drop_last() =~= chars@.subrange(i as int, j as int));
            assert(upto =~= all.take(j + 1 - i));
            lemma_decimal_value_grows(all, j + 1 - i);
        }
        value = value * 10 + d;
        if value > u16::MAX as u32 {
            return None;
        }
        j = j + 1;
    }
    if j == i {
        return None;
    }
    Some((value as u16, j))
}

} // verus!
