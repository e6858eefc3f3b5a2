//! Building a form from the lines of a form definition.

use crate::form::{Form, FormView};
use crate::parser::{parse_str, spec_parse_str, ParseError};
use crate::pos::Pos;
use crate::scan::{chars_of, string_of};
use crate::text::strings_view;
use vstd::prelude::*;
use vstd::utf8::encode_utf8;

verus! {

/// A line this short, counted in bytes, is skipped: it cannot hold a widget.
pub const SHORTEST_LINE: usize = 5;

/// `c` has the Unicode property White_Space: the controls from tab to
/// carriage return, the blank, next line, the no-break spaces, and the
/// spaces and separators of the general punctuation block and beyond.
pub open spec fn white_space(c: char) -> bool {
    ||| '\u{9}' <= c <= '\u{d}'
    ||| c == ' '
    ||| c == '\u{85}'
    ||| c == '\u{a0}'
    ||| c == '\u{1680}'
    ||| '\u{2000}' <= c <= '\u{200a}'
    ||| c == '\u{2028}'
    ||| c == '\u{2029}'
    ||| c == '\u{202f}'
    ||| c == '\u{205f}'
    ||| c == '\u{3000}'
}

/// Calls `char::is_whitespace`, which tells whether a character has the
/// Unicode property White_Space. The contract names the characters that
/// have it.
#[verifier::external_body]
fn is_white_space(c: char) -> (r: bool)
    ensures
        r == white_space(c),
{
    c.is_whitespace()
}

/// Where the run of white space that starts at `i` ends.
pub open spec fn lead_end(s: Seq<char>, i: int) -> int
    decreases s.len() - i,
{
    if 0 <= i < s.len() && white_space(s[i]) {
        lead_end(s, i + 1)
    } else {
        i
    }
}

/// Where the run of white space that ends at `j` starts, going no further
/// back than `floor`.
pub open spec fn trail_start(s: Seq<char>, floor: int, j: int) -> int
    decreases j,
{
    if floor < j && 0 < j <= s.len() && white_space(s[j - 1]) {
        trail_start(s, floor, j - 1)
    } else {
        j
    }
}

/// `s` without the white space at its start and at its end.
pub open spec fn spec_trim(s: Seq<char>) -> Seq<char> {
    let from = lead_end(s, 0);
    s.subrange(from, trail_start(s, from, s.len() as int))
}

/// What a line of a definition does to a form: a line of at most
/// `SHORTEST_LINE` bytes is skipped; any other line is read, without the
/// white space around it, as a widget.
pub open spec fn spec_load_line(form: FormView, line: Seq<char>) -> (
    FormView,
    Result<(), ParseError>,
) {
    if encode_utf8(line).len() > SHORTEST_LINE {
        spec_parse_str(form, spec_trim(line))
    } else {
        (form, Ok(()))
    }
}

/// `text` without the white space around it.
pub fn trim(text: &str) -> (r: String)
    ensures
        r@ == spec_trim(text@),
{
    let chars = chars_of(text);
    let mut from: usize = 0;
    while from < chars.len() && is_white_space(chars[from])
        invariant
            from <= chars.len(),
            lead_end(chars@, 0) == lead_end(chars@, from as int),
        decreases chars.len() - from,
    {
        from = from + 1;
    }
    let mut to: usize = chars.len();
    while to > from && is_white_space(chars[to - 1])
        invariant
            from <= to <= chars.len(),
            trail_start(chars@, from as int, chars@.len() as int) == trail_start(
                chars@,
                from as int,
                to as int,
            ),
        decreases to,
    {
        to = to - 1;
    }
    string_of(&chars, from, to)
}

/// Puts what `line` describes on the form; skips a line too short to
/// describe anything. On an error the form is left as it was.
pub fn load_line(form: &mut Form, line: &str) -> (r: Result<(), ParseError>)
    ensures
        (final(form)@, r) == spec_load_line(old(form)@, line@),
{
    if line.as_bytes().len() > SHORTEST_LINE {
        let trimmed = trim(line);
        parse_str(form, trimmed.as_str())
    } else {
        Ok(())
    }
}

/// The form after the first `n` of `lines` went onto it, or the first error.
pub open spec fn spec_load_lines(form: FormView, lines: Seq<Seq<char>>, n: int) -> Result<
    FormView,
    ParseError,
>
    decreases n,
{
    if n <= 0 {
        Ok(form)
    } else {
        match spec_load_lines(form, lines, n - 1) {
            Err(e) => Err(e),
            Ok(before) => match spec_load_line(before, lines[n - 1]).1 {
                Ok(()) => Ok(spec_load_line(before, lines[n - 1]).0),
                Err(e) => Err(e),
            },
        }
    }
}

/// The form that `lines` define on a canvas of `size`, with the cursor
/// placed on its first field; the first error when a line is in error.
pub open spec fn spec_form_from_lines(size: Pos, lines: Seq<Seq<char>>) -> Result<
    FormView,
    ParseError,
> {
    match spec_load_lines(FormView::empty(size), lines, lines.len() as int) {
        Ok(form) => Ok(form.place_cursor()),
        Err(e) => Err(e),
    }
}

/// Builds a form on a canvas of `size` from the lines of a definition, in
/// order, and places the cursor. Stops at the first line in error.
pub fn form_from_lines(size: Pos, lines: &Vec<String>) -> (r: Result<Form, ParseError>)
    ensures
        match r {
            Ok(form) => spec_form_from_lines(size, strings_view(lines@)) == Ok::<FormView, ParseError>(form@),
            Err(e) => spec_form_from_lines(size, strings_view(lines@)) == Err::<FormView, ParseError>(e),
        },
{
    let mut form = Form::new(size);
    let mut i: usize = 0;
    while i < lines.len()
        invariant
            i <= lines.len(),
            spec_load_lines(FormView::empty(size), strings_view(lines@), i as int) == Ok::<
                FormView,
                ParseError,
            >(form@),
        decreases lines.len() - i,
    {
        match load_line(&mut form, lines[i].as_str()) {
            Ok(()) => {},
            Err(e) => {
                proof {
                    lemma_error_stays(
                        FormView::empty(size),
                        strings_view(lines@),
                        i + 1,
                        lines@.len() as int,
                    );
                }
                return Err(e);
            },
        }
        i = i + 1;
    }
    Ok(form.place_cursor())
}

/// Once a line was in error, the lines after it change nothing.
pub proof fn lemma_error_stays(form: FormView, lines: Seq<Seq<char>>, n: int, m: int)
    requires
        spec_load_lines(form, lines, n) is Err,
        n <= m,
    ensures
        spec_load_lines(form, lines, m) == spec_load_lines(form, lines, n),
    decreases m - n,
{
    if n < m {
        lemma_error_stays(form, lines, n, m - 1);
        if n <= 0 {
            assert(false);
        }
    }
}

} // verus!
