//! What a finished form hands back: one `name=value` line per field, the
//! value quoted for a shell.

use crate::event::EventResult;
use crate::form::{Form, FormView};
use crate::input::InputView;
use crate::text::strings_view;
use vstd::prelude::*;
use vstd::string::StringExecFns;

verus! {

/// `s` quoted and escaped for a shell, as `snailquote::escape` does it.
pub uninterp spec fn shell_quoted(s: Seq<char>) -> Seq<char>;

/// Calls `snailquote::escape`: the text comes back unchanged where a shell
/// takes it literally, in single quotes where that is enough, and otherwise
/// in double quotes with escapes. The result depends on the text alone.
#[verifier::external_body]
fn shell_escape(s: &str) -> (r: String)
    ensures
        r@ == shell_quoted(s@),
{
    snailquote::escape(s).into_owned()
}

/// The line for a field called `name` whose quoted value is `quoted`.
pub open spec fn spec_line(name: Seq<char>, quoted: Seq<char>) -> Seq<char> {
    name + seq!['='] + quoted
}

/// The lines of a form that ended with `result`: one per field, in the order
/// the fields were added, for a submitted form; none for any other outcome.
pub open spec fn spec_output(form: FormView, result: EventResult) -> Seq<Seq<char>> {
    if result == EventResult::Submit {
        form.inputs.map_values(|i: InputView| spec_line(i.name, shell_quoted(i.value)))
    } else {
        Seq::empty()
    }
}

/// Joins a field's name and its quoted value with `=`.
pub fn format_line(name: &str, quoted: &str) -> (r: String)
    ensures
        r@ == spec_line(name@, quoted@),
{
    proof {
        reveal_strlit("=");
    }
    let mut line: String = name.to_owned();
    line.append("=");
    line.append(quoted);
    assert("="@ =~= seq!['=']);
    line
}

/// The `name=value` lines to print for a form that ended with `result`. An
/// aborted form yields none, whatever was edited before the abort.
pub fn output_lines(form: &Form, result: EventResult) -> (r: Vec<String>)
    ensures
        strings_view(r@) == spec_output(form@, result),
        result != EventResult::Submit ==> r@.len() == 0,
{
    let mut lines: Vec<String> = Vec::new();
    if result != EventResult::Submit {
        assert(strings_view(lines@) =~= Seq::empty());
        return lines;
    }
    let mut i: usize = 0;
    while i < form.inputs.len()
        invariant
            i <= form.inputs.len(),
            lines@.len() == i,
            forall|j: int|
                0 <= j < i ==> (#[trigger] lines@[j])@ == spec_line(
                    form.inputs@[j].name@,
                    shell_quoted(form.inputs@[j].value@),
                ),
        decreases form.inputs.len() - i,
    {
        let quoted = shell_escape(form.inputs[i].value.as_str());
        lines.push(format_line(form.inputs[i].name.as_str(), quoted.as_str()));
        i = i + 1;
    }
    assert(strings_view(lines@) =~= spec_output(form@, result));
    lines
}

} // verus!
