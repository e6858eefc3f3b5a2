//! A bounded buffer of log lines: when it is full, the oldest line makes
//! room for the newest.

use crate::number::{decimal_digits, push_decimal};
use crate::text::strings_view;
use std::collections::VecDeque;
use vstd::prelude::*;
use vstd::string::StringExecFns;

verus! {

broadcast use vstd::std_specs::vecdeque::group_vec_dequeue_axioms;

/// The lines that stay when one more line is to go into a buffer of at most
/// `max_size` lines: all of them while there is room, the newest
/// `max_size - 1` otherwise.
pub open spec fn kept(lines: Seq<Seq<char>>, max_size: int) -> Seq<Seq<char>> {
    if lines.len() >= max_size {
        lines.skip(lines.len() - max_size + 1)
    } else {
        lines
    }
}

/// The buffer after `line` went in.
pub open spec fn appended(lines: Seq<Seq<char>>, max_size: int, line: Seq<char>) -> Seq<Seq<char>> {
    kept(lines, max_size).push(line)
}

/// Makes room in `buffer` for one more line.
pub fn make_room(buffer: &mut VecDeque<String>, max_size: usize)
    requires
        max_size >= 1,
    ensures
        strings_view(final(buffer)@) == kept(strings_view(old(buffer)@), max_size as int),
        final(buffer)@.len() < max_size,
{
    let ghost before = strings_view(buffer@);
    assert(before.skip(0) =~= before);
    let ghost mut dropped: int = 0;
    while buffer.len() >= max_size
        invariant
            max_size >= 1,
            0 <= dropped <= before.len(),
            buffer@.len() == before.len() - dropped,
            dropped > 0 ==> buffer@.len() >= max_size - 1,
            strings_view(buffer@) == before.skip(dropped),
        decreases buffer@.len(),
    {
        let ghost prior = buffer@;
        let oldest = buffer.pop_front();
        proof {
            assert(oldest is Some);
            assert(strings_view(buffer@) =~= strings_view(prior).skip(1));
            assert(before.skip(dropped).skip(1) =~= before.skip(dropped + 1));
            dropped = dropped + 1;
        }
    }
    assert(strings_view(buffer@) =~= kept(before, max_size as int));
}

/// A bounded buffer of log lines.
pub struct Appender {
    pub max_size: usize,
    pub buffer: VecDeque<String>,
}

impl Appender {
    /// The lines held, oldest first.
    pub open spec fn lines(&self) -> Seq<Seq<char>> {
        strings_view(self.buffer@)
    }

    /// An empty buffer that holds at most `max_size` lines.
    pub fn with_capacity(max_size: usize) -> (r: Appender)
        ensures
            r.max_size == max_size,
            r.lines() == Seq::<Seq<char>>::empty(),
    {
        let r = Appender { max_size, buffer: VecDeque::new() };
        assert(r.lines() =~= Seq::<Seq<char>>::empty());
        r
    }

    /// Puts `line` into the buffer as its newest line, dropping the oldest
    /// lines as far as needed to stay within the bound.
    pub fn append(&mut self, line: String)
        requires
            old(self).max_size >= 1,
        ensures
            final(self).max_size == old(self).max_size,
            final(self).lines() == appended(old(self).lines(), old(self).max_size as int, line@),
            final(self).lines().len() <= old(self).max_size,
    {
        make_room(&mut self.buffer, self.max_size);
        let ghost room = self.buffer@;
        self.buffer.push_back(line);
        assert(strings_view(self.buffer@) =~= strings_view(room).push(line@));
    }

    /// What the buffer says of itself: its bound and how many lines it holds.
    pub open spec fn spec_describe(&self) -> Seq<char> {
        "VecAppender with "@ + decimal_digits(self.max_size as int) + "/"@ + decimal_digits(
            self.buffer@.len() as int,
        ) + " entries"@
    }

    /// A one-line description: the bound, then the number of lines held.
    pub fn describe(&self) -> (r: String)
        ensures
            r@ == self.spec_describe(),
    {
        let mut out: String = "VecAppender with ".to_owned();
        push_decimal(&mut out, self.max_size as u64);
        out.append("/");
        push_decimal(&mut out, self.buffer.len() as u64);
        out.append(" entries");
        out
    }
}

} // verus!
