//! The diagnostics pane: a bounded buffer of log lines drawn newest first
//! below a given cell.

use crate::number::{decimal_digits, push_decimal};
use crate::pos::Pos;
use crate::render::{emit, frame_view, Color, Draw, DrawView};
use crate::text::strings_view;
use crate::vec_appender::{appended, make_room};
use std::collections::VecDeque;
use vstd::prelude::*;
use vstd::string::StringExecFns;

verus! {

broadcast use vstd::std_specs::vecdeque::group_vec_dequeue_axioms;

/// The first `n` rows of the pane: row `i` holds the `i`-th newest line,
/// one row below `start` and then downwards, each cleared to its end. A row
/// off the coordinate grid is not drawn.
pub open spec fn spec_rows(start: Pos, lines: Seq<Seq<char>>, n: int) -> Seq<DrawView>
    decreases n,
{
    if n <= 0 {
        Seq::empty()
    } else if start.y + n > u16::MAX {
        spec_rows(start, lines, n - 1)
    } else {
        spec_rows(start, lines, n - 1) + seq![
            DrawView::MoveTo(Pos { x: start.x, y: (start.y + n) as u16 }),
            DrawView::Print(lines[lines.len() - n]),
            DrawView::ClearLine,
        ]
    }
}

/// The frame of the pane.
pub open spec fn spec_pane(start: Pos, lines: Seq<Seq<char>>) -> Seq<DrawView> {
    seq![DrawView::Foreground(Color::DarkGreen)] + spec_rows(start, lines, lines.len() as int)
}

/// The diagnostics pane.
pub struct Appender {
    pub start: Pos,
    pub max_size: usize,
    pub buffer: VecDeque<String>,
}

impl Appender {
    /// The lines held, oldest first.
    pub open spec fn lines(&self) -> Seq<Seq<char>> {
        strings_view(self.buffer@)
    }

    /// An empty pane below `start` that holds at most `size` lines.
    pub fn new(start: Pos, size: usize) -> (r: Appender)
        ensures
            r.start == start,
            r.max_size == size,
            r.lines() == Seq::<Seq<char>>::empty(),
    {
        let r = Appender { start, max_size: size, buffer: VecDeque::new() };
        assert(r.lines() =~= Seq::<Seq<char>>::empty());
        r
    }

    /// The steps that draw the pane.
    pub fn display(&self) -> (r: Vec<Draw>)
        ensures
            frame_view(r@) == spec_pane(self.start, self.lines()),
    {
        let mut frame: Vec<Draw> = Vec::new();
        emit(&mut frame, Draw::Foreground(Color::DarkGreen));
        let ghost head = frame_view(frame@);
        assert(head =~= seq![DrawView::Foreground(Color::DarkGreen)]);
        let count: usize = self.buffer.len();
        let mut n: usize = 0;
        while n < count
            invariant
                n <= count,
                count == self.buffer@.len(),
                frame_view(frame@) == head + spec_rows(self.start, self.lines(), n as int),
            decreases count - n,
        {
            n = n + 1;
            if n <= (u16::MAX - self.start.y) as usize {
                emit(&mut frame, Draw::MoveTo(Pos { x: self.start.x, y: self.start.y + n as u16 }));
                emit(&mut frame, Draw::Print(self.buffer[count - n].clone()));
                emit(&mut frame, Draw::ClearLine);
            }
            assert(frame_view(frame@) =~= head + spec_rows(self.start, self.lines(), n as int));
        }
        frame
    }

    /// Puts `line` into the pane as its newest line, dropping the oldest as
    /// far as needed, and gives the steps to draw: the pane when it is
    /// `visible`, nothing when it is not.
    pub fn append(&mut self, line: String, visible: bool) -> (r: Vec<Draw>)
        requires
            old(self).max_size >= 1,
        ensures
            final(self).start == old(self).start,
            final(self).max_size == old(self).max_size,
            final(self).lines() == appended(old(self).lines(), old(self).max_size as int, line@),
            frame_view(r@) == (if visible {
                spec_pane(final(self).start, final(self).lines())
            } else {
                Seq::empty()
            }),
    {
        make_room(&mut self.buffer, self.max_size);
        let ghost room = self.buffer@;
        self.buffer.push_back(line);
        assert(strings_view(self.buffer@) =~= strings_view(room).push(line@));
        if visible {
            self.display()
        } else {
            let frame: Vec<Draw> = Vec::new();
            assert(frame_view(frame@) =~= Seq::empty());
            frame
        }
    }

    /// What the pane says of itself.
    pub open spec fn spec_describe(&self, visible: bool) -> Seq<char> {
        "VecAppender with "@ + decimal_digits(self.max_size as int) + "/"@ + decimal_digits(
            self.buffer@.len() as int,
        ) + " entries, output enabled: "@ + (if visible {
            "true"@
        } else {
            "false"@
        })
    }

    /// A one-line description: the bound, the number of lines held, and
    /// whether the pane is shown.
    pub fn describe(&self, visible: bool) -> (r: String)
        ensures
            r@ == self.spec_describe(visible),
    {
        let mut out: String = "VecAppender with ".to_owned();
        push_decimal(&mut out, self.max_size as u64);
        out.append("/");
        push_decimal(&mut out, self.buffer.len() as u64);
        out.append(" entries, output enabled: ");
        if visible {
            out.append("true");
        } else {
            out.append("false");
        }
        out
    }
}

} // verus!
