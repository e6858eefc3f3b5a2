//! Text labels.

use crate::pos::Pos;
use std::cmp::Ordering;
use vstd::prelude::*;
use vstd::std_specs::cmp::{PartialEqSpecImpl, PartialOrdSpecImpl};

verus! {

/// A piece of text drawn at a fixed cell.
#[derive(Debug, Clone)]
pub struct Label {
    pub pos: Pos,
    pub text: String,
}

/// What a label holds, as mathematical values.
pub struct LabelView {
    pub pos: Pos,
    pub text: Seq<char>,
}

impl View for Label {
    type V = LabelView;

    open spec fn view(&self) -> LabelView {
        LabelView { pos: self.pos, text: self.text@ }
    }
}

impl Label {
    /// A label showing `text` from `pos` on.
    pub fn new_label(pos: Pos, text: &str) -> (r: Label)
        ensures
            r@ == (LabelView { pos, text: text@ }),
    {
        Label { pos, text: text.to_owned() }
    }
}

/// Two labels are equal when they start at the same cell.
impl PartialEq for Label {
    fn eq(&self, other: &Label) -> (r: bool) {
        self.pos == other.pos
    }
}

impl Eq for Label {

}

impl PartialEqSpecImpl for Label {
    open spec fn obeys_eq_spec() -> bool {
        true
    }

    open spec fn eq_spec(&self, other: &Label) -> bool {
        self.pos == other.pos
    }
}

/// Ordered by where they are, in row-major order.
impl PartialOrd for Label {
    fn partial_cmp(&self, other: &Label) -> (r: Option<Ordering>) {
        self.pos.partial_cmp(&other.pos)
    }
}

impl PartialOrdSpecImpl for Label {
    open spec fn obeys_partial_cmp_spec() -> bool {
        true
    }

    open spec fn partial_cmp_spec(&self, other: &Label) -> Option<Ordering> {
        Some(self.pos.ordering_to(other.pos))
    }
}

} // verus!
