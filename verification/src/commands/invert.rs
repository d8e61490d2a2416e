//! `invert`: flips the visibility of every line.
use vstd::prelude::*;
use std::collections::HashMap;

use crate::base::{lines_view, CommandDefinition, LineStatus, LineView};
use crate::constants::command_prefix;
use crate::language_api::Parsed;
use crate::CommandActions;

verus! {

/// Flips the visibility of every line.
#[derive(Debug)]
pub struct CInvert;

/// Compile-time facts about `invert`.
pub fn get_constant_definition() -> (r: CommandDefinition)
    ensures
        r.name@ == command_prefix::INVERT@,
        !r.mutates_line_text,
        r.flags@.len() == 0,
{
    CommandDefinition { name: command_prefix::INVERT, mutates_line_text: false, flags: Vec::new() }
}

/// The line with its visibility flipped.
pub open spec fn flipped(l: LineView) -> LineView {
    LineView { visible: !l.visible, ..l }
}

impl CommandActions for CInvert {
    fn apply(&self, lines: Vec<LineStatus>, hashtree: &HashMap<usize, Parsed>) -> (r: Vec<LineStatus>)
        ensures
            lines_view(r@) == lines_view(lines@).map_values(|l: LineView| flipped(l)),
    {
        let mut out: Vec<LineStatus> = Vec::new();
        let mut i: usize = 0;
        while i < lines.len()
            invariant
                i <= lines@.len(),
                out@.len() == i,
                forall|j: int| 0 <= j < i ==> #[trigger] out@[j]@ == flipped(lines@[j]@),
            decreases lines.len() - i,
        {
            let mut l = lines[i].duplicate();
            l.visible = !l.visible;
            out.push(l);
            i = i + 1;
        }
        assert(lines_view(out@) =~= lines_view(lines@).map_values(|l: LineView| flipped(l)));
        out
    }

    fn get_constant_definition(&self) -> (r: CommandDefinition)
        ensures
            r.name@ == command_prefix::INVERT@,
            !r.mutates_line_text,
    {
        get_constant_definition()
    }
}

} // verus!
