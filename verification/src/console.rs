//! The last few lines of what the battle reported.

use std::collections::VecDeque;
use vstd::prelude::*;

verus! {

pub const CONSOLE_MAX_LINES: usize = 10;

/// A log that keeps only its newest lines.
pub struct Console {
    pub lines: VecDeque<String>,
}

impl Console {
    pub open spec fn wf(&self) -> bool {
        self.lines@.len() <= CONSOLE_MAX_LINES
    }

    /// The lines after one more is printed: a full console drops its
    /// oldest line first.
    pub open spec fn printed(lines: Seq<String>, text: String) -> Seq<String> {
        if lines.len() == CONSOLE_MAX_LINES {
            lines.subrange(1, lines.len() as int).push(text)
        } else {
            lines.push(text)
        }
    }

    pub fn new() -> (r: Console)
        ensures
            r.lines@.len() == 0,
            r.wf(),
    {
        Console { lines: VecDeque::new() }
    }

    pub fn print(&mut self, text: String)
        ensures
            final(self).lines@ == Self::printed(old(self).lines@, text),
            old(self).wf() ==> final(self).wf(),
    {
        if self.lines.len() == CONSOLE_MAX_LINES {
            self.lines.pop_front();
        }
        self.lines.push_back(text);
    }

    pub fn len(&self) -> (r: usize)
        ensures
            r == self.lines@.len(),
    {
        self.lines.len()
    }
}

} // verus!
