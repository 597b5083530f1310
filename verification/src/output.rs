//! Line-oriented output destinations for command messages.

use vstd::prelude::*;
use crate::error::MigratoryError;
use crate::text::push_char;

verus! {

/// A destination that command messages are written to, one line at a time
/// (as `writeln!` writes to an `io::Write`).
pub trait LineSink {
    /// The text written so far; left unspecified for a sink that does not
    /// describe it.
    closed spec fn text(&self) -> Seq<char> {
        arbitrary()
    }

    /// Whether the sink accepts every line written to it, so that a write
    /// never fails; not promised of a sink that does not say so.
    closed spec fn accepts_all(&self) -> bool {
        false
    }

    /// Whether the sink refuses every line written to it, so that a write
    /// always fails; not promised of a sink that does not say so.
    closed spec fn rejects_all(&self) -> bool {
        false
    }

    /// Writes `line` and a newline; where it succeeds, exactly that text is
    /// added. A sink that accepts every line succeeds and goes on accepting;
    /// one that refuses every line fails and goes on refusing.
    fn write_line(&mut self, line: &str) -> (r: Result<(), MigratoryError>)
        ensures
            r is Ok ==> final(self).text() == old(self).text() + line@ + seq!['\n'],
            old(self).accepts_all() ==> r is Ok && final(self).accepts_all(),
            old(self).rejects_all() ==> r is Err && final(self).rejects_all(),
    ;
}

impl LineSink for String {
    open spec fn text(&self) -> Seq<char> {
        self@
    }

    /// Appending to a string never fails.
    open spec fn accepts_all(&self) -> bool {
        true
    }

    fn write_line(&mut self, line: &str) -> (r: Result<(), MigratoryError>)
        ensures
            r is Ok,
    {
        self.append(line);
        push_char(self, '\n');
        Ok(())
    }
}

/// The text of a line as written: the line and a newline.
pub open spec fn line_text(line: Seq<char>) -> Seq<char> {
    line + seq!['\n']
}

} // verus!
