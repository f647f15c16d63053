//! Emit warnings during interpreter execution.

use vstd::prelude::*;

use crate::bstr;
use crate::exception::Exception;
use crate::interp::{spec_line, Artichoke};

verus! {

/// Emit warnings during interpreter execution.
///
/// Some behaviour the interpreter must stay compatible with is
/// deprecated or invalid, and a warning is expected on the standard
/// error stream when it is exercised. Implementations append the
/// message, newline-terminated, to their warning sink; if the sink
/// fails, an error is returned.
pub trait Warn {
    /// Concrete error type for errors encountered when outputting
    /// warnings.
    type Error;

    /// The warning sink's contents so far.
    spec fn warn_sink(&self) -> Seq<u8>;

    /// Emit a warning message.
    ///
    /// On success the message is appended to the warning sink,
    /// newline-terminated unless it already is.
    fn warn(&mut self, message: &Vec<u8>) -> (r: Result<(), Self::Error>)
        ensures
            r is Ok ==> final(self).warn_sink() == old(self).warn_sink() + spec_line(message@),
    ;
}

impl Warn for Artichoke {
    type Error = Exception;

    /// The captured warning bytes.
    open spec fn warn_sink(&self) -> Seq<u8> {
        self.warnings@
    }

    /// Append the message to the interpreter's warning buffer,
    /// newline-terminated.
    fn warn(&mut self, message: &Vec<u8>) -> Result<(), Exception> {
        bstr::append_bytes(&mut self.warnings, message);
        let needs_newline = message.len() == 0 || message[message.len() - 1] != 10;
        if needs_newline {
            self.warnings.push(10);
        }
        proof {
            assert(self.warnings@ =~= old(self).warnings@ + spec_line(message@));
        }
        Ok(())
    }
}

} // verus!
