//! The downstream character sink that rendered text is written into.

use vstd::prelude::*;
use vstd::string::StringExecFns;

verus! {

/// A failure reported by a downstream sink. Rendering never fails for any
/// other reason: every failure surfacing from this library originated in the
/// sink that the caller supplied, and is forwarded unchanged.
#[derive(Clone, Copy, PartialEq, Eq, Structural, Debug)]
pub struct WriteError;

/// A destination for characters, such as a growable string buffer or a
/// wrapper around another sink.
///
/// `content()` is the text a sink has accepted so far, as its callers handed
/// it over; a transforming sink (such as an indenting wrapper) may forward
/// something else downstream. A successful write appends exactly the written
/// text to `content()`. A sink with `infallible()` true never reports an
/// error, and whether a sink is infallible never changes over its lifetime.
pub trait Sink {
    /// The text accepted by this sink so far. An implementation that leaves
    /// the default has no model: nothing about its text can be concluded.
    open spec fn content(&self) -> Seq<char> {
        arbitrary()
    }

    /// Whether every write to this sink is guaranteed to succeed. By default
    /// nothing is promised.
    open spec fn infallible(&self) -> bool {
        false
    }

    /// Writes a whole string.
    fn write_str(&mut self, s: &str) -> (r: Result<(), WriteError>)
        ensures
            r is Ok ==> final(self).content() == old(self).content() + s@,
            final(self).infallible() == old(self).infallible(),
            old(self).infallible() ==> r is Ok,
    ;

    /// Writes a single character.
    fn write_char(&mut self, c: char) -> (r: Result<(), WriteError>)
        ensures
            r is Ok ==> final(self).content() == old(self).content() + seq![c],
            final(self).infallible() == old(self).infallible(),
            old(self).infallible() ==> r is Ok,
    ;
}

/// Relies on `String::push`: appends one character at the end of the string.
#[verifier::external_body]
fn push_char(s: &mut String, c: char)
    ensures
        final(s)@ == old(s)@.push(c),
{
    s.push(c);
}

/// A `String` is the basic sink: it accumulates every character written to it
/// and never fails.
impl Sink for String {
    open spec fn content(&self) -> Seq<char> {
        self@
    }

    open spec fn infallible(&self) -> bool {
        true
    }

    fn write_str(&mut self, s: &str) -> (r: Result<(), WriteError>)
        ensures
            r is Ok,
            final(self).content() == old(self).content() + s@,
    {
        self.append(s);
        Ok(())
    }

    fn write_char(&mut self, c: char) -> (r: Result<(), WriteError>)
        ensures
            r is Ok,
            final(self).content() == old(self).content() + seq![c],
    {
        push_char(self, c);
        proof {
            assert(self@ =~= old(self)@ + seq![c]);
        }
        Ok(())
    }
}

} // verus!
