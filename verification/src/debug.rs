//! Rendering an object for inspection, given an options value.

use vstd::prelude::*;
use crate::sink::{Sink, WriteError};

verus! {

/// Like `Debug`, but given options for formatting. It does not follow from
/// `Debug`: a type implements this to say how it renders itself for
/// inspection once an options value is supplied.
pub trait DebugWithOptions<Options> {
    /// The exact inspection text this object renders as, for the given
    /// options.
    open spec fn rendered(&self, options: &Options) -> Seq<char> {
        arbitrary()
    }

    /// Writes the inspection rendering of `self` for `options` into `f`. A
    /// failure can only originate in the downstream sink and is forwarded
    /// unchanged.
    fn fmt<W: Sink + ?Sized>(&self, f: &mut W, options: &Options) -> (r: Result<(), WriteError>)
        ensures
            r is Ok ==> final(f).content() == old(f).content() + self.rendered(options),
            final(f).infallible() == old(f).infallible(),
            old(f).infallible() ==> r is Ok,
    ;
}

} // verus!
