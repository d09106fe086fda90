//! Rendering an object as text, given an options value.

use vstd::prelude::*;
use crate::sink::{Sink, WriteError};

verus! {

/// Like `Display`, but given options for formatting. A type implements this
/// to say how it renders itself as text once an options value (such as the
/// current indentation state) is supplied.
pub trait DisplayWithOptions<Options> {
    /// The exact text this object renders as, for the given options.
    open spec fn rendered(&self, options: &Options) -> Seq<char> {
        arbitrary()
    }

    /// Writes the rendering of `self` for `options` into `f`. A failure can
    /// only originate in the downstream sink and is forwarded unchanged.
    fn fmt<W: Sink + ?Sized>(&self, f: &mut W, options: &Options) -> (r: Result<(), WriteError>)
        ensures
            r is Ok ==> final(f).content() == old(f).content() + self.rendered(options),
            final(f).infallible() == old(f).infallible(),
            old(f).infallible() ==> r is Ok,
    ;
}

/// A plain string slice renders as itself, whatever the options say.
impl<Options> DisplayWithOptions<Options> for str {
    open spec fn rendered(&self, options: &Options) -> Seq<char> {
        self@
    }

    fn fmt<W: Sink + ?Sized>(&self, f: &mut W, options: &Options) -> (r: Result<(), WriteError>) {
        f.write_str(self)
    }
}

/// Renders the object with the given options into a fresh string, through the
/// standard string-building sink. The sink cannot fail, so neither can this.
pub fn format_with_options<Options, Object: DisplayWithOptions<Options> + ?Sized>(
    object: &Object,
    options: &Options,
) -> (r: String)
    ensures
        r@ == object.rendered(options),
{
    let mut out = String::new();
    let _ok = object.fmt(&mut out, options);
    out
}

} // verus!

