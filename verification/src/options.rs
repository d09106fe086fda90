//! Indentation state threaded through a recursive render, and the wrapper
//! that pairs an object with the options it is rendered with.

use vstd::prelude::*;
use vstd::string::StringExecFns;
use crate::debug::DebugWithOptions;
use crate::display::DisplayWithOptions;
use crate::sink::Sink;

verus! {

/// The mathematical view of an indentation state: the indentation accumulated
/// so far and the unit appended per further nesting level, as character
/// sequences.
pub struct IndentOptionsView {
    /// The exact prefix to emit before the next unprefixed line.
    pub full_indentation: Seq<char>,
    /// The string appended once per additional nesting level.
    pub next_level: Seq<char>,
}

/// `unit` repeated `n` times.
pub open spec fn repeated(unit: Seq<char>, n: nat) -> Seq<char>
    decreases n,
{
    if n == 0 {
        Seq::empty()
    } else {
        repeated(unit, (n - 1) as nat) + unit
    }
}

/// Prepending the unit to `n` repetitions of it yields `n + 1` repetitions.
pub proof fn lemma_repeated_prepend(unit: Seq<char>, n: nat)
    ensures
        unit + repeated(unit, n) == repeated(unit, n + 1),
    decreases n,
{
    if n == 0 {
        assert(unit + repeated(unit, 0) =~= repeated(unit, 1));
    } else {
        lemma_repeated_prepend(unit, (n - 1) as nat);
        assert(unit + repeated(unit, n) =~= (unit + repeated(unit, (n - 1) as nat)) + unit);
    }
}

/// One more level: the unit is appended to the accumulated indentation.
pub open spec fn deeper_spec(v: IndentOptionsView) -> IndentOptionsView {
    IndentOptionsView {
        full_indentation: v.full_indentation + v.next_level,
        next_level: v.next_level,
    }
}

/// `n` more levels: the unit is appended `n` times.
pub open spec fn n_deeper_spec(v: IndentOptionsView, n: nat) -> IndentOptionsView {
    IndentOptionsView {
        full_indentation: v.full_indentation + repeated(v.next_level, n),
        next_level: v.next_level,
    }
}

/// The unit changes; the accumulated indentation stays.
pub open spec fn with_next_spec(v: IndentOptionsView, unit: Seq<char>) -> IndentOptionsView {
    IndentOptionsView { full_indentation: v.full_indentation, next_level: unit }
}

/// A one-off suffix joins the accumulated indentation; the unit stays.
pub open spec fn appending_spec(v: IndentOptionsView, extra: Seq<char>) -> IndentOptionsView {
    IndentOptionsView { full_indentation: v.full_indentation + extra, next_level: v.next_level }
}

/// The accumulated indentation is reset; the unit stays.
pub open spec fn restart_spec(v: IndentOptionsView) -> IndentOptionsView {
    IndentOptionsView { full_indentation: Seq::empty(), next_level: v.next_level }
}

/// Resetting the indentation state twice yields the same state as resetting
/// it once.
pub proof fn lemma_restart_idempotent(v: IndentOptionsView)
    ensures
        restart_spec(restart_spec(v)) == restart_spec(v),
{
}

/// Going one level deeper twice yields the same state as going two levels
/// deeper at once.
pub proof fn lemma_deeper_twice_is_two_deeper(v: IndentOptionsView)
    ensures
        deeper_spec(deeper_spec(v)) == n_deeper_spec(v, 2),
{
    reveal_with_fuel(repeated, 3);
    assert((v.full_indentation + v.next_level) + v.next_level =~= v.full_indentation + repeated(
        v.next_level,
        2,
    ));
}

/// Indentation state. Holds what was previously indented, and what is to be
/// appended per further indentation level.
#[derive(Debug)]
pub struct IndentOptions<'a> {
    /// The exact string to emit before the next unprefixed line.
    pub full_indentation: String,
    /// The string appended once per additional nesting level.
    pub next_level: &'a str,
}

impl<'a> View for IndentOptions<'a> {
    type V = IndentOptionsView;

    open spec fn view(&self) -> IndentOptionsView {
        IndentOptionsView {
            full_indentation: self.full_indentation@,
            next_level: self.next_level@,
        }
    }
}

impl<'a> IndentOptions<'a> {
    /// The starting state: nothing accumulated yet, `indent` per level.
    pub fn new(indent: &'a str) -> (r: Self)
        ensures
            r@ == (IndentOptionsView { full_indentation: Seq::empty(), next_level: indent@ }),
    {
        IndentOptions { full_indentation: String::new(), next_level: indent }
    }

    /// Indents one more level with the same indentation as before.
    pub fn deeper(&self) -> (r: IndentOptions<'a>)
        ensures
            r@ == deeper_spec(self@),
    {
        let mut full = self.full_indentation.clone();
        full.append(self.next_level);
        IndentOptions { full_indentation: full, next_level: self.next_level }
    }

    /// Indents multiple levels with the same indentation as before.
    pub fn n_deeper(&self, indents: usize) -> (r: IndentOptions<'a>)
        ensures
            r@ == n_deeper_spec(self@, indents as nat),
    {
        let mut full = self.full_indentation.clone();
        let mut i: usize = 0;
        while i < indents
            invariant
                i <= indents,
                full@ == self@.full_indentation + repeated(self@.next_level, i as nat),
            decreases indents - i,
        {
            full.append(self.next_level);
            i = i + 1;
        }
        IndentOptions { full_indentation: full, next_level: self.next_level }
    }

    /// Switches the indentation style, but keeps the previous indentation.
    pub fn with_next<'c>(&self, indent: &'c str) -> (r: IndentOptions<'c>)
        ensures
            r@ == with_next_spec(self@, indent@),
    {
        IndentOptions { full_indentation: self.full_indentation.clone(), next_level: indent }
    }

    /// Appends the given indentation once, but keeps the previous style for
    /// further levels.
    pub fn appending(&self, indent: &str) -> (r: IndentOptions<'a>)
        ensures
            r@ == appending_spec(self@, indent@),
    {
        let mut full = self.full_indentation.clone();
        full.append(indent);
        IndentOptions { full_indentation: full, next_level: self.next_level }
    }

    /// Resets the indentation, but keeps the indentation style.
    pub fn restart(&self) -> (r: IndentOptions<'a>)
        ensures
            r@ == restart_spec(self@),
    {
        IndentOptions { full_indentation: String::new(), next_level: self.next_level }
    }

    /// The accumulated indentation, verbatim: the text this state renders as.
    pub fn to_text(&self) -> (r: String)
        ensures
            r@ == self@.full_indentation,
    {
        self.full_indentation.clone()
    }
}

/// An object paired with the options it is to be rendered with.
pub struct ObjectWithOptions<'a, 'b, Options, Object: ?Sized> {
    /// The object to render.
    pub object: &'a Object,
    /// The options it is rendered with.
    pub options: &'b Options,
}

impl<'a, 'b, Options, Object: DisplayWithOptions<Options> + ?Sized> ObjectWithOptions<
    'a,
    'b,
    Options,
    Object,
> {
    /// The object's rendering for the carried options, as a string.
    pub fn to_text(&self) -> (r: String)
        ensures
            r@ == self.object.rendered(self.options),
    {
        let mut out = String::new();
        let _ok = self.object.fmt(&mut out, self.options);
        out
    }
}

impl<'a, 'b, Options, Object: DebugWithOptions<Options> + ?Sized> ObjectWithOptions<
    'a,
    'b,
    Options,
    Object,
> {
    /// The object's inspection rendering for the carried options, as a
    /// string.
    pub fn to_debug_text(&self) -> (r: String)
        ensures
            r@ == DebugWithOptions::rendered(self.object, self.options),
    {
        let mut out = String::new();
        let _ok = DebugWithOptions::fmt(self.object, &mut out, self.options);
        out
    }
}

/// Wraps the object with its options such that it can be rendered as text.
/// The wrapper's text form is exactly the object's own rendering for those
/// options.
pub fn with_options<'a, 'b, Options, Object: ?Sized>(
    object: &'a Object,
    options: &'b Options,
) -> (r: ObjectWithOptions<'a, 'b, Options, Object>)
    ensures
        r.object == object,
        r.options == options,
{
    ObjectWithOptions { object, options }
}

} // verus!
