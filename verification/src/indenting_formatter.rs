//! A writer that wraps a downstream sink and injects a configured indentation
//! string immediately before the first character of every non-empty line.

use vstd::prelude::*;
use vstd::string::StrSliceExecFns;
use crate::sink::{Sink, WriteError};

verus! {

/// What one character written to an indenting writer makes the downstream
/// sink receive: a newline passes through bare, any other character is
/// prefixed by the indentation exactly when it starts a fresh line.
pub open spec fn indent_char(indentation: Seq<char>, fresh: bool, c: char) -> Seq<char> {
    if c == '\n' {
        seq!['\n']
    } else if fresh {
        indentation + seq![c]
    } else {
        seq![c]
    }
}

/// What a whole chunk written to an indenting writer makes the downstream
/// sink receive, starting from the given fresh-line state. Each character is
/// processed in order; after a newline the next character starts a fresh
/// line.
pub open spec fn indented(indentation: Seq<char>, fresh: bool, s: Seq<char>) -> Seq<char>
    decreases s.len(),
{
    if s.len() == 0 {
        Seq::empty()
    } else {
        indent_char(indentation, fresh, s[0]) + indented(indentation, s[0] == '\n', s.drop_first())
    }
}

/// The fresh-line state after writing `s` from state `fresh`: unchanged by an
/// empty chunk, and otherwise true exactly when the last character written
/// was a newline.
pub open spec fn fresh_after(fresh: bool, s: Seq<char>) -> bool {
    if s.len() == 0 {
        fresh
    } else {
        s.last() == '\n'
    }
}

/// Writing one more character extends the downstream text by what that
/// character yields in the fresh-line state reached after the chunk so far.
proof fn lemma_indented_snoc(indentation: Seq<char>, fresh: bool, s: Seq<char>, c: char)
    ensures
        indented(indentation, fresh, s.push(c)) == indented(indentation, fresh, s) + indent_char(
            indentation,
            fresh_after(fresh, s),
            c,
        ),
    decreases s.len(),
{
    if s.len() == 0 {
        assert(s.push(c)[0] == c);
        assert(s.push(c).drop_first() =~= Seq::<char>::empty());
        assert(indented(indentation, c == '\n', Seq::<char>::empty()) =~= Seq::<char>::empty());
        assert(indented(indentation, fresh, s.push(c)) =~= indent_char(indentation, fresh, c));
        assert(indented(indentation, fresh, s) + indent_char(indentation, fresh_after(fresh, s), c)
            =~= indent_char(indentation, fresh, c));
    } else {
        assert(s.push(c)[0] == s[0]);
        assert(s.push(c).drop_first() =~= s.drop_first().push(c));
        lemma_indented_snoc(indentation, s[0] == '\n', s.drop_first(), c);
        if s.len() > 1 {
            assert(s.drop_first().last() == s.last());
        }
        assert(fresh_after(s[0] == '\n', s.drop_first()) == fresh_after(fresh, s));
        assert(indented(indentation, fresh, s.push(c)) =~= indent_char(indentation, fresh, s[0])
            + (indented(indentation, s[0] == '\n', s.drop_first()) + indent_char(
            indentation,
            fresh_after(fresh, s),
            c,
        )));
        assert(indented(indentation, fresh, s) + indent_char(indentation, fresh_after(fresh, s), c)
            =~= indent_char(indentation, fresh, s[0]) + (indented(
            indentation,
            s[0] == '\n',
            s.drop_first(),
        ) + indent_char(indentation, fresh_after(fresh, s), c)));
    }
}

/// Holds of text that stays within one visual line: no character of it is a
/// newline.
pub open spec fn newline_free(t: Seq<char>) -> bool {
    forall|j: int| 0 <= j < t.len() ==> t[j] != '\n'
}

/// Fresh-line invariant: a non-empty chunk leaves the writer at a fresh line
/// exactly when its last character is a newline, whatever state the writer
/// started in.
pub proof fn lemma_fresh_line_after_chunk(fresh: bool, s: Seq<char>)
    requires
        s.len() > 0,
    ensures
        fresh_after(fresh, s) == (s.last() == '\n'),
{
}

/// Chunk-boundary independence: writing a chunk in two pieces drives the
/// downstream sink exactly as writing it whole does, and leaves the writer in
/// the same fresh-line state.
pub proof fn lemma_indented_concat(indentation: Seq<char>, fresh: bool, s1: Seq<char>, s2: Seq<char>)
    ensures
        indented(indentation, fresh, s1 + s2) == indented(indentation, fresh, s1) + indented(
            indentation,
            fresh_after(fresh, s1),
            s2,
        ),
        fresh_after(fresh, s1 + s2) == fresh_after(fresh_after(fresh, s1), s2),
    decreases s2.len(),
{
    if s2.len() == 0 {
        assert(s1 + s2 =~= s1);
        assert(indented(indentation, fresh, s1) + indented(
            indentation,
            fresh_after(fresh, s1),
            s2,
        ) =~= indented(indentation, fresh, s1));
    } else {
        let s2front = s2.drop_last();
        let c = s2.last();
        lemma_indented_concat(indentation, fresh, s1, s2front);
        lemma_indented_snoc(indentation, fresh, s1 + s2front, c);
        lemma_indented_snoc(indentation, fresh_after(fresh, s1), s2front, c);
        assert((s1 + s2front).push(c) =~= s1 + s2);
        assert(s2front.push(c) =~= s2);
        assert((indented(indentation, fresh, s1) + indented(
            indentation,
            fresh_after(fresh, s1),
            s2front,
        )) + indent_char(indentation, fresh_after(fresh, s1 + s2front), c) =~= indented(
            indentation,
            fresh,
            s1,
        ) + (indented(indentation, fresh_after(fresh, s1), s2front) + indent_char(
            indentation,
            fresh_after(fresh_after(fresh, s1), s2front),
            c,
        )));
    }
}

/// A chunk that stays within one line passes through unchanged mid-line, and
/// gains exactly one indentation prefix when it starts a fresh line.
pub proof fn lemma_indented_line(indentation: Seq<char>, t: Seq<char>)
    requires
        newline_free(t),
    ensures
        indented(indentation, false, t) == t,
        t.len() > 0 ==> indented(indentation, true, t) == indentation + t,
    decreases t.len(),
{
    if t.len() == 0 {
        assert(indented(indentation, false, t) =~= t);
    } else {
        lemma_indented_line(indentation, t.drop_first());
        assert(t[0] != '\n');
        assert(indented(indentation, false, t) =~= seq![t[0]] + t.drop_first());
        assert(seq![t[0]] + t.drop_first() =~= t);
        assert(indented(indentation, true, t) =~= (indentation + seq![t[0]]) + t.drop_first());
        assert((indentation + seq![t[0]]) + t.drop_first() =~= indentation + t);
    }
}

/// Wraps a downstream sink, tracks whether the next character written would
/// start a new visual line, and injects `indentation` immediately before the
/// first character of each non-empty line.
pub struct IndentingFormatter<'a, 'b, W: ?Sized> {
    /// The downstream sink that finally receives the characters.
    pub writer: &'a mut W,
    /// True exactly when the last character written was a newline, or no
    /// character has been written yet.
    pub is_fresh_line: bool,
    /// The string injected at the start of every non-empty line.
    pub indentation: &'b str,
    /// The text accepted by this writer so far, before indentation.
    pub written: Ghost<Seq<char>>,
}

impl<'a, 'b, W: Sink + ?Sized> IndentingFormatter<'a, 'b, W> {
    /// Wraps `writer` so that every non-empty line written from here on is
    /// prefixed by `indentation`. The writer starts at a fresh line.
    pub fn new(writer: &'a mut W, indentation: &'b str) -> (r: IndentingFormatter<'a, 'b, W>)
        ensures
            r.writer.content() == old(writer).content(),
            r.writer.infallible() == old(writer).infallible(),
            (*final(r.writer)).content() == (*final(writer)).content(),
            (*final(r.writer)).infallible() == (*final(writer)).infallible(),
            r.is_fresh_line == true,
            r.indentation == indentation,
            r.written@ == Seq::<char>::empty(),
    {
        IndentingFormatter { writer, is_fresh_line: true, indentation, written: Ghost(Seq::empty()) }
    }
}

impl<'a, 'b, W: Sink + ?Sized> Sink for IndentingFormatter<'a, 'b, W> {
    /// The text this writer has accepted, as its caller wrote it; the
    /// downstream sink receives the indented form of it.
    open spec fn content(&self) -> Seq<char> {
        self.written@
    }

    open spec fn infallible(&self) -> bool {
        (*self.writer).infallible()
    }

    fn write_str(&mut self, s: &str) -> (r: Result<(), WriteError>)
        ensures
            final(self).indentation == old(self).indentation,
            (*final(final(self).writer)).content() == (*final(old(self).writer)).content(),
            (*final(final(self).writer)).infallible() == (*final(old(self).writer)).infallible(),
            r is Ok ==> (*final(self).writer).content() == (*old(self).writer).content()
                + indented(old(self).indentation@, old(self).is_fresh_line, s@),
            r is Ok ==> final(self).is_fresh_line == fresh_after(old(self).is_fresh_line, s@),
    {
        let ghost fresh0 = self.is_fresh_line;
        let ind: &str = self.indentation;
        let mut fresh: bool = self.is_fresh_line;
        let writer: &mut W = &mut *self.writer;
        let ghost w0 = writer.content();
        let ghost inf0 = writer.infallible();
        let n = s.unicode_len();
        let mut i: usize = 0;
        let mut failed: bool = false;
        while i < n && !failed
            invariant
                n == s@.len(),
                i <= n,
                writer.infallible() == inf0,
                !failed ==> writer.content() == w0 + indented(ind@, fresh0, s@.take(i as int)),
                !failed ==> fresh == fresh_after(fresh0, s@.take(i as int)),
                failed ==> !inf0,
            decreases n - i + (if failed { 0int } else { 1int }),
        {
            let c = s.get_char(i);
            let step: Result<(), WriteError> = if c == '\n' {
                writer.write_char('\n')
            } else {
                let prefix: Result<(), WriteError> = if fresh {
                    writer.write_str(ind)
                } else {
                    Ok(())
                };
                if prefix.is_ok() {
                    writer.write_char(c)
                } else {
                    prefix
                }
            };
            if step.is_ok() {
                fresh = c == '\n';
                proof {
                    lemma_indented_snoc(ind@, fresh0, s@.take(i as int), c);
                    assert(s@.take(i as int).push(c) =~= s@.take(i as int + 1));
                    assert(writer.content() == w0 + indented(ind@, fresh0, s@.take(i as int + 1)));
                }
                i = i + 1;
            } else {
                failed = true;
            }
        }
        if failed {
            return Err(WriteError);
        }
        proof {
            assert(s@.take(n as int) =~= s@);
        }
        self.is_fresh_line = fresh;
        self.written = Ghost(self.written@ + s@);
        Ok(())
    }

    fn write_char(&mut self, c: char) -> (r: Result<(), WriteError>)
        ensures
            final(self).indentation == old(self).indentation,
            (*final(final(self).writer)).content() == (*final(old(self).writer)).content(),
            (*final(final(self).writer)).infallible() == (*final(old(self).writer)).infallible(),
            r is Ok ==> (*final(self).writer).content() == (*old(self).writer).content()
                + indent_char(old(self).indentation@, old(self).is_fresh_line, c),
            r is Ok ==> final(self).is_fresh_line == (c == '\n'),
    {
        if c == '\n' {
            self.is_fresh_line = true;
        } else if self.is_fresh_line {
            let ind: &str = self.indentation;
            self.writer.write_str(ind)?;
            self.is_fresh_line = false;
        }
        self.writer.write_char(c)?;
        self.written = Ghost(self.written@ + seq![c]);
        Ok(())
    }
}

} // verus!

