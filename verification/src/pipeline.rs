//! The nested-wrapper render pipeline, modelled over the writer's
//! specification.
//!
//! In the render pattern, a node writes its own line bare (its accumulated
//! indentation having been reset), and everything its child subtree writes
//! passes through one more indenting writer configured with the unit. The
//! lemma here shows that this compounding of wrappers indents each line by
//! exactly one unit per nesting level.

use vstd::prelude::*;
use crate::indenting_formatter::{
    fresh_after,
    indented,
    lemma_indented_concat,
    lemma_indented_line,
    newline_free,
};
use crate::options::{lemma_repeated_prepend, repeated};

verus! {

/// The downstream text produced by rendering a perfectly linear chain of
/// single-line nodes with the nested-wrapper pattern: the first name becomes
/// a bare line, and the rest of the chain is written through one indenting
/// writer configured with `unit`, starting at a fresh line.
pub open spec fn chain_rendered(names: Seq<Seq<char>>, unit: Seq<char>) -> Seq<char>
    decreases names.len(),
{
    if names.len() == 0 {
        Seq::empty()
    } else {
        names[0] + seq!['\n'] + indented(unit, true, chain_rendered(names.drop_first(), unit))
    }
}

/// The same text described line by line: the node at depth `depth` gets
/// `depth` repetitions of the unit before its name, and every line ends in a
/// newline.
pub open spec fn chain_lines(names: Seq<Seq<char>>, unit: Seq<char>, depth: nat) -> Seq<char>
    decreases names.len(),
{
    if names.len() == 0 {
        Seq::empty()
    } else {
        repeated(unit, depth) + names[0] + seq!['\n'] + chain_lines(
            names.drop_first(),
            unit,
            depth + 1,
        )
    }
}

/// Each name is one non-empty visual line, and the unit stays within a line.
pub open spec fn single_line_chain(names: Seq<Seq<char>>, unit: Seq<char>) -> bool {
    &&& newline_free(unit)
    &&& forall|i: int|
        0 <= i < names.len() ==> (#[trigger] names[i]).len() > 0 && newline_free(names[i])
}

/// The unit repeated any number of times still stays within one line.
proof fn lemma_repeated_newline_free(unit: Seq<char>, n: nat)
    requires
        newline_free(unit),
    ensures
        newline_free(repeated(unit, n)),
    decreases n,
{
    if n > 0 {
        lemma_repeated_newline_free(unit, (n - 1) as nat);
        assert forall|j: int| 0 <= j < repeated(unit, n).len() implies repeated(unit, n)[j]
            != '\n' by {
            if j < repeated(unit, (n - 1) as nat).len() {
                assert(repeated(unit, n)[j] == repeated(unit, (n - 1) as nat)[j]);
            } else {
                assert(repeated(unit, n)[j] == unit[j - repeated(unit, (n - 1) as nat).len()]);
            }
        }
    }
}

/// Dropping the first name keeps the chain well-formed.
proof fn lemma_single_line_chain_drop_first(names: Seq<Seq<char>>, unit: Seq<char>)
    requires
        single_line_chain(names, unit),
        names.len() > 0,
    ensures
        single_line_chain(names.drop_first(), unit),
{
    assert forall|i: int|
        0 <= i < names.drop_first().len() implies (#[trigger] names.drop_first()[i]).len() > 0
        && newline_free(names.drop_first()[i]) by {
        assert(names.drop_first()[i] == names[i + 1]);
    }
}

/// Passing a block of chain lines through one more indenting writer adds one
/// unit of indentation to every line of it.
proof fn lemma_chain_lines_indented(names: Seq<Seq<char>>, unit: Seq<char>, depth: nat)
    requires
        single_line_chain(names, unit),
    ensures
        indented(unit, true, chain_lines(names, unit, depth)) == chain_lines(
            names,
            unit,
            depth + 1,
        ),
    decreases names.len(),
{
    if names.len() == 0 {
        assert(indented(unit, true, chain_lines(names, unit, depth)) =~= chain_lines(
            names,
            unit,
            depth + 1,
        ));
    } else {
        let t = repeated(unit, depth) + names[0];
        let line = t + seq!['\n'];
        let rest = chain_lines(names.drop_first(), unit, depth + 1);
        lemma_single_line_chain_drop_first(names, unit);
        lemma_chain_lines_indented(names.drop_first(), unit, depth + 1);
        lemma_repeated_newline_free(unit, depth);
        assert forall|j: int| 0 <= j < t.len() implies t[j] != '\n' by {
            if j < repeated(unit, depth).len() {
                assert(t[j] == repeated(unit, depth)[j]);
            } else {
                assert(t[j] == names[0][j - repeated(unit, depth).len()]);
            }
        }
        assert(t.len() > 0);
        assert(chain_lines(names, unit, depth) =~= line + rest);
        lemma_indented_concat(unit, true, line, rest);
        lemma_indented_concat(unit, true, t, seq!['\n']);
        lemma_indented_line(unit, t);
        assert(indented(unit, true, Seq::<char>::empty()) =~= Seq::<char>::empty());
        assert(seq!['\n'][0] == '\n');
        assert(seq!['\n'].drop_first() =~= Seq::<char>::empty());
        assert(indented(unit, false, seq!['\n']) =~= seq!['\n']);
        assert(indented(unit, true, line) =~= (unit + t) + seq!['\n']);
        lemma_repeated_prepend(unit, depth);
        assert(unit + t =~= repeated(unit, depth + 1) + names[0]);
        assert(fresh_after(true, line) == true);
        assert(indented(unit, true, chain_lines(names, unit, depth)) =~= (repeated(unit, depth + 1)
            + names[0] + seq!['\n']) + chain_lines(names.drop_first(), unit, depth + 2));
        assert(chain_lines(names, unit, depth + 1) =~= (repeated(unit, depth + 1) + names[0]
            + seq!['\n']) + chain_lines(names.drop_first(), unit, depth + 2));
    }
}

/// Rendering a perfectly linear chain of nested single-line nodes produces
/// one line per node, where the line of the node at depth `i` is prefixed by
/// exactly `i` repetitions of the unit.
pub proof fn lemma_linear_chain(names: Seq<Seq<char>>, unit: Seq<char>)
    requires
        single_line_chain(names, unit),
    ensures
        chain_rendered(names, unit) == chain_lines(names, unit, 0),
    decreases names.len(),
{
    if names.len() > 0 {
        lemma_single_line_chain_drop_first(names, unit);
        lemma_linear_chain(names.drop_first(), unit);
        lemma_chain_lines_indented(names.drop_first(), unit, 0);
        assert(repeated(unit, 0) + names[0] =~= names[0]);
        assert(chain_rendered(names, unit) =~= chain_lines(names, unit, 0));
    }
}

} // verus!

