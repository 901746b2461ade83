use vstd::prelude::*;
use crate::editor::Editor;
use crate::text::{TextState, insert_spec, backspace_spec, enter_spec};
use crate::search::{before, lemma_empty_query, lemma_search_order};

verus! {

/// A keystroke that types, deletes or splits a line.
pub open spec fn mutating_key(a: Editor, b: Editor, c: char) -> bool {
    Editor::insert_post(a, b, c) || Editor::backspace_post(a, b) || Editor::enter_post(a, b)
}

/// Undo right after a mutating keystroke gives back the buffer and cursor
/// from just before it, and redo right after that gives back those from just
/// after it.
pub proof fn lemma_undo_then_redo(a: Editor, b: Editor, c: Editor, d: Editor, ch: char)
    requires
        mutating_key(a, b, ch),
        Editor::undo_post(b, c),
        Editor::redo_post(c, d),
    ensures
        c.state() == a.state(),
        d.state() == b.state(),
{
}

/// A mutating keystroke after an undo empties the redo stack, so a redo
/// that follows changes nothing.
pub proof fn lemma_edit_clears_redo(a: Editor, b: Editor, c: Editor, d: Editor, ch: char)
    requires
        Editor::undo_post(a, b),
        mutating_key(b, c, ch),
        Editor::redo_post(c, d),
    ensures
        c.redo_states().len() == 0,
        d.state() == c.state(),
        d.undo_states() == c.undo_states(),
        d.redo_states().len() == 0,
{
}

/// Setting an empty query finds nothing and leaves the cursor and view where
/// they were.
pub proof fn lemma_empty_query_keeps_cursor(a: Editor, b: Editor)
    requires
        Editor::searched(a, b, Seq::empty()),
    ensures
        b.results().len() == 0,
        b.state() == a.state(),
        b.offset() == a.offset(),
{
    lemma_empty_query(a.state().lines);
}

/// The matches a search stores come in row order, then column order.
pub proof fn lemma_results_ordered(a: Editor, b: Editor, q: Seq<char>)
    requires
        Editor::searched(a, b, q),
    ensures
        forall|i: int, j: int|
            0 <= i < j < b.results().len() ==> before(#[trigger] b.results()[i], #[trigger] b.results()[j]),
{
    lemma_search_order(a.state().lines, q);
}

/// From the last match, the next match is the first one again.
pub proof fn lemma_next_match_wraps(a: Editor, b: Editor)
    requires
        Editor::next_match_post(a, b),
        a.results().len() > 0,
        a.current() == a.results().len() - 1,
    ensures
        b.current() == 0,
        b.state() == a.state().at(a.results()[0].0, a.results()[0].1),
{
    assert((a.current() + 1) % (a.results().len() as int) == 0) by (nonlinear_arith)
        requires
            a.current() + 1 == a.results().len(),
            a.results().len() > 0,
    ;
}

/// Typing, backspace and enter each keep at least one line and a cursor on a
/// line, at most at its end.
pub proof fn lemma_edits_keep_shape(s: TextState, c: char)
    requires
        s.wf(),
    ensures
        insert_spec(s, c).wf(),
        backspace_spec(s).wf(),
        enter_spec(s).wf(),
{
    if s.col == 0 && s.row > 0 {
        let b = backspace_spec(s);
        assert(b.lines[b.row] =~= s.lines[s.row - 1] + s.line());
    }
}

/// Over any sequence of typing, backspace and enter keystrokes, starting from
/// a well-formed buffer and cursor, every state reached has at least one line
/// and a cursor on a line, at most at its end.
pub proof fn lemma_edit_sequence_keeps_shape(trace: Seq<Editor>, typed: Seq<char>)
    requires
        trace.len() >= 1,
        typed.len() + 1 == trace.len(),
        trace[0].state().wf(),
        forall|i: int| 0 <= i < typed.len() ==> mutating_key(trace[i], #[trigger] trace[i + 1], typed[i]),
    ensures
        forall|i: int| 0 <= i < trace.len() ==> (#[trigger] trace[i]).state().wf(),
    decreases trace.len(),
{
    if trace.len() > 1 {
        let n = trace.len() - 1;
        lemma_edit_sequence_keeps_shape(trace.drop_last(), typed.drop_last());
        assert(trace.drop_last()[n - 1] == trace[n - 1]);
        let k = n - 1;
        assert(0 <= k < typed.len());
        assert(mutating_key(trace[k], trace[k + 1], typed[k]));
        lemma_edits_keep_shape(trace[n - 1].state(), typed[n - 1]);
        assert forall|i: int| 0 <= i < trace.len() implies (#[trigger] trace[i]).state().wf() by {
            if i < n {
                assert(trace.drop_last()[i] == trace[i]);
            }
        }
    }
}

} // verus!
