//! Laws the editor obeys, stated over the spec-level transition functions and
//! proved once and for all. Each handler's contract says its result equals the
//! corresponding `step_*` of its old state, so these laws carry over to the
//! executable editor.

use vstd::prelude::*;

use crate::app::step_down;
use crate::app::step_insert;
use crate::app::step_up;
use crate::app::EditorV;
use crate::app::last_index;
use crate::mode::Key;
use crate::mode::TargetV;
use crate::text::join_lines;
use crate::text::lemma_join_split;
use crate::text::lemma_trim_idempotent;
use crate::text::split_lines;
use crate::text::trim;

verus! {

/// Saving an already-loaded buffer and reloading it yields identical lines:
/// loading is `split_lines ∘ trim`, saving is `join_lines`, and a second load
/// of what a save wrote changes nothing.
pub proof fn lemma_save_then_load_identity(s: Seq<char>)
    ensures
        split_lines(trim(join_lines(split_lines(trim(s))))) == split_lines(trim(s)),
{
    let t = trim(s);
    lemma_join_split(t);
    lemma_trim_idempotent(s);
}

/// Inserting a character and then pressing Backspace restores the editor
/// exactly: the line, the cursor column, and everything else.
pub proof fn lemma_insert_then_backspace(v: EditorV, ch: char)
    requires
        v.wf(),
    ensures
        step_insert(step_insert(v, Key::Char(ch)), Key::Backspace) == v,
{
    let v1 = step_insert(v, Key::Char(ch));
    assert(v.cur_line().insert(v.col, ch).remove(v.col) =~= v.cur_line());
    assert(v1.lines.update(v.row, v.cur_line()) =~~= v.lines);
    assert(step_insert(v1, Key::Backspace) =~~= v);
}

/// Splitting a line with Enter and then pressing Backspace at the start of
/// the new line joins it back: the editor is restored exactly, with the
/// cursor at the former split column.
pub proof fn lemma_split_then_backspace(v: EditorV)
    requires
        v.wf(),
    ensures
        step_insert(step_insert(v, Key::Enter), Key::Backspace) == v,
{
    let v1 = step_insert(v, Key::Enter);
    assert(v.cur_line().take(v.col) + v.cur_line().skip(v.col) =~= v.cur_line());
    assert(v.cur_line().take(v.col).len() == v.col);
    assert(v1.lines.update(v.row, v.cur_line().take(v.col) + v.cur_line().skip(v.col)).remove(
        v.row + 1,
    ) =~~= v.lines);
    assert(step_insert(v1, Key::Backspace) =~~= v);
}

/// The sticky-column law: with a concrete target column `k` on a character of
/// the current line, moving down (onto a line of any length) and back up
/// restores the cursor — and with it the whole state — exactly.
pub proof fn lemma_sticky_column(v: EditorV, k: int)
    requires
        v.wf(),
        v.target == TargetV::Col(k),
        v.col == k,
        k <= last_index(v.cur_line()),
        v.row + 1 < v.lines.len(),
    ensures
        step_up(step_down(v)) == v,
{
    assert(step_up(step_down(v)) =~~= v);
}

} // verus!
