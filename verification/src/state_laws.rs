//! What the undo stack and the edits of the cues screen promise across calls.
use crate::cue_list::{
    has_number, lemma_add_keeps_order, lemma_add_undoes_remove, lemma_has_number_at_position,
    lemma_position_exists, lemma_remove_keeps_order, lemma_remove_undoes_add,
    lemma_renumber_back, lemma_renumber_keeps_order, number_position, numbers_sorted,
    spec_remove_cue, spec_renumber_cue, SpecCuesData,
};
use crate::cues::{CueNumberValue, SpecCue, SpecDcaState};
use crate::state::{
    apply_edit, restore_dca, selection_on_cue, spec_can_redo, spec_can_undo,
    spec_cues_add_cue, spec_cues_delete_cue, spec_do_undo, spec_cues_renumber_cue, spec_end_edit_action,
    spec_redo, spec_select_next, spec_stack_action, spec_undo, state_valid, SpecCuesEdit,
    SpecCuesEditAction, SpecState,
};
use vstd::prelude::*;

verus! {

/// Restoring a DCA leaves the numbers of the cues as they are.
proof fn lemma_restore_keeps_numbers(
    d: SpecCuesData,
    ci: int,
    di: int,
    name: Option<Seq<char>>,
    assigned: Set<u8>,
)
    ensures
        restore_dca(d, ci, di, name, assigned).cues.len() == d.cues.len(),
        forall|i: int|
            0 <= i < d.cues.len() ==> (#[trigger] restore_dca(d, ci, di, name, assigned).cues[i]).0
                == d.cues[i].0,
{
}

/// Every edit of the undo stack keeps the cues in order of their numbers.
pub proof fn lemma_edit_keeps_order(d: SpecCuesData, e: SpecCuesEdit)
    requires
        numbers_sorted(d.cues),
    ensures
        numbers_sorted(apply_edit(d, e).cues),
{
    match e {
        SpecCuesEdit::AddCue(n, c) => lemma_add_keeps_order(d, n, c),
        SpecCuesEdit::RemoveCue(n) => lemma_remove_keeps_order(d, n),
        SpecCuesEdit::RenumberCue(a, b) => lemma_renumber_keeps_order(d, a, b),
        SpecCuesEdit::RestoreDca(ci, di, name, assigned) => {
            lemma_restore_keeps_numbers(d, ci, di, name, assigned);
            let t = restore_dca(d, ci, di, name, assigned).cues;
            assert forall|i: int, j: int| 0 <= i < j < t.len() implies crate::cues::cue_number_lt(
                #[trigger] t[i].0,
                #[trigger] t[j].0,
            ) by {
                assert(t[i].0 == d.cues[i].0 && t[j].0 == d.cues[j].0);
            }
        },
    }
}

/// Undo, redo, the edits of the cue list, the end of a DCA popup and its undo action all keep
/// the cues in order and never undo more edits than there are.
pub proof fn lemma_operations_keep_valid(
    s: SpecState,
    n: CueNumberValue,
    m: CueNumberValue,
    c: SpecCue,
)
    requires
        state_valid(s),
    ensures
        state_valid(spec_undo(s)),
        state_valid(spec_redo(s)),
        state_valid(spec_cues_add_cue(s, n, c)),
        state_valid(spec_cues_delete_cue(s, n)),
        state_valid(spec_cues_renumber_cue(s, n, m)),
        state_valid(spec_end_edit_action(s)),
        state_valid(spec_do_undo(s)),
{
    if s.undo_actions.len() > 0 {
        lemma_edit_keeps_order(s.cues, s.undo_actions.last());
    }
    if spec_can_undo(s) {
        lemma_edit_keeps_order(s.cues, s.stack[s.stack.len() - s.backtracks - 1].0);
    }
    if spec_can_redo(s) {
        lemma_edit_keeps_order(s.cues, s.stack[s.stack.len() - s.backtracks].1);
    }
    lemma_add_keeps_order(s.cues, n, c);
    lemma_remove_keeps_order(s.cues, n);
    lemma_renumber_keeps_order(s.cues, n, m);
}

/// A new edit on the stack drops the edits that were undone: nothing is left to redo, and the
/// new edit is the next to undo.
pub proof fn lemma_new_edit_clears_redo(s: SpecState, back: SpecCuesEdit, fwd: SpecCuesEdit)
    requires
        state_valid(s),
    ensures
        !spec_can_redo(spec_stack_action(s, back, fwd)),
        spec_can_undo(spec_stack_action(s, back, fwd)),
        spec_stack_action(s, back, fwd).stack.len() == s.stack.len() - s.backtracks + 1,
        spec_stack_action(s, back, fwd).stack.last() == (back, fwd),
{
}

/// Undoing raises the backtrack counter by one, and redoing right after lowers it again,
/// leaving the stack as it was.
pub proof fn lemma_undo_redo_counter(s: SpecState)
    requires
        state_valid(s),
        spec_can_undo(s),
    ensures
        spec_undo(s).backtracks == s.backtracks + 1,
        spec_can_redo(spec_undo(s)),
        spec_redo(spec_undo(s)).backtracks == s.backtracks,
        spec_redo(spec_undo(s)).stack == s.stack,
{
}

/// Undo right after adding a cue gives back the cue list as it was, and redo then adds the cue
/// again.
pub proof fn lemma_undo_reverts_add(s: SpecState, n: CueNumberValue, c: SpecCue)
    requires
        state_valid(s),
        !has_number(s.cues.cues, n),
    ensures
        spec_undo(spec_cues_add_cue(s, n, c)).cues == s.cues,
        spec_redo(spec_undo(spec_cues_add_cue(s, n, c))).cues == spec_cues_add_cue(s, n, c).cues,
{
    lemma_remove_undoes_add(s.cues, n, c);
}

/// Undo right after deleting a cue gives back the cue list as it was, and redo then deletes the
/// cue again.
pub proof fn lemma_undo_reverts_delete(s: SpecState, n: CueNumberValue)
    requires
        state_valid(s),
        has_number(s.cues.cues, n),
    ensures
        spec_undo(spec_cues_delete_cue(s, n)).cues == s.cues,
        spec_redo(spec_undo(spec_cues_delete_cue(s, n))).cues == spec_cues_delete_cue(s, n).cues,
{
    lemma_add_undoes_remove(s.cues, n);
}

/// Undo right after moving a cue to a free number gives back the cue list as it was, and redo
/// then moves it again.
pub proof fn lemma_undo_reverts_renumber(s: SpecState, a: CueNumberValue, b: CueNumberValue)
    requires
        state_valid(s),
        has_number(s.cues.cues, a),
        !has_number(s.cues.cues, b),
    ensures
        spec_undo(spec_cues_renumber_cue(s, a, b)).cues == s.cues,
        spec_redo(spec_undo(spec_cues_renumber_cue(s, a, b))).cues == spec_cues_renumber_cue(
            s,
            a,
            b,
        ).cues,
{
    lemma_renumber_back(s.cues, a, b);
}

/// Closing a DCA assignment popup leaves the cue list and the undo/redo stack as they are, and
/// running the undo action it stacks gives the DCA back the name and the assignment it had when
/// the popup opened, keeping its level and every other DCA.
pub proof fn lemma_undo_reverts_dca_popup(
    s: SpecState,
    ci: int,
    di: int,
    name: Option<Seq<char>>,
    assigned: Set<u8>,
)
    requires
        state_valid(s),
        s.mode == SpecCuesEditAction::EditDcaAssign(ci, di, name, assigned),
    ensures
        spec_end_edit_action(s).cues == s.cues,
        spec_end_edit_action(s).stack == s.stack,
        spec_end_edit_action(s).backtracks == s.backtracks,
        spec_do_undo(spec_end_edit_action(s)).cues == restore_dca(s.cues, ci, di, name, assigned),
        spec_do_undo(spec_end_edit_action(s)).undo_actions == s.undo_actions,
        0 <= ci < s.cues.cues.len() && 0 <= di < s.cues.cues[ci].1.dcas.len() ==> spec_do_undo(
            spec_end_edit_action(s),
        ).cues.cues[ci].1.dcas[di] == (SpecDcaState {
            assigned: assigned,
            name: name,
            level: s.cues.cues[ci].1.dcas[di].level,
        }),
{
    assert(spec_end_edit_action(s).undo_actions.drop_last() =~= s.undo_actions);
}

/// Adding, deleting or moving a cue, and selecting the next cue, leave the selection on a cue
/// when it was on one.
pub proof fn lemma_edits_keep_selection(s: SpecState, n: CueNumberValue, m: CueNumberValue, c: SpecCue)
    requires
        state_valid(s),
        selection_on_cue(s),
    ensures
        selection_on_cue(spec_cues_add_cue(s, n, c)),
        selection_on_cue(spec_cues_delete_cue(s, n)),
        selection_on_cue(spec_cues_renumber_cue(s, n, m)),
        selection_on_cue(spec_select_next(s)),
{
    lemma_position_exists(s.cues.cues, n);
    lemma_renumber_len(s.cues, n, m);
}

/// Moving a cue leaves the number of cues as it is.
proof fn lemma_renumber_len(d: SpecCuesData, a: CueNumberValue, b: CueNumberValue)
    requires
        numbers_sorted(d.cues),
    ensures
        spec_renumber_cue(d, a, b).cues.len() == d.cues.len(),
{
    if !has_number(d.cues, b) && has_number(d.cues, a) {
        lemma_position_exists(d.cues, a);
        lemma_has_number_at_position(d.cues, a, number_position(d.cues, a));
        let removed = spec_remove_cue(d, a).0;
        lemma_remove_keeps_order(d, a);
        lemma_position_exists(removed.cues, b);
    }
}

} // verus!
