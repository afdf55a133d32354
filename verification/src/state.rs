//! The state of the cues screen: the cue list, the selected cue, the edit in progress, the
//! clipboard for DCAs and cues, and the stack of undoable edits.
use crate::cue_list::{
    entries_view, has_number, numbers_sorted, spec_add_cue, spec_remove_cue, spec_renumber_cue,
    CueEntry, CuesData, SpecCuesData,
};
use crate::cues::{
    dcas_view, opt_chars, spec_parse_cue_number, ChannelNames, Cue, CueNumber, CueNumberValue, DcaState, SpecCue,
    SpecDcaState,
};
use std::collections::BTreeSet;
use vstd::prelude::*;

verus! {

/// An edit of the cue list, kept so that it can be undone or done again.
pub enum CuesEdit {
    /// Adds the cue under the number.
    AddCue(CueNumber, Cue),
    /// Removes the cue with the number.
    RemoveCue(CueNumber),
    /// Moves the cue from the first number to the second.
    RenumberCue(CueNumber, CueNumber),
    /// Sets the name given by hand and the assigned channels of one DCA of one cue.
    RestoreDca { cue_ind: usize, dca_ind: usize, name: Option<String>, assigned: BTreeSet<u8> },
}

/// The value of a `CuesEdit`.
pub enum SpecCuesEdit {
    AddCue(CueNumberValue, SpecCue),
    RemoveCue(CueNumberValue),
    RenumberCue(CueNumberValue, CueNumberValue),
    RestoreDca(int, int, Option<Seq<char>>, Set<u8>),
}

impl View for CuesEdit {
    type V = SpecCuesEdit;

    open spec fn view(&self) -> SpecCuesEdit {
        match self {
            CuesEdit::AddCue(n, c) => SpecCuesEdit::AddCue(n@, c@),
            CuesEdit::RemoveCue(n) => SpecCuesEdit::RemoveCue(n@),
            CuesEdit::RenumberCue(a, b) => SpecCuesEdit::RenumberCue(a@, b@),
            CuesEdit::RestoreDca { cue_ind, dca_ind, name, assigned } => SpecCuesEdit::RestoreDca(
                *cue_ind as int,
                *dca_ind as int,
                opt_chars(*name),
                assigned@,
            ),
        }
    }
}

/// The cue list after giving DCA `di` of cue `ci` the name and the assigned channels; unchanged
/// where there is no such DCA.
pub open spec fn restore_dca(
    d: SpecCuesData,
    ci: int,
    di: int,
    name: Option<Seq<char>>,
    assigned: Set<u8>,
) -> SpecCuesData {
    if 0 <= ci < d.cues.len() && 0 <= di < d.cues[ci].1.dcas.len() {
        let (n, c) = d.cues[ci];
        let dca = SpecDcaState { assigned: assigned, name: name, ..c.dcas[di] };
        SpecCuesData {
            cues: d.cues.update(ci, (n, SpecCue { dcas: c.dcas.update(di, dca), ..c })),
            ..d
        }
    } else {
        d
    }
}

/// The cue list after the edit `e`.
pub open spec fn apply_edit(d: SpecCuesData, e: SpecCuesEdit) -> SpecCuesData {
    match e {
        SpecCuesEdit::AddCue(n, c) => spec_add_cue(d, n, c),
        SpecCuesEdit::RemoveCue(n) => spec_remove_cue(d, n).0,
        SpecCuesEdit::RenumberCue(a, b) => spec_renumber_cue(d, a, b),
        SpecCuesEdit::RestoreDca(ci, di, name, assigned) => restore_dca(d, ci, di, name, assigned),
    }
}

/// A copy of an optional string.
fn clone_opt_string(o: &Option<String>) -> (r: Option<String>)
    ensures
        opt_chars(r) == opt_chars(*o),
{
    match o {
        Some(s) => Some(s.clone()),
        None => None,
    }
}

/// Gives DCA `di` of cue `ci` the name and the assigned channels, where there is such a DCA.
fn restore_dca_in(
    data: &mut CuesData,
    ci: usize,
    di: usize,
    name: &Option<String>,
    assigned: &BTreeSet<u8>,
)
    ensures
        final(data)@ == restore_dca(old(data)@, ci as int, di as int, opt_chars(*name), assigned@),
{
    if ci < data.len() {
        let entries = data.cues();
        proof {
            assert(entries_view(entries@)[ci as int] == (entries@[ci as int].0@, entries@[ci as int].1@));
        }
        let orig_dcas = entries[ci].1.dcas();
        proof {
            assert(orig_dcas@.len() == dcas_view(orig_dcas@).len());
        }
        if di < orig_dcas.len() {
            let mut cue = entries[ci].1.clone();
            let cue_dcas = cue.dcas();
            proof {
                assert(cue_dcas@.len() == dcas_view(cue_dcas@).len());
                assert(dcas_view(cue_dcas@)[di as int] == cue_dcas@[di as int]@);
            }
            let mut dca = cue_dcas[di].clone();
            *dca.edit_name() = clone_opt_string(name);
            dca.set_assigned(assigned.clone());
            let ghost old_dcas = cue@.dcas;
            cue.dcas_mut().set(di, dca);
            proof {
                assert(cue@.dcas =~= old_dcas.update(
                    di as int,
                    SpecDcaState { assigned: assigned@, name: opt_chars(*name), ..old_dcas[di as int] },
                ));
            }
            data.set_cue(ci, cue);
        }
    }
}

impl CuesEdit {
    /// Applies the edit to the cue list.
    pub fn apply(&self, data: &mut CuesData)
        ensures
            final(data)@ == apply_edit(old(data)@, self@),
    {
        match self {
            CuesEdit::AddCue(n, c) => data.add_cue(c.clone(), *n),
            CuesEdit::RemoveCue(n) => {
                let _ = data.remove_cue(n);
            },
            CuesEdit::RenumberCue(a, b) => data.renumber_cue(*a, *b),
            CuesEdit::RestoreDca { cue_ind, dca_ind, name, assigned } => {
                restore_dca_in(data, *cue_ind, *dca_ind, name, assigned)
            },
        }
    }
}

/// The screens of the user interface.
#[derive(Clone, Copy, Debug, PartialEq, Eq, Structural)]
pub enum UiScreen {
    Cues,
    File,
    Board,
}

impl Default for UiScreen {
    /// The cues screen.
    fn default() -> (r: UiScreen)
        ensures
            r == UiScreen::Cues,
    {
        UiScreen::Cues
    }
}

/// Whether the cues screen lets the show be edited or only run.
#[derive(Clone, Copy, Debug, PartialEq, Eq, Structural)]
pub enum CuesUiSafety {
    Show,
    Edit,
}

impl Default for CuesUiSafety {
    /// Running the show, with editing locked.
    fn default() -> (r: CuesUiSafety)
        ensures
            r == CuesUiSafety::Show,
    {
        CuesUiSafety::Show
    }
}

/// The edit in progress on the cues screen, such as the DCA assignment popup or a cue's
/// description.
pub enum CuesEditAction {
    Idle,
    EditChannelNames,
    /// The DCA assignment popup, with the DCA's name and assignment from before the popup.
    EditDcaAssign {
        cue_ind: usize,
        dca_ind: usize,
        original_dca_name: Option<String>,
        original_assignment: BTreeSet<u8>,
    },
    EditCueDesc { cue_ind: usize },
    RenumberCue { cue_ind: usize, input_text: String },
}

/// The value of a `CuesEditAction`.
pub enum SpecCuesEditAction {
    Idle,
    EditChannelNames,
    EditDcaAssign(int, int, Option<Seq<char>>, Set<u8>),
    EditCueDesc(int),
    RenumberCue(int, Seq<char>),
}

impl View for CuesEditAction {
    type V = SpecCuesEditAction;

    open spec fn view(&self) -> SpecCuesEditAction {
        match self {
            CuesEditAction::Idle => SpecCuesEditAction::Idle,
            CuesEditAction::EditChannelNames => SpecCuesEditAction::EditChannelNames,
            CuesEditAction::EditDcaAssign {
                cue_ind,
                dca_ind,
                original_dca_name,
                original_assignment,
            } => SpecCuesEditAction::EditDcaAssign(
                *cue_ind as int,
                *dca_ind as int,
                opt_chars(*original_dca_name),
                original_assignment@,
            ),
            CuesEditAction::EditCueDesc { cue_ind } => SpecCuesEditAction::EditCueDesc(
                *cue_ind as int,
            ),
            CuesEditAction::RenumberCue { cue_ind, input_text } => SpecCuesEditAction::RenumberCue(
                *cue_ind as int,
                input_text@,
            ),
        }
    }
}

impl Default for CuesEditAction {
    /// No edit in progress.
    fn default() -> (r: CuesEditAction)
        ensures
            r@ == SpecCuesEditAction::Idle,
    {
        CuesEditAction::Idle
    }
}

/// The value of a `State`.
pub struct SpecState {
    pub cues: SpecCuesData,
    pub selected: Option<usize>,
    pub mode: SpecCuesEditAction,
    pub safety: CuesUiSafety,
    pub screen: UiScreen,
    pub copied_dca: Option<SpecDcaState>,
    pub copied_cue: Option<SpecCue>,
    /// The undoable edits, oldest first, each as (the edit that undoes it, the edit itself).
    pub stack: Seq<(SpecCuesEdit, SpecCuesEdit)>,
    /// How many edits at the top of the stack are undone.
    pub backtracks: int,
    /// The undo actions of finished DCA popups, oldest first.
    pub undo_actions: Seq<SpecCuesEdit>,
}

/// The cue list and the cues screen.
pub struct State {
    ui_screen: UiScreen,
    cues_data: CuesData,
    cues_edit_action: CuesEditAction,
    cues_ui_safety: CuesUiSafety,
    cues_selected_cue_ind: Option<usize>,
    cues_copied_dca: Option<DcaState>,
    cues_copied_cue: Option<Cue>,
    /// Each undoable edit as (the edit that undoes it, the edit itself). Undo raises the
    /// backtrack counter, redo lowers it.
    cues_action_stack: Vec<(CuesEdit, CuesEdit)>,
    cues_action_stack_backtracks: usize,
    /// The undo actions of finished DCA popups, oldest first.
    cues_undo_stack: Vec<CuesEdit>,
}

/// The values of a stack of edit pairs.
pub open spec fn stack_view(v: Seq<(CuesEdit, CuesEdit)>) -> Seq<(SpecCuesEdit, SpecCuesEdit)> {
    v.map_values(|p: (CuesEdit, CuesEdit)| (p.0@, p.1@))
}

/// The values of a sequence of undo actions.
pub open spec fn undo_actions_view(v: Seq<CuesEdit>) -> Seq<SpecCuesEdit> {
    v.map_values(|e: CuesEdit| e@)
}

/// The value of an optional DCA state.
pub open spec fn opt_dca(o: Option<DcaState>) -> Option<SpecDcaState> {
    match o {
        Some(d) => Some(d@),
        None => None,
    }
}

/// The value of an optional cue.
pub open spec fn opt_cue(o: Option<Cue>) -> Option<SpecCue> {
    match o {
        Some(c) => Some(c@),
        None => None,
    }
}

impl View for State {
    type V = SpecState;

    closed spec fn view(&self) -> SpecState {
        SpecState {
            cues: self.cues_data@,
            selected: self.cues_selected_cue_ind,
            mode: self.cues_edit_action@,
            safety: self.cues_ui_safety,
            screen: self.ui_screen,
            copied_dca: opt_dca(self.cues_copied_dca),
            copied_cue: opt_cue(self.cues_copied_cue),
            stack: stack_view(self.cues_action_stack@),
            backtracks: self.cues_action_stack_backtracks as int,
            undo_actions: undo_actions_view(self.cues_undo_stack@),
        }
    }
}

/// Whether the state is one that the operations keep: the cues in order, and no more edits
/// undone than there are.
pub open spec fn state_valid(s: SpecState) -> bool {
    &&& numbers_sorted(s.cues.cues)
    &&& 0 <= s.backtracks <= s.stack.len()
}

/// Whether the selection, if any, is on a cue.
pub open spec fn selection_on_cue(s: SpecState) -> bool {
    s.selected matches Some(i) ==> i < s.cues.cues.len()
}

/// The state with the edit pair pushed as the newest undoable edit, after dropping the edits
/// that were undone.
pub open spec fn spec_stack_action(s: SpecState, back: SpecCuesEdit, fwd: SpecCuesEdit) -> SpecState {
    let keep = if s.backtracks <= s.stack.len() { s.stack.len() - s.backtracks } else { 0 };
    SpecState { stack: s.stack.take(keep).push((back, fwd)), backtracks: 0, ..s }
}

/// Whether an edit can be undone.
pub open spec fn spec_can_undo(s: SpecState) -> bool {
    0 <= s.backtracks < s.stack.len()
}

/// Whether an undone edit can be done again.
pub open spec fn spec_can_redo(s: SpecState) -> bool {
    0 < s.backtracks <= s.stack.len()
}

/// The state after undoing the newest edit that is not undone yet.
pub open spec fn spec_undo(s: SpecState) -> SpecState {
    if spec_can_undo(s) {
        let back = s.stack[s.stack.len() - s.backtracks - 1].0;
        SpecState { cues: apply_edit(s.cues, back), backtracks: s.backtracks + 1, ..s }
    } else {
        s
    }
}

/// The state after doing again the oldest edit that is undone.
pub open spec fn spec_redo(s: SpecState) -> SpecState {
    if spec_can_redo(s) {
        let fwd = s.stack[s.stack.len() - s.backtracks].1;
        SpecState { cues: apply_edit(s.cues, fwd), backtracks: s.backtracks - 1, ..s }
    } else {
        s
    }
}

/// The selection after asking to select `ind` in a list of `len` cues: kept only on a cue.
pub open spec fn valid_selection(ind: Option<usize>, len: int) -> Option<usize> {
    match ind {
        Some(i) => if i < len { Some(i) } else { None },
        None => None,
    }
}

/// The state after adding the cue under the number, as an undoable edit; unchanged where the
/// number is taken.
pub open spec fn spec_cues_add_cue(s: SpecState, n: CueNumberValue, c: SpecCue) -> SpecState {
    if has_number(s.cues.cues, n) {
        s
    } else {
        spec_stack_action(
            SpecState { cues: spec_add_cue(s.cues, n, c), ..s },
            SpecCuesEdit::RemoveCue(n),
            SpecCuesEdit::AddCue(n, c),
        )
    }
}

/// The state after deleting the cue with the number, as an undoable edit, with the selection
/// moved back by one (or cleared from the first cue); unchanged where no cue has the number.
pub open spec fn spec_cues_delete_cue(s: SpecState, n: CueNumberValue) -> SpecState {
    if has_number(s.cues.cues, n) {
        let (d, c) = spec_remove_cue(s.cues, n);
        let t = spec_stack_action(
            SpecState { cues: d, ..s },
            SpecCuesEdit::AddCue(n, c.unwrap()),
            SpecCuesEdit::RemoveCue(n),
        );
        match s.selected {
            Some(i) => SpecState {
                selected: if i > 0 { valid_selection(Some((i - 1) as usize), d.cues.len() as int) } else { None },
                ..t
            },
            None => t,
        }
    } else {
        s
    }
}

/// The state after moving the cue numbered `a` to `b`, as an undoable edit; unchanged where
/// `b` is taken.
pub open spec fn spec_cues_renumber_cue(s: SpecState, a: CueNumberValue, b: CueNumberValue) -> SpecState {
    if has_number(s.cues.cues, b) {
        s
    } else {
        spec_stack_action(
            SpecState { cues: spec_renumber_cue(s.cues, a, b), ..s },
            SpecCuesEdit::RenumberCue(b, a),
            SpecCuesEdit::RenumberCue(a, b),
        )
    }
}

/// The state after ending the edit in progress: a finished DCA assignment popup pushes onto
/// the stack of undo actions the action that gives the DCA back the name and the assignment it
/// had when the popup opened.
pub open spec fn spec_end_edit_action(s: SpecState) -> SpecState {
    match s.mode {
        SpecCuesEditAction::Idle => s,
        SpecCuesEditAction::EditDcaAssign(ci, di, name, assigned) => SpecState {
            mode: SpecCuesEditAction::Idle,
            undo_actions: s.undo_actions.push(SpecCuesEdit::RestoreDca(ci, di, name, assigned)),
            ..s
        },
        _ => SpecState { mode: SpecCuesEditAction::Idle, ..s },
    }
}

/// The state after running the undo action at the top of the stack of undo actions, which is
/// then dropped; unchanged where that stack is empty.
pub open spec fn spec_do_undo(s: SpecState) -> SpecState {
    if s.undo_actions.len() > 0 {
        SpecState {
            cues: apply_edit(s.cues, s.undo_actions.last()),
            undo_actions: s.undo_actions.drop_last(),
            ..s
        }
    } else {
        s
    }
}

impl Default for State {
    /// No cues, nothing selected, copied or in progress, and nothing to undo.
    fn default() -> (r: State)
        ensures
            r@.cues.cues == Seq::<CueEntry>::empty(),
            r@.cues.ch_names == Map::<u8, Seq<char>>::empty(),
            r@.selected is None,
            r@.mode == SpecCuesEditAction::Idle,
            r@.safety == CuesUiSafety::Show,
            r@.screen == UiScreen::Cues,
            r@.copied_dca is None,
            r@.copied_cue is None,
            r@.stack == Seq::<(SpecCuesEdit, SpecCuesEdit)>::empty(),
            r@.backtracks == 0,
            r@.undo_actions == Seq::<SpecCuesEdit>::empty(),
            state_valid(r@),
    {
        let r = State {
            ui_screen: UiScreen::default(),
            cues_data: CuesData::default(),
            cues_edit_action: CuesEditAction::default(),
            cues_ui_safety: CuesUiSafety::default(),
            cues_selected_cue_ind: None,
            cues_copied_dca: None,
            cues_copied_cue: None,
            cues_action_stack: Vec::new(),
            cues_action_stack_backtracks: 0,
            cues_undo_stack: Vec::new(),
        };
        assert(r@.stack =~= Seq::<(SpecCuesEdit, SpecCuesEdit)>::empty());
        assert(r@.undo_actions =~= Seq::<SpecCuesEdit>::empty());
        r
    }
}

/// The state after asking to select the next cue: the one after the selected cue, or the first
/// where none is selected.
pub open spec fn spec_select_next(s: SpecState) -> SpecState {
    let want = match s.selected {
        Some(i) => if i < usize::MAX { Some((i + 1) as usize) } else { None },
        None => Some(0usize),
    };
    SpecState { selected: valid_selection(want, s.cues.cues.len() as int), ..s }
}

/// The cue that firing the selection sends: the selected one, if there is one.
pub open spec fn selected_cue(s: SpecState) -> Option<SpecCue> {
    match s.selected {
        Some(i) => if i < s.cues.cues.len() { Some(s.cues.cues[i as int].1) } else { None },
        None => None,
    }
}

/// The number under which a cue added at the bottom goes: the last cue's number (cue 0 when
/// there are no cues) with its lowest level that is set raised by one; `None` where that level
/// is already the largest `usize`.
pub open spec fn spec_bottom_number(s: SpecState) -> Option<CueNumberValue> {
    let last: CueNumberValue = if s.cues.cues.len() > 0 {
        s.cues.cues.last().0
    } else {
        (0usize, None)
    };
    match last.1 {
        None => if last.0 < usize::MAX {
            Some(((last.0 + 1) as usize, None))
        } else {
            None
        },
        Some((b, None)) => if b < usize::MAX {
            Some((last.0, Some(((b + 1) as usize, None))))
        } else {
            None
        },
        Some((b, Some(c))) => if c < usize::MAX {
            Some((last.0, Some((b, Some((c + 1) as usize)))))
        } else {
            None
        },
    }
}

/// The state after the text typed for a cue's new number is done with: the cue moves to the
/// number read from the text, where the text reads as one and the cue exists, and the edit
/// ends. Unchanged where no renumbering is in progress.
pub open spec fn spec_finish_renumber(s: SpecState) -> SpecState {
    match s.mode {
        SpecCuesEditAction::RenumberCue(ci, text) => {
            let t = match spec_parse_cue_number(text) {
                Some(n) => if 0 <= ci < s.cues.cues.len() {
                    spec_cues_renumber_cue(s, s.cues.cues[ci].0, n)
                } else {
                    s
                },
                None => s,
            };
            spec_end_edit_action(t)
        },
        _ => s,
    }
}

/// The state after deleting the selected cue, if one is selected.
pub open spec fn spec_delete_selected(s: SpecState) -> SpecState {
    match s.selected {
        Some(i) => if i < s.cues.cues.len() {
            spec_cues_delete_cue(s, s.cues.cues[i as int].0)
        } else {
            s
        },
        None => s,
    }
}

/// Basic getters and setters.
impl State {
    /// The screen shown.
    pub fn ui_screen(&self) -> (r: UiScreen)
        ensures
            r == self@.screen,
    {
        self.ui_screen
    }

    /// Shows the given screen.
    pub fn set_ui_screen(&mut self, screen: UiScreen)
        ensures
            final(self)@ == (SpecState { screen: screen, ..old(self)@ }),
    {
        self.ui_screen = screen;
    }

    /// The cue list with the channel names.
    pub fn cues_data(&self) -> (r: &CuesData)
        ensures
            r@ == self@.cues,
    {
        &self.cues_data
    }

    /// Mutable access to the cue list with the channel names.
    pub fn cues_data_mut(&mut self) -> (r: &mut CuesData)
        ensures
            r@ == old(self)@.cues,
            final(self)@ == (SpecState { cues: final(r)@, ..old(self)@ }),
    {
        &mut self.cues_data
    }

    /// The cues, in order of their numbers.
    pub fn cues(&self) -> (r: &Vec<(CueNumber, Cue)>)
        ensures
            entries_view(r@) == self@.cues.cues,
    {
        self.cues_data.cues()
    }

    /// The names of the channels.
    pub fn cues_ch_names(&self) -> (r: &ChannelNames)
        ensures
            r@ == self@.cues.ch_names,
    {
        self.cues_data.ch_names()
    }

    /// Replaces the names of the channels.
    pub fn cues_set_ch_names(&mut self, names: ChannelNames)
        ensures
            final(self)@ == (SpecState {
                cues: SpecCuesData { ch_names: names@, ..old(self)@.cues },
                ..old(self)@
            }),
    {
        self.cues_data.set_ch_names(names);
    }

    /// The edit in progress on the cues screen.
    pub fn cues_ui_mode(&self) -> (r: &CuesEditAction)
        ensures
            r@ == self@.mode,
    {
        &self.cues_edit_action
    }

    /// Mutable access to the edit in progress, such as the text typed for a new number.
    pub fn cues_ui_mode_mut(&mut self) -> (r: &mut CuesEditAction)
        ensures
            r@ == old(self)@.mode,
            final(self)@ == (SpecState { mode: final(r)@, ..old(self)@ }),
    {
        &mut self.cues_edit_action
    }

    /// Whether the cues screen lets the show be edited.
    pub fn cues_is_editing(&self) -> (r: bool)
        ensures
            r == (self@.safety == CuesUiSafety::Edit),
    {
        match self.cues_ui_safety {
            CuesUiSafety::Edit => true,
            CuesUiSafety::Show => false,
        }
    }

    /// Whether the cues screen only runs the show.
    pub fn cues_is_show(&self) -> (r: bool)
        ensures
            r == (self@.safety == CuesUiSafety::Show),
    {
        match self.cues_ui_safety {
            CuesUiSafety::Show => true,
            CuesUiSafety::Edit => false,
        }
    }

    /// Mutable access to whether the cues screen edits or runs the show.
    pub fn cues_ui_safety_mut(&mut self) -> (r: &mut CuesUiSafety)
        ensures
            *r == old(self)@.safety,
            final(self)@ == (SpecState { safety: *final(r), ..old(self)@ }),
    {
        &mut self.cues_ui_safety
    }

    /// The index of the selected cue, in order of numbers.
    pub fn cues_selected_cue(&self) -> (r: Option<usize>)
        ensures
            r == self@.selected,
    {
        self.cues_selected_cue_ind
    }

    /// The copied DCA state, if any.
    pub fn cues_copied_dca(&self) -> (r: &Option<DcaState>)
        ensures
            opt_dca(*r) == self@.copied_dca,
    {
        &self.cues_copied_dca
    }

    /// Mutable access to the copied DCA state.
    pub fn cues_copied_dca_mut(&mut self) -> (r: &mut Option<DcaState>)
        ensures
            opt_dca(*r) == old(self)@.copied_dca,
            final(self)@ == (SpecState { copied_dca: opt_dca(*final(r)), ..old(self)@ }),
    {
        &mut self.cues_copied_dca
    }

    /// The copied cue, if any.
    pub fn cues_copied_cue(&self) -> (r: &Option<Cue>)
        ensures
            opt_cue(*r) == self@.copied_cue,
    {
        &self.cues_copied_cue
    }

    /// Mutable access to the copied cue.
    pub fn cues_copied_cue_mut(&mut self) -> (r: &mut Option<Cue>)
        ensures
            opt_cue(*r) == old(self)@.copied_cue,
            final(self)@ == (SpecState { copied_cue: opt_cue(*final(r)), ..old(self)@ }),
    {
        &mut self.cues_copied_cue
    }

    /// The data saved in a show file: the cue list with the channel names.
    pub fn file_get_data(&self) -> (r: CuesData)
        ensures
            r@ == self@.cues,
    {
        self.cues_data.clone()
    }

    /// Loads the data of a show file in place of the cue list and the channel names.
    pub fn file_load_data(&mut self, data: CuesData)
        ensures
            final(self)@ == (SpecState { cues: data@, ..old(self)@ }),
    {
        self.cues_data = data;
    }
}

/// The undo stack and the edits of the cues screen.
impl State {
    /// Adds the undo/redo pair to the top of the stack, dropping the edits that could be redone.
    pub fn cues_stack_action(&mut self, backwards_action: CuesEdit, forwards_action: CuesEdit)
        ensures
            final(self)@ == spec_stack_action(old(self)@, backwards_action@, forwards_action@),
    {
        let ghost before = self@;
        let len = self.cues_action_stack.len();
        let keep = if self.cues_action_stack_backtracks <= len {
            len - self.cues_action_stack_backtracks
        } else {
            0
        };
        self.cues_action_stack.truncate(keep);
        self.cues_action_stack.push((backwards_action, forwards_action));
        self.cues_action_stack_backtracks = 0;
        proof {
            assert(self@.stack =~= before.stack.take(keep as int).push(
                (backwards_action@, forwards_action@),
            ));
        }
    }

    /// Whether an edit can be undone.
    pub fn cues_can_undo(&self) -> (r: bool)
        ensures
            r == spec_can_undo(self@),
    {
        self.cues_action_stack_backtracks < self.cues_action_stack.len()
    }

    /// Undoes the newest edit that is not undone yet, and raises the backtrack counter.
    pub fn cues_undo(&mut self)
        ensures
            final(self)@ == spec_undo(old(self)@),
    {
        if self.cues_can_undo() {
            let idx = self.cues_action_stack.len() - self.cues_action_stack_backtracks - 1;
            proof {
                assert(stack_view(self.cues_action_stack@)[idx as int].0
                    == self.cues_action_stack@[idx as int].0@);
            }
            self.cues_action_stack[idx].0.apply(&mut self.cues_data);
            self.cues_action_stack_backtracks = self.cues_action_stack_backtracks + 1;
        }
    }

    /// Whether an undone edit can be done again.
    pub fn cues_can_redo(&self) -> (r: bool)
        ensures
            r == spec_can_redo(self@),
    {
        0 < self.cues_action_stack_backtracks
            && self.cues_action_stack_backtracks <= self.cues_action_stack.len()
    }

    /// Does again the oldest edit that is undone, and lowers the backtrack counter.
    pub fn cues_redo(&mut self)
        ensures
            final(self)@ == spec_redo(old(self)@),
    {
        if self.cues_can_redo() {
            let idx = self.cues_action_stack.len() - self.cues_action_stack_backtracks;
            proof {
                assert(stack_view(self.cues_action_stack@)[idx as int].1
                    == self.cues_action_stack@[idx as int].1@);
            }
            self.cues_action_stack[idx].1.apply(&mut self.cues_data);
            self.cues_action_stack_backtracks = self.cues_action_stack_backtracks - 1;
        }
    }

    /// Adds the given cue at the given number, as an undoable edit; does nothing where the
    /// number is taken.
    pub fn cues_add_cue(&mut self, cue: Cue, number: CueNumber)
        ensures
            final(self)@ == spec_cues_add_cue(old(self)@, number@, cue@),
    {
        if self.cues_data.contains_number(&number) {
            return;
        }
        self.cues_data.add_cue(cue.clone(), number);
        self.cues_stack_action(CuesEdit::RemoveCue(number), CuesEdit::AddCue(number, cue));
    }

    /// Deletes the cue with the given number, as an undoable edit, and moves the selection back
    /// by one (clearing it from the first cue); does nothing where no cue has the number.
    pub fn cues_delete_cue(&mut self, number: &CueNumber)
        ensures
            final(self)@ == spec_cues_delete_cue(old(self)@, number@),
    {
        if let Some(removed_cue) = self.cues_data.remove_cue(number) {
            self.cues_stack_action(CuesEdit::AddCue(*number, removed_cue), CuesEdit::RemoveCue(*number));
            if let Some(sel_ind) = self.cues_selected_cue_ind {
                if sel_ind > 0 {
                    self.cues_set_selected(Some(sel_ind - 1));
                } else {
                    self.cues_set_selected(None);
                }
            }
        }
    }

    /// Moves the cue numbered `start_num` to `end_num`, as an undoable edit; does nothing where
    /// `end_num` is taken.
    pub fn cues_renumber_cue(&mut self, start_num: CueNumber, end_num: CueNumber)
        ensures
            final(self)@ == spec_cues_renumber_cue(old(self)@, start_num@, end_num@),
    {
        if !self.cues_data.contains_number(&end_num) {
            self.cues_data.renumber_cue(start_num, end_num);
            self.cues_stack_action(
                CuesEdit::RenumberCue(end_num, start_num),
                CuesEdit::RenumberCue(start_num, end_num),
            );
        }
    }

    /// Selects the cue at the given index where there is one; otherwise clears the selection.
    pub fn cues_set_selected(&mut self, cue_ind: Option<usize>)
        ensures
            final(self)@ == (SpecState {
                selected: valid_selection(cue_ind, old(self)@.cues.cues.len() as int),
                ..old(self)@
            }),
    {
        match cue_ind {
            Some(ind) => {
                if ind < self.cues_data.len() {
                    self.cues_selected_cue_ind = Some(ind);
                } else {
                    self.cues_selected_cue_ind = None;
                }
            },
            None => {
                self.cues_selected_cue_ind = None;
            },
        }
    }

    /// Adds the given undo action to the top of the stack of undo actions.
    pub fn cues_stack_undo_action(&mut self, action: CuesEdit)
        ensures
            final(self)@ == (SpecState {
                undo_actions: old(self)@.undo_actions.push(action@),
                ..old(self)@
            }),
    {
        self.cues_undo_stack.push(action);
        assert(self@.undo_actions =~= old(self)@.undo_actions.push(action@));
    }

    /// Runs the undo action at the top of the stack of undo actions and drops it from the stack.
    pub fn cues_do_undo(&mut self)
        ensures
            final(self)@ == spec_do_undo(old(self)@),
    {
        if let Some(action) = self.cues_undo_stack.pop() {
            action.apply(&mut self.cues_data);
            assert(self@.undo_actions =~= old(self)@.undo_actions.drop_last());
        }
    }

    /// Ends the edit in progress. A finished DCA assignment popup stacks the undo action that
    /// gives the DCA back the name and the assignment it had when the popup opened.
    pub fn cues_end_edit_action(&mut self)
        ensures
            final(self)@ == spec_end_edit_action(old(self)@),
    {
        let mut mode = CuesEditAction::Idle;
        std::mem::swap(&mut mode, &mut self.cues_edit_action);
        match mode {
            CuesEditAction::Idle => {},
            CuesEditAction::EditDcaAssign {
                cue_ind,
                dca_ind,
                original_dca_name,
                original_assignment,
            } => {
                self.cues_stack_undo_action(
                    CuesEdit::RestoreDca {
                        cue_ind,
                        dca_ind,
                        name: original_dca_name,
                        assigned: original_assignment,
                    },
                );
            },
            _ => {},
        }
    }

    /// Starts the given edit, first ending the one in progress, if any.
    pub fn cues_do_edit_action(&mut self, action: CuesEditAction)
        ensures
            final(self)@ == (SpecState { mode: action@, ..spec_end_edit_action(old(self)@) }),
    {
        self.cues_end_edit_action();
        self.cues_edit_action = action;
    }

    /// The cue to send to the board for the selection: a copy of the selected cue, if any.
    pub fn fire_selected_cue(&self) -> (r: Option<Cue>)
        ensures
            opt_cue(r) == selected_cue(self@),
    {
        match self.cues_selected_cue_ind {
            Some(ind) => {
                if ind < self.cues_data.len() {
                    let entries = self.cues_data.cues();
                    proof {
                        assert(entries_view(entries@)[ind as int] == (
                            entries@[ind as int].0@,
                            entries@[ind as int].1@,
                        ));
                    }
                    Some(entries[ind].1.clone())
                } else {
                    None
                }
            },
            None => None,
        }
    }

    /// Selects the next cue (the first where none is selected) and returns the cue to send to
    /// the board for it.
    pub fn fire_next_cue(&mut self) -> (r: Option<Cue>)
        ensures
            final(self)@ == spec_select_next(old(self)@),
            opt_cue(r) == selected_cue(final(self)@),
    {
        match self.cues_selected_cue_ind {
            Some(ind) => {
                if ind < usize::MAX {
                    self.cues_set_selected(Some(ind + 1));
                } else {
                    self.cues_set_selected(None);
                }
            },
            None => self.cues_set_selected(Some(0)),
        }
        self.fire_selected_cue()
    }
    /// The number for a cue added at the bottom of the list, where there is one.
    pub fn cues_bottom_number(&self) -> (r: Option<CueNumber>)
        ensures
            r matches Some(n) ==> spec_bottom_number(self@) == Some(n@),
            r is None <==> spec_bottom_number(self@) is None,
    {
        let len = self.cues_data.len();
        let mut n = if len > 0 {
            let entries = self.cues_data.cues();
            proof {
                assert(entries_view(entries@)[len - 1] == (
                    entries@[len - 1].0@,
                    entries@[len - 1].1@,
                ));
            }
            entries[len - 1].0
        } else {
            CueNumber::default()
        };
        let (a, b) = n.parts();
        let fits = match b {
            None => a < usize::MAX,
            Some((x, None)) => x < usize::MAX,
            Some((_, Some(c))) => c < usize::MAX,
        };
        if fits {
            n.increment_lowest();
            Some(n)
        } else {
            None
        }
    }

    /// Ends the typing of a cue's new number: moves the cue to the number read from the text,
    /// where the text reads as one, and ends the edit.
    pub fn cues_finish_renumber(&mut self)
        ensures
            final(self)@ == spec_finish_renumber(old(self)@),
    {
        let (ci, parsed) = match &self.cues_edit_action {
            CuesEditAction::RenumberCue { cue_ind, input_text } => (
                *cue_ind,
                CueNumber::parse(input_text.as_str()),
            ),
            _ => {
                return;
            },
        };
        if let Ok(n) = parsed {
            if ci < self.cues_data.len() {
                let entries = self.cues_data.cues();
                proof {
                    assert(entries_view(entries@)[ci as int] == (
                        entries@[ci as int].0@,
                        entries@[ci as int].1@,
                    ));
                }
                let current = entries[ci].0;
                self.cues_renumber_cue(current, n);
            }
        }
        self.cues_end_edit_action();
    }

    /// Deletes the selected cue, if one is selected, as an undoable edit.
    pub fn cues_delete_selected(&mut self)
        ensures
            final(self)@ == spec_delete_selected(old(self)@),
    {
        if let Some(i) = self.cues_selected_cue_ind {
            if i < self.cues_data.len() {
                let entries = self.cues_data.cues();
                proof {
                    assert(entries_view(entries@)[i as int] == (
                        entries@[i as int].0@,
                        entries@[i as int].1@,
                    ));
                }
                let number = entries[i].0;
                self.cues_delete_cue(&number);
            }
        }
    }

    /// GO: where no edit is in progress, selects the next cue and returns the cue to send to
    /// the board; otherwise does nothing.
    pub fn cues_go(&mut self) -> (r: Option<Cue>)
        ensures
            old(self)@.mode == SpecCuesEditAction::Idle ==> final(self)@ == spec_select_next(
                old(self)@,
            ) && opt_cue(r) == selected_cue(final(self)@),
            old(self)@.mode != SpecCuesEditAction::Idle ==> final(self)@ == old(self)@ && r is None,
    {
        match self.cues_edit_action {
            CuesEditAction::Idle => self.fire_next_cue(),
            _ => None,
        }
    }
}

} // verus!
