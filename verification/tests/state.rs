use miq::cues::{Cue, CueNumber, DcaState};
use miq::data::Channel;
use miq::cue_list::CuesData;
use miq::state::{CuesEdit, CuesEditAction, CuesUiSafety, State, UiScreen};
use std::collections::BTreeSet;

/// The cue number shown as `a`.
fn num(a: usize) -> CueNumber {
    CueNumber::from_parts(a - 1, None)
}

fn named(name: &str) -> Cue {
    Cue::from_parts(name.to_string(), vec![DcaState::default(), DcaState::default()])
}

fn listing(state: &State) -> Vec<(String, String)> {
    state.cues().iter().map(|(n, c)| (n.to_string(), c.name().to_string())).collect()
}

fn pair(n: &str, c: &str) -> (String, String) {
    (n.to_string(), c.to_string())
}

#[test]
fn defaults() {
    let state = State::default();
    assert!(state.cues().is_empty());
    assert_eq!(state.cues_selected_cue(), None);
    assert!(!state.cues_can_undo());
    assert!(!state.cues_can_redo());
    assert!(state.cues_is_show());
    assert!(!state.cues_is_editing());
    assert_eq!(state.ui_screen(), UiScreen::Cues);
    assert!(matches!(state.cues_ui_mode(), CuesEditAction::Idle));
}

#[test]
fn undo_and_redo_add() {
    let mut state = State::default();
    state.cues_add_cue(named("a"), num(1));
    assert_eq!(listing(&state), vec![pair("1", "a")]);
    assert!(state.cues_can_undo());
    state.cues_undo();
    assert!(listing(&state).is_empty());
    assert!(!state.cues_can_undo());
    assert!(state.cues_can_redo());
    state.cues_redo();
    assert_eq!(listing(&state), vec![pair("1", "a")]);
    assert!(!state.cues_can_redo());
}

#[test]
fn undo_and_redo_delete() {
    let mut state = State::default();
    state.cues_add_cue(named("a"), num(1));
    state.cues_add_cue(named("b"), num(2));
    state.cues_delete_cue(&num(1));
    assert_eq!(listing(&state), vec![pair("2", "b")]);
    state.cues_undo();
    assert_eq!(listing(&state), vec![pair("1", "a"), pair("2", "b")]);
    state.cues_redo();
    assert_eq!(listing(&state), vec![pair("2", "b")]);
}

#[test]
fn undo_and_redo_renumber() {
    let mut state = State::default();
    state.cues_add_cue(named("a"), num(1));
    state.cues_add_cue(named("b"), num(2));
    state.cues_renumber_cue(num(1), num(3));
    assert_eq!(listing(&state), vec![pair("2", "b"), pair("3", "a")]);
    state.cues_undo();
    assert_eq!(listing(&state), vec![pair("1", "a"), pair("2", "b")]);
    state.cues_redo();
    assert_eq!(listing(&state), vec![pair("2", "b"), pair("3", "a")]);
    // renumbering onto a taken number is refused and stacks nothing
    state.cues_renumber_cue(num(2), num(3));
    state.cues_undo();
    assert_eq!(listing(&state), vec![pair("1", "a"), pair("2", "b")]);
}

#[test]
fn undo_walks_back_and_redo_forward() {
    let mut state = State::default();
    state.cues_add_cue(named("a"), num(1));
    state.cues_add_cue(named("b"), num(2));
    state.cues_add_cue(named("c"), num(3));
    state.cues_undo();
    state.cues_undo();
    assert_eq!(listing(&state), vec![pair("1", "a")]);
    state.cues_redo();
    assert_eq!(listing(&state), vec![pair("1", "a"), pair("2", "b")]);
    state.cues_redo();
    assert_eq!(listing(&state), vec![pair("1", "a"), pair("2", "b"), pair("3", "c")]);
    state.cues_redo();
    assert_eq!(listing(&state), vec![pair("1", "a"), pair("2", "b"), pair("3", "c")]);
}

#[test]
fn new_edit_drops_redo() {
    let mut state = State::default();
    state.cues_add_cue(named("a"), num(1));
    state.cues_add_cue(named("b"), num(2));
    state.cues_undo();
    assert!(state.cues_can_redo());
    state.cues_add_cue(named("c"), num(3));
    assert!(!state.cues_can_redo());
    state.cues_undo();
    state.cues_undo();
    assert!(listing(&state).is_empty());
    assert!(!state.cues_can_undo());
}

#[test]
fn taken_number_adds_nothing_to_undo() {
    let mut state = State::default();
    state.cues_add_cue(named("a"), num(1));
    state.cues_add_cue(named("b"), num(1));
    assert_eq!(listing(&state), vec![pair("1", "a")]);
    state.cues_undo();
    assert!(listing(&state).is_empty());
    assert!(!state.cues_can_undo());
}

#[test]
fn selection_is_checked_and_follows_deletes() {
    let mut state = State::default();
    state.cues_add_cue(named("a"), num(1));
    state.cues_add_cue(named("b"), num(2));
    state.cues_set_selected(Some(5));
    assert_eq!(state.cues_selected_cue(), None);
    state.cues_set_selected(Some(1));
    assert_eq!(state.cues_selected_cue(), Some(1));
    state.cues_delete_cue(&num(2));
    assert_eq!(state.cues_selected_cue(), Some(0));
    state.cues_delete_cue(&num(1));
    assert_eq!(state.cues_selected_cue(), None);
}

#[test]
fn fire_next_walks_through_cues() {
    let mut state = State::default();
    state.cues_add_cue(named("a"), num(1));
    state.cues_add_cue(named("b"), num(2));
    assert!(state.fire_selected_cue().is_none());
    assert_eq!(state.fire_next_cue().unwrap().name(), "a");
    assert_eq!(state.fire_next_cue().unwrap().name(), "b");
    assert!(state.fire_next_cue().is_none());
    assert_eq!(state.cues_selected_cue(), None);
    assert_eq!(state.fire_next_cue().unwrap().name(), "a");
    assert_eq!(state.fire_selected_cue().unwrap().name(), "a");
}

#[test]
fn dca_popup_is_undoable() {
    let mut state = State::default();
    state.cues_add_cue(named("a"), num(1));
    let mut set = BTreeSet::new();
    set.insert(4u8);
    let mut cue = state.cues()[0].1.clone();
    cue.dcas_mut()[1].set_assigned(set.clone());
    state.cues_data_mut().set_cue(0, cue);
    // open the popup on DCA 1, remembering how it was
    let before_popup = state.cues()[0].1.dcas()[1].clone();
    state.cues_do_edit_action(CuesEditAction::EditDcaAssign {
        cue_ind: 0,
        dca_ind: 1,
        original_dca_name: before_popup.assigned_name().clone(),
        original_assignment: before_popup.assigned().clone(),
    });
    let mut cue = state.cues()[0].1.clone();
    cue.dcas_mut()[1].assign(Channel::from_index(7));
    *cue.dcas_mut()[1].edit_name() = Some("Drums".to_string());
    state.cues_data_mut().set_cue(0, cue);
    state.cues_end_edit_action();
    assert!(matches!(state.cues_ui_mode(), CuesEditAction::Idle));
    let dca = &state.cues()[0].1.dcas()[1];
    assert!(dca.assigned().contains(&7));
    state.cues_do_undo();
    let dca = &state.cues()[0].1.dcas()[1];
    assert_eq!(dca.assigned(), &set);
    assert_eq!(dca.assigned_name(), &None);
    // the popup's undo action is not on the undo/redo stack, which still holds the add
    assert!(!state.cues_can_redo());
    state.cues_undo();
    assert!(state.cues().is_empty());
    // nothing more to undo there
    state.cues_do_undo();
    assert!(state.cues().is_empty());
}

#[test]
fn popup_undo_is_stacked_for_any_dca() {
    let mut state = State::default();
    state.cues_do_edit_action(CuesEditAction::EditDcaAssign {
        cue_ind: 3,
        dca_ind: 0,
        original_dca_name: None,
        original_assignment: BTreeSet::new(),
    });
    state.cues_end_edit_action();
    // the action is stacked even though there is no such cue; running it changes nothing
    state.cues_do_undo();
    assert!(state.cues().is_empty());
}

#[test]
fn starting_an_edit_ends_the_last() {
    let mut state = State::default();
    state.cues_do_edit_action(CuesEditAction::EditCueDesc { cue_ind: 0 });
    state.cues_do_edit_action(CuesEditAction::RenumberCue { cue_ind: 0, input_text: "2".to_string() });
    match state.cues_ui_mode() {
        CuesEditAction::RenumberCue { input_text, .. } => assert_eq!(input_text, "2"),
        _ => panic!("wrong mode"),
    }
    assert!(!state.cues_can_undo());
}

#[test]
fn safety_screen_and_clipboard() {
    let mut state = State::default();
    *state.cues_ui_safety_mut() = CuesUiSafety::Edit;
    assert!(state.cues_is_editing());
    state.set_ui_screen(UiScreen::Board);
    assert_eq!(state.ui_screen(), UiScreen::Board);
    *state.cues_copied_cue_mut() = Some(named("x"));
    assert_eq!(state.cues_copied_cue().as_ref().unwrap().name(), "x");
    *state.cues_copied_dca_mut() = Some(DcaState::default());
    assert!(state.cues_copied_dca().is_some());
}

#[test]
fn file_data_round_trip() {
    let mut state = State::default();
    state.cues_add_cue(named("a"), num(1));
    let data = state.file_get_data();
    let mut other = State::default();
    other.file_load_data(data);
    assert_eq!(listing(&other), vec![pair("1", "a")]);
}

#[test]
fn edits_apply_to_the_cue_list() {
    let mut data = CuesData::default();
    CuesEdit::AddCue(num(2), named("b")).apply(&mut data);
    CuesEdit::AddCue(num(1), named("a")).apply(&mut data);
    CuesEdit::RenumberCue(num(1), num(3)).apply(&mut data);
    let names: Vec<String> = data.cues().iter().map(|(n, _)| n.to_string()).collect();
    assert_eq!(names, vec!["2".to_string(), "3".to_string()]);
    let mut set = BTreeSet::new();
    set.insert(9u8);
    CuesEdit::RestoreDca { cue_ind: 1, dca_ind: 0, name: Some("X".to_string()), assigned: set.clone() }
        .apply(&mut data);
    assert_eq!(data.cues()[1].1.dcas()[0].assigned(), &set);
    assert_eq!(data.cues()[1].1.dcas()[0].assigned_name(), &Some("X".to_string()));
    // a DCA that does not exist is left alone
    CuesEdit::RestoreDca { cue_ind: 7, dca_ind: 0, name: None, assigned: BTreeSet::new() }.apply(&mut data);
    CuesEdit::RemoveCue(num(2)).apply(&mut data);
    assert_eq!(data.len(), 1);
}

#[test]
fn bottom_number_follows_last_cue() {
    let mut state = State::default();
    assert_eq!(state.cues_bottom_number().unwrap().parts(), (1, None));
    state.cues_add_cue(named("a"), CueNumber::from_parts(4, Some((2, None))));
    assert_eq!(state.cues_bottom_number().unwrap().parts(), (4, Some((3, None))));
    state.cues_add_cue(named("b"), CueNumber::from_parts(usize::MAX, None));
    assert!(state.cues_bottom_number().is_none());
}

#[test]
fn renumber_by_typing() {
    let mut state = State::default();
    state.cues_add_cue(named("a"), num(1));
    state.cues_add_cue(named("b"), num(2));
    state.cues_do_edit_action(CuesEditAction::RenumberCue { cue_ind: 0, input_text: "1".to_string() });
    if let CuesEditAction::RenumberCue { input_text, .. } = state.cues_ui_mode_mut() {
        *input_text = "5.1".to_string();
    }
    state.cues_finish_renumber();
    assert!(matches!(state.cues_ui_mode(), CuesEditAction::Idle));
    assert_eq!(listing(&state), vec![pair("2", "b"), pair("5.1", "a")]);
    // text that is no number changes nothing
    state.cues_do_edit_action(CuesEditAction::RenumberCue { cue_ind: 0, input_text: "x".to_string() });
    state.cues_finish_renumber();
    assert_eq!(listing(&state), vec![pair("2", "b"), pair("5.1", "a")]);
    state.cues_undo();
    assert_eq!(listing(&state), vec![pair("1", "a"), pair("2", "b")]);
}

#[test]
fn delete_selected_and_go() {
    let mut state = State::default();
    state.cues_add_cue(named("a"), num(1));
    state.cues_add_cue(named("b"), num(2));
    state.cues_delete_selected();
    assert_eq!(listing(&state).len(), 2);
    assert_eq!(state.cues_go().unwrap().name(), "a");
    state.cues_delete_selected();
    assert_eq!(listing(&state), vec![pair("2", "b")]);
    assert_eq!(state.cues_selected_cue(), None);
    state.cues_do_edit_action(CuesEditAction::EditChannelNames);
    assert!(state.cues_go().is_none());
    assert_eq!(state.cues_selected_cue(), None);
}
