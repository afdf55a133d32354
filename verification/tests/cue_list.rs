use miq::cue_list::CuesData;
use miq::cues::{ChannelNames, Cue, CueNumber, DcaState};
use miq::data::Channel;

/// The cue number shown as `a`, `a.b` or `a.b.c`.
fn num(a: usize, b: Option<(usize, Option<usize>)>) -> CueNumber {
    CueNumber::from_parts(a - 1, b.map(|(x, y)| (x - 1, y.map(|z| z - 1))))
}

fn named(name: &str) -> Cue {
    Cue::from_parts(name.to_string(), vec![DcaState::default()])
}

fn listing(data: &CuesData) -> Vec<(String, String)> {
    data.cues().iter().map(|(n, c)| (n.to_string(), c.name().to_string())).collect()
}

#[test]
fn cues_stay_in_number_order() {
    let mut data = CuesData::default();
    data.add_cue(named("c"), num(3, None));
    data.add_cue(named("a"), num(1, None));
    data.add_cue(named("b2"), num(1, Some((2, None))));
    data.add_cue(named("b1"), num(1, Some((1, Some(4)))));
    assert_eq!(
        listing(&data),
        vec![
            ("1".to_string(), "a".to_string()),
            ("1.1.4".to_string(), "b1".to_string()),
            ("1.2".to_string(), "b2".to_string()),
            ("3".to_string(), "c".to_string()),
        ]
    );
    assert_eq!(data.len(), 4);
}

#[test]
fn add_to_taken_number_does_nothing() {
    let mut data = CuesData::default();
    data.add_cue(named("first"), num(1, None));
    data.add_cue(named("second"), num(1, None));
    assert_eq!(listing(&data), vec![("1".to_string(), "first".to_string())]);
}

#[test]
fn remove_gives_back_the_cue() {
    let mut data = CuesData::default();
    data.add_cue(named("a"), num(1, None));
    data.add_cue(named("b"), num(2, None));
    let removed = data.remove_cue(&num(1, None)).unwrap();
    assert_eq!(removed.name(), "a");
    assert!(data.remove_cue(&num(1, None)).is_none());
    assert_eq!(listing(&data), vec![("2".to_string(), "b".to_string())]);
}

#[test]
fn remove_then_add_back_restores() {
    let mut data = CuesData::default();
    data.add_cue(named("a"), num(1, None));
    data.add_cue(named("b"), num(2, None));
    let before = listing(&data);
    let removed = data.remove_cue(&num(2, None)).unwrap();
    data.add_cue(removed, num(2, None));
    assert_eq!(listing(&data), before);
}

#[test]
fn renumber_moves_and_keeps_order() {
    let mut data = CuesData::default();
    data.add_cue(named("a"), num(1, None));
    data.add_cue(named("b"), num(2, None));
    data.renumber_cue(num(1, None), num(3, None));
    assert_eq!(
        listing(&data),
        vec![("2".to_string(), "b".to_string()), ("3".to_string(), "a".to_string())]
    );
    // a taken target or a missing source changes nothing
    data.renumber_cue(num(2, None), num(3, None));
    data.renumber_cue(num(9, None), num(4, None));
    assert_eq!(
        listing(&data),
        vec![("2".to_string(), "b".to_string()), ("3".to_string(), "a".to_string())]
    );
    data.renumber_cue(num(3, None), num(1, None));
    assert_eq!(
        listing(&data),
        vec![("1".to_string(), "a".to_string()), ("2".to_string(), "b".to_string())]
    );
}

#[test]
fn contains_set_cue_and_names() {
    let mut data = CuesData::default();
    data.add_cue(named("a"), num(5, None));
    assert!(data.contains_number(&num(5, None)));
    assert!(!data.contains_number(&num(5, Some((0, None)))));
    data.set_cue(0, named("z"));
    assert_eq!(listing(&data), vec![("5".to_string(), "z".to_string())]);
    let mut names = ChannelNames::default();
    names.set_name(&Channel::from_index(0), "Vox".to_string());
    data.set_ch_names(names);
    assert_eq!(data.ch_names().get_name(&Channel::from_index(0)), Some("Vox".to_string()));
    let copy = data.clone();
    assert_eq!(listing(&copy), listing(&data));
}
