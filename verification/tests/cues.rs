use miq::cues::{ChannelNames, Cue, CueNumber, DcaState};
use miq::data::{Channel, Decibels};
use std::collections::BTreeSet;

#[test]
fn cue_number_parse_levels() {
    assert_eq!(CueNumber::parse("3").unwrap().parts(), (2, None));
    assert_eq!(CueNumber::parse("3.4").unwrap().parts(), (2, Some((3, None))));
    assert_eq!(CueNumber::parse("3.4.5").unwrap().parts(), (2, Some((3, Some(4)))));
    assert_eq!(CueNumber::parse("3-4 5").unwrap().parts(), (2, Some((3, Some(4)))));
}

#[test]
fn cue_number_parse_skips_non_numbers() {
    assert_eq!(CueNumber::parse("a.7").unwrap().parts(), (6, None));
    assert_eq!(CueNumber::parse("1..2").unwrap().parts(), (0, Some((1, None))));
    assert_eq!(CueNumber::parse("1.2.3.4").unwrap().parts(), (0, Some((1, Some(2)))));
    assert_eq!(CueNumber::parse("+8").unwrap().parts(), (7, None));
    assert_eq!(CueNumber::parse("0.5").unwrap().parts(), (0, Some((4, None))));
    assert_eq!(CueNumber::parse("0").unwrap().parts(), (0, None));
    assert_eq!(CueNumber::parse("0").unwrap(), CueNumber::parse("1").unwrap());
}

#[test]
fn cue_number_parse_errors() {
    assert_eq!(CueNumber::parse(""), Err(()));
    assert_eq!(CueNumber::parse("abc"), Err(()));
    assert_eq!(CueNumber::parse("..."), Err(()));
    assert_eq!(CueNumber::parse("99999999999999999999999"), Err(()));
}

#[test]
fn cue_number_to_string_and_back() {
    assert_eq!(CueNumber::from_parts(0, None).to_string(), "1");
    assert_eq!(CueNumber::from_parts(0, Some((0, None))).to_string(), "1.1");
    assert_eq!(CueNumber::from_parts(0, Some((1, Some(2)))).to_string(), "1.2.3");
    let n = CueNumber::from_parts(12, Some((0, Some(7))));
    assert_eq!(n.to_string(), "13.1.8");
    assert_eq!(CueNumber::parse(&n.to_string()).unwrap(), n);
    assert_eq!(CueNumber::from_parts(4, None).to_string(), "5");
    assert_eq!(CueNumber::from_parts(usize::MAX, None).to_string(), (usize::MAX as u128 + 1).to_string());
    assert_eq!(CueNumber::from_parts(9, Some((99, None))).to_string(), "10.100");
}

#[test]
fn cue_number_increment_lowest() {
    let mut n = CueNumber::from_parts(1, None);
    n.increment_lowest();
    assert_eq!(n.parts(), (2, None));
    let mut n = CueNumber::from_parts(1, Some((5, None)));
    n.increment_lowest();
    assert_eq!(n.parts(), (1, Some((6, None))));
    let mut n = CueNumber::from_parts(1, Some((5, Some(9))));
    n.increment_lowest();
    assert_eq!(n.parts(), (1, Some((5, Some(10)))));
}

#[test]
fn cue_number_order() {
    let a = CueNumber::from_parts(1, None);
    let b = CueNumber::from_parts(1, Some((0, None)));
    let c = CueNumber::from_parts(1, Some((0, Some(0))));
    let d = CueNumber::from_parts(2, None);
    assert!(a.precedes(&b) && b.precedes(&c) && c.precedes(&d));
    assert!(!b.precedes(&a) && !a.precedes(&a));
}

#[test]
fn dca_name_from_channels() {
    let mut names = ChannelNames::default();
    names.set_name(&Channel::from_index(0), "Vox".to_string());
    names.set_name(&Channel::from_index(1), "".to_string());
    let mut dca = DcaState::default();
    dca.assign(Channel::from_index(2));
    dca.assign(Channel::from_index(0));
    dca.assign(Channel::from_index(1));
    assert_eq!(dca.name(&names), "Vox, Ch 2, Ch 3");
    dca.unassign(Channel::from_index(0));
    assert_eq!(dca.name(&names), "Ch 2, Ch 3");
    *dca.edit_name() = Some("Band".to_string());
    assert_eq!(dca.name(&names), "Band");
    assert_eq!(DcaState::default().name(&names), "");
}

#[test]
fn dca_state_parts() {
    let mut set = BTreeSet::new();
    set.insert(3u8);
    let dca = DcaState::from_parts(set.clone(), None, Some(Decibels::from_bits(7)));
    assert_eq!(dca.assigned(), &set);
    assert_eq!(dca.level().map(|l| l.to_bits()), Some(7));
    assert_eq!(dca.assigned_name(), &None);
    let mut other = DcaState::default();
    other.set_assigned(set.clone());
    assert_eq!(other.assigned(), &set);
}

#[test]
fn channel_names_set_and_get() {
    let mut names = ChannelNames::default();
    assert_eq!(names.get_name(&Channel::from_index(3)), None);
    names.set_name(&Channel::from_index(3), "Gtr".to_string());
    names.set_name(&Channel::from_index(5), "Bass".to_string());
    names.set_name(&Channel::from_index(3), "Keys".to_string());
    assert_eq!(names.get_name(&Channel::from_index(3)), Some("Keys".to_string()));
    *names.edit_name(&Channel::from_index(5)) += " gtr";
    assert_eq!(names.get_name(&Channel::from_index(5)), Some("Bass gtr".to_string()));
    assert_eq!(names.edit_name(&Channel::from_index(9)).as_str(), "");
    assert_eq!(names.get_name(&Channel::from_index(9)), Some(String::new()));
    names.set_name(&Channel::from_index(5), "Bass".to_string());
    let mut all = names.iterator();
    all.sort();
    assert_eq!(
        all,
        vec![(3, "Keys".to_string()), (5, "Bass".to_string()), (9, String::new())]
    );
}

#[test]
fn cue_defaults_and_parts() {
    let cue = Cue::default();
    assert_eq!(cue.name(), "");
    assert_eq!(cue.dcas().len(), 8);
    let mut cue = Cue::from_parts("Act 1".to_string(), vec![DcaState::default()]);
    cue.edit_name().push_str(" opening");
    assert_eq!(cue.name(), "Act 1 opening");
    cue.dcas_mut().push(DcaState::default());
    assert_eq!(cue.dcas().len(), 2);
}

#[test]
fn channel_and_dca_numbers() {
    assert_eq!(Channel::from_number(1).unwrap().index(), 0);
    assert!(Channel::from_number(0).is_none());
    assert_eq!(Channel::from_index(4).number(), 5);
    assert_eq!(miq::data::Dca::from_number(8).unwrap().index(), 7);
    assert!(miq::data::Dca::from_number(0).is_none());
    assert_eq!(miq::data::Dca::from_index(0).number(), 1);
}

#[test]
fn dca_popup_helpers() {
    let mut names = ChannelNames::default();
    names.set_name(&Channel::from_index(1), "Gtr".to_string());
    assert_eq!(names.channel_title(&Channel::from_index(0)), "Channel 1");
    assert_eq!(names.channel_title(&Channel::from_index(1)), "Gtr");
    let mut dca = DcaState::default();
    assert_eq!(dca.heading_name(&names, 2), "3");
    dca.apply_checkboxes(&[false, true, true]);
    assert_eq!(dca.heading_name(&names, 2), "Gtr, Ch 3");
    dca.apply_checkboxes(&[false, false]);
    let mut expected = BTreeSet::new();
    expected.insert(2u8);
    assert_eq!(dca.assigned(), &expected);
    dca.set_name_text("Keys".to_string());
    assert_eq!(dca.assigned_name(), &Some("Keys".to_string()));
    dca.set_name_text(String::new());
    assert_eq!(dca.assigned_name(), &None);
}
