use miq::adaptor::BoardEditAdaptor;
use miq::connection::{parse_u8, Connections, GenericGenericMidi, NoConnection};
use miq::cues::{ChannelNames, Cue, DcaState};
use miq::data::{BoardEdit, Channel, Dca};
use miq::file_io::{
    poll_done, save_action, OpenFile, PollOutcome, SaveAction, SaveAsFileState, SaveFileState,
};
use miq::yamaha::{send_ch_dca, send_ch_on, send_channel_name, send_dca_name, YamahaM7CLMidi};

#[test]
fn no_connection_defaults() {
    let conn = NoConnection::new();
    assert_eq!(conn.num_dcas(), 8);
    assert_eq!(conn.num_channels(), 20);
    assert_eq!(Connections::default(), Connections::NoConnection);
}

#[test]
fn no_connection_typed_counts() {
    let mut conn = NoConnection::new();
    *conn.num_dcas_ui_mut() = "12".to_string();
    conn.num_dcas_ui_changed();
    assert_eq!(conn.num_dcas(), 12);
    *conn.num_dcas_ui_mut() = "0".to_string();
    conn.num_dcas_ui_changed();
    assert_eq!(conn.num_dcas(), 1);
    assert_eq!(conn.num_dcas_ui_mut().as_str(), "1");
    *conn.num_channels_ui_mut() = "x4".to_string();
    conn.num_channels_ui_changed();
    assert_eq!(conn.num_channels(), 20);
    assert_eq!(conn.num_channels_ui_mut().as_str(), "20");
    *conn.num_channels_ui_mut() = "300".to_string();
    conn.num_channels_ui_changed();
    assert_eq!(conn.num_channels(), 20);
    assert_eq!(conn.num_channels_ui_mut().as_str(), "20");
}

#[test]
fn parse_u8_like_std() {
    for text in ["0", "7", "+7", "255", "256", "", "+", "-1", " 3", "03", "1_0"] {
        assert_eq!(parse_u8(text), text.parse::<u8>().ok(), "{text}");
    }
}

/// A parameter change as the board sends it, with `value` as the last data byte.
fn board_param(elem: u16, ind: u16, ch: u16, value: u8) -> Vec<u8> {
    vec![
        0xf0, 0x43, 0x10, 0x3e, 0x11, 0x01,
        (elem >> 8) as u8, elem as u8, (ind >> 8) as u8, ind as u8, (ch >> 8) as u8, ch as u8,
        0, 0, 0, 0, value, 0xf7,
    ]
}

fn one_dca_cue(chs: &[u8]) -> Cue {
    let mut dca = DcaState::default();
    for c in chs {
        dca.assign(Channel::from_index(*c));
    }
    Cue::from_parts(String::new(), vec![dca])
}

#[test]
fn midi_fire_cue_sends_diff() {
    let mut link = GenericGenericMidi::new(YamahaM7CLMidi::new(), "hi".to_string());
    assert_eq!(link.num_channels(), 32);
    assert_eq!(link.num_dcas(), 32);
    assert_eq!(link.custom_message(), "hi");
    let cue = one_dca_cue(&[0]);
    let first = link.fire_cue(&cue);
    // every channel gets a mute and every DCA an unassignment or assignment the first time
    assert!(first.contains(&send_ch_dca(0, 0, true)[0]));
    assert!(first.contains(&send_ch_on(0, true)[0]));
    let again = link.fire_cue(&cue);
    assert!(again.is_empty());
    link.reset_board_state();
    assert_eq!(link.fire_cue(&cue), first);
}

#[test]
fn midi_absorbs_board_messages() {
    let mut link = GenericGenericMidi::new(YamahaM7CLMidi::new(), String::new());
    let cue = one_dca_cue(&[]);
    let _ = link.fire_cue(&cue);
    // the board reports that channel 3 is now assigned to DCA 0
    link.absorb_message(board_param(0x003f, 0, 3, 1));
    let msgs = link.fire_cue(&cue);
    assert_eq!(msgs, send_ch_dca(3, 0, false));
}

#[test]
fn midi_fire_cue_with_level_skips_it() {
    let mut link = GenericGenericMidi::new(YamahaM7CLMidi::new(), String::new());
    let plain = one_dca_cue(&[1]);
    let mut dca = DcaState::default();
    dca.assign(Channel::from_index(1));
    let leveled = Cue::from_parts(
        String::new(),
        vec![DcaState::from_parts(dca.assigned().clone(), None, Some(miq::data::Decibels::from_bits(5)))],
    );
    let mut other = GenericGenericMidi::new(YamahaM7CLMidi::new(), String::new());
    assert_eq!(link.fire_cue(&leveled), other.fire_cue(&plain));
}

#[test]
fn midi_fire_channel_names() {
    let mut link = GenericGenericMidi::new(YamahaM7CLMidi::new(), String::new());
    let mut names = ChannelNames::default();
    names.set_name(&Channel::from_index(2), "Vox".to_string());
    let msgs = link.fire_channel_names(&names);
    assert_eq!(msgs, send_channel_name(2, "Vox"));
    assert!(link.fire_channel_names(&ChannelNames::default()).is_empty());
}

#[test]
fn yamaha_dca_name_read_back() {
    let mut adaptor = YamahaM7CLMidi::new();
    let msgs = send_dca_name(5, "ABCDEFGH");
    assert_eq!(msgs.len(), 2);
    assert_eq!(adaptor.recv_board_message(msgs[0].clone()), None);
    assert_eq!(
        adaptor.recv_board_message(msgs[1].clone()),
        Some(vec![BoardEdit::DcaName(Dca::from_index(5), "ABCDEFGH".to_string())])
    );
    // both halves were used, so the second half alone gives nothing
    assert_eq!(adaptor.recv_board_message(msgs[1].clone()), None);
    let short = send_dca_name(1, "Hi");
    let _ = adaptor.recv_board_message(short[1].clone());
    assert_eq!(
        adaptor.recv_board_message(short[0].clone()),
        Some(vec![BoardEdit::DcaName(Dca::from_index(1), "Hi\0\0\0\0\0\0".to_string())])
    );
}

#[test]
fn yamaha_mute_and_assign_read_back() {
    let mut adaptor = YamahaM7CLMidi::new();
    assert_eq!(
        adaptor.recv_board_message(board_param(0x003f, 2, 4, 1)),
        Some(vec![BoardEdit::ChannelDcaAssign(Channel::from_index(4), Dca::from_index(2), true)])
    );
    assert_eq!(
        adaptor.recv_board_message(board_param(0x003f, 2, 4, 0)),
        Some(vec![BoardEdit::ChannelDcaAssign(Channel::from_index(4), Dca::from_index(2), false)])
    );
    assert_eq!(
        adaptor.recv_board_message(board_param(0x0030, 0, 6, 0)),
        Some(vec![BoardEdit::ChannelMute(Channel::from_index(6), true)])
    );
    assert_eq!(
        adaptor.recv_board_message(board_param(0x0030, 0, 6, 1)),
        Some(vec![BoardEdit::ChannelMute(Channel::from_index(6), false)])
    );
    // NRPN on-switch messages are not read back
    assert_eq!(adaptor.recv_board_message(send_ch_on(1, true)[0].clone()), None);
    assert_eq!(adaptor.recv_board_message(vec![0x90, 1, 2]), None);
}

#[test]
fn poll_outcomes() {
    assert!(poll_done(PollOutcome::Received));
    assert!(!poll_done(PollOutcome::Empty));
    assert!(poll_done(PollOutcome::Disconnected));
    let (tx, rx) = std::sync::mpsc::channel();
    let mut saving = SaveFileState::new(rx);
    assert!(!saving.poll_saved());
    tx.send(()).unwrap();
    assert!(saving.poll_saved());
    let (tx, rx) = std::sync::mpsc::channel::<()>();
    let mut saving_as = SaveAsFileState::new(rx);
    drop(tx);
    assert!(saving_as.poll_saved());
}

#[test]
fn save_routes() {
    assert_eq!(save_action(false, OpenFile::LocalFile), SaveAction::Busy);
    assert_eq!(save_action(true, OpenFile::LocalFile), SaveAction::WriteLocalFile);
    assert_eq!(save_action(true, OpenFile::Clipboard), SaveAction::ExportToClipboard);
    assert_eq!(save_action(true, OpenFile::NoFile), SaveAction::NothingOpen);
}
