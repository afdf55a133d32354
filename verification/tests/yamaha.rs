use miq::adaptor::{BoardEditAdaptor, SendError};
use miq::data::{BoardEdit, Channel, Dca, Decibels};
use miq::yamaha::{
    recv_prm_sysex, send_ch_dca, send_ch_on, send_channel_name, send_nrpn, send_prm_sysex,
    YamahaM7CLMidi,
};

#[test]
fn nrpn_bytes() {
    assert_eq!(
        send_nrpn(0x05b6, 0xffff),
        vec![
            vec![0xb0, 0x63, 0x0b],
            vec![0xb0, 0x62, 0x36],
            vec![0xb0, 0x06, 0x7f],
            vec![0xb0, 0x26, 0x7f],
        ]
    );
    assert_eq!(send_ch_on(2, false), send_nrpn(0x05b8, 0));
    // every data byte is a MIDI data byte, and the two halves give back the number
    for param in [0u16, 0x05b6, 0x3fff, 0x1234] {
        let m = send_nrpn(param, param);
        for msg in &m {
            assert!(msg[2] < 0x80);
        }
        assert_eq!(((m[0][2] as u16) << 7) | m[1][2] as u16, param);
    }
}

#[test]
fn prm_sysex_bytes() {
    let m = send_prm_sysex(0x003f, 0x0002, 0x0004, [0, 0, 0, 0, 1]);
    assert_eq!(
        m,
        vec![0xf0, 0x43, 0x10, 0x3e, 0x11, 0x01, 0x00, 0x3f, 0x00, 0x02, 0x00, 0x04, 0, 0, 0, 0, 1, 0xf7]
    );
    assert_eq!(send_ch_dca(4, 2, true), vec![m.clone()]);
    assert_eq!(recv_prm_sysex(&m), Some((0x003f, 0x0002, 0x0004, [0, 0, 0, 0, 1])));
    assert_eq!(recv_prm_sysex(&m[1..]), Some((0x003f, 0x0002, 0x0004, [0, 0, 0, 0, 1])));
    assert_eq!(recv_prm_sysex(&m[..10]), None);
    assert_eq!(recv_prm_sysex(&[]), None);
}

#[test]
fn name_packing() {
    let msgs = send_channel_name(1, "AB");
    assert_eq!(msgs.len(), 2);
    // 'A' = 0x41, 'B' = 0x42 packed behind a zero byte into seven-bit bytes
    assert_eq!(&msgs[0][12..17], &[0x04, 0x0a, 0x08, 0x00, 0x00]);
    assert_eq!(&msgs[1][12..17], &[0, 0, 0, 0, 0]);
}

#[test]
fn adaptor_send_edits() {
    let mut adaptor = YamahaM7CLMidi::new();
    assert_eq!(
        adaptor.send_board_edit(BoardEdit::ChannelMute(Channel::from_index(0), true)),
        Ok::<Vec<Vec<u8>>, SendError>(send_ch_on(0, false))
    );
    assert_eq!(
        adaptor.send_board_edit(BoardEdit::ChannelDcaAssign(Channel::from_index(1), Dca::from_index(3), false)),
        Ok::<Vec<Vec<u8>>, SendError>(send_ch_dca(1, 3, false))
    );
}

#[test]
fn assignment_read_back() {
    for (c, d, a) in [(0u8, 0u8, true), (4, 2, false), (31, 7, true)] {
        let mut adaptor = YamahaM7CLMidi::new();
        let m = send_ch_dca(c, d, a);
        assert_eq!(
            adaptor.recv_board_message(m[0].clone()),
            Some(vec![BoardEdit::ChannelDcaAssign(Channel::from_index(c), Dca::from_index(d), a)])
        );
    }
}

#[test]
fn dca_levels_are_not_supported() {
    let mut adaptor = YamahaM7CLMidi::new();
    assert_eq!(
        adaptor.send_board_edit(BoardEdit::DcaLevel(Dca::from_index(0), Decibels::from_bits(0))),
        Err(SendError::NotSupported)
    );
}

#[test]
fn invalid_utf8_name_gives_nothing() {
    let mut adaptor = YamahaM7CLMidi::new();
    // a DCA name whose bytes are not UTF-8
    let bad = [0xffu8, 0xff, 0xff, 0xff];
    let m1 = send_prm_sysex(0x007b, 0, 0, [0, bad[0], bad[1], bad[2], bad[3]]);
    let m2 = send_prm_sysex(0x007b, 1, 0, [0, bad[0], bad[1], bad[2], bad[3]]);
    assert_eq!(adaptor.recv_board_message(m1), None);
    assert_eq!(adaptor.recv_board_message(m2), None);
}
