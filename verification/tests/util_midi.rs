use miq::midi::{MidiChannel, MidiMessage, U7};

#[test]
fn parse_sysex() {
    let Some((_, msg)) = MidiMessage::from_bytes(&[0xf0, 0x11, 0x11, 0x11, 0xf7]) else {
        panic!("Did not parse sysex")
    };
    assert_eq!(msg, MidiMessage::Sysex(vec![0x11, 0x11, 0x11]));
}

#[test]
fn parse_nrpn_1() {
    let Some((_, msg)) = MidiMessage::from_bytes(&[0b10110000, 0x63, 0x28]) else {
        panic!("Did not parse message")
    };
    assert_eq!(msg, MidiMessage::NrpnParameterMSB(0x28.into()));
}

#[test]
fn parse_nrpn_lsb_and_data() {
    let (_, msg) = MidiMessage::from_bytes(&[0b10110000, 0x62, 0x28]).unwrap();
    assert_eq!(msg, MidiMessage::NrpnParameterLSB(0x28.into()));
    let (_, msg) = MidiMessage::from_bytes(&[0b10110000, 0x06, 0x28]).unwrap();
    assert_eq!(msg, MidiMessage::NrpnDataMSB(0x28.into()));
    let (_, msg) = MidiMessage::from_bytes(&[0b10110000, 0x26, 0x28]).unwrap();
    assert_eq!(msg, MidiMessage::NrpnDataLSB(0x28.into()));
}

#[test]
fn parse_reads_channel() {
    let (ch, msg) = MidiMessage::from_bytes(&[0xb3, 0x63, 0x01]).unwrap();
    assert_eq!(ch, Some(MidiChannel::Channel4));
    assert_eq!(msg, MidiMessage::NrpnParameterMSB(U7::from_u8(1)));
    let (ch, _) = MidiMessage::from_bytes(&[0xf0, 0x01, 0xf7]).unwrap();
    assert_eq!(ch, None);
}

#[test]
fn parse_rejects_unknown() {
    assert!(MidiMessage::from_bytes(&[]).is_none());
    assert!(MidiMessage::from_bytes(&[0xf0, 0x11]).is_none());
    assert!(MidiMessage::from_bytes(&[0xb0, 0x12, 0x28]).is_none());
    assert!(MidiMessage::from_bytes(&[0x90, 0x63, 0x28]).is_none());
}

#[test]
fn to_bytes_then_from_bytes() {
    let bytes = MidiMessage::NrpnDataLSB(U7::from_u8(0x7f)).to_bytes(MidiChannel::Channel2);
    assert_eq!(bytes, vec![0xb1, 0x26, 0x7f]);
    let (ch, msg) = MidiMessage::from_bytes(&bytes).unwrap();
    assert_eq!(ch, Some(MidiChannel::Channel2));
    assert_eq!(msg, MidiMessage::NrpnDataLSB(U7::from_u8(0x7f)));
    let bytes = MidiMessage::Sysex(vec![1, 2]).to_bytes(MidiChannel::Channel1);
    assert_eq!(bytes, vec![0xf0, 1, 2, 0xf7]);
}

#[test]
fn u7_keeps_low_bits() {
    assert_eq!(U7::from_u8(0xff).into_u8(), 0x7f);
    assert_eq!(U7::from_u8(0x28).into_u8(), 0x28);
    let b: u8 = U7::from_u8(0x80).into();
    assert_eq!(b, 0);
}

#[test]
fn midi_channel_from_byte() {
    assert_eq!(MidiChannel::from(0u8), MidiChannel::Channel1);
    assert_eq!(MidiChannel::from(15u8), MidiChannel::Channel16);
    assert_eq!(MidiChannel::from(200u8), MidiChannel::Channel16);
    assert_eq!(MidiChannel::Channel10.index(), 9);
}
