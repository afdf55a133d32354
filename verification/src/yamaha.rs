//! The adaptor between `BoardEdit` and the MIDI messages that the Yamaha M7CL sends and receives
//! through the pair of MIDI ports on its back panel.
//!
//! The adaptor assumes the board is configured as `UI_BOARD_CONFIG_TUTORIAL` says: everything the
//! board sends arrives as parameter-change system exclusive messages (DCA assignment can only be
//! done that way), so no second, duplicate stream of control changes comes in.
use crate::adaptor::{messages_view, BoardEditAdaptor, SendError};
use crate::data::{BoardEdit, Channel, Dca, SpecBoardEdit};
use crate::midi::{spec_from_bytes, MidiMessage as ParsedMidiMessage, SpecMidiMessage};
use vstd::prelude::*;
use vstd::utf8::{decode_utf8, encode_scalar, encode_utf8, valid_utf8};

verus! {

/// The settings the board needs, shown to the user.
pub const UI_BOARD_CONFIG_TUTORIAL: &'static str = "Note: The board's MIDI settings need to be configured correctly. Ensure that the following are set:
    1. PORT/CH Tx and Rx are set to CH1
    2. CONTROL CHANGE Rx is on
    3. CONTROL CHANGE mode is set to NRPN
    4. PARAMETER CHANGE Tx and Rx are on
Preferably, all of the other Tx, Rx, and ECHO settings should be turned off.";

/// A MIDI message as bytes.
pub type MidiMessage = Vec<u8>;

/// The MIDI channel index (channel 1 is 0) to send on; less than 16.
pub const MIDI_CHANNEL_IND: u8 = 0;

/// Parameter-change element of a channel's on switch.
pub const ELEM_INPUT_ON: u16 = 0x0030;

/// Parameter-change element of a channel's assignment to a DCA.
pub const ELEM_INPUT_DCA: u16 = 0x003f;

/// Parameter-change element of a DCA's name.
pub const ELEM_DCA_NAME: u16 = 0x007b;

/// Parameter-change element of a channel's name.
pub const ELEM_CHANNEL_NAME: u16 = 0x0113;

/// A control change on the channel we send on.
pub open spec fn control_change(controller: u8, value: u8) -> Seq<u8> {
    seq![0xb0u8, controller, value]
}

/// The four control changes that set NRPN parameter `param` to `val`: parameter MSB and LSB,
/// then data MSB and LSB. Each is seven bits of the 14-bit number (bits 7 to 13, then bits 0 to
/// 6), so that every data byte is a MIDI data byte.
pub open spec fn spec_send_nrpn(param: u16, val: u16) -> Seq<Seq<u8>> {
    seq![
        control_change(0x63, ((param >> 7u16) & 0x7fu16) as u8),
        control_change(0x62, (param & 0x7fu16) as u8),
        control_change(0x06, ((val >> 7u16) & 0x7fu16) as u8),
        control_change(0x26, (val & 0x7fu16) as u8),
    ]
}

/// The five data bytes `dd` (eight bits each) packed into five seven-bit MIDI bytes.
pub open spec fn spec_pack(dd: Seq<u8>) -> Seq<u8> {
    seq![
        ((dd[0] << 4u8) | (dd[1] >> 4u8)) & 0x7fu8,
        ((dd[1] << 3u8) | (dd[2] >> 5u8)) & 0x7fu8,
        ((dd[2] << 2u8) | (dd[3] >> 6u8)) & 0x7fu8,
        ((dd[3] << 1u8) | (dd[4] >> 7u8)) & 0x7fu8,
        dd[4] & 0x7fu8,
    ]
}

/// The parameter-change system exclusive message for element `elem`, index `ind`, channel
/// `cc` and data `dd`.
pub open spec fn spec_prm_sysex(elem: u16, ind: u16, cc: u16, dd: Seq<u8>) -> Seq<u8> {
    seq![
        0xf0u8,
        0x43u8,
        0x10u8,
        0x3eu8,
        0x11u8,
        0x01u8,
        (elem >> 8u16) as u8,
        elem as u8,
        (ind >> 8u16) as u8,
        ind as u8,
        (cc >> 8u16) as u8,
        cc as u8,
    ] + spec_pack(dd) + seq![0xf7u8]
}

/// The `i`th byte of a name, or zero past its end.
pub open spec fn name_byte(b: Seq<u8>, i: int) -> u8 {
    if i < b.len() {
        b[i]
    } else {
        0
    }
}

/// The two messages that set the name of `target` through element `elem`: the first four bytes
/// of the name, then the next four; bytes past the end are zero.
pub open spec fn spec_name_messages(elem: u16, target: u8, b: Seq<u8>) -> Seq<Seq<u8>> {
    seq![
        spec_prm_sysex(
            elem,
            0,
            target as u16,
            seq![0u8, name_byte(b, 0), name_byte(b, 1), name_byte(b, 2), name_byte(b, 3)],
        ),
        spec_prm_sysex(
            elem,
            1,
            target as u16,
            seq![0u8, name_byte(b, 4), name_byte(b, 5), name_byte(b, 6), name_byte(b, 7)],
        ),
    ]
}

/// The messages that turn channel `ch` on or off.
pub open spec fn spec_send_ch_on(ch: u8, on: bool) -> Seq<Seq<u8>> {
    spec_send_nrpn(
        (0x05b6 + ch) as u16,
        if on {
            0xffffu16
        } else {
            0u16
        },
    )
}

/// The message that assigns channel `ch` to DCA `dca` or unassigns it.
pub open spec fn spec_send_ch_dca(ch: u8, dca: u8, assigned: bool) -> Seq<Seq<u8>> {
    seq![
        spec_prm_sysex(
            ELEM_INPUT_DCA,
            dca as u16,
            ch as u16,
            seq![0u8, 0u8, 0u8, 0u8, if assigned {
                1u8
            } else {
                0u8
            }],
        ),
    ]
}

/// The values of a sequence of byte messages.
pub open spec fn byte_messages_view(ms: Seq<Vec<u8>>) -> Seq<Seq<u8>> {
    ms.map_values(|m: Vec<u8>| m@)
}

/// Sends the messages to turn the given channel on or off.
pub fn send_ch_on(ch_ind: u8, on: bool) -> (r: Vec<MidiMessage>)
    ensures
        byte_messages_view(r@) == spec_send_ch_on(ch_ind, on),
{
    let val: u16 = if on {
        0b1111_1111_1111_1111
    } else {
        0b0000_0000_0000_0000
    };
    send_nrpn(0x05b6 + (ch_ind as u16), val)
}

/// Sends the message to assign the given channel to the given DCA or unassign it.
pub fn send_ch_dca(ch_ind: u8, dca_ind: u8, assigned: bool) -> (r: Vec<MidiMessage>)
    ensures
        byte_messages_view(r@) == spec_send_ch_dca(ch_ind, dca_ind, assigned),
{
    let data: u8 = if assigned {
        0x01
    } else {
        0x00
    };
    let m = send_prm_sysex(ELEM_INPUT_DCA, dca_ind as u16, ch_ind as u16, [0x00, 0x00, 0x00, 0x00, data]);
    let r = vec![m];
    assert(byte_messages_view(r@) =~= spec_send_ch_dca(ch_ind, dca_ind, assigned));
    r
}

/// The `i`th byte of `name`, or zero past its end.
fn name_byte_at(name: &[u8], i: usize) -> (r: u8)
    ensures
        r == name_byte(name@, i as int),
{
    if i < name.len() {
        name[i]
    } else {
        0x00
    }
}

/// The two messages that set a name through element `elem`.
fn send_name(elem: u16, target: u8, name: &str) -> (r: Vec<MidiMessage>)
    ensures
        byte_messages_view(r@) == spec_name_messages(elem, target, encode_utf8(name@)),
{
    let name = name.as_bytes();
    let data_1: [u8; 5] = [
        0x00,
        name_byte_at(name, 0),
        name_byte_at(name, 1),
        name_byte_at(name, 2),
        name_byte_at(name, 3),
    ];
    let data_2: [u8; 5] = [
        0x00,
        name_byte_at(name, 4),
        name_byte_at(name, 5),
        name_byte_at(name, 6),
        name_byte_at(name, 7),
    ];
    let m1 = send_prm_sysex(elem, 0x0000, target as u16, data_1);
    let m2 = send_prm_sysex(elem, 0x0001, target as u16, data_2);
    assert(data_1@ =~= seq![0u8, name_byte(name@, 0), name_byte(name@, 1), name_byte(name@, 2), name_byte(name@, 3)]);
    assert(data_2@ =~= seq![0u8, name_byte(name@, 4), name_byte(name@, 5), name_byte(name@, 6), name_byte(name@, 7)]);
    let r = vec![m1, m2];
    assert(byte_messages_view(r@) =~= spec_name_messages(elem, target, name@));
    r
}

/// Sends the messages to set the name of the given DCA: the first eight bytes of the name, padded
/// with zeros. The name is meant to be ASCII and at most eight characters long.
pub fn send_dca_name(dca_ind: u8, name: &str) -> (r: Vec<MidiMessage>)
    ensures
        byte_messages_view(r@) == spec_name_messages(ELEM_DCA_NAME, dca_ind, encode_utf8(name@)),
{
    send_name(ELEM_DCA_NAME, dca_ind, name)
}

/// Sends the messages to set the name of the given channel: the first eight bytes of the name,
/// padded with zeros. The name is meant to be ASCII and at most eight characters long.
pub fn send_channel_name(channel_ind: u8, name: &str) -> (r: Vec<MidiMessage>)
    ensures
        byte_messages_view(r@) == spec_name_messages(
            ELEM_CHANNEL_NAME,
            channel_ind,
            encode_utf8(name@),
        ),
{
    send_name(ELEM_CHANNEL_NAME, channel_ind, name)
}

/// Sends the control changes that set NRPN parameter `param` to `val`.
pub fn send_nrpn(param: u16, val: u16) -> (r: Vec<MidiMessage>)
    ensures
        byte_messages_view(r@) == spec_send_nrpn(param, val),
{
    let param_msb = ((param >> 7) & 0x7f) as u8;
    let param_lsb = (param & 0x7f) as u8;
    let val_msb = ((val >> 7) & 0x7f) as u8;
    let val_lsb = (val & 0x7f) as u8;
    let status: u8 = 0b1011_0000 | MIDI_CHANNEL_IND;
    assert(0b1011_0000u8 | 0u8 == 0xb0u8) by (bit_vector);
    let r = vec![
        vec![status, 0x63, param_msb],
        vec![status, 0x62, param_lsb],
        vec![status, 0x06, val_msb],
        vec![status, 0x26, val_lsb],
    ];
    assert(byte_messages_view(r@) =~= spec_send_nrpn(param, val));
    r
}

/// Sends the parameter-change system exclusive message for element `elem`, index `ind`, channel
/// `cc` and data `dd`.
pub fn send_prm_sysex(elem: u16, ind: u16, cc: u16, dd: [u8; 5]) -> (r: MidiMessage)
    ensures
        r@ == spec_prm_sysex(elem, ind, cc, dd@),
{
    let e1 = (elem >> 8) as u8;
    let e2 = elem as u8;
    let i1 = (ind >> 8) as u8;
    let i2 = ind as u8;
    let c1 = (cc >> 8) as u8;
    let c2 = cc as u8;
    let sub_status: u8 = 0b0001_0000 | MIDI_CHANNEL_IND;
    assert(0b0001_0000u8 | 0u8 == 0x10u8) by (bit_vector);
    let r = vec![
        0xf0,
        0x43,
        sub_status,
        0x3e,
        0x11,
        0x01,
        e1,
        e2,
        i1,
        i2,
        c1,
        c2,
        ((dd[0] << 4) | (dd[1] >> 4)) & 0b0111_1111,
        ((dd[1] << 3) | (dd[2] >> 5)) & 0b0111_1111,
        ((dd[2] << 2) | (dd[3] >> 6)) & 0b0111_1111,
        ((dd[3] << 1) | (dd[4] >> 7)) & 0b0111_1111,
        dd[4] & 0b0111_1111,
        0xf7,
    ];
    assert(r@ =~= spec_prm_sysex(elem, ind, cc, dd@));
    r
}

/// What `recv_prm_sysex` makes of the content of a system exclusive message: element, index,
/// channel and the five data bytes. A leading 0xF0 is skipped when present.
pub open spec fn spec_recv_prm_sysex(c: Seq<u8>) -> Option<(u16, u16, u16, Seq<u8>)> {
    if c.len() == 0 {
        None
    } else {
        let o: int = if c[0] == 0xf0u8 {
            1
        } else {
            0
        };
        if c.len() < 16 + o {
            None
        } else {
            Some(
                (
                    ((c[5 + o] as u16) << 8u16) | (c[6 + o] as u16),
                    ((c[7 + o] as u16) << 8u16) | (c[8 + o] as u16),
                    ((c[9 + o] as u16) << 8u16) | (c[10 + o] as u16),
                    c.subrange(11 + o, 16 + o),
                ),
            )
        }
    }
}

/// Unpacks a parameter-change system exclusive message into element, index, channel and data.
pub fn recv_prm_sysex(content: &[u8]) -> (r: Option<(u16, u16, u16, [u8; 5])>)
    ensures
        match r {
            Some((e, i, c, d)) => spec_recv_prm_sysex(content@) == Some((e, i, c, d@)),
            None => spec_recv_prm_sysex(content@) is None,
        },
{
    if content.len() == 0 {
        return None;
    }
    // Messages are accepted with and without the leading byte.
    let offset: usize = if content[0] == 0xf0 {
        1
    } else {
        0
    };
    if content.len() < 16 + offset {
        return None;
    }
    let elem: u16 = ((content[5 + offset] as u16) << 8) | (content[6 + offset] as u16);
    let ind: u16 = ((content[7 + offset] as u16) << 8) | (content[8 + offset] as u16);
    let cc: u16 = ((content[9 + offset] as u16) << 8) | (content[10 + offset] as u16);
    let dd: [u8; 5] = [
        content[11 + offset],
        content[12 + offset],
        content[13 + offset],
        content[14 + offset],
        content[15 + offset],
    ];
    assert(dd@ =~= content@.subrange(11 + offset as int, 16 + offset as int));
    Some((elem, ind, cc, dd))
}

/// The four name bytes held in the five seven-bit data bytes of a name message.
pub open spec fn spec_unpack_name(dd: Seq<u8>) -> Seq<u8> {
    seq![
        (dd[0] << 4u8) | (dd[1] >> 3u8),
        (dd[1] << 5u8) | (dd[2] >> 2u8),
        (dd[2] << 6u8) | (dd[3] >> 1u8),
        (dd[3] << 7u8) | dd[4],
    ]
}

/// `String::from_utf8` of std: a string exactly when the bytes are valid UTF-8, and then the
/// string whose UTF-8 encoding is those bytes.
#[verifier::external_body]
fn string_from_utf8(bytes: Vec<u8>) -> (r: Option<String>)
    ensures
        r is Some <==> valid_utf8(bytes@),
        r matches Some(s) ==> encode_utf8(s@) == bytes@,
{
    String::from_utf8(bytes).ok()
}

/// The adaptor for the M7CL. It remembers the two halves of a DCA name, which the board sends
/// in separate messages.
pub struct YamahaM7CLMidi {
    last_dca_name_short_1: Option<(Dca, [u8; 4])>,
    last_dca_name_short_2: Option<(Dca, [u8; 4])>,
}

/// The value of a remembered half of a DCA name.
pub open spec fn half_view(h: Option<(Dca, [u8; 4])>) -> Option<(u8, Seq<u8>)> {
    match h {
        Some((d, b)) => Some((d@, b@)),
        None => None,
    }
}

/// Whether the two remembered halves of DCA names belong to different DCAs: the halves of one
/// DCA's name are used, and forgotten, as soon as both are there.
pub open spec fn halves_apart(v: (Option<(u8, Seq<u8>)>, Option<(u8, Seq<u8>)>)) -> bool {
    !(v.0 is Some && v.1 is Some && (v.0->0).0 == (v.1->0).0)
}

impl View for YamahaM7CLMidi {
    type V = (Option<(u8, Seq<u8>)>, Option<(u8, Seq<u8>)>);

    closed spec fn view(&self) -> (Option<(u8, Seq<u8>)>, Option<(u8, Seq<u8>)>) {
        (half_view(self.last_dca_name_short_1), half_view(self.last_dca_name_short_2))
    }
}

/// What the adaptor does with the parameter change `(elem, ind, cc, dd)` when it remembers
/// `state`: a channel's on switch gives a mute, a DCA assignment gives an assignment, and a DCA
/// name half is remembered until both halves of one DCA's name are there, which then give the
/// name (when it is valid UTF-8) and are forgotten.
pub open spec fn spec_recv_parameter(
    state: (Option<(u8, Seq<u8>)>, Option<(u8, Seq<u8>)>),
    elem: u16,
    ind: u16,
    cc: u16,
    dd: Seq<u8>,
) -> ((Option<(u8, Seq<u8>)>, Option<(u8, Seq<u8>)>), Option<Seq<SpecBoardEdit>>) {
    if elem == ELEM_INPUT_ON {
        (state, Some(seq![SpecBoardEdit::ChannelMute(cc as u8, dd[4] == 0)]))
    } else if elem == ELEM_INPUT_DCA {
        (state, Some(seq![SpecBoardEdit::ChannelDcaAssign(cc as u8, ind as u8, dd[4] != 0)]))
    } else if elem == ELEM_DCA_NAME {
        let data = spec_unpack_name(dd);
        let s1 = if ind == 0 {
            Some((cc as u8, data))
        } else {
            state.0
        };
        let s2 = if ind == 1 {
            Some((cc as u8, data))
        } else {
            state.1
        };
        if s1 is Some && s2 is Some && (s1->0).0 == (s2->0).0 {
            let bytes = (s1->0).1 + (s2->0).1;
            (
                (None, None),
                if valid_utf8(bytes) {
                    Some(seq![SpecBoardEdit::DcaName((s1->0).0, decode_utf8(bytes))])
                } else {
                    None
                },
            )
        } else {
            ((s1, s2), None)
        }
    } else {
        (state, None)
    }
}

impl YamahaM7CLMidi {
    /// The remembered halves always belong to different DCAs.
    #[verifier::type_invariant]
    pub closed spec fn remembered_halves_apart(&self) -> bool {
        halves_apart(self@)
    }

    /// A new adaptor, which remembers no half of a DCA name.
    pub fn new() -> (r: Self)
        ensures
            r@ == (None::<(u8, Seq<u8>)>, None::<(u8, Seq<u8>)>),
    {
        YamahaM7CLMidi { last_dca_name_short_1: None, last_dca_name_short_2: None }
    }

    /// Handles one parameter change.
    fn recv_parameter(&mut self, elem: u16, ind: u16, cc: u16, dd: [u8; 5]) -> (r: Option<
        Vec<BoardEdit>,
    >)
        ensures
            halves_apart(final(self)@),
            (final(self)@, crate::adaptor::opt_edits_view(r)) == spec_recv_parameter(
                old(self)@,
                elem,
                ind,
                cc,
                dd@,
            ),
    {
        proof {
            use_type_invariant(&*self);
        }
        if elem == ELEM_INPUT_ON {
            // The value, off or on (0 or 1), is in the last data byte.
            let r = vec![BoardEdit::ChannelMute(Channel::from_index(cc as u8), dd[4] == 0)];
            assert(crate::data::edits_view(r@) =~= seq![
                SpecBoardEdit::ChannelMute(cc as u8, dd@[4] == 0),
            ]);
            return Some(r);
        }
        if elem == ELEM_INPUT_DCA {
            // The index is the DCA, the channel is the channel; the value, unassigned or
            // assigned (0 or 1), is in the last data byte.
            let r = vec![
                BoardEdit::ChannelDcaAssign(
                    Channel::from_index(cc as u8),
                    Dca::from_index(ind as u8),
                    dd[4] != 0,
                ),
            ];
            assert(crate::data::edits_view(r@) =~= seq![
                SpecBoardEdit::ChannelDcaAssign(cc as u8, ind as u8, dd@[4] != 0),
            ]);
            return Some(r);
        }
        if elem != ELEM_DCA_NAME {
            return None;
        }
        // The channel is the DCA; the data is ASCII packed into seven-bit bytes.
        let dca = Dca::from_index(cc as u8);
        let data: [u8; 4] = [
            (dd[0] << 4) | (dd[1] >> 3),
            (dd[1] << 5) | (dd[2] >> 2),
            (dd[2] << 6) | (dd[3] >> 1),
            (dd[3] << 7) | dd[4],
        ];
        assert(data@ =~= spec_unpack_name(dd@));
        // Index 0 is the first half of the name, index 1 the second.
        let n1 = if ind == 0 {
            Some((dca, data))
        } else {
            self.last_dca_name_short_1
        };
        let n2 = if ind == 1 {
            Some((dca, data))
        } else {
            self.last_dca_name_short_2
        };
        let both: Option<(Dca, [u8; 4], [u8; 4])> = match (&n1, &n2) {
            (Some((dca_1, data_1)), Some((dca_2, data_2))) => {
                if dca_1.index() == dca_2.index() {
                    Some((*dca_1, *data_1, *data_2))
                } else {
                    None
                }
            },
            _ => None,
        };
        match both {
            Some((dca_1, data_1, data_2)) => {
                let mut bytes: Vec<u8> = Vec::new();
                for i in 0..4
                    invariant
                        bytes@ =~= data_1@.take(i as int),
                {
                    bytes.push(data_1[i]);
                }
                for i in 0..4
                    invariant
                        bytes@ =~= data_1@ + data_2@.take(i as int),
                {
                    bytes.push(data_2[i]);
                }
                assert(data_2@.take(4) =~= data_2@);
                assert(bytes@ =~= data_1@ + data_2@);
                assert(half_view(n1) == Some((dca_1@, data_1@)));
                assert(half_view(n2) matches Some(h) && h.1 == data_2@);
                let ghost all = bytes@;
                self.last_dca_name_short_1 = None;
                self.last_dca_name_short_2 = None;
                match string_from_utf8(bytes) {
                    Some(dca_name) => {
                        proof {
                            vstd::utf8::encode_utf8_decode_utf8(dca_name@);
                        }
                        let r = vec![BoardEdit::DcaName(dca_1, dca_name)];
                        assert(crate::data::edits_view(r@) =~= seq![
                            SpecBoardEdit::DcaName(dca_1@, decode_utf8(all)),
                        ]);
                        Some(r)
                    },
                    None => None,
                }
            },
            None => {
                self.last_dca_name_short_1 = n1;
                self.last_dca_name_short_2 = n2;
                None
            },
        }
    }
}

/// The adaptor's value after it has received `message`, and the edits the message stands for.
pub open spec fn spec_yamaha_recv(
    state: (Option<(u8, Seq<u8>)>, Option<(u8, Seq<u8>)>),
    message: Seq<u8>,
) -> ((Option<(u8, Seq<u8>)>, Option<(u8, Seq<u8>)>), Option<Seq<SpecBoardEdit>>) {
    match spec_from_bytes(message) {
        Some((_, SpecMidiMessage::Sysex(content))) => match spec_recv_prm_sysex(content) {
            Some((elem, ind, cc, dd)) => spec_recv_parameter(state, elem, ind, cc, dd),
            None => (state, None),
        },
        _ => (state, None),
    }
}

/// The messages for an edit: a mute is an NRPN on-switch change, an assignment and the names
/// are parameter changes. Levels are not supported yet.
pub open spec fn spec_yamaha_send(edit: SpecBoardEdit) -> Result<Seq<Seq<u8>>, SendError> {
    match edit {
        SpecBoardEdit::ChannelMute(c, m) => Ok(spec_send_ch_on(c, !m)),
        SpecBoardEdit::ChannelDcaAssign(c, d, a) => Ok(spec_send_ch_dca(c, d, a)),
        SpecBoardEdit::ChannelName(c, n) => Ok(
            spec_name_messages(ELEM_CHANNEL_NAME, c, encode_utf8(n)),
        ),
        SpecBoardEdit::DcaName(d, n) => Ok(spec_name_messages(ELEM_DCA_NAME, d, encode_utf8(n))),
        SpecBoardEdit::DcaLevel(..) => Err(SendError::NotSupported),
    }
}

impl BoardEditAdaptor for YamahaM7CLMidi {
    type Message = MidiMessage;

    open spec fn spec_send(edit: SpecBoardEdit) -> Result<Seq<Seq<u8>>, SendError> {
        spec_yamaha_send(edit)
    }

    open spec fn spec_recv(
        state: (Option<(u8, Seq<u8>)>, Option<(u8, Seq<u8>)>),
        message: Seq<u8>,
    ) -> ((Option<(u8, Seq<u8>)>, Option<(u8, Seq<u8>)>), Option<Seq<SpecBoardEdit>>) {
        spec_yamaha_recv(state, message)
    }

    fn send_board_edit(&mut self, edit: BoardEdit) -> (r: Result<Vec<MidiMessage>, SendError>) {
        let r = match edit {
            BoardEdit::ChannelMute(ch, mute) => send_ch_on(ch.index(), !mute),
            BoardEdit::ChannelDcaAssign(ch, dca, assign) => send_ch_dca(
                ch.index(),
                dca.index(),
                assign,
            ),
            BoardEdit::ChannelName(ch, name) => send_channel_name(ch.index(), name.as_str()),
            BoardEdit::DcaName(dca, name) => send_dca_name(dca.index(), name.as_str()),
            BoardEdit::DcaLevel(..) => {
                return Err(SendError::NotSupported);
            },
        };
        assert(messages_view(r@) =~= byte_messages_view(r@));
        Ok(r)
    }

    /// Turns the mute, assignment and DCA name messages that the board sends into edits; only
    /// those three kinds are read.
    fn recv_board_message(&mut self, message: MidiMessage) -> (r: Option<Vec<BoardEdit>>)
        ensures
            halves_apart(final(self)@),
    {
        proof {
            use_type_invariant(&*self);
        }
        match ParsedMidiMessage::from_bytes(message.as_slice()) {
            Some((_midi_channel, ParsedMidiMessage::Sysex(content))) => {
                match recv_prm_sysex(content.as_slice()) {
                    Some((elem, ind, cc, dd)) => self.recv_parameter(elem, ind, cc, dd),
                    None => None,
                }
            },
            _ => None,
        }
    }
}

/// Splitting a 16-bit number into its high and low byte and joining them again gives it back.
proof fn lemma_u16_bytes(x: u16)
    ensures
        ((((x >> 8u16) as u8) as u16) << 8u16) | (((x as u8) as u16)) == x,
{
    assert(((((x >> 8u16) as u8) as u16) << 8u16) | (((x as u8) as u16)) == x) by (bit_vector);
}

/// Unpacking the seven-bit data of a name message gives back the four name bytes packed into it.
pub proof fn lemma_unpack_pack_name(a: u8, b: u8, c: u8, d: u8)
    ensures
        spec_unpack_name(spec_pack(seq![0u8, a, b, c, d])) == seq![a, b, c, d],
{
    let p = spec_pack(seq![0u8, a, b, c, d]);
    assert(p =~= seq![
        ((0u8 << 4u8) | (a >> 4u8)) & 0x7fu8,
        ((a << 3u8) | (b >> 5u8)) & 0x7fu8,
        ((b << 2u8) | (c >> 6u8)) & 0x7fu8,
        ((c << 1u8) | (d >> 7u8)) & 0x7fu8,
        d & 0x7fu8,
    ]);
    assert((((((0u8 << 4u8) | (a >> 4u8)) & 0x7fu8) << 4u8) | ((((a << 3u8) | (b >> 5u8)) & 0x7fu8)
        >> 3u8)) == a) by (bit_vector);
    assert((((((a << 3u8) | (b >> 5u8)) & 0x7fu8) << 5u8) | ((((b << 2u8) | (c >> 6u8)) & 0x7fu8)
        >> 2u8)) == b) by (bit_vector);
    assert((((((b << 2u8) | (c >> 6u8)) & 0x7fu8) << 6u8) | ((((c << 1u8) | (d >> 7u8)) & 0x7fu8)
        >> 1u8)) == c) by (bit_vector);
    assert((((((c << 1u8) | (d >> 7u8)) & 0x7fu8) << 7u8) | (d & 0x7fu8)) == d) by (bit_vector);
    assert(spec_unpack_name(p) =~= seq![a, b, c, d]);
}

/// A parameter-change message is read back as the element, index and channel it was built from,
/// with its packed data.
pub proof fn lemma_prm_sysex_read_back(elem: u16, ind: u16, cc: u16, dd: Seq<u8>)
    requires
        dd.len() == 5,
    ensures
        ({
            let m = spec_prm_sysex(elem, ind, cc, dd);
            &&& spec_from_bytes(m) == Some(
                (None::<crate::midi::MidiChannel>, SpecMidiMessage::Sysex(m.subrange(1, m.len() - 1))),
            )
            &&& spec_recv_prm_sysex(m.subrange(1, m.len() - 1)) == Some((elem, ind, cc, spec_pack(dd)))
        }),
{
    let m = spec_prm_sysex(elem, ind, cc, dd);
    let content = m.subrange(1, m.len() - 1);
    assert(m.len() == 18);
    assert(m[0] == 0xf0u8);
    assert(m[17] == 0xf7u8);
    assert(content[0] == 0x43u8);
    lemma_u16_bytes(elem);
    lemma_u16_bytes(ind);
    lemma_u16_bytes(cc);
    assert(content.subrange(11, 16) =~= spec_pack(dd));
}

/// The first eight bytes of a name, padded with zeros.
pub open spec fn padded_name(b: Seq<u8>) -> Seq<u8> {
    seq![
        name_byte(b, 0),
        name_byte(b, 1),
        name_byte(b, 2),
        name_byte(b, 3),
        name_byte(b, 4),
        name_byte(b, 5),
        name_byte(b, 6),
        name_byte(b, 7),
    ]
}

/// An adaptor that remembers nothing reads the two messages that set a DCA's name as that name:
/// the first message is remembered, the second gives the first eight bytes of the name, padded
/// with zeros (when they are valid UTF-8), and the adaptor remembers nothing again.
pub proof fn lemma_dca_name_read_back(d: u8, b: Seq<u8>)
    ensures
        ({
            let ms = spec_name_messages(ELEM_DCA_NAME, d, b);
            let (st1, e1) = spec_yamaha_recv((None, None), ms[0]);
            let (st2, e2) = spec_yamaha_recv(st1, ms[1]);
            &&& e1 is None
            &&& st2 == (None::<(u8, Seq<u8>)>, None::<(u8, Seq<u8>)>)
            &&& e2 == if valid_utf8(padded_name(b)) {
                Some(seq![SpecBoardEdit::DcaName(d, decode_utf8(padded_name(b)))])
            } else {
                None
            }
        }),
{
    let ms = spec_name_messages(ELEM_DCA_NAME, d, b);
    let dd1 = seq![0u8, name_byte(b, 0), name_byte(b, 1), name_byte(b, 2), name_byte(b, 3)];
    let dd2 = seq![0u8, name_byte(b, 4), name_byte(b, 5), name_byte(b, 6), name_byte(b, 7)];
    lemma_prm_sysex_read_back(ELEM_DCA_NAME, 0, d as u16, dd1);
    lemma_prm_sysex_read_back(ELEM_DCA_NAME, 1, d as u16, dd2);
    lemma_unpack_pack_name(name_byte(b, 0), name_byte(b, 1), name_byte(b, 2), name_byte(b, 3));
    lemma_unpack_pack_name(name_byte(b, 4), name_byte(b, 5), name_byte(b, 6), name_byte(b, 7));
    assert(seq![name_byte(b, 0), name_byte(b, 1), name_byte(b, 2), name_byte(b, 3)] + seq![
        name_byte(b, 4),
        name_byte(b, 5),
        name_byte(b, 6),
        name_byte(b, 7),
    ] =~= padded_name(b));
}

/// The message sent to assign a channel to a DCA, or to unassign it, is read back as that same
/// edit, whatever the adaptor remembers.
pub proof fn lemma_dca_assign_read_back(
    st: (Option<(u8, Seq<u8>)>, Option<(u8, Seq<u8>)>),
    c: u8,
    d: u8,
    assigned: bool,
)
    ensures
        spec_yamaha_recv(st, spec_send_ch_dca(c, d, assigned)[0]) == (
            st,
            Some(seq![SpecBoardEdit::ChannelDcaAssign(c, d, assigned)]),
        ),
{
    let flag: u8 = if assigned {
        1
    } else {
        0
    };
    let dd = seq![0u8, 0u8, 0u8, 0u8, flag];
    lemma_prm_sysex_read_back(ELEM_INPUT_DCA, d as u16, c as u16, dd);
    assert(spec_pack(dd)[4] == flag & 0x7fu8);
    assert(flag & 0x7fu8 == flag) by (bit_vector)
        requires
            flag <= 1,
    ;
    assert(spec_send_ch_dca(c, d, assigned)[0] == spec_prm_sysex(ELEM_INPUT_DCA, d as u16, c as u16, dd));
}

/// While the remembered halves belong to different DCAs, a parameter change keeps them so, and a
/// DCA name that it gives is the name of the DCA the message is about.
pub proof fn lemma_recv_name_of_own_dca(
    st: (Option<(u8, Seq<u8>)>, Option<(u8, Seq<u8>)>),
    elem: u16,
    ind: u16,
    cc: u16,
    dd: Seq<u8>,
)
    requires
        halves_apart(st),
    ensures
        halves_apart(spec_recv_parameter(st, elem, ind, cc, dd).0),
        spec_recv_parameter(st, elem, ind, cc, dd).1 matches Some(es) ==> (
        es[0] matches SpecBoardEdit::DcaName(d, n) ==> d == cc as u8),
{
}

/// `k` NUL characters.
pub open spec fn nuls(k: nat) -> Seq<char> {
    Seq::new(k, |i: int| '\0')
}

/// The UTF-8 encoding of two texts one after the other is their encodings one after the other.
proof fn lemma_encode_append(a: Seq<char>, b: Seq<char>)
    ensures
        encode_utf8(a + b) == encode_utf8(a) + encode_utf8(b),
    decreases a.len(),
{
    if a.len() == 0 {
        assert(a + b =~= b);
        assert(encode_utf8(a) =~= Seq::<u8>::empty());
        assert(encode_utf8(a) + encode_utf8(b) =~= encode_utf8(b));
    } else {
        lemma_encode_append(a.drop_first(), b);
        assert((a + b).drop_first() =~= a.drop_first() + b);
        assert((a + b)[0] == a[0]);
        assert(encode_utf8(a + b) =~= encode_scalar(a[0] as u32) + encode_utf8(a.drop_first() + b));
        assert(encode_utf8(a) + encode_utf8(b) =~= encode_scalar(a[0] as u32) + (encode_utf8(
            a.drop_first(),
        ) + encode_utf8(b)));
    }
}

/// NUL characters are encoded as zero bytes.
proof fn lemma_encode_nuls(k: nat)
    ensures
        encode_utf8(nuls(k)) == Seq::new(k, |i: int| 0u8),
    decreases k,
{
    if k > 0 {
        lemma_encode_nuls((k - 1) as nat);
        assert(nuls(k).drop_first() =~= nuls((k - 1) as nat));
        assert(nuls(k)[0] == '\0');
        assert(('\0' as u32) == 0u32);
        assert((0u32 & 0x7Fu32) as u8 == 0u8) by (bit_vector);
        assert(encode_scalar(0u32) =~= seq![0u8]);
        assert(encode_utf8(nuls(k)) =~= seq![0u8] + encode_utf8(nuls((k - 1) as nat)));
        assert(Seq::new(k, |i: int| 0u8) =~= seq![0u8] + Seq::new((k - 1) as nat, |i: int| 0u8));
    } else {
        assert(nuls(k) =~= Seq::<char>::empty());
        assert(Seq::new(k, |i: int| 0u8) =~= Seq::<u8>::empty());
    }
}

/// The name messages of a DCA name whose UTF-8 encoding is at most eight bytes long are read
/// back as that name followed by NUL characters up to eight bytes: the first message is
/// remembered, the second gives the name and nothing is remembered after; the second message on
/// its own then gives nothing.
pub proof fn lemma_dca_name_text_read_back(d: u8, name: Seq<char>)
    requires
        encode_utf8(name).len() <= 8,
    ensures
        ({
            let b = encode_utf8(name);
            let ms = spec_name_messages(ELEM_DCA_NAME, d, b);
            let (st1, e1) = spec_yamaha_recv((None, None), ms[0]);
            let (st2, e2) = spec_yamaha_recv(st1, ms[1]);
            &&& e1 is None
            &&& st2 == (None::<(u8, Seq<u8>)>, None::<(u8, Seq<u8>)>)
            &&& e2 == Some(seq![SpecBoardEdit::DcaName(d, name + nuls((8 - b.len()) as nat))])
            &&& spec_yamaha_recv(st2, ms[1]).1 is None
        }),
{
    let b = encode_utf8(name);
    let k = (8 - b.len()) as nat;
    lemma_dca_name_read_back(d, b);
    lemma_encode_append(name, nuls(k));
    lemma_encode_nuls(k);
    assert(padded_name(b) =~= b + Seq::new(k, |i: int| 0u8));
    vstd::utf8::encode_utf8_valid_utf8(name + nuls(k));
    vstd::utf8::encode_utf8_decode_utf8(name + nuls(k));
    let dd2 = seq![0u8, name_byte(b, 4), name_byte(b, 5), name_byte(b, 6), name_byte(b, 7)];
    lemma_prm_sysex_read_back(ELEM_DCA_NAME, 1, d as u16, dd2);
}

/// Muting or unmuting a channel sends the four NRPN control changes on the first MIDI channel
/// for the channel's on switch, parameter 0x05B6 plus the channel's index, split into its high
/// and low seven bits; the value is all ones (0x7F, 0x7F: switched on) to unmute and zero
/// (switched off) to mute. So the messages for a mute and for an unmute always differ.
pub proof fn lemma_mute_messages(c: u8, mute: bool)
    ensures
        ({
            let p: int = 0x05b6 + c;
            let v: u8 = if mute {
                0u8
            } else {
                0x7fu8
            };
            spec_yamaha_send(SpecBoardEdit::ChannelMute(c, mute)) == Ok::<Seq<Seq<u8>>, SendError>(
                seq![
                    seq![0xb0u8, 0x63u8, (p / 128) as u8],
                    seq![0xb0u8, 0x62u8, (p % 128) as u8],
                    seq![0xb0u8, 0x06u8, v],
                    seq![0xb0u8, 0x26u8, v],
                ],
            )
        }),
        spec_yamaha_send(SpecBoardEdit::ChannelMute(c, true)) != spec_yamaha_send(
            SpecBoardEdit::ChannelMute(c, false),
        ),
{
    let q: u16 = (0x05b6 + c) as u16;
    assert(q < 0x4000);
    assert((q >> 7u16) & 0x7fu16 == q / 128 && q & 0x7fu16 == q % 128) by (bit_vector)
        requires
            q < 0x4000,
    ;
    assert((0xffffu16 >> 7u16) & 0x7fu16 == 0x7fu16 && 0xffffu16 & 0x7fu16 == 0x7fu16)
        by (bit_vector);
    assert((0u16 >> 7u16) & 0x7fu16 == 0u16 && 0u16 & 0x7fu16 == 0u16) by (bit_vector);
    let on_msgs = spec_send_ch_on(c, true);
    let off_msgs = spec_send_ch_on(c, false);
    assert(on_msgs[2][2] == 0x7fu8);
    assert(off_msgs[2][2] == 0u8);
    assert(on_msgs != off_msgs);
}

/// The two messages of a name: the one with parameter index 0 (bytes 8 and 9 of the message are
/// 0, 0) carries the first four bytes of the name, the one with index 1 (0, 1) carries bytes four
/// to eight, each zero past the end of the name.
pub proof fn lemma_name_message_halves(elem: u16, t: u8, b: Seq<u8>)
    ensures
        ({
            let ms = spec_name_messages(elem, t, b);
            &&& ms.len() == 2
            &&& ms[0].len() == 18 && ms[1].len() == 18
            &&& ms[0][8] == 0u8 && ms[0][9] == 0u8
            &&& ms[1][8] == 0u8 && ms[1][9] == 1u8
            &&& spec_unpack_name(ms[0].subrange(12, 17)) == seq![
                name_byte(b, 0),
                name_byte(b, 1),
                name_byte(b, 2),
                name_byte(b, 3),
            ]
            &&& spec_unpack_name(ms[1].subrange(12, 17)) == seq![
                name_byte(b, 4),
                name_byte(b, 5),
                name_byte(b, 6),
                name_byte(b, 7),
            ]
        }),
{
    let ms = spec_name_messages(elem, t, b);
    assert((0u16 >> 8u16) as u8 == 0u8 && 0u16 as u8 == 0u8) by (bit_vector);
    assert((1u16 >> 8u16) as u8 == 0u8 && 1u16 as u8 == 1u8) by (bit_vector);
    let first = seq![0u8, name_byte(b, 0), name_byte(b, 1), name_byte(b, 2), name_byte(b, 3)];
    let second = seq![0u8, name_byte(b, 4), name_byte(b, 5), name_byte(b, 6), name_byte(b, 7)];
    lemma_unpack_pack_name(name_byte(b, 0), name_byte(b, 1), name_byte(b, 2), name_byte(b, 3));
    lemma_unpack_pack_name(name_byte(b, 4), name_byte(b, 5), name_byte(b, 6), name_byte(b, 7));
    assert(ms[0].subrange(12, 17) =~= spec_pack(first));
    assert(ms[1].subrange(12, 17) =~= spec_pack(second));
}

/// A DCA name that the desk sends in two parameter changes, index 0 with the first four bytes
/// and index 1 with the next four, is read as those eight bytes in that order, in whichever order
/// the two messages arrive; bytes that are no UTF-8 give no name.
pub proof fn lemma_desk_name_in_order(d: u8, h1: Seq<u8>, h2: Seq<u8>)
    requires
        h1.len() == 4,
        h2.len() == 4,
    ensures
        ({
            let first = spec_prm_sysex(ELEM_DCA_NAME, 0, d as u16, seq![0u8] + h1);
            let second = spec_prm_sysex(ELEM_DCA_NAME, 1, d as u16, seq![0u8] + h2);
            let expected = if valid_utf8(h1 + h2) {
                Some(seq![SpecBoardEdit::DcaName(d, decode_utf8(h1 + h2))])
            } else {
                None
            };
            &&& spec_yamaha_recv((None, None), first).1 is None
            &&& spec_yamaha_recv(spec_yamaha_recv((None, None), first).0, second).1 == expected
            &&& spec_yamaha_recv((None, None), second).1 is None
            &&& spec_yamaha_recv(spec_yamaha_recv((None, None), second).0, first).1 == expected
        }),
{
    let dd_a = seq![0u8] + h1;
    let dd_b = seq![0u8] + h2;
    assert(dd_a =~= seq![0u8, h1[0], h1[1], h1[2], h1[3]]);
    assert(dd_b =~= seq![0u8, h2[0], h2[1], h2[2], h2[3]]);
    lemma_prm_sysex_read_back(ELEM_DCA_NAME, 0, d as u16, dd_a);
    lemma_prm_sysex_read_back(ELEM_DCA_NAME, 1, d as u16, dd_b);
    lemma_unpack_pack_name(h1[0], h1[1], h1[2], h1[3]);
    lemma_unpack_pack_name(h2[0], h2[1], h2[2], h2[3]);
    assert(seq![h1[0], h1[1], h1[2], h1[3]] =~= h1);
    assert(seq![h2[0], h2[1], h2[2], h2[3]] =~= h2);
    assert((d as u16) as u8 == d);
}

} // verus!
