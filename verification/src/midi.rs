//! MIDI messages used to talk to the desks: the four NRPN control changes and system exclusive
//! messages.
use vstd::prelude::*;

verus! {

/// A MIDI data byte: a `u8` whose top bit is always zero.
#[derive(Clone, Copy, Debug, PartialEq, Eq)]
pub struct U7(u8);

impl U7 {
    #[verifier::type_invariant]
    spec fn top_bit_clear(self) -> bool {
        self.0 < 0x80
    }

    /// Keeps the low seven bits of `input`.
    pub fn from_u8(input: u8) -> (r: Self)
        ensures
            r@ == input & 0x7f,
            r@ < 0x80,
    {
        let v: u8 = input & 0x7f;
        assert(input & 0x7f < 0x80) by (bit_vector);
        U7(v)
    }

    /// The byte held, whose top bit is zero.
    pub fn into_u8(self) -> (r: u8)
        ensures
            r == self@,
            r < 0x80,
    {
        proof {
            use_type_invariant(&self);
        }
        self.0
    }
}

impl View for U7 {
    type V = u8;

    closed spec fn view(&self) -> u8 {
        self.0
    }
}

impl From<U7> for u8 {
    fn from(value: U7) -> (r: u8) {
        value.into_u8()
    }
}

impl vstd::std_specs::convert::FromSpecImpl<U7> for u8 {
    open spec fn obeys_from_spec() -> bool {
        true
    }

    open spec fn from_spec(v: U7) -> u8 {
        v@
    }
}

impl From<u8> for U7 {
    fn from(value: u8) -> (r: U7) {
        U7::from_u8(value)
    }
}

impl vstd::std_specs::convert::FromSpecImpl<u8> for U7 {
    open spec fn obeys_from_spec() -> bool {
        true
    }

    closed spec fn from_spec(v: u8) -> U7 {
        U7(v & 0x7f)
    }
}

/// One of the sixteen MIDI channels.
#[derive(Clone, Copy, Debug, PartialEq, Eq, Structural)]
pub enum MidiChannel {
    Channel1,
    Channel2,
    Channel3,
    Channel4,
    Channel5,
    Channel6,
    Channel7,
    Channel8,
    Channel9,
    Channel10,
    Channel11,
    Channel12,
    Channel13,
    Channel14,
    Channel15,
    Channel16,
}

impl MidiChannel {
    /// The zero-based number of the channel as it appears in a status byte.
    pub open spec fn spec_index(self) -> u8 {
        match self {
            MidiChannel::Channel1 => 0,
            MidiChannel::Channel2 => 1,
            MidiChannel::Channel3 => 2,
            MidiChannel::Channel4 => 3,
            MidiChannel::Channel5 => 4,
            MidiChannel::Channel6 => 5,
            MidiChannel::Channel7 => 6,
            MidiChannel::Channel8 => 7,
            MidiChannel::Channel9 => 8,
            MidiChannel::Channel10 => 9,
            MidiChannel::Channel11 => 10,
            MidiChannel::Channel12 => 11,
            MidiChannel::Channel13 => 12,
            MidiChannel::Channel14 => 13,
            MidiChannel::Channel15 => 14,
            MidiChannel::Channel16 => 15,
        }
    }

    /// The channel with the given zero-based number; every number from 15 up gives channel 16.
    pub open spec fn spec_from_u8(value: u8) -> MidiChannel {
        if value == 0 {
            MidiChannel::Channel1
        } else if value == 1 {
            MidiChannel::Channel2
        } else if value == 2 {
            MidiChannel::Channel3
        } else if value == 3 {
            MidiChannel::Channel4
        } else if value == 4 {
            MidiChannel::Channel5
        } else if value == 5 {
            MidiChannel::Channel6
        } else if value == 6 {
            MidiChannel::Channel7
        } else if value == 7 {
            MidiChannel::Channel8
        } else if value == 8 {
            MidiChannel::Channel9
        } else if value == 9 {
            MidiChannel::Channel10
        } else if value == 10 {
            MidiChannel::Channel11
        } else if value == 11 {
            MidiChannel::Channel12
        } else if value == 12 {
            MidiChannel::Channel13
        } else if value == 13 {
            MidiChannel::Channel14
        } else if value == 14 {
            MidiChannel::Channel15
        } else {
            MidiChannel::Channel16
        }
    }

    /// The zero-based number of the channel.
    pub fn index(&self) -> (r: u8)
        ensures
            r == self.spec_index(),
            r < 16,
    {
        match self {
            MidiChannel::Channel1 => 0,
            MidiChannel::Channel2 => 1,
            MidiChannel::Channel3 => 2,
            MidiChannel::Channel4 => 3,
            MidiChannel::Channel5 => 4,
            MidiChannel::Channel6 => 5,
            MidiChannel::Channel7 => 6,
            MidiChannel::Channel8 => 7,
            MidiChannel::Channel9 => 8,
            MidiChannel::Channel10 => 9,
            MidiChannel::Channel11 => 10,
            MidiChannel::Channel12 => 11,
            MidiChannel::Channel13 => 12,
            MidiChannel::Channel14 => 13,
            MidiChannel::Channel15 => 14,
            MidiChannel::Channel16 => 15,
        }
    }
}

impl From<u8> for MidiChannel {
    fn from(value: u8) -> (r: MidiChannel) {
        if value == 0 {
            MidiChannel::Channel1
        } else if value == 1 {
            MidiChannel::Channel2
        } else if value == 2 {
            MidiChannel::Channel3
        } else if value == 3 {
            MidiChannel::Channel4
        } else if value == 4 {
            MidiChannel::Channel5
        } else if value == 5 {
            MidiChannel::Channel6
        } else if value == 6 {
            MidiChannel::Channel7
        } else if value == 7 {
            MidiChannel::Channel8
        } else if value == 8 {
            MidiChannel::Channel9
        } else if value == 9 {
            MidiChannel::Channel10
        } else if value == 10 {
            MidiChannel::Channel11
        } else if value == 11 {
            MidiChannel::Channel12
        } else if value == 12 {
            MidiChannel::Channel13
        } else if value == 13 {
            MidiChannel::Channel14
        } else if value == 14 {
            MidiChannel::Channel15
        } else {
            MidiChannel::Channel16
        }
    }
}

impl vstd::std_specs::convert::FromSpecImpl<u8> for MidiChannel {
    open spec fn obeys_from_spec() -> bool {
        true
    }

    open spec fn from_spec(v: u8) -> MidiChannel {
        MidiChannel::spec_from_u8(v)
    }
}

/// The subset of MIDI messages that is useful for talking to the desks.
#[derive(Clone, Debug, PartialEq)]
pub enum MidiMessage {
    NrpnParameterMSB(U7),
    NrpnParameterLSB(U7),
    NrpnDataMSB(U7),
    NrpnDataLSB(U7),
    /// The data, without the leading 0xF0 and the trailing 0xF7.
    Sysex(Vec<u8>),
}

/// The mathematical value of a `MidiMessage`.
pub enum SpecMidiMessage {
    NrpnParameterMSB(u8),
    NrpnParameterLSB(u8),
    NrpnDataMSB(u8),
    NrpnDataLSB(u8),
    Sysex(Seq<u8>),
}

impl View for MidiMessage {
    type V = SpecMidiMessage;

    open spec fn view(&self) -> SpecMidiMessage {
        match self {
            MidiMessage::NrpnParameterMSB(v) => SpecMidiMessage::NrpnParameterMSB(v@),
            MidiMessage::NrpnParameterLSB(v) => SpecMidiMessage::NrpnParameterLSB(v@),
            MidiMessage::NrpnDataMSB(v) => SpecMidiMessage::NrpnDataMSB(v@),
            MidiMessage::NrpnDataLSB(v) => SpecMidiMessage::NrpnDataLSB(v@),
            MidiMessage::Sysex(d) => SpecMidiMessage::Sysex(d@),
        }
    }
}

/// Controller number of "NRPN parameter MSB".
pub const NRPN_PARAM_MSB: u8 = 0x63;

/// Controller number of "NRPN parameter LSB".
pub const NRPN_PARAM_LSB: u8 = 0x62;

/// Controller number of "data entry MSB".
pub const NRPN_DATA_MSB: u8 = 0x06;

/// Controller number of "data entry LSB".
pub const NRPN_DATA_LSB: u8 = 0x26;

impl SpecMidiMessage {
    /// Every data byte of an NRPN message fits in seven bits.
    pub open spec fn valid(self) -> bool {
        match self {
            SpecMidiMessage::NrpnParameterMSB(v) => v < 0x80,
            SpecMidiMessage::NrpnParameterLSB(v) => v < 0x80,
            SpecMidiMessage::NrpnDataMSB(v) => v < 0x80,
            SpecMidiMessage::NrpnDataLSB(v) => v < 0x80,
            SpecMidiMessage::Sysex(_) => true,
        }
    }
}

/// Status byte of a control change on the given channel.
pub open spec fn control_change_status(channel: MidiChannel) -> u8 {
    (0xb0u8 | channel.spec_index()) as u8
}

/// The bytes sent on the wire for `m`; NRPN control changes go on `channel`.
pub open spec fn spec_to_bytes(m: SpecMidiMessage, channel: MidiChannel) -> Seq<u8> {
    match m {
        SpecMidiMessage::NrpnParameterMSB(v) => seq![
            control_change_status(channel),
            NRPN_PARAM_MSB,
            v,
        ],
        SpecMidiMessage::NrpnParameterLSB(v) => seq![
            control_change_status(channel),
            NRPN_PARAM_LSB,
            v,
        ],
        SpecMidiMessage::NrpnDataMSB(v) => seq![control_change_status(channel), NRPN_DATA_MSB, v],
        SpecMidiMessage::NrpnDataLSB(v) => seq![control_change_status(channel), NRPN_DATA_LSB, v],
        SpecMidiMessage::Sysex(d) => seq![0xf0u8] + d + seq![0xf7u8],
    }
}

/// What `from_bytes` makes of `b`: a system exclusive message framed by 0xF0 and 0xF7, or one
/// of the four NRPN control changes with its channel; anything else is not understood.
pub open spec fn spec_from_bytes(b: Seq<u8>) -> Option<(Option<MidiChannel>, SpecMidiMessage)> {
    if b.len() == 0 {
        None
    } else if b[0] == 0xf0u8 {
        if b[b.len() - 1] == 0xf7u8 {
            Some((None, SpecMidiMessage::Sysex(b.subrange(1, b.len() - 1))))
        } else {
            None
        }
    } else if b[0] & 0xf0u8 == 0xb0u8 && b.len() >= 3 {
        let channel = Some(MidiChannel::spec_from_u8(b[0] & 0x0fu8));
        let v = b[2] & 0x7fu8;
        if b[1] == NRPN_PARAM_MSB {
            Some((channel, SpecMidiMessage::NrpnParameterMSB(v)))
        } else if b[1] == NRPN_PARAM_LSB {
            Some((channel, SpecMidiMessage::NrpnParameterLSB(v)))
        } else if b[1] == NRPN_DATA_MSB {
            Some((channel, SpecMidiMessage::NrpnDataMSB(v)))
        } else if b[1] == NRPN_DATA_LSB {
            Some((channel, SpecMidiMessage::NrpnDataLSB(v)))
        } else {
            None
        }
    } else {
        None
    }
}

impl MidiMessage {
    /// The message as bytes on the wire. NRPN control changes are sent on `channel`.
    pub fn to_bytes(self, channel: MidiChannel) -> (r: Vec<u8>)
        ensures
            r@ == spec_to_bytes(self@, channel),
            spec_from_bytes(r@) == Some(
                (if self is Sysex { None::<MidiChannel> } else { Some(channel) }, self@),
            ),
    {
        let ch = channel.index();
        let status: u8 = 0b1011_0000 | ch;
        let r = match self {
            MidiMessage::NrpnParameterMSB(v) => vec![status, NRPN_PARAM_MSB, v.into_u8()],
            MidiMessage::NrpnParameterLSB(v) => vec![status, NRPN_PARAM_LSB, v.into_u8()],
            MidiMessage::NrpnDataMSB(v) => vec![status, NRPN_DATA_MSB, v.into_u8()],
            MidiMessage::NrpnDataLSB(v) => vec![status, NRPN_DATA_LSB, v.into_u8()],
            MidiMessage::Sysex(data) => {
                let mut data = data;
                data.insert(0, 0xf0);
                data.push(0xf7);
                data
            },
        };
        proof {
            let m = self@;
            assert(m.valid());
            assert(r@ =~= spec_to_bytes(m, channel));
            lemma_from_bytes_to_bytes(m, channel);
        }
        r
    }

    /// Reads one message. Gives the channel of a control change, `None` as the channel of a
    /// system exclusive message, and `None` for anything that is not understood.
    pub fn from_bytes(bytes: &[u8]) -> (r: Option<(Option<MidiChannel>, MidiMessage)>)
        ensures
            match r {
                Some((ch, m)) => spec_from_bytes(bytes@) == Some((ch, m@)),
                None => spec_from_bytes(bytes@) is None,
            },
    {
        let len = bytes.len();
        if len == 0 {
            return None;
        }
        let first = bytes[0];
        if first == 0xf0 {
            if bytes[len - 1] != 0xf7 {
                return None;
            }
            let mut data: Vec<u8> = Vec::new();
            let mut i: usize = 1;
            while i < len - 1
                invariant
                    1 <= i <= len - 1,
                    len == bytes@.len(),
                    data@ =~= bytes@.subrange(1, i as int),
                decreases len - 1 - i,
            {
                data.push(bytes[i]);
                i = i + 1;
            }
            return Some((None, MidiMessage::Sysex(data)));
        }
        if first & 0xf0 != 0xb0 || len < 3 {
            return None;
        }
        let ch: MidiChannel = MidiChannel::from(first & 0x0f);
        let v = U7::from_u8(bytes[2]);
        let controller = bytes[1];
        if controller == NRPN_PARAM_MSB {
            Some((Some(ch), MidiMessage::NrpnParameterMSB(v)))
        } else if controller == NRPN_PARAM_LSB {
            Some((Some(ch), MidiMessage::NrpnParameterLSB(v)))
        } else if controller == NRPN_DATA_MSB {
            Some((Some(ch), MidiMessage::NrpnDataMSB(v)))
        } else if controller == NRPN_DATA_LSB {
            Some((Some(ch), MidiMessage::NrpnDataLSB(v)))
        } else {
            None
        }
    }
}

proof fn lemma_status_byte(c: u8)
    requires
        c < 16,
    ensures
        (0xb0u8 | c) & 0xf0u8 == 0xb0u8,
        (0xb0u8 | c) & 0x0fu8 == c,
        (0xb0u8 | c) != 0xf0u8,
{
    assert((0xb0u8 | c) & 0xf0u8 == 0xb0u8 && (0xb0u8 | c) & 0x0fu8 == c && (0xb0u8 | c)
        != 0xf0u8) by (bit_vector)
        requires
            c < 16,
    ;
}

/// Reading back the bytes of a message gives the message again, together with the channel it
/// was sent on (no channel for system exclusive).
pub proof fn lemma_from_bytes_to_bytes(m: SpecMidiMessage, channel: MidiChannel)
    requires
        m.valid(),
    ensures
        spec_from_bytes(spec_to_bytes(m, channel)) == Some(
            (if m is Sysex { None::<MidiChannel> } else { Some(channel) }, m),
        ),
{
    let c = channel.spec_index();
    lemma_status_byte(c);
    assert(MidiChannel::spec_from_u8(c) == channel);
    let b = spec_to_bytes(m, channel);
    match m {
        SpecMidiMessage::Sysex(d) => {
            assert(b.subrange(1, b.len() - 1) =~= d);
        },
        SpecMidiMessage::NrpnParameterMSB(v) => {
            assert(v & 0x7fu8 == v) by (bit_vector)
                requires
                    v < 0x80u8,
            ;
        },
        SpecMidiMessage::NrpnParameterLSB(v) => {
            assert(v & 0x7fu8 == v) by (bit_vector)
                requires
                    v < 0x80u8,
            ;
        },
        SpecMidiMessage::NrpnDataMSB(v) => {
            assert(v & 0x7fu8 == v) by (bit_vector)
                requires
                    v < 0x80u8,
            ;
        },
        SpecMidiMessage::NrpnDataLSB(v) => {
            assert(v & 0x7fu8 == v) by (bit_vector)
                requires
                    v < 0x80u8,
            ;
        },
    }
}

} // verus!
