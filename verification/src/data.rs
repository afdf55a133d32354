//! Types that describe things common to all boards: channels, DCAs and edits to a board.
use vstd::prelude::*;

verus! {

/// A single channel-like object of a board (a channel, a bus, a DCA and the like).
pub trait ChannelLike {}

/// A channel-like object that can be assigned to a DCA.
pub trait DcaAssignable: ChannelLike {}

/// A channel of the board, known by its zero-based index (channel 1 has index 0).
#[derive(Clone, Copy, PartialEq, Eq, Structural, PartialOrd, Ord, Hash, Debug)]
pub struct Channel {
    index: u8,
}

impl View for Channel {
    type V = u8;

    /// The zero-based index of the channel.
    closed spec fn view(&self) -> u8 {
        self.index
    }
}

impl Channel {
    /// The channel with the given zero-based index (`ind` = 0 is channel 1).
    pub fn from_index(ind: u8) -> (r: Channel)
        ensures
            r@ == ind,
    {
        Channel { index: ind }
    }

    /// The channel with the given number (`num` = 1 is channel 1); `None` when `num` is zero.
    pub fn from_number(num: u8) -> (r: Option<Channel>)
        ensures
            num == 0 ==> r is None,
            num != 0 ==> (r matches Some(c) && c@ == num - 1),
    {
        if num == 0 {
            None
        } else {
            Some(Channel { index: num - 1 })
        }
    }

    /// The zero-based index of the channel (channel 1 gives 0).
    pub fn index(&self) -> (r: u8)
        ensures
            r == self@,
    {
        self.index
    }

    /// The number of the channel (channel 1 gives 1).
    pub fn number(&self) -> (r: u8)
        requires
            self@ < 255,
        ensures
            r == self@ + 1,
    {
        self.index + 1
    }

    /// Two channels are equal exactly when their indices are.
    pub broadcast proof fn lemma_view_injective(a: Channel, b: Channel)
        ensures
            #![trigger a@, b@]
            a@ == b@ <==> a == b,
    {
    }
}

/// A DCA of the board, known by its zero-based index (DCA 1 has index 0).
#[derive(Clone, Copy, PartialEq, Eq, Structural, PartialOrd, Ord, Hash, Debug)]
pub struct Dca {
    index: u8,
}

impl View for Dca {
    type V = u8;

    /// The zero-based index of the DCA.
    closed spec fn view(&self) -> u8 {
        self.index
    }
}

impl Dca {
    /// The DCA with the given zero-based index (`ind` = 0 is DCA 1).
    pub fn from_index(ind: u8) -> (r: Dca)
        ensures
            r@ == ind,
    {
        Dca { index: ind }
    }

    /// The DCA with the given number (`num` = 1 is DCA 1); `None` when `num` is zero.
    pub fn from_number(num: u8) -> (r: Option<Dca>)
        ensures
            num == 0 ==> r is None,
            num != 0 ==> (r matches Some(d) && d@ == num - 1),
    {
        if num == 0 {
            None
        } else {
            Some(Dca { index: num - 1 })
        }
    }

    /// The zero-based index of the DCA (DCA 1 gives 0).
    pub fn index(&self) -> (r: u8)
        ensures
            r == self@,
    {
        self.index
    }

    /// The number of the DCA (DCA 1 gives 1).
    pub fn number(&self) -> (r: u8)
        requires
            self@ < 255,
        ensures
            r == self@ + 1,
    {
        self.index + 1
    }

    /// Two DCAs are equal exactly when their indices are.
    pub broadcast proof fn lemma_view_injective(a: Dca, b: Dca)
        ensures
            #![trigger a@, b@]
            a@ == b@ <==> a == b,
    {
    }
}

/// A fader level in decibels, held as the bit pattern of the IEEE 754 single-precision number,
/// which is carried to the board unchanged.
#[derive(Clone, Copy, PartialEq, Eq, Structural, Debug)]
pub struct Decibels {
    bits: u32,
}

impl View for Decibels {
    type V = u32;

    /// The bit pattern of the level.
    closed spec fn view(&self) -> u32 {
        self.bits
    }
}

impl Decibels {
    /// The level whose single-precision bit pattern is `bits`.
    pub fn from_bits(bits: u32) -> (r: Decibels)
        ensures
            r@ == bits,
    {
        Decibels { bits }
    }

    /// The single-precision bit pattern of the level.
    pub fn to_bits(&self) -> (r: u32)
        ensures
            r == self@,
    {
        self.bits
    }
}

/// Every supported edit to a board.
#[derive(Clone, Debug, PartialEq)]
pub enum BoardEdit {
    /// A channel's mute. If true, the channel is now muted.
    ChannelMute(Channel, bool),
    /// A channel's DCA assignment. If true, the channel is now assigned to the DCA.
    ChannelDcaAssign(Channel, Dca, bool),
    /// A channel's name, now set to the given value.
    ChannelName(Channel, String),
    /// A DCA's level, now set to the given value.
    DcaLevel(Dca, Decibels),
    /// A DCA's name, now set to the given value.
    DcaName(Dca, String),
}

/// The mathematical value of a `BoardEdit`: channels and DCAs by index, names as characters and
/// levels as bit patterns.
pub enum SpecBoardEdit {
    ChannelMute(u8, bool),
    ChannelDcaAssign(u8, u8, bool),
    ChannelName(u8, Seq<char>),
    DcaLevel(u8, u32),
    DcaName(u8, Seq<char>),
}

impl View for BoardEdit {
    type V = SpecBoardEdit;

    open spec fn view(&self) -> SpecBoardEdit {
        match self {
            BoardEdit::ChannelMute(c, m) => SpecBoardEdit::ChannelMute(c@, *m),
            BoardEdit::ChannelDcaAssign(c, d, a) => SpecBoardEdit::ChannelDcaAssign(c@, d@, *a),
            BoardEdit::ChannelName(c, n) => SpecBoardEdit::ChannelName(c@, n@),
            BoardEdit::DcaLevel(d, l) => SpecBoardEdit::DcaLevel(d@, l@),
            BoardEdit::DcaName(d, n) => SpecBoardEdit::DcaName(d@, n@),
        }
    }
}

/// The values of a sequence of edits.
pub open spec fn edits_view(edits: Seq<BoardEdit>) -> Seq<SpecBoardEdit> {
    edits.map_values(|e: BoardEdit| e@)
}

impl BoardEdit {
    /// A copy of the edit.
    pub fn duplicate(&self) -> (r: BoardEdit)
        ensures
            r@ == self@,
    {
        match self {
            BoardEdit::ChannelMute(c, m) => BoardEdit::ChannelMute(*c, *m),
            BoardEdit::ChannelDcaAssign(c, d, a) => BoardEdit::ChannelDcaAssign(*c, *d, *a),
            BoardEdit::ChannelName(c, n) => BoardEdit::ChannelName(*c, n.clone()),
            BoardEdit::DcaLevel(d, l) => BoardEdit::DcaLevel(*d, *l),
            BoardEdit::DcaName(d, n) => BoardEdit::DcaName(*d, n.clone()),
        }
    }
}

} // verus!
