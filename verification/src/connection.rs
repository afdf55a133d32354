//! The boards the show can be connected to, and the logic of a connection over MIDI: what it
//! learns from the board's messages and which messages it sends to fire a cue or the channel
//! names.
use crate::adaptor::{messages_view, BoardEditAdaptor};
use crate::cache::{apply_all, level_edits, spec_cue_diff, BoardStateCache, SpecBoardState};
use crate::cache_laws::{lemma_refire_sends_only_levels, level_count};
use crate::cues::SpecCue;
use crate::cues::{ChannelNames, Cue};
use crate::data::{edits_view, BoardEdit, Channel, SpecBoardEdit};
use crate::text::{append_decimal, chars_of, decimal, parse_usize, spec_parse_usize};
use vstd::prelude::*;

verus! {

/// How std reads a `u8` from text: an optional leading `+`, then at least one digit and
/// nothing else, and a value of at most 255.
pub open spec fn spec_parse_u8(s: Seq<char>) -> Option<u8> {
    match spec_parse_usize(s) {
        Some(v) => if v <= 255 { Some(v as u8) } else { None },
        None => None,
    }
}

/// Reads a `u8` from text the way std's `str::parse` does.
pub fn parse_u8(s: &str) -> (r: Option<u8>)
    ensures
        r == spec_parse_u8(s@),
{
    let chars = chars_of(s);
    match parse_usize(chars.as_slice()) {
        Some(v) => if v <= 255 { Some(v as u8) } else { None },
        None => None,
    }
}

/// A count typed in a text field, and the text, after the text was edited: a number above zero
/// is taken, zero becomes one (and the text "1"), and text that is no number is replaced by the
/// count.
pub open spec fn typed_count(count: u8, text: Seq<char>) -> (u8, Seq<char>) {
    match spec_parse_u8(text) {
        Some(v) => if v > 0 { (v, text) } else { (1u8, seq!['1']) },
        None => (count, decimal(count as nat)),
    }
}

/// Applies an edit of the text field of a count, as `typed_count` says.
fn update_typed_count(count: &mut u8, text: &mut String)
    ensures
        (*final(count), final(text)@) == typed_count(*old(count), old(text)@),
{
    match parse_u8(text.as_str()) {
        Some(v) => {
            if v > 0 {
                *count = v;
            } else {
                *count = 1;
                let mut one = String::new();
                append_decimal(&mut one, 1);
                proof {
                    assert(decimal(1) =~= seq!['1']) by {
                        reveal_with_fuel(decimal, 2);
                    }
                    assert(one@ =~= seq!['1']);
                }
                *text = one;
            }
        },
        None => {
            let mut s = String::new();
            append_decimal(&mut s, *count as usize);
            proof {
                assert(s@ =~= decimal(*count as nat));
            }
            *text = s;
        },
    }
}

/// The boards that can be chosen; each stands for one kind of connection.
#[derive(Clone, Copy, Debug, PartialEq, Eq, Structural)]
pub enum Connections {
    /// No board: for trying the show out.
    NoConnection,
    /// A Yamaha M7CL over MIDI.
    YamahaM7CLMidi,
}

impl Default for Connections {
    /// No board.
    fn default() -> (r: Connections)
        ensures
            r == Connections::NoConnection,
    {
        Connections::NoConnection
    }
}

/// The connection to no board, with a number of DCAs and channels that can be set by hand.
pub struct NoConnection {
    num_dcas: u8,
    num_channels: u8,
    num_dcas_ui: String,
    num_channels_ui: String,
}

impl NoConnection {
    /// Eight DCAs and twenty channels.
    pub fn new() -> (r: NoConnection)
        ensures
            r.spec_num_dcas() == 8,
            r.spec_num_channels() == 20,
            r.spec_num_dcas_text() == seq!['8'],
            r.spec_num_channels_text() == seq!['2', '0'],
    {
        let mut dcas_ui = String::new();
        append_decimal(&mut dcas_ui, 8);
        let mut channels_ui = String::new();
        append_decimal(&mut channels_ui, 20);
        proof {
            reveal_with_fuel(decimal, 3);
            assert(dcas_ui@ =~= seq!['8']);
            assert(channels_ui@ =~= seq!['2', '0']);
        }
        NoConnection {
            num_dcas: 8,
            num_channels: 20,
            num_dcas_ui: dcas_ui,
            num_channels_ui: channels_ui,
        }
    }

    /// The number of DCAs.
    pub closed spec fn spec_num_dcas(&self) -> u8 {
        self.num_dcas
    }

    /// The number of channels.
    pub closed spec fn spec_num_channels(&self) -> u8 {
        self.num_channels
    }

    /// The text of the field for the number of DCAs.
    pub closed spec fn spec_num_dcas_text(&self) -> Seq<char> {
        self.num_dcas_ui@
    }

    /// The text of the field for the number of channels.
    pub closed spec fn spec_num_channels_text(&self) -> Seq<char> {
        self.num_channels_ui@
    }

    /// The number of DCAs.
    pub fn num_dcas(&self) -> (r: u8)
        ensures
            r == self.spec_num_dcas(),
    {
        self.num_dcas
    }

    /// The number of channels.
    pub fn num_channels(&self) -> (r: u8)
        ensures
            r == self.spec_num_channels(),
    {
        self.num_channels
    }

    /// Mutable access to the text of the field for the number of DCAs.
    pub fn num_dcas_ui_mut(&mut self) -> (r: &mut String)
        ensures
            r@ == old(self).spec_num_dcas_text(),
            final(self).spec_num_dcas_text() == final(r)@,
            final(self).spec_num_dcas() == old(self).spec_num_dcas(),
            final(self).spec_num_channels() == old(self).spec_num_channels(),
            final(self).spec_num_channels_text() == old(self).spec_num_channels_text(),
    {
        &mut self.num_dcas_ui
    }

    /// Mutable access to the text of the field for the number of channels.
    pub fn num_channels_ui_mut(&mut self) -> (r: &mut String)
        ensures
            r@ == old(self).spec_num_channels_text(),
            final(self).spec_num_channels_text() == final(r)@,
            final(self).spec_num_dcas() == old(self).spec_num_dcas(),
            final(self).spec_num_channels() == old(self).spec_num_channels(),
            final(self).spec_num_dcas_text() == old(self).spec_num_dcas_text(),
    {
        &mut self.num_channels_ui
    }

    /// Takes the number of DCAs from its text field after an edit.
    pub fn num_dcas_ui_changed(&mut self)
        ensures
            (final(self).spec_num_dcas(), final(self).spec_num_dcas_text()) == typed_count(
                old(self).spec_num_dcas(),
                old(self).spec_num_dcas_text(),
            ),
            final(self).spec_num_channels() == old(self).spec_num_channels(),
            final(self).spec_num_channels_text() == old(self).spec_num_channels_text(),
    {
        update_typed_count(&mut self.num_dcas, &mut self.num_dcas_ui);
    }

    /// Takes the number of channels from its text field after an edit.
    pub fn num_channels_ui_changed(&mut self)
        ensures
            (final(self).spec_num_channels(), final(self).spec_num_channels_text()) == typed_count(
                old(self).spec_num_channels(),
                old(self).spec_num_channels_text(),
            ),
            final(self).spec_num_dcas() == old(self).spec_num_dcas(),
            final(self).spec_num_dcas_text() == old(self).spec_num_dcas_text(),
    {
        update_typed_count(&mut self.num_channels, &mut self.num_channels_ui);
    }
}

/// The number of channels a new MIDI connection controls.
pub const DEFAULT_NUM_CH_CONTROL: u8 = 32;

/// The number of DCAs a new MIDI connection controls.
pub const DEFAULT_NUM_DCA_CONTROL: u8 = 32;

/// The messages sent for the edits, in order: for each edit, the adaptor's messages for it, or
/// none where the adaptor has none.
pub open spec fn sent_messages<A: BoardEditAdaptor>(edits: Seq<SpecBoardEdit>) -> Seq<
    <A::Message as View>::V,
>
    decreases edits.len(),
{
    if edits.len() == 0 {
        Seq::empty()
    } else {
        sent_messages::<A>(edits.drop_last()) + match A::spec_send(edits.last()) {
            Ok(ms) => ms,
            Err(_) => Seq::empty(),
        }
    }
}

/// The edits that set the names of the channels, one per (index, name) pair.
pub open spec fn channel_name_edits(names: Seq<(u8, Seq<char>)>) -> Seq<SpecBoardEdit> {
    names.map_values(|p: (u8, Seq<char>)| SpecBoardEdit::ChannelName(p.0, p.1))
}

/// The logic of a connection to a board over MIDI: the adaptor for the board's messages, what
/// is known of the board's state, and how much of the board is controlled.
pub struct GenericGenericMidi<A: BoardEditAdaptor> {
    adaptor: A,
    board_state_cache: BoardStateCache,
    /// Only the first this many channels are touched.
    num_channels_controlled: u8,
    /// Only the first this many DCAs are touched.
    num_dcas_controlled: u8,
    /// A message shown to the user with advice for the particular board.
    custom_message: String,
}

impl<A: BoardEditAdaptor> GenericGenericMidi<A> {
    /// What the adaptor remembers.
    pub closed spec fn adaptor_state(&self) -> A::V {
        self.adaptor@
    }

    /// What is known of the board's state.
    pub closed spec fn known_state(&self) -> SpecBoardState {
        self.board_state_cache@
    }

    /// The number of channels controlled.
    pub closed spec fn spec_num_channels(&self) -> u8 {
        self.num_channels_controlled
    }

    /// The number of DCAs controlled.
    pub closed spec fn spec_num_dcas(&self) -> u8 {
        self.num_dcas_controlled
    }

    /// The message shown to the user.
    pub closed spec fn spec_custom_message(&self) -> Seq<char> {
        self.custom_message@
    }

    /// A connection through the adaptor that knows nothing of the board yet and controls the
    /// default numbers of channels and DCAs.
    pub fn new(adaptor: A, custom_message: String) -> (r: Self)
        ensures
            r.adaptor_state() == adaptor@,
            r.known_state() == (SpecBoardState {
                mutes: Map::empty(),
                assignments: Map::empty(),
                names: Map::empty(),
            }),
            r.spec_num_channels() == DEFAULT_NUM_CH_CONTROL,
            r.spec_num_dcas() == DEFAULT_NUM_DCA_CONTROL,
            r.spec_custom_message() == custom_message@,
    {
        let r = GenericGenericMidi {
            adaptor,
            board_state_cache: BoardStateCache::default(),
            num_channels_controlled: DEFAULT_NUM_CH_CONTROL,
            num_dcas_controlled: DEFAULT_NUM_DCA_CONTROL,
            custom_message,
        };
        assert(r.known_state() =~= (SpecBoardState {
            mutes: Map::empty(),
            assignments: Map::empty(),
            names: Map::empty(),
        }));
        r
    }

    /// The number of channels controlled.
    pub fn num_channels(&self) -> (r: u8)
        ensures
            r == self.spec_num_channels(),
    {
        self.num_channels_controlled
    }

    /// The number of DCAs controlled.
    pub fn num_dcas(&self) -> (r: u8)
        ensures
            r == self.spec_num_dcas(),
    {
        self.num_dcas_controlled
    }

    /// The message shown to the user.
    pub fn custom_message(&self) -> (r: &str)
        ensures
            r@ == self.spec_custom_message(),
    {
        self.custom_message.as_str()
    }

    /// Forgets what is known of the board, as when a new connection is made.
    pub fn reset_board_state(&mut self)
        ensures
            final(self).known_state() == (SpecBoardState {
                mutes: Map::empty(),
                assignments: Map::empty(),
                names: Map::empty(),
            }),
            final(self).adaptor_state() == old(self).adaptor_state(),
            final(self).spec_num_channels() == old(self).spec_num_channels(),
            final(self).spec_num_dcas() == old(self).spec_num_dcas(),
            final(self).spec_custom_message() == old(self).spec_custom_message(),
    {
        self.board_state_cache = BoardStateCache::default();
        assert(self.known_state() =~= (SpecBoardState {
            mutes: Map::empty(),
            assignments: Map::empty(),
            names: Map::empty(),
        }));
    }

    /// Takes in a message received from the board: the edits it stands for, if any, are applied
    /// to what is known of the board.
    pub fn absorb_message(&mut self, message: A::Message)
        ensures
            final(self).adaptor_state() == A::spec_recv(old(self).adaptor_state(), message@).0,
            final(self).known_state() == match A::spec_recv(
                old(self).adaptor_state(),
                message@,
            ).1 {
                Some(es) => apply_all(old(self).known_state(), es),
                None => old(self).known_state(),
            },
            final(self).spec_num_channels() == old(self).spec_num_channels(),
            final(self).spec_num_dcas() == old(self).spec_num_dcas(),
            final(self).spec_custom_message() == old(self).spec_custom_message(),
    {
        if let Some(edits) = self.adaptor.recv_board_message(message) {
            self.board_state_cache.apply_board_edits(edits.as_slice());
        }
    }

    /// The messages for the edits, in order, leaving the adaptor as it is; an edit the adaptor
    /// does not support gives none.
    fn send_edits(&mut self, edits: &Vec<BoardEdit>) -> (r: Vec<A::Message>)
        ensures
            messages_view(r@) == sent_messages::<A>(edits_view(edits@)),
            final(self).adaptor_state() == old(self).adaptor_state(),
            final(self).known_state() == old(self).known_state(),
            final(self).spec_num_channels() == old(self).spec_num_channels(),
            final(self).spec_num_dcas() == old(self).spec_num_dcas(),
            final(self).spec_custom_message() == old(self).spec_custom_message(),
    {
        let mut out: Vec<A::Message> = Vec::new();
        let ghost start = *self;
        for i in 0..edits.len()
            invariant
                messages_view(out@) == sent_messages::<A>(edits_view(edits@).take(i as int)),
                self.adaptor_state() == start.adaptor_state(),
                self.known_state() == start.known_state(),
                self.spec_num_channels() == start.spec_num_channels(),
                self.spec_num_dcas() == start.spec_num_dcas(),
                self.spec_custom_message() == start.spec_custom_message(),
        {
            let ghost before = out@;
            let edit = edits[i].duplicate();
            proof {
                assert(edits_view(edits@)[i as int] == edits@[i as int]@);
                assert(edits_view(edits@).take(i + 1).drop_last() =~= edits_view(edits@).take(
                    i as int,
                ));
                assert(edits_view(edits@).take(i + 1).last() == edit@);
            }
            match self.adaptor.send_board_edit(edit) {
                Ok(mut ms) => {
                    let ghost ms_v = ms@;
                    out.append(&mut ms);
                    proof {
                        assert(messages_view(out@) =~= messages_view(before) + messages_view(ms_v));
                    }
                },
                Err(_) => {},
            }
        }
        assert(edits_view(edits@).take(edits@.len() as int) =~= edits_view(edits@));
        out
    }

    /// Fires the cue: brings what is known of the board to the cue and returns, in order, the
    /// messages that bring the board there. DCA names are not sent, and an edit that the adaptor
    /// does not support (such as a DCA level) gives no message.
    pub fn fire_cue(&mut self, cue: &Cue) -> (r: Vec<A::Message>)
        ensures
            messages_view(r@) == sent_messages::<A>(
                spec_cue_diff(
                    old(self).known_state(),
                    cue@,
                    None,
                    old(self).spec_num_channels(),
                    old(self).spec_num_dcas(),
                ),
            ),
            final(self).known_state() == apply_all(
                old(self).known_state(),
                spec_cue_diff(
                    old(self).known_state(),
                    cue@,
                    None,
                    old(self).spec_num_channels(),
                    old(self).spec_num_dcas(),
                ),
            ),
            final(self).adaptor_state() == old(self).adaptor_state(),
            final(self).spec_num_channels() == old(self).spec_num_channels(),
            final(self).spec_num_dcas() == old(self).spec_num_dcas(),
            final(self).spec_custom_message() == old(self).spec_custom_message(),
    {
        let edits = self.board_state_cache.cue_diff_and_apply(
            cue,
            None,
            self.num_channels_controlled,
            self.num_dcas_controlled,
        );
        self.send_edits(&edits)
    }

    /// Sends the names of the channels: the messages that set the name of each named channel,
    /// once each, in the order in which the names are walked.
    pub fn fire_channel_names(&mut self, names: &ChannelNames) -> (r: Vec<A::Message>)
        ensures
            exists|order: Seq<(u8, Seq<char>)>|
                {
                    &&& order.len() == names@.dom().len()
                    &&& forall|i: int|
                        0 <= i < order.len() ==> #[trigger] names@.contains_key(order[i].0)
                            && names@[order[i].0] == order[i].1
                    &&& forall|i: int, j: int| 0 <= i < j < order.len() ==> order[i].0 != order[j].0
                    &&& messages_view(r@) == sent_messages::<A>(channel_name_edits(order))
                },
            final(self).adaptor_state() == old(self).adaptor_state(),
            final(self).known_state() == old(self).known_state(),
            final(self).spec_num_channels() == old(self).spec_num_channels(),
            final(self).spec_num_dcas() == old(self).spec_num_dcas(),
            final(self).spec_custom_message() == old(self).spec_custom_message(),
    {
        let list = names.iterator();
        let mut edits: Vec<BoardEdit> = Vec::new();
        for i in 0..list.len()
            invariant
                edits@.len() == i,
                forall|j: int|
                    0 <= j < i ==> (#[trigger] edits@[j])@ == SpecBoardEdit::ChannelName(
                        list@[j].0,
                        list@[j].1@,
                    ),
        {
            let (c, n) = (list[i].0, list[i].1.clone());
            edits.push(BoardEdit::ChannelName(Channel::from_index(c), n));
        }
        let ghost order = list@.map_values(|p: (u8, String)| (p.0, p.1@));
        proof {
            assert(edits_view(edits@) =~= channel_name_edits(order));
        }
        let r = self.send_edits(&edits);
        proof {
            assert(forall|i: int|
                0 <= i < order.len() ==> #[trigger] names@.contains_key(order[i].0)
                    && names@[order[i].0] == order[i].1);
        }
        r
    }
}

/// Firing the same cue a second time, with nothing heard from the board in between, sends only
/// the messages of the cue's levels.
pub proof fn lemma_refire_sends_only_level_messages<A: BoardEditAdaptor>(
    st: SpecBoardState,
    cue: SpecCue,
    n_ch: u8,
    n_dca: u8,
)
    ensures
        sent_messages::<A>(
            spec_cue_diff(apply_all(st, spec_cue_diff(st, cue, None, n_ch, n_dca)), cue, None, n_ch, n_dca),
        ) == sent_messages::<A>(level_edits(cue, level_count(cue, n_dca))),
{
    lemma_refire_sends_only_levels(st, cue, None, n_ch, n_dca);
}

} // verus!
