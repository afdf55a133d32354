//! The common interface of the adaptors between `BoardEdit` and a board's own messages.
use crate::data::{BoardEdit, SpecBoardEdit};
use vstd::prelude::*;

verus! {

/// An error that may arise when a `BoardEdit` is turned into board messages.
#[derive(Clone, Copy, Debug, PartialEq, Eq, Structural)]
pub enum SendError {
    /// The board's adaptor does not support this kind of edit.
    NotSupported,
}

/// The values of an optional sequence of edits.
pub open spec fn opt_edits_view(r: Option<Vec<BoardEdit>>) -> Option<Seq<SpecBoardEdit>> {
    match r {
        Some(v) => Some(crate::data::edits_view(v@)),
        None => None,
    }
}

/// The values of a sequence of messages.
pub open spec fn messages_view<M: View>(ms: Seq<M>) -> Seq<M::V> {
    ms.map_values(|m: M| m@)
}

/// An adaptor between `BoardEdit` and the messages of one kind of board. Its value is what it
/// remembers between messages.
pub trait BoardEditAdaptor: View + Sized {
    /// The messages the board sends and receives.
    type Message: View;

    /// The messages for the edit, or why there are none.
    spec fn spec_send(edit: SpecBoardEdit) -> Result<Seq<<Self::Message as View>::V>, SendError>;

    /// What the adaptor remembers after it has received `message`, and the edits the message
    /// stands for, if any.
    spec fn spec_recv(state: Self::V, message: <Self::Message as View>::V) -> (
        Self::V,
        Option<Seq<SpecBoardEdit>>,
    );

    /// Turns an edit into the messages to send to the board, or says why it cannot
    /// (`NotSupported` for an edit the board's messages cannot carry).
    fn send_board_edit(&mut self, edit: BoardEdit) -> (r: Result<Vec<Self::Message>, SendError>)
        ensures
            final(self)@ == old(self)@,
            match r {
                Ok(v) => Self::spec_send(edit@) == Ok::<Seq<<Self::Message as View>::V>, SendError>(
                    messages_view(v@),
                ),
                Err(e) => Self::spec_send(edit@) == Err::<Seq<<Self::Message as View>::V>, SendError>(
                    e,
                ),
            },
    ;

    /// Receives a message from the board and turns it into edits when it stands for some.
    fn recv_board_message(&mut self, message: Self::Message) -> (r: Option<Vec<BoardEdit>>)
        ensures
            (final(self)@, opt_edits_view(r)) == Self::spec_recv(old(self)@, message@),
    ;
}

/// The Allen & Heath SQ7 over the MIDI of its USB port. No edit can be turned into its
/// messages yet, so it has no adaptor.
pub struct AHSQ7Midi;

} // verus!
