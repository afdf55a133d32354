//! Waiting for the file saves that run in the background.
use std::sync::mpsc::{Receiver, TryRecvError};
use vstd::prelude::*;

verus! {

#[verifier::external_type_specification]
#[verifier::external_body]
#[verifier::reject_recursive_types(T)]
pub struct ExReceiver<T>(Receiver<T>);

/// What a look at the channel from a background task finds.
#[derive(Clone, Copy, Debug, PartialEq, Eq, Structural)]
pub enum PollOutcome {
    /// The task has sent its message.
    Received,
    /// Nothing has been sent yet.
    Empty,
    /// The task is gone without sending.
    Disconnected,
}

/// Looks at the channel without waiting (std's `Receiver::try_recv`): a message, no message
/// yet, or a sender that is gone. What it finds depends on the other thread, so nothing is
/// promised of it.
#[verifier::external_body]
fn try_recv_done(rx: &Receiver<()>) -> (r: PollOutcome) {
    match rx.try_recv() {
        Ok(()) => PollOutcome::Received,
        Err(TryRecvError::Empty) => PollOutcome::Empty,
        Err(TryRecvError::Disconnected) => PollOutcome::Disconnected,
    }
}

/// Whether a background save is over, given what a look at its channel found: it is over once
/// it has said so, and also once it is gone (it failed or died), so that the user can go on.
pub fn poll_done(outcome: PollOutcome) -> (r: bool)
    ensures
        r == (outcome != PollOutcome::Empty),
{
    match outcome {
        PollOutcome::Received => true,
        PollOutcome::Empty => false,
        PollOutcome::Disconnected => true,
    }
}

/// What a look at the channel from the task that loads a file means for the loading.
#[derive(Clone, Copy, Debug, PartialEq, Eq, Structural)]
pub enum LoadStep {
    /// The file is not there yet; look again later.
    Waiting,
    /// The file has arrived; loading is over.
    Loaded,
    /// The task is gone without a file (it failed or died); loading is over.
    Failed,
}

/// What loading a file does next, given what a look at the loader's channel found.
pub fn load_step(outcome: PollOutcome) -> (r: LoadStep)
    ensures
        r == match outcome {
            PollOutcome::Received => LoadStep::Loaded,
            PollOutcome::Empty => LoadStep::Waiting,
            PollOutcome::Disconnected => LoadStep::Failed,
        },
{
    match outcome {
        PollOutcome::Received => LoadStep::Loaded,
        PollOutcome::Empty => LoadStep::Waiting,
        PollOutcome::Disconnected => LoadStep::Failed,
    }
}

/// The progress of saving to a file chosen in a file dialog.
pub struct SaveAsFileState {
    /// The dialog's task sends a message once it is done.
    rx: Receiver<()>,
}

impl SaveAsFileState {
    /// The channel on which the progress is awaited.
    pub closed spec fn channel(&self) -> Receiver<()> {
        self.rx
    }

    /// Waits on the given channel of the dialog's task.
    pub fn new(rx: Receiver<()>) -> (r: SaveAsFileState)
        ensures
            r.channel() == rx,
    {
        SaveAsFileState { rx }
    }

    /// Whether picking the file and saving to it is over.
    pub fn poll_saved(&mut self) -> (r: bool)
        ensures
            final(self).channel() == old(self).channel(),
    {
        poll_done(try_recv_done(&self.rx))
    }
}

/// The progress of writing to the file that is open.
pub struct SaveFileState {
    /// The writer sends a message once it is done.
    rx: Receiver<()>,
}

impl SaveFileState {
    /// The channel on which the progress is awaited.
    pub closed spec fn channel(&self) -> Receiver<()> {
        self.rx
    }

    /// Waits on the given channel of the writer.
    pub fn new(rx: Receiver<()>) -> (r: SaveFileState)
        ensures
            r.channel() == rx,
    {
        SaveFileState { rx }
    }

    /// Whether writing the file is over.
    pub fn poll_saved(&mut self) -> (r: bool)
        ensures
            final(self).channel() == old(self).channel(),
    {
        poll_done(try_recv_done(&self.rx))
    }
}

/// Where the open show came from.
#[derive(Clone, Copy, Debug, PartialEq, Eq, Structural)]
pub enum OpenFile {
    /// A file on this machine.
    LocalFile,
    /// Text pasted from the clipboard.
    Clipboard,
    /// No show is open.
    NoFile,
}

/// What saving the open show does.
#[derive(Clone, Copy, Debug, PartialEq, Eq, Structural)]
pub enum SaveAction {
    /// Other file work is going on, so nothing is saved.
    Busy,
    /// The show is written to the local file it came from.
    WriteLocalFile,
    /// The show cannot be written where it came from, so it is handed back as text for the
    /// clipboard.
    ExportToClipboard,
    /// No show is open, so there is nowhere to save it.
    NothingOpen,
}

/// How to save the open show, given whether file work is idle and where the show came from.
pub fn save_action(idle: bool, open: OpenFile) -> (r: SaveAction)
    ensures
        r == (if !idle {
            SaveAction::Busy
        } else {
            match open {
                OpenFile::LocalFile => SaveAction::WriteLocalFile,
                OpenFile::Clipboard => SaveAction::ExportToClipboard,
                OpenFile::NoFile => SaveAction::NothingOpen,
            }
        }),
{
    if !idle {
        return SaveAction::Busy;
    }
    match open {
        OpenFile::LocalFile => SaveAction::WriteLocalFile,
        OpenFile::Clipboard => SaveAction::ExportToClipboard,
        OpenFile::NoFile => SaveAction::NothingOpen,
    }
}

} // verus!
