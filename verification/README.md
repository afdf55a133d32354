# miq

A show controller for theatre mixing desks. A show is a list of numbered cues; each cue says
which channels belong to which DCA, what the DCAs are called and which channels are live.
Firing a cue sends the desk only the edits it needs, worked out from what is known of the
desk's state.

The logic is a Verus library, verified with its contracts:

- `midi`: the MIDI messages the desks speak (NRPN control changes and system exclusive).
- `data`: channels, DCAs and the edits that can be made to a desk.
- `text`: decimal numbers in text, read and written the way std does.
- `cues`: DCA states, cues, cue numbers (with their parser) and channel names.
- `cue_list`: the cue list, kept in order of numbers, with add, remove and renumber.
- `state`: the cues screen: selection, edits in progress and the undo/redo stack.
- `state_laws`: what undo, redo and the edits promise across calls.
- `cache`, `cache_laws`: the known state of a desk and the smallest set of edits that brings
  it to a cue.
- `adaptor`, `yamaha`: turning edits into a desk's messages and back (Yamaha M7CL).
- `connection`: the connection to no desk, and the logic of a MIDI connection.
- `file_io`: waiting on background saves, and where a save goes.

`app/` is the desktop program around it: the egui window, the MIDI ports (midir), the file
dialogs (rfd) and the show files (serde and RON).
