//! Decoding of raw note messages.

use vstd::prelude::*;

verus! {

/// What a note message asks for.
#[derive(Clone, Copy, Debug, PartialEq, Eq, Structural)]
pub enum NoteKind {
    NoteOn,
    NoteOff,
}

/// A decoded note message.
///
/// `velocity` counts 127ths of full amplitude, as the message carries it.
#[derive(Clone, Copy, Debug, PartialEq, Eq, Structural)]
pub struct NoteEvent {
    pub kind: NoteKind,
    pub note: u8,
    pub velocity: u8,
}

/// The high nibble of a status byte.
pub open spec fn status_nibble(status: u8) -> int {
    status as int / 16
}

/// The event that a raw message stands for, if any.
///
/// A message is a status byte followed by two data bytes; bytes after the
/// third are not looked at. Status nibble 9 is a note-on, 8 a note-off.
pub open spec fn decoded(message: Seq<u8>) -> Option<NoteEvent> {
    if message.len() < 3 {
        None
    } else if status_nibble(message[0]) == 9 {
        Some(NoteEvent { kind: NoteKind::NoteOn, note: message[1], velocity: message[2] })
    } else if status_nibble(message[0]) == 8 {
        Some(NoteEvent { kind: NoteKind::NoteOff, note: message[1], velocity: message[2] })
    } else {
        None
    }
}

/// Decodes one raw note message; `None` for a message that is too short or
/// whose status nibble is neither note-on nor note-off.
pub fn decode(message: &[u8]) -> (event: Option<NoteEvent>)
    ensures
        event == decoded(message@),
{
    if message.len() < 3 {
        return None;
    }
    let status: u8 = message[0];
    let high: u8 = status & 0xF0;
    assert(high == 0x90 <==> status / 16 == 9) by (bit_vector)
        requires
            high == status & 0xF0,
    ;
    assert(high == 0x80 <==> status / 16 == 8) by (bit_vector)
        requires
            high == status & 0xF0,
    ;
    if high == 0x90 {
        Some(NoteEvent { kind: NoteKind::NoteOn, note: message[1], velocity: message[2] })
    } else if high == 0x80 {
        Some(NoteEvent { kind: NoteKind::NoteOff, note: message[1], velocity: message[2] })
    } else {
        None
    }
}

} // verus!
