use triangle_synth::event::{decode, NoteEvent, NoteKind};

#[test]
fn decodes_note_on() {
    let event = decode(&[0x90, 69, 100]);
    assert_eq!(event, Some(NoteEvent { kind: NoteKind::NoteOn, note: 69, velocity: 100 }));
}

#[test]
fn decodes_note_off() {
    let event = decode(&[0x83, 60, 0]);
    assert_eq!(event, Some(NoteEvent { kind: NoteKind::NoteOff, note: 60, velocity: 0 }));
}

#[test]
fn ignores_short_message() {
    assert_eq!(decode(&[0x90, 69]), None);
    assert_eq!(decode(&[]), None);
}

#[test]
fn ignores_other_status() {
    assert_eq!(decode(&[0xB0, 7, 127]), None);
    assert_eq!(decode(&[0x10, 7, 127]), None);
}
