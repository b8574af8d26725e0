use std::sync::Arc;
use triangle_synth::block::StereoBlock;
use triangle_synth::event::{NoteEvent, NoteKind};
use triangle_synth::sample_player::SamplePlayer;
use triangle_synth::sample_voice::SampleVoice;
use triangle_synth::store::{SampleAsset, SampleStore};
use triangle_synth::MAX_VOICES;

fn store_with(assets: Vec<(u8, Vec<i16>)>) -> Arc<SampleStore> {
    let mut store = SampleStore::new();
    for (note, pcm) in assets {
        assert!(store.insert(SampleAsset { note, pcm }));
    }
    Arc::new(store)
}

fn voices_of(player: &SamplePlayer) -> Vec<SampleVoice> {
    (0..player.active_voices()).map(|k| player.voice(k)).collect()
}

#[test]
fn sample_playback_termination() {
    let pcm: Vec<i16> = vec![5, 0, -7, 0, 9];
    let mut voice = SampleVoice::trigger(60, pcm.len());
    assert_eq!(voice, SampleVoice { active: true, note: 60, cursor: 0 });
    let mut yielded = Vec::new();
    for _ in 0..pcm.len() {
        assert!(voice.active);
        yielded.push(voice.next_sample(&pcm));
    }
    assert_eq!(yielded, pcm);
    assert_eq!(voice, SampleVoice { active: false, note: 60, cursor: 5 });
    for _ in 0..100 {
        assert_eq!(voice.next_sample(&pcm), 0);
        assert_eq!(voice, SampleVoice { active: false, note: 60, cursor: 5 });
    }
}

#[test]
fn trigger_on_empty_buffer_is_silent() {
    let mut voice = SampleVoice::trigger(60, 0);
    assert_eq!(voice, SampleVoice { active: false, note: 60, cursor: 0 });
    assert_eq!(voice.next_sample(&[]), 0);
}

#[test]
fn sample_voice_note_off_ends_early() {
    let pcm: Vec<i16> = vec![1, 2, 3];
    let mut voice = SampleVoice::trigger(60, 3);
    assert_eq!(voice.next_sample(&pcm), 1);
    voice.note_off();
    assert_eq!(voice, SampleVoice { active: false, note: 60, cursor: 1 });
    assert_eq!(voice.next_sample(&pcm), 0);
    voice.note_off();
    assert_eq!(voice, SampleVoice { active: false, note: 60, cursor: 1 });
}

#[test]
fn store_holds_one_asset_per_note() {
    let mut store = SampleStore::new();
    assert!(!store.contains(60));
    assert_eq!(store.get(60), None);
    assert!(store.insert(SampleAsset { note: 60, pcm: vec![1, 2, 3] }));
    assert!(store.contains(60));
    assert_eq!(store.get(60), Some(&vec![1i16, 2, 3]));
    assert!(!store.insert(SampleAsset { note: 60, pcm: vec![9] }));
    assert_eq!(store.get(60), Some(&vec![1i16, 2, 3]));
    assert!(store.insert(SampleAsset { note: 255, pcm: vec![] }));
    assert_eq!(store.get(255), Some(&Vec::new()));
    assert_eq!(store.get(61), None);
}

#[test]
fn new_player_has_nothing_to_play() {
    let mut player = SamplePlayer::new();
    assert_eq!(player.active_voices(), 0);
    assert_eq!(player.sample_rate(), 44100);
    assert!(!player.trigger(60));
    player.process_midi_event(&[0x90, 60, 100]);
    assert_eq!(player.active_voices(), 0);
    let mut block = StereoBlock::new(8);
    player.process(&mut block);
    assert_eq!(block.left(), &vec![0i64; 8]);
    assert_eq!(block.right(), &vec![0i64; 8]);
}

#[test]
fn unknown_note_is_a_no_op() {
    let mut player = SamplePlayer::with_store(store_with(vec![(60, vec![1, 2, 3])]));
    assert!(!player.trigger(61));
    player.process_midi_event(&[0x90, 61, 100]);
    assert_eq!(player.active_voices(), 0);
}

#[test]
fn empty_asset_is_a_no_op() {
    let mut player = SamplePlayer::with_store(store_with(vec![(60, vec![])]));
    assert!(!player.trigger(60));
    assert_eq!(player.active_voices(), 0);
}

#[test]
fn players_share_one_store() {
    let store = store_with(vec![(60, vec![4, 5])]);
    let mut first = SamplePlayer::with_store(store.clone());
    let mut second = SamplePlayer::with_store(store.clone());
    assert!(first.trigger(60));
    let mut block = StereoBlock::new(1);
    first.process(&mut block);
    assert_eq!(block.left(), &vec![4i64]);
    assert!(second.trigger(60));
    let mut both = StereoBlock::new(3);
    second.process(&mut both);
    assert_eq!(both.left(), &vec![4i64, 5, 0]);
    first.process(&mut both);
    assert_eq!(both.left(), &vec![5i64, 0, 0]);
    assert_eq!(store.get(60), Some(&vec![4i16, 5]));
}

#[test]
fn note_on_plays_the_buffer_once() {
    let mut player = SamplePlayer::with_store(store_with(vec![(60, vec![10, -20, 30])]));
    player.process_midi_event(&[0x90, 60, 100]);
    assert_eq!(voices_of(&player), vec![SampleVoice { active: true, note: 60, cursor: 0 }]);
    let mut block = StereoBlock::new(2);
    player.process(&mut block);
    assert_eq!(block.left(), &vec![10i64, -20]);
    assert_eq!(block.right(), &vec![10i64, -20]);
    assert_eq!(voices_of(&player), vec![SampleVoice { active: true, note: 60, cursor: 2 }]);
    player.process(&mut block);
    assert_eq!(block.left(), &vec![30i64, 0]);
    assert_eq!(block.right(), &vec![30i64, 0]);
    assert_eq!(player.active_voices(), 0);
    player.process(&mut block);
    assert_eq!(block.left(), &vec![0i64, 0]);
}

#[test]
fn buffer_ending_with_the_block_removes_the_instance() {
    let mut player = SamplePlayer::with_store(store_with(vec![(60, vec![1, 2, 3, 4])]));
    assert!(player.trigger(60));
    let mut block = StereoBlock::new(4);
    player.process(&mut block);
    assert_eq!(block.left(), &vec![1i64, 2, 3, 4]);
    assert_eq!(player.active_voices(), 0);
}

#[test]
fn velocity_is_ignored_for_triggering() {
    let mut player = SamplePlayer::with_store(store_with(vec![(60, vec![7, 8])]));
    player.process_midi_event(&[0x90, 60, 0]);
    player.process_midi_event(&[0x90, 60, 1]);
    player.handle_event(NoteEvent { kind: NoteKind::NoteOn, note: 60, velocity: 127 });
    assert_eq!(player.active_voices(), 3);
    let mut block = StereoBlock::new(2);
    player.process(&mut block);
    assert_eq!(block.left(), &vec![21i64, 24]);
}

#[test]
fn note_off_does_not_end_playback() {
    let mut player = SamplePlayer::with_store(store_with(vec![(60, vec![7, 8, 9])]));
    player.process_midi_event(&[0x90, 60, 100]);
    player.process_midi_event(&[0x80, 60, 0]);
    player.handle_event(NoteEvent { kind: NoteKind::NoteOff, note: 60, velocity: 0 });
    assert_eq!(player.active_voices(), 1);
    let mut block = StereoBlock::new(3);
    player.process(&mut block);
    assert_eq!(block.left(), &vec![7i64, 8, 9]);
}

#[test]
fn malformed_messages_are_ignored() {
    let mut player = SamplePlayer::with_store(store_with(vec![(60, vec![7, 8, 9])]));
    player.process_midi_event(&[0x90, 60]);
    player.process_midi_event(&[]);
    player.process_midi_event(&[0xA0, 60, 100]);
    assert_eq!(player.active_voices(), 0);
}

#[test]
fn instances_are_summed_without_attenuation() {
    let mut player = SamplePlayer::with_store(store_with(vec![
        (60, vec![100, 200, 300, 400]),
        (62, vec![-1, -2]),
    ]));
    assert!(player.trigger(60));
    let mut one = StereoBlock::new(1);
    player.process(&mut one);
    assert_eq!(one.left(), &vec![100i64]);
    assert!(player.trigger(62));
    assert!(player.trigger(60));
    let mut block = StereoBlock::new(4);
    player.process(&mut block);
    assert_eq!(block.left(), &vec![299i64, 498, 700, 400]);
    assert_eq!(block.right(), &vec![299i64, 498, 700, 400]);
    assert_eq!(voices_of(&player), Vec::new());
}

#[test]
fn survivors_keep_their_order() {
    let mut player = SamplePlayer::with_store(store_with(vec![
        (1, vec![1; 10]),
        (2, vec![2; 2]),
        (3, vec![3; 8]),
        (4, vec![4; 3]),
        (5, vec![5; 4]),
    ]));
    for note in 1..=5 {
        assert!(player.trigger(note));
    }
    let mut block = StereoBlock::new(3);
    player.process(&mut block);
    assert_eq!(block.left(), &vec![15i64, 15, 13]);
    assert_eq!(
        voices_of(&player),
        vec![
            SampleVoice { active: true, note: 1, cursor: 3 },
            SampleVoice { active: true, note: 3, cursor: 3 },
            SampleVoice { active: true, note: 5, cursor: 3 },
        ]
    );
}

#[test]
fn full_scale_samples_add_up_beyond_full_scale() {
    let mut player = SamplePlayer::with_store(store_with(vec![(60, vec![i16::MAX, i16::MIN])]));
    for _ in 0..MAX_VOICES {
        assert!(player.trigger(60));
    }
    let mut block = StereoBlock::new(2);
    player.process(&mut block);
    assert_eq!(block.left(), &vec![128 * 32767i64, 128 * -32768i64]);
}

#[test]
fn capacity_drops_the_extra_instance() {
    let mut player = SamplePlayer::with_store(store_with(vec![(60, vec![1; 100])]));
    for k in 0..MAX_VOICES {
        assert!(player.trigger(60));
        assert_eq!(player.active_voices(), k + 1);
    }
    let full = voices_of(&player);
    assert!(!player.trigger(60));
    player.process_midi_event(&[0x90, 60, 100]);
    assert_eq!(voices_of(&player), full);
}

#[test]
fn sample_rate_is_recorded() {
    let mut player = SamplePlayer::with_store(store_with(vec![(60, vec![1, 2])]));
    assert!(player.trigger(60));
    player.set_sample_rate(96000);
    assert_eq!(player.sample_rate(), 96000);
    let mut block = StereoBlock::new(2);
    player.process(&mut block);
    assert_eq!(block.left(), &vec![1i64, 2]);
}

#[test]
fn silence_without_instances() {
    for frames in [0usize, 1, 17, 256] {
        let mut player = SamplePlayer::with_store(store_with(vec![(60, vec![1, 2])]));
        let mut block = StereoBlock::new(frames);
        player.process(&mut block);
        assert_eq!(block.left(), &vec![0i64; frames]);
        assert_eq!(block.right(), &vec![0i64; frames]);
    }
}
