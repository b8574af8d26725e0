use triangle_synth::block::StereoBlock;

#[test]
fn new_block_is_silent() {
    let block = StereoBlock::new(5);
    assert_eq!(block.frames(), 5);
    assert_eq!(block.left(), &vec![0i64; 5]);
    assert_eq!(block.right(), &vec![0i64; 5]);
}

#[test]
fn empty_block_has_no_frames() {
    let block = StereoBlock::new(0);
    assert_eq!(block.frames(), 0);
    assert!(block.left().is_empty());
    assert!(block.right().is_empty());
}

#[test]
fn accumulate_adds_to_both_channels() {
    let mut block = StereoBlock::new(3);
    block.accumulate(1, 7);
    block.accumulate(1, -2);
    block.accumulate(2, 9);
    assert_eq!(block.left(), &vec![0i64, 5, 9]);
    assert_eq!(block.right(), &vec![0i64, 5, 9]);
}

#[test]
fn clear_zeroes_every_frame() {
    let mut block = StereoBlock::new(3);
    block.accumulate(0, 1);
    block.accumulate(2, -1);
    block.clear();
    assert_eq!(block.frames(), 3);
    assert_eq!(block.left(), &vec![0i64; 3]);
    assert_eq!(block.right(), &vec![0i64; 3]);
}
