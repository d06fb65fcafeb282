use zenaudio::ring::{ResampledWriter, SampleRing, WriteStep};
use zenaudio::status::PlayerState;

fn drain(ring: &mut SampleRing, wanted: usize) -> Vec<u32> {
    let mut out = vec![77u32; wanted];
    ring.render(PlayerState::Playing, &mut out);
    out
}

#[test]
fn samples_come_out_in_order() {
    let mut ring = SampleRing::new(8);
    ring.write_latest(&[1, 2, 3]);
    ring.write_latest(&[4, 5]);
    assert_eq!(drain(&mut ring, 5), vec![1, 2, 3, 4, 5]);
    assert_eq!(drain(&mut ring, 2), vec![0, 0]);
}

#[test]
fn a_full_ring_drops_its_oldest_samples() {
    let mut ring = SampleRing::new(4);
    ring.write_latest(&[1, 2, 3]);
    ring.write_latest(&[4, 5, 6]);
    assert!(ring.is_full());
    assert_eq!(drain(&mut ring, 4), vec![3, 4, 5, 6]);
}

#[test]
fn a_long_write_leaves_its_own_end() {
    let mut ring = SampleRing::new(3);
    ring.write_latest(&[9]);
    ring.write_latest(&[1, 2, 3, 4, 5, 6, 7]);
    assert_eq!(drain(&mut ring, 3), vec![5, 6, 7]);
}

#[test]
fn divided_writes_and_requests_make_no_difference() {
    let mut one = SampleRing::new(4);
    let mut two = SampleRing::new(4);
    one.write_latest(&[1, 2, 3, 4, 5, 6]);
    two.write_latest(&[1, 2]);
    two.write_latest(&[3, 4, 5, 6]);
    let whole = drain(&mut one, 6);
    let mut parts = drain(&mut two, 1);
    parts.extend(drain(&mut two, 5));
    assert_eq!(whole, vec![3, 4, 5, 6, 0, 0]);
    assert_eq!(whole, parts);
}

#[test]
fn too_few_samples_are_padded_with_silence() {
    let mut ring = SampleRing::new(4);
    ring.write_latest(&[7, 8]);
    assert_eq!(drain(&mut ring, 5), vec![7, 8, 0, 0, 0]);
}

#[test]
fn nothing_but_silence_unless_playing() {
    let mut ring = SampleRing::new(4);
    ring.write_latest(&[7, 8]);
    let mut out = vec![5u32; 3];
    ring.render(PlayerState::Paused, &mut out);
    assert_eq!(out, vec![0, 0, 0]);
    let mut out = vec![5u32; 2];
    ring.render(PlayerState::Stopped, &mut out);
    assert_eq!(out, vec![0, 0]);
    assert_eq!(drain(&mut ring, 2), vec![7, 8]);
}

#[test]
fn an_empty_request_is_served() {
    let mut ring = SampleRing::new(2);
    ring.write_latest(&[1]);
    assert_eq!(drain(&mut ring, 0), Vec::<u32>::new());
    assert_eq!(drain(&mut ring, 1), vec![1]);
}

#[test]
fn a_cleared_ring_holds_nothing_old() {
    let mut ring = SampleRing::new(4);
    ring.write_latest(&[5, 6, 7, 8]);
    assert!(ring.is_full());
    ring.clear();
    assert!(!ring.is_full());
    assert_eq!(drain(&mut ring, 2), vec![0, 0]);
    ring.write_latest(&[7, 8]);
    ring.clear();
    ring.write_latest(&[9, 10, 11]);
    assert_eq!(drain(&mut ring, 4), vec![9, 10, 11, 0]);
    ring.clear();
    ring.clear();
    ring.write_latest(&[1, 2, 3, 4]);
    assert_eq!(drain(&mut ring, 4), vec![1, 2, 3, 4]);
}

#[test]
fn offering_respects_the_capacity() {
    let mut ring = SampleRing::new(2);
    assert!(ring.offer(1));
    assert!(!ring.is_full());
    assert!(ring.offer(2));
    assert!(ring.is_full());
    assert!(!ring.offer(3));
    assert_eq!(drain(&mut ring, 3), vec![1, 2, 0]);
}

#[test]
fn the_ring_wraps_around() {
    let mut ring = SampleRing::new(3);
    for i in 0..50u32 {
        ring.write_latest(&[2 * i, 2 * i + 1]);
        assert_eq!(drain(&mut ring, 2), vec![2 * i, 2 * i + 1]);
    }
}

#[test]
fn resampled_samples_wait_once_and_are_then_dropped() {
    let mut ring = SampleRing::new(2);
    let mut writer = ResampledWriter::new(vec![1, 2, 3, 4]);
    assert_eq!(writer.step(&mut ring, false), WriteStep::Advanced);
    assert_eq!(writer.step(&mut ring, false), WriteStep::Advanced);
    assert_eq!(writer.step(&mut ring, false), WriteStep::Wait);
    assert_eq!(writer.step(&mut ring, true), WriteStep::Advanced);
    assert_eq!(writer.step(&mut ring, false), WriteStep::Wait);
    assert_eq!(drain(&mut ring, 1), vec![1]);
    assert_eq!(writer.step(&mut ring, true), WriteStep::Advanced);
    assert_eq!(writer.step(&mut ring, false), WriteStep::Finished);
    assert_eq!(drain(&mut ring, 3), vec![2, 4, 0]);
}

#[test]
fn a_writer_with_nothing_to_write_is_finished() {
    let mut ring = SampleRing::new(1);
    let mut writer = ResampledWriter::new(Vec::new());
    assert_eq!(writer.step(&mut ring, false), WriteStep::Finished);
    assert_eq!(writer.step(&mut ring, true), WriteStep::Finished);
}
