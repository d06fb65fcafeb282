use zenaudio::frames::{
    interleave, process_audio_frame, resampled_frame, BlockQueue, FrameAction,
};
use zenaudio::ring::{SampleRing, WriteStep};
use zenaudio::status::PlayerState;

fn drain(ring: &mut SampleRing, wanted: usize) -> Vec<u32> {
    let mut out = vec![0u32; wanted];
    ring.render(PlayerState::Playing, &mut out);
    out
}

#[test]
fn stereo_is_interleaved_frame_by_frame() {
    let mut out = vec![9, 9];
    interleave(&vec![vec![1, 2, 3], vec![11, 12, 13]], &mut out);
    assert_eq!(out, vec![1, 11, 2, 12, 3, 13]);
}

#[test]
fn frames_are_cut_into_blocks() {
    let mut queue = BlockQueue::new(2);
    assert_eq!(queue.take_block(2), None);
    assert!(queue.append(&vec![vec![1, 2, 3], vec![11, 12, 13]]));
    assert!(queue.append(&vec![vec![4, 5], vec![14, 15]]));
    assert_eq!(queue.take_block(2), Some(vec![vec![1, 2], vec![11, 12]]));
    assert_eq!(queue.take_block(2), Some(vec![vec![3, 4], vec![13, 14]]));
    assert_eq!(queue.take_block(2), None);
    assert!(queue.append(&vec![vec![6], vec![16]]));
    assert_eq!(queue.take_block(2), Some(vec![vec![5, 6], vec![15, 16]]));
    assert_eq!(queue.take_block(1), None);
    assert_eq!(queue.take_block(0), None);
}

#[test]
fn frames_with_other_channels_do_not_wait() {
    let mut queue = BlockQueue::new(2);
    assert!(!queue.append(&vec![vec![1, 2, 3]]));
    assert!(!queue.append(&Vec::new()));
    assert_eq!(queue.take_block(1), None);
}

#[test]
fn mono_and_nothing_are_interleaved_too() {
    let mut out = Vec::new();
    interleave(&vec![vec![1, 2, 3]], &mut out);
    assert_eq!(out, vec![1, 2, 3]);
    interleave(&vec![Vec::new(), Vec::new()], &mut out);
    assert_eq!(out, Vec::<u32>::new());
    interleave(&Vec::new(), &mut out);
    assert_eq!(out, Vec::<u32>::new());
}

#[test]
fn the_first_channel_sets_the_number_of_frames() {
    let mut out = Vec::new();
    interleave(&vec![vec![1, 2], vec![11, 12, 13]], &mut out);
    assert_eq!(out, vec![1, 11, 2, 12]);
}

#[test]
fn a_frame_without_resampler_is_queued_and_played() {
    let mut ring = SampleRing::new(16);
    let mut buffer = vec![5];
    let left: Vec<u32> = vec![0.5f32.to_bits(), (-0.25f32).to_bits()];
    let right: Vec<u32> = vec![1.0f32.to_bits(), 0.125f32.to_bits()];
    let action = process_audio_frame(Some(&vec![left, right]), &mut buffer, &mut ring, false);
    assert_eq!(action, FrameAction::Written);
    let expected: Vec<u32> = vec![0.5f32, 1.0, -0.25, 0.125].iter().map(|s| s.to_bits()).collect();
    assert_eq!(buffer, expected);
    assert_eq!(drain(&mut ring, 4), expected);
}

#[test]
fn a_frame_displaces_the_oldest_samples() {
    let mut ring = SampleRing::new(4);
    let mut buffer = Vec::new();
    ring.write_latest(&[100, 101, 102]);
    process_audio_frame(Some(&vec![vec![1, 2, 3]]), &mut buffer, &mut ring, false);
    assert_eq!(drain(&mut ring, 4), vec![102, 1, 2, 3]);
}

#[test]
fn a_frame_in_another_format_is_passed_over() {
    let mut ring = SampleRing::new(4);
    ring.write_latest(&[7, 8]);
    for resampling in [false, true] {
        let mut buffer = vec![5, 6];
        let action = process_audio_frame(None, &mut buffer, &mut ring, resampling);
        assert_eq!(action, FrameAction::Dropped);
        assert!(buffer.is_empty());
    }
    assert_eq!(drain(&mut ring, 3), vec![7, 8, 0]);
}

#[test]
fn blocks_are_cut_as_if_all_frames_came_at_once() {
    let mut queue = BlockQueue::new(2);
    let mut left: Vec<u32> = Vec::new();
    let mut right: Vec<u32> = Vec::new();
    let mut came: [Vec<u32>; 2] = [Vec::new(), Vec::new()];
    for frames in [3u32, 0, 5, 1, 9] {
        let first = came[0].len() as u32;
        let planes: Vec<Vec<u32>> =
            vec![(first..first + frames).collect(), (first + 100..first + 100 + frames).collect()];
        came[0].extend(&planes[0]);
        came[1].extend(&planes[1]);
        assert!(queue.append(&planes));
        for block in queue.take_blocks(4) {
            assert_eq!((block[0].len(), block[1].len()), (4, 4));
            left.extend(&block[0]);
            right.extend(&block[1]);
        }
    }
    assert_eq!(left, came[0][..16]);
    assert_eq!(right, came[1][..16]);
    assert!(queue.append(&vec![vec![50, 51], vec![60, 61]]));
    assert_eq!(queue.take_blocks(4), vec![vec![vec![16, 17, 50, 51], vec![116, 117, 60, 61]]]);
    assert!(queue.take_blocks(4).is_empty());
    assert!(BlockQueue::new(0).take_blocks(4).is_empty());
}

#[test]
fn resampled_blocks_are_queued_one_after_the_other() {
    let mut ring = SampleRing::new(7);
    ring.write_latest(&[9]);
    for block in [vec![vec![1, 2], vec![3, 4]], vec![vec![5, 6], vec![7, 8]]] {
        let mut writer = resampled_frame(&block);
        let mut waited = false;
        loop {
            match writer.step(&mut ring, waited) {
                WriteStep::Finished => break,
                WriteStep::Wait => waited = true,
                WriteStep::Advanced => waited = false,
            }
        }
    }
    assert_eq!(drain(&mut ring, 8), vec![9, 1, 3, 2, 4, 5, 7, 0]);
}

#[test]
fn a_frame_with_resampler_is_handed_on() {
    let mut ring = SampleRing::new(4);
    let mut buffer = Vec::new();
    let planes = vec![vec![1, 2], vec![3, 4]];
    let action = process_audio_frame(Some(&planes), &mut buffer, &mut ring, true);
    assert_eq!(action, FrameAction::Resample);
    assert_eq!(buffer, vec![1, 3, 2, 4]);
    assert_eq!(drain(&mut ring, 1), vec![0]);

    let mut writer = resampled_frame(&vec![vec![1, 2, 3], vec![4, 5, 6]]);
    let mut steps = 0;
    while writer.step(&mut ring, true) != WriteStep::Finished {
        steps += 1;
    }
    assert_eq!(steps, 6);
    assert_eq!(drain(&mut ring, 5), vec![1, 4, 2, 5, 0]);
}
