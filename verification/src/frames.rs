//! Decoded audio frames: from one sequence per channel to the interleaved order that the output
//! plays.

use vstd::arithmetic::div_mod::lemma_fundamental_div_mod_converse;
use vstd::prelude::*;

use crate::ring::{newest, ResampledWriter, SampleRing};

verus! {

/// The samples of each channel.
pub open spec fn planes_of(planes: Seq<Vec<u32>>) -> Seq<Seq<u32>> {
    planes.map_values(|plane: Vec<u32>| plane@)
}

/// The number of frames: the number of samples of the first channel.
pub open spec fn frames_of(planes: Seq<Seq<u32>>) -> nat {
    if planes.len() == 0 {
        0
    } else {
        planes[0].len()
    }
}

/// Every channel has a sample for each frame.
pub open spec fn complete(planes: Seq<Seq<u32>>) -> bool {
    forall|ch: int| 0 <= ch < planes.len() ==> frames_of(planes) <= #[trigger] planes[ch].len()
}

/// The samples in playing order: frame after frame, and within a frame channel after channel.
pub open spec fn interleaved(planes: Seq<Seq<u32>>) -> Seq<u32> {
    Seq::new(
        frames_of(planes) * planes.len(),
        |k: int| planes[k % planes.len() as int][k / planes.len() as int],
    )
}

/// What has to happen next with a decoded frame.
#[derive(Debug, Clone, Copy, PartialEq, Eq, Structural)]
pub enum FrameAction {
    /// The samples are queued.
    Written,
    /// The channels have to go through the resampler first.
    Resample,
    /// The frame came in a format that is not supported, and nothing is queued of it.
    Dropped,
}

/// The samples of a decoded frame in playing order: none where its format is not supported.
pub open spec fn frame_samples(decoded: Option<&Vec<Vec<u32>>>) -> Seq<u32> {
    match decoded {
        Some(planes) => interleaved(planes_of(planes@)),
        None => Seq::empty(),
    }
}

/// Replaces the contents of `out` by the interleaved samples of the channels.
pub fn interleave(planes: &Vec<Vec<u32>>, out: &mut Vec<u32>)
    requires
        complete(planes_of(planes@)),
    ensures
        final(out)@ == interleaved(planes_of(planes@)),
{
    out.clear();
    let channels = planes.len();
    let ghost model = planes_of(planes@);
    if channels == 0 {
        assert(out@ =~= interleaved(model)) by {
            assert(frames_of(model) * model.len() == 0) by (nonlinear_arith)
                requires
                    model.len() == 0,
            ;
        }
        return ;
    }
    let frames = planes[0].len();
    assert(model[0] == planes@[0]@);
    let mut frame: usize = 0;
    while frame < frames
        invariant
            0 < channels == planes@.len(),
            model == planes_of(planes@),
            complete(model),
            frames == frames_of(model),
            frame <= frames,
            out@.len() == frame * channels,
            forall|k: int|
                0 <= k < out@.len() ==> #[trigger] out@[k] == model[k % channels as int][k
                    / channels as int],
        decreases frames - frame,
    {
        let mut channel: usize = 0;
        while channel < channels
            invariant
                0 < channels == planes@.len(),
                model == planes_of(planes@),
                complete(model),
                frames == frames_of(model),
                frame < frames,
                channel <= channels,
                out@.len() == frame * channels + channel,
                forall|k: int|
                    0 <= k < out@.len() ==> #[trigger] out@[k] == model[k % channels as int][k
                        / channels as int],
            decreases channels - channel,
        {
            assert(model[channel as int] == planes@[channel as int]@);
            proof {
                lemma_fundamental_div_mod_converse(
                    frame * channels + channel,
                    channels as int,
                    frame as int,
                    channel as int,
                );
            }
            out.push(planes[channel][frame]);
            channel = channel + 1;
        }
        assert((frame + 1) * channels == frame * channels + channels) by (nonlinear_arith);
        frame = frame + 1;
    }
    assert(out@ =~= interleaved(model));
}

/// Queues a decoded frame, or asks for its channels to be resampled first. A frame in a format that is
/// not supported is passed over.
///
/// The interleaved samples are left in `decode_buffer`, which is kept from frame to frame and empty
/// after a frame that was passed over. Without a resampler they go straight to the ring, where they
/// displace the oldest samples if there is no room for all.
pub fn process_audio_frame(
    decoded: Option<&Vec<Vec<u32>>>,
    decode_buffer: &mut Vec<u32>,
    ring: &mut SampleRing,
    resampling: bool,
) -> (action: FrameAction)
    requires
        decoded is Some ==> complete(planes_of(decoded->0@)),
        old(ring).wf(),
    ensures
        final(ring).wf(),
        final(ring).spec_capacity() == old(ring).spec_capacity(),
        final(decode_buffer)@ == frame_samples(decoded),
        decoded is Some ==> final(decode_buffer)@ == interleaved(planes_of(decoded->0@)),
        decoded is None ==> final(decode_buffer)@ == Seq::<u32>::empty(),
        action == if decoded is None {
            FrameAction::Dropped
        } else if resampling {
            FrameAction::Resample
        } else {
            FrameAction::Written
        },
        final(ring)@ == if action is Written {
            newest(old(ring)@ + frame_samples(decoded), old(ring).spec_capacity())
        } else {
            old(ring)@
        },
{
    let planes = match decoded {
        Some(planes) => planes,
        None => {
            decode_buffer.clear();
            return FrameAction::Dropped;
        },
    };
    interleave(planes, decode_buffer);
    if resampling {
        FrameAction::Resample
    } else {
        ring.write_latest(decode_buffer.as_slice());
        FrameAction::Written
    }
}

/// Starts queueing the output of the resampler.
pub fn resampled_frame(planes: &Vec<Vec<u32>>) -> (writer: ResampledWriter)
    requires
        0 < planes@.len(),
        complete(planes_of(planes@)),
    ensures
        writer.wf(),
        writer.pending() == interleaved(planes_of(planes@)),
{
    let mut samples: Vec<u32> = Vec::new();
    interleave(planes, &mut samples);
    ResampledWriter::new(samples)
}

/// Every channel has the same number of samples.
pub open spec fn even(planes: Seq<Seq<u32>>) -> bool {
    forall|ch: int| 0 <= ch < planes.len() ==> #[trigger] planes[ch].len() == frames_of(planes)
}

/// No samples in any of the channels.
pub open spec fn no_frames(channels: nat) -> Seq<Seq<u32>> {
    Seq::new(channels, |ch: int| Seq::<u32>::empty())
}

/// The frames of `more` behind those of `planes`.
pub open spec fn extended(planes: Seq<Seq<u32>>, more: Seq<Seq<u32>>) -> Seq<Seq<u32>> {
    Seq::new(planes.len(), |ch: int| planes[ch] + more[ch].take(frames_of(more) as int))
}

/// The first `count` frames.
pub open spec fn first_frames(planes: Seq<Seq<u32>>, count: nat) -> Seq<Seq<u32>> {
    Seq::new(planes.len(), |ch: int| planes[ch].take(count as int))
}

/// The frames behind the first `count`.
pub open spec fn later_frames(planes: Seq<Seq<u32>>, count: nat) -> Seq<Seq<u32>> {
    Seq::new(planes.len(), |ch: int| planes[ch].skip(count as int))
}

/// The frames from one up to another.
pub open spec fn frames_between(planes: Seq<Seq<u32>>, from: int, to: int) -> Seq<Seq<u32>> {
    Seq::new(planes.len(), |ch: int| planes[ch].subrange(from, to))
}

/// The whole blocks of `size` frames that frames can be cut into, from the front.
pub open spec fn blocks_of(planes: Seq<Seq<u32>>, size: nat) -> Seq<Seq<Seq<u32>>> {
    Seq::new(
        frames_of(planes) / size,
        |i: int| frames_between(planes, i * size, i * size + size),
    )
}

/// The frames that are left over when others are cut into blocks of `size`.
pub open spec fn left_over(planes: Seq<Seq<u32>>, size: nat) -> Seq<Seq<u32>> {
    later_frames(planes, frames_of(planes) / size * size)
}

/// The samples of each channel of each block.
pub open spec fn planes_of_all(blocks: Seq<Vec<Vec<u32>>>) -> Seq<Seq<Seq<u32>>> {
    blocks.map_values(|block: Vec<Vec<u32>>| planes_of(block@))
}

/// Frames that wait to be resampled until there are enough of them for a block, channel by channel.
pub struct BlockQueue {
    planes: Vec<Vec<u32>>,
}

impl View for BlockQueue {
    type V = Seq<Seq<u32>>;

    /// The waiting samples of each channel, oldest first.
    closed spec fn view(&self) -> Seq<Seq<u32>> {
        planes_of(self.planes@)
    }
}

impl BlockQueue {
    /// A queue for a number of channels, with nothing waiting.
    pub fn new(channels: usize) -> (queue: Self)
        ensures
            queue@ == no_frames(channels as nat),
    {
        let mut planes: Vec<Vec<u32>> = Vec::new();
        while planes.len() < channels
            invariant
                planes@.len() <= channels,
                forall|ch: int| 0 <= ch < planes@.len() ==> (#[trigger] planes@[ch])@.len() == 0,
            decreases channels - planes@.len(),
        {
            planes.push(Vec::new());
        }
        let queue = BlockQueue { planes };
        assert forall|ch: int| 0 <= ch < queue@.len() implies #[trigger] queue@[ch] == Seq::<
            u32,
        >::empty() by {
            assert(queue@[ch] == planes@[ch]@);
        }
        assert(queue@ =~= no_frames(channels as nat));
        queue
    }

    /// Puts frames behind the waiting ones. Frames with another number of channels are refused.
    pub fn append(&mut self, planes: &Vec<Vec<u32>>) -> (taken: bool)
        requires
            complete(planes_of(planes@)),
            even(old(self)@),
        ensures
            even(final(self)@),
            taken == (planes@.len() == old(self)@.len()),
            final(self)@ == if taken {
                extended(old(self)@, planes_of(planes@))
            } else {
                old(self)@
            },
    {
        if planes.len() != self.planes.len() {
            return false;
        }
        let ghost before = self@;
        let ghost more = planes_of(planes@);
        let mut waiting: Vec<Vec<u32>> = Vec::new();
        let frames: usize = if planes.len() == 0 {
            0
        } else {
            planes[0].len()
        };
        assert(planes@.len() > 0 ==> more[0] == planes@[0]@);
        while waiting.len() < planes.len()
            invariant
                waiting@.len() <= planes@.len(),
                planes@.len() == self.planes@.len(),
                before == planes_of(self.planes@),
                more == planes_of(planes@),
                complete(more),
                frames == frames_of(more),
                forall|ch: int|
                    0 <= ch < waiting@.len() ==> (#[trigger] waiting@[ch])@ == before[ch]
                        + more[ch].take(frames as int),
            decreases planes@.len() - waiting@.len(),
        {
            let channel: usize = waiting.len();
            assert(before[channel as int] == self.planes@[channel as int]@);
            assert(more[channel as int] == planes@[channel as int]@);
            let plane = joined(&self.planes[channel], &planes[channel], frames);
            waiting.push(plane);
        }
        self.planes = waiting;
        assert forall|ch: int| 0 <= ch < self@.len() implies #[trigger] self@[ch] == before[ch]
            + more[ch].take(frames as int) by {
            assert(self@[ch] == waiting@[ch]@);
        }
        assert(self@ =~= extended(before, more));
        assert forall|ch: int| 0 <= ch < self@.len() implies #[trigger] self@[ch].len()
            == frames_of(self@) by {
            assert(more[ch].len() >= frames && more[0].len() >= frames);
            assert(before[ch].len() == before[0].len());
            assert(self@[0] == before[0] + more[0].take(frames as int));
        }
        true
    }

    /// Takes out the first `count` waiting frames, if there are as many.
    pub fn take_block(&mut self, count: usize) -> (block: Option<Vec<Vec<u32>>>)
        requires
            even(old(self)@),
        ensures
            even(final(self)@),
            block is Some <==> 0 < count <= frames_of(old(self)@),
            match block {
                Some(planes) => {
                    &&& planes_of(planes@) == first_frames(old(self)@, count as nat)
                    &&& final(self)@ == later_frames(old(self)@, count as nat)
                },
                None => final(self)@ == old(self)@,
            },
    {
        let ghost before = self@;
        let channels = self.planes.len();
        assert(self.planes@.len() > 0 ==> before[0] == self.planes@[0]@);
        if channels == 0 || count == 0 || self.planes[0].len() < count {
            return None;
        }
        let mut block: Vec<Vec<u32>> = Vec::new();
        let mut rest: Vec<Vec<u32>> = Vec::new();
        while block.len() < channels
            invariant
                channels == self.planes@.len(),
                before == planes_of(self.planes@),
                even(before),
                count <= frames_of(before),
                block@.len() == rest@.len() <= channels,
                forall|ch: int|
                    0 <= ch < block@.len() ==> (#[trigger] block@[ch])@ == before[ch].take(
                        count as int,
                    ),
                forall|ch: int|
                    0 <= ch < rest@.len() ==> (#[trigger] rest@[ch])@ == before[ch].skip(
                        count as int,
                    ),
            decreases channels - block@.len(),
        {
            let channel: usize = block.len();
            assert(before[channel as int] == self.planes@[channel as int]@);
            assert(before[channel as int].len() == frames_of(before));
            let (head, tail) = divided(&self.planes[channel], count);
            block.push(head);
            rest.push(tail);
        }
        self.planes = rest;
        assert forall|ch: int| 0 <= ch < before.len() implies #[trigger] self@[ch]
            == before[ch].skip(count as int) by {
            assert(self@[ch] == rest@[ch]@);
        }
        assert forall|ch: int| 0 <= ch < before.len() implies #[trigger] planes_of(block@)[ch]
            == before[ch].take(count as int) by {
            assert(planes_of(block@)[ch] == block@[ch]@);
        }
        assert(planes_of(block@) =~= first_frames(before, count as nat));
        assert(self@ =~= later_frames(before, count as nat));
        assert forall|ch: int| 0 <= ch < self@.len() implies #[trigger] self@[ch].len()
            == frames_of(self@) by {
            assert(before[ch].len() == before[0].len());
            assert(self@[0] == before[0].skip(count as int));
        }
        Some(block)
    }

    /// Takes out the waiting frames in blocks of `size`, as many as there are.
    pub fn take_blocks(&mut self, size: usize) -> (blocks: Vec<Vec<Vec<u32>>>)
        requires
            even(old(self)@),
            0 < size,
        ensures
            even(final(self)@),
            planes_of_all(blocks@) == blocks_of(old(self)@, size as nat),
            final(self)@ == left_over(old(self)@, size as nat),
    {
        let ghost before = self@;
        let mut blocks: Vec<Vec<Vec<u32>>> = Vec::new();
        let ghost mut taken: int = 0;
        assert(self@ =~= later_frames(before, 0)) by {
            assert forall|ch: int| 0 <= ch < before.len() implies #[trigger] before[ch]
                == before[ch].skip(0) by {
                assert(before[ch] =~= before[ch].skip(0));
            }
        }
        assert(blocks@.len() * size == 0) by (nonlinear_arith)
            requires
                blocks@.len() == 0,
        ;
        loop
            invariant_except_break
                even(self@),
                self@ == later_frames(before, taken as nat),
            invariant
                0 < size,
                even(before),
                0 <= taken <= frames_of(before),
                taken == blocks@.len() * size,
                forall|i: int|
                    0 <= i < blocks@.len() ==> planes_of((#[trigger] blocks@[i])@)
                        == frames_between(before, i * size, i * size + size),
            ensures
                even(self@),
                self@ == later_frames(before, taken as nat),
                frames_of(before) < taken + size,
            decreases frames_of(before) - taken,
        {
            let ghost waiting = self@;
            assert(frames_of(waiting) == frames_of(before) - taken) by {
                if before.len() > 0 {
                    assert(waiting[0] == before[0].skip(taken));
                }
            }
            match self.take_block(size) {
                Some(block) => {
                    assert forall|ch: int| 0 <= ch < before.len() implies #[trigger] planes_of(
                        block@,
                    )[ch] == before[ch].subrange(taken, taken + size) by {
                        assert(before[ch].len() == frames_of(before));
                        assert(before[ch].skip(taken).take(size as int) =~= before[ch].subrange(
                            taken,
                            taken + size,
                        ));
                    }
                    assert forall|ch: int| 0 <= ch < before.len() implies #[trigger] self@[ch]
                        == before[ch].skip(taken + size) by {
                        assert(before[ch].len() == frames_of(before));
                        assert(before[ch].skip(taken).skip(size as int) =~= before[ch].skip(
                            taken + size,
                        ));
                    }
                    assert(planes_of(block@) =~= frames_between(before, taken, taken + size));
                    assert(self@ =~= later_frames(before, (taken + size) as nat));
                    assert((blocks@.len() + 1) * size == blocks@.len() * size + size)
                        by (nonlinear_arith);
                    blocks.push(block);
                    proof {
                        taken = taken + size;
                    }
                },
                None => {
                    break;
                },
            }
        }
        proof {
            lemma_fundamental_div_mod_converse(
                frames_of(before) as int,
                size as int,
                blocks@.len() as int,
                frames_of(before) - taken,
            );
        }
        assert(planes_of_all(blocks@) =~= blocks_of(before, size as nat));
        blocks
    }
}

/// A channel with the first `count` samples of another behind its own.
fn joined(first: &Vec<u32>, second: &Vec<u32>, count: usize) -> (both: Vec<u32>)
    requires
        count <= second@.len(),
    ensures
        both@ == first@ + second@.take(count as int),
{
    let mut both: Vec<u32> = Vec::new();
    let mut at: usize = 0;
    while at < first.len()
        invariant
            at <= first@.len(),
            both@ == first@.take(at as int),
        decreases first@.len() - at,
    {
        both.push(first[at]);
        at = at + 1;
        assert(first@.take(at as int) =~= first@.take(at - 1).push(first@[at - 1]));
    }
    let mut next: usize = 0;
    assert(both@ =~= first@ + second@.take(0));
    while next < count
        invariant
            next <= count <= second@.len(),
            both@ == first@ + second@.take(next as int),
        decreases count - next,
    {
        both.push(second[next]);
        next = next + 1;
        assert(first@ + second@.take(next as int) =~= (first@ + second@.take(next - 1)).push(
            second@[next - 1],
        ));
    }
    both
}

/// The first `count` samples of a channel, and those behind them.
fn divided(plane: &Vec<u32>, count: usize) -> (parts: (Vec<u32>, Vec<u32>))
    requires
        count <= plane@.len(),
    ensures
        parts.0@ == plane@.take(count as int),
        parts.1@ == plane@.skip(count as int),
{
    let none: Vec<u32> = Vec::new();
    let head = joined(&none, plane, count);
    assert(head@ =~= plane@.take(count as int));
    let mut tail: Vec<u32> = Vec::new();
    let mut at: usize = count;
    while at < plane.len()
        invariant
            count <= at <= plane@.len(),
            tail@ == plane@.subrange(count as int, at as int),
        decreases plane@.len() - at,
    {
        tail.push(plane[at]);
        at = at + 1;
        assert(plane@.subrange(count as int, at as int) =~= plane@.subrange(
            count as int,
            at - 1,
        ).push(plane@[at - 1]));
    }
    assert(tail@ =~= plane@.skip(count as int));
    (head, tail)
}

/// The samples of a channel in several blocks, one block after the other.
pub open spec fn joined_channel(blocks: Seq<Seq<Seq<u32>>>, ch: int) -> Seq<u32>
    decreases blocks.len(),
{
    if blocks.len() == 0 {
        Seq::empty()
    } else {
        joined_channel(blocks.drop_last(), ch) + blocks.last()[ch]
    }
}

/// The first blocks make up the first frames.
proof fn lemma_joined_blocks(planes: Seq<Seq<u32>>, size: nat, count: nat, ch: int)
    requires
        0 < size,
        even(planes),
        count <= frames_of(planes) / size,
        0 <= ch < planes.len(),
    ensures
        0 <= count * size <= frames_of(planes),
        joined_channel(blocks_of(planes, size).take(count as int), ch) == planes[ch].take(
            count * size as int,
        ),
    decreases count,
{
    let frames = frames_of(planes) as int;
    let step = size as int;
    assert(0 <= count * step <= frames) by (nonlinear_arith)
        requires
            0 < step,
            0 <= frames,
            0 <= count <= frames / step,
    ;
    assert(planes[ch].len() == frames);
    let taken = blocks_of(planes, size).take(count as int);
    if count == 0 {
        assert(count * step == 0) by (nonlinear_arith)
            requires
                count == 0,
        ;
        assert(taken =~= Seq::empty());
        assert(planes[ch].take(0) =~= Seq::empty());
    } else {
        let fewer = (count - 1) as nat;
        lemma_joined_blocks(planes, size, fewer, ch);
        assert(fewer * step + step == count * step) by (nonlinear_arith)
            requires
                fewer == count - 1,
        ;
        assert(taken.drop_last() =~= blocks_of(planes, size).take(fewer as int));
        assert(taken.last() == frames_between(planes, fewer * step, fewer * step + step));
        assert(planes[ch].take(count * step) =~= planes[ch].take(fewer * step)
            + planes[ch].subrange(fewer * step, fewer * step + step));
    }
}

/// Cutting frames into blocks loses nothing and keeps their order: the blocks, one after the other,
/// and what is left over make up what there was. Every block has its full size and fewer frames than
/// a block are left over.
pub proof fn blocks_lose_nothing(planes: Seq<Seq<u32>>, size: nat, ch: int)
    requires
        0 < size,
        even(planes),
        0 <= ch < planes.len(),
    ensures
        joined_channel(blocks_of(planes, size), ch) + left_over(planes, size)[ch] == planes[ch],
        forall|i: int|
            0 <= i < blocks_of(planes, size).len() ==> (#[trigger] blocks_of(
                planes,
                size,
            )[i])[ch].len() == size,
        left_over(planes, size)[ch].len() < size,
{
    let frames = frames_of(planes) as int;
    let step = size as int;
    let count = frames_of(planes) / size;
    assert(planes[ch].len() == frames);
    lemma_joined_blocks(planes, size, count, ch);
    assert(blocks_of(planes, size).take(count as int) =~= blocks_of(planes, size));
    assert(planes[ch].take(count * step) + planes[ch].skip(count * step) =~= planes[ch]);
    assert(frames < count * step + step) by (nonlinear_arith)
        requires
            0 < step,
            0 <= frames,
            count == frames / step,
    ;
    assert forall|i: int| 0 <= i < blocks_of(planes, size).len() implies (#[trigger] blocks_of(
        planes,
        size,
    )[i])[ch].len() == size by {
        assert(0 <= i * step && i * step + step <= frames) by (nonlinear_arith)
            requires
                0 < step,
                0 <= i < frames / step,
        ;
    }
}

/// Frames extended by frames with as many channels: their number, and that they stay even.
proof fn lemma_extended(planes: Seq<Seq<u32>>, more: Seq<Seq<u32>>)
    requires
        even(planes),
        complete(more),
        more.len() == planes.len(),
    ensures
        even(extended(planes, more)),
        frames_of(extended(planes, more)) == frames_of(planes) + frames_of(more),
{
    let all = extended(planes, more);
    assert forall|ch: int| 0 <= ch < all.len() implies #[trigger] all[ch].len() == frames_of(planes)
        + frames_of(more) by {
        assert(planes[ch].len() == frames_of(planes));
        assert(more[ch].len() >= frames_of(more));
    }
    if all.len() > 0 {
        assert(all[0].len() == frames_of(planes) + frames_of(more));
    }
}

/// Cutting can be done before the last frames come: what is left over then is cut with them.
proof fn lemma_cut_early(planes: Seq<Seq<u32>>, more: Seq<Seq<u32>>, size: nat)
    requires
        0 < size,
        even(planes),
        complete(more),
        more.len() == planes.len(),
    ensures
        even(left_over(planes, size)),
        blocks_of(extended(planes, more), size) == blocks_of(planes, size) + blocks_of(
            extended(left_over(planes, size), more),
            size,
        ),
        left_over(extended(planes, more), size) == left_over(
            extended(left_over(planes, size), more),
            size,
        ),
{
    let step = size as int;
    let all = extended(planes, more);
    let rest = left_over(planes, size);
    let late = extended(rest, more);
    let count = (frames_of(planes) / size) as int;
    let cut = count * step;
    lemma_extended(planes, more);
    assert(0 <= cut <= frames_of(planes)) by (nonlinear_arith)
        requires
            0 < step,
            cut == count * step,
            count == frames_of(planes) as int / step,
            0 <= frames_of(planes),
    ;
    assert forall|ch: int| 0 <= ch < rest.len() implies #[trigger] rest[ch].len() == frames_of(
        planes,
    ) - cut by {
        assert(planes[ch].len() == frames_of(planes));
    }
    assert(planes.len() > 0 ==> frames_of(rest) == frames_of(planes) - cut) by {
        if planes.len() > 0 {
            assert(rest[0].len() == frames_of(planes) - cut);
        }
    }
    lemma_extended(rest, more);
    if planes.len() == 0 {
        assert(all =~= planes);
        assert(late =~= planes);
        assert(frames_of(planes) == 0);
        assert(0nat / size == 0) by (nonlinear_arith)
            requires
                0 < size,
        ;
        assert(blocks_of(all, size) =~= blocks_of(planes, size) + blocks_of(late, size));
        assert(left_over(all, size) =~= left_over(late, size));
    } else {
        let later = (frames_of(late) / size) as int;
        assert forall|ch: int| 0 <= ch < planes.len() implies #[trigger] late[ch] == all[ch].skip(
            cut,
        ) by {
            assert(planes[ch].len() == frames_of(planes));
            assert(late[ch] =~= all[ch].skip(cut));
        }
        let remainder = frames_of(late) - later * step;
        assert(0 <= remainder < step && 0 <= later) by (nonlinear_arith)
            requires
                0 < step,
                later == frames_of(late) as int / step,
                remainder == frames_of(late) - later * step,
                0 <= frames_of(late),
        ;
        assert((count + later) * step == cut + later * step) by (nonlinear_arith)
            requires
                cut == count * step,
        ;
        lemma_fundamental_div_mod_converse(
            frames_of(all) as int,
            step,
            count + later,
            remainder,
        );
        assert forall|i: int| 0 <= i < count + later implies #[trigger] blocks_of(all, size)[i]
            == (blocks_of(planes, size) + blocks_of(late, size))[i] by {
            if i < count {
                assert(0 <= i * step && i * step + step <= cut) by (nonlinear_arith)
                    requires
                        0 < step,
                        0 <= i < count,
                        cut == count * step,
                ;
                assert forall|ch: int| 0 <= ch < planes.len() implies #[trigger] blocks_of(
                    all,
                    size,
                )[i][ch] == blocks_of(planes, size)[i][ch] by {
                    assert(planes[ch].len() == frames_of(planes));
                    assert(all[ch].subrange(i * step, i * step + step) =~= planes[ch].subrange(
                        i * step,
                        i * step + step,
                    ));
                }
                assert(blocks_of(all, size)[i] =~= blocks_of(planes, size)[i]);
            } else {
                let j = i - count;
                assert(i * step == cut + j * step && 0 <= j * step) by (nonlinear_arith)
                    requires
                        j == i - count,
                        0 <= j,
                        0 < step,
                        cut == count * step,
                ;
                assert(j * step + step <= frames_of(late)) by (nonlinear_arith)
                    requires
                        0 <= j < later,
                        0 < step,
                        later == frames_of(late) as int / step,
                        0 <= frames_of(late),
                ;
                assert forall|ch: int| 0 <= ch < planes.len() implies #[trigger] blocks_of(
                    all,
                    size,
                )[i][ch] == blocks_of(late, size)[j][ch] by {
                    assert(late[ch] == all[ch].skip(cut));
                    assert(late[ch].len() == frames_of(late));
                    assert(all[ch].subrange(i * step, i * step + step) =~= late[ch].subrange(
                        j * step,
                        j * step + step,
                    ));
                }
                assert(blocks_of(all, size)[i] =~= blocks_of(late, size)[j]);
            }
        }
        assert(blocks_of(all, size) =~= blocks_of(planes, size) + blocks_of(late, size));
        assert forall|ch: int| 0 <= ch < planes.len() implies #[trigger] left_over(all, size)[ch]
            == left_over(late, size)[ch] by {
            assert(late[ch] == all[ch].skip(cut));
            assert(late[ch].len() == frames_of(late));
            assert(all[ch].skip(cut + later * step) =~= late[ch].skip(later * step));
        }
        assert(left_over(all, size) =~= left_over(late, size));
    }
}

/// Waiting frames and all that came behind them.
pub open spec fn whole_stream(waiting: Seq<Seq<u32>>, came: Seq<Seq<Seq<u32>>>) -> Seq<Seq<u32>>
    decreases came.len(),
{
    if came.len() == 0 {
        waiting
    } else {
        extended(whole_stream(waiting, came.drop_last()), came.last())
    }
}

/// What still waits after frames came one after the other and blocks were taken each time.
pub open spec fn still_waiting(
    waiting: Seq<Seq<u32>>,
    came: Seq<Seq<Seq<u32>>>,
    size: nat,
) -> Seq<Seq<u32>>
    decreases came.len(),
{
    if came.len() == 0 {
        waiting
    } else {
        left_over(extended(still_waiting(waiting, came.drop_last(), size), came.last()), size)
    }
}

/// The blocks that were taken in all when frames came one after the other.
pub open spec fn blocks_taken(
    waiting: Seq<Seq<u32>>,
    came: Seq<Seq<Seq<u32>>>,
    size: nat,
) -> Seq<Seq<Seq<u32>>>
    decreases came.len(),
{
    if came.len() == 0 {
        Seq::empty()
    } else {
        blocks_taken(waiting, came.drop_last(), size) + blocks_of(
            extended(still_waiting(waiting, came.drop_last(), size), came.last()),
            size,
        )
    }
}

/// However the frames come, the blocks are cut from the stream they make up: in all, the blocks that
/// were taken are those of the whole stream, and what still waits is what the whole stream leaves
/// over. So the blocks, one after the other, and what still waits make up all that came, in order.
pub proof fn blocks_are_cut_from_the_whole_stream(
    waiting: Seq<Seq<u32>>,
    came: Seq<Seq<Seq<u32>>>,
    size: nat,
)
    requires
        even(waiting),
        frames_of(waiting) < size,
        forall|i: int|
            0 <= i < came.len() ==> complete(#[trigger] came[i]) && came[i].len() == waiting.len(),
    ensures
        blocks_taken(waiting, came, size) == blocks_of(whole_stream(waiting, came), size),
        still_waiting(waiting, came, size) == left_over(whole_stream(waiting, came), size),
        forall|ch: int|
            0 <= ch < waiting.len() ==> #[trigger] whole_stream(waiting, came)[ch]
                == joined_channel(blocks_taken(waiting, came, size), ch) + still_waiting(
                waiting,
                came,
                size,
            )[ch],
        even(whole_stream(waiting, came)),
        whole_stream(waiting, came).len() == waiting.len(),
    decreases came.len(),
{
    let stream = whole_stream(waiting, came);
    if came.len() == 0 {
        assert(frames_of(waiting) / size == 0) by (nonlinear_arith)
            requires
                0 <= frames_of(waiting) < size,
        ;
        assert(blocks_of(waiting, size) =~= Seq::empty());
        assert forall|ch: int| 0 <= ch < waiting.len() implies #[trigger] left_over(waiting, size)[ch]
            == waiting[ch] by {
            assert(waiting[ch].skip(0) =~= waiting[ch]);
        }
        assert(left_over(waiting, size) =~= waiting);
    } else {
        let earlier = came.drop_last();
        assert forall|i: int| 0 <= i < earlier.len() implies complete(#[trigger] earlier[i])
            && earlier[i].len() == waiting.len() by {
            assert(earlier[i] == came[i]);
        }
        blocks_are_cut_from_the_whole_stream(waiting, earlier, size);
        assert(came.last() == came[came.len() - 1]);
        let before = whole_stream(waiting, earlier);
        lemma_extended(before, came.last());
        lemma_cut_early(before, came.last(), size);
    }
    assert forall|ch: int| 0 <= ch < waiting.len() implies #[trigger] stream[ch] == joined_channel(
        blocks_taken(waiting, came, size),
        ch,
    ) + still_waiting(waiting, came, size)[ch] by {
        blocks_lose_nothing(stream, size, ch);
    }
}

/// Interleaving puts the sample of channel `ch` in frame `i` at position `i * channels + ch`.
pub proof fn interleaved_position(planes: Seq<Seq<u32>>, i: int, ch: int)
    requires
        0 <= i < frames_of(planes),
        0 <= ch < planes.len(),
    ensures
        0 <= i * planes.len() + ch < interleaved(planes).len(),
        interleaved(planes)[i * planes.len() + ch] == planes[ch][i],
{
    let channels = planes.len() as int;
    let frames = frames_of(planes) as int;
    lemma_fundamental_div_mod_converse(i * channels + ch, channels, i, ch);
    assert(0 <= i * channels + ch < frames * channels) by (nonlinear_arith)
        requires
            0 <= i < frames,
            0 <= ch < channels,
    ;
}

/// Interleaving loses nothing: frames of the same shape that interleave to the same samples have
/// the same channels.
pub proof fn interleaving_is_lossless(a: Seq<Seq<u32>>, b: Seq<Seq<u32>>)
    requires
        a.len() == b.len(),
        forall|ch: int| 0 <= ch < a.len() ==> #[trigger] a[ch].len() == frames_of(a),
        forall|ch: int| 0 <= ch < b.len() ==> #[trigger] b[ch].len() == frames_of(a),
        interleaved(a) == interleaved(b),
    ensures
        a == b,
{
    assert forall|ch: int| 0 <= ch < a.len() implies #[trigger] a[ch] == b[ch] by {
        assert(a[ch].len() == b[ch].len());
        assert(b[0].len() == frames_of(a));
        assert forall|i: int| 0 <= i < a[ch].len() implies #[trigger] a[ch][i] == b[ch][i] by {
            interleaved_position(a, i, ch);
            interleaved_position(b, i, ch);
        }
        assert(a[ch] =~= b[ch]);
    }
    assert(a =~= b);
}

} // verus!
