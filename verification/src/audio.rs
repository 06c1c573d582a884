use vstd::prelude::*;

use crate::gradient::{can_paint_gradient, draw_weird_gradient, painted_byte, painter_height, painter_pitch, painter_width};
use crate::platform_interop::{GameOffscreenBuffer, GameSoundBuffer};

verus! {

/// Frequency in hertz of the tone that the game plays.
pub const TONE_HZ: u32 = 250;

/// `new` is `old` with its first `frames` stereo frames set: both samples of
/// frame `k` are `tone[first + k]`; every later sample is unchanged.
pub open spec fn stereo_frames_written(
    new: Seq<i16>,
    old: Seq<i16>,
    tone: Seq<i16>,
    first: int,
    frames: int,
) -> bool {
    &&& new.len() == old.len()
    &&& forall|k: int|
        0 <= k < frames ==> #[trigger] new[2 * k] == tone[first + k] && new[2 * k + 1] == tone[first
            + k]
    &&& forall|i: int| 2 * frames <= i < new.len() ==> #[trigger] new[i] == old[i]
}

/// Writes `frames` stereo frames into `memory`, both channels of frame `k`
/// carrying the sample `tone[first + k]`.
pub fn write_stereo_frames(memory: &mut Vec<i16>, tone: &Vec<i16>, first: usize, frames: usize)
    requires
        2 * frames <= old(memory)@.len(),
        first + frames <= tone@.len(),
    ensures
        stereo_frames_written(final(memory)@, old(memory)@, tone@, first as int, frames as int),
{
    let memory_len: usize = memory.len();
    let tone_len: usize = tone.len();
    let mut k: usize = 0;
    while k < frames
        invariant
            0 <= k <= frames,
            memory_len == memory@.len(),
            tone_len == tone@.len(),
            2 * frames <= memory@.len(),
            first + frames <= tone@.len(),
            memory@.len() == old(memory)@.len(),
            forall|j: int|
                0 <= j < k ==> #[trigger] memory@[2 * j] == tone@[first + j] && memory@[2 * j + 1]
                    == tone@[first + j],
            forall|i: int| 2 * k <= i < memory@.len() ==> #[trigger] memory@[i] == old(memory)@[i],
        decreases frames - k,
    {
        let sample: i16 = tone[first + k];
        let ghost prev = memory@;
        memory[2 * k] = sample;
        memory[2 * k + 1] = sample;
        proof {
            assert forall|j: int| 0 <= j < k + 1 implies #[trigger] memory@[2 * j] == tone@[first
                + j] && memory@[2 * j + 1] == tone@[first + j] by {
                if j < k {
                    assert(memory@[2 * j] == prev[2 * j]);
                    assert(memory@[2 * j + 1] == prev[2 * j + 1]);
                }
            }
        }
        k = k + 1;
    }
}

/// Number of samples in one period of the game's tone.
pub fn tone_period_in_samples(sample_frequency: u32) -> (period: u32)
    ensures
        period == sample_frequency / TONE_HZ,
{
    sample_frequency / TONE_HZ
}

/// What the game needs of a sound buffer and the tone samples for it: room
/// for `sample_count` stereo frames, and as many samples.
pub open spec fn can_fill_sound(sound_buffer: GameSoundBuffer, tone: Seq<i16>) -> bool {
    &&& 2 * sound_buffer.sample_count <= sound_buffer.memory@.len()
    &&& sound_buffer.sample_count <= tone.len()
}

/// Fills the `sample_count` frames of `sound_buffer` with the tone: both
/// channels of frame `k` get `tone[k]`.
pub fn fill_sound_buffer(sound_buffer: &mut GameSoundBuffer, tone: &Vec<i16>)
    requires
        can_fill_sound(*old(sound_buffer), tone@),
    ensures
        final(sound_buffer).sample_count == old(sound_buffer).sample_count,
        final(sound_buffer).sample_frequency == old(sound_buffer).sample_frequency,
        stereo_frames_written(
            final(sound_buffer).memory@,
            old(sound_buffer).memory@,
            tone@,
            0,
            old(sound_buffer).sample_count as int,
        ),
{
    let frames: usize = sound_buffer.sample_count as usize;
    write_stereo_frames(&mut sound_buffer.memory, tone, 0, frames);
}

/// One frame of the game: the tone goes into `sound_buffer`, then the
/// gradient, scrolled by the offsets, is painted into `offscreen_buffer`.
pub fn game_update_and_render(
    offscreen_buffer: &mut GameOffscreenBuffer,
    x_offset: i16,
    y_offset: i16,
    sound_buffer: &mut GameSoundBuffer,
    tone: &Vec<i16>,
)
    requires
        can_fill_sound(*old(sound_buffer), tone@),
        can_paint_gradient(*old(offscreen_buffer), y_offset),
    ensures
        final(sound_buffer).sample_count == old(sound_buffer).sample_count,
        final(sound_buffer).sample_frequency == old(sound_buffer).sample_frequency,
        stereo_frames_written(
            final(sound_buffer).memory@,
            old(sound_buffer).memory@,
            tone@,
            0,
            old(sound_buffer).sample_count as int,
        ),
        final(offscreen_buffer).width == old(offscreen_buffer).width,
        final(offscreen_buffer).height == old(offscreen_buffer).height,
        final(offscreen_buffer).bytes_per_pixel == old(offscreen_buffer).bytes_per_pixel,
        final(offscreen_buffer).memory@.len() == old(offscreen_buffer).memory@.len(),
        forall|i: int|
            0 <= i < old(offscreen_buffer).memory@.len() ==> #[trigger] final(offscreen_buffer).memory@[i] == painted_byte(
                old(offscreen_buffer).memory@[i],
                i,
                painter_width(*old(offscreen_buffer)),
                painter_height(*old(offscreen_buffer)),
                painter_pitch(*old(offscreen_buffer)),
                x_offset as int,
                y_offset as int,
            ),
{
    fill_sound_buffer(sound_buffer, tone);
    draw_weird_gradient(offscreen_buffer, x_offset, y_offset);
}

/// Reading back a written stereo buffer: frame `k` holds the 16-bit tone
/// sample `tone[first + k]` unchanged, for every sample value, on the left
/// and on the right channel alike; samples after the written frames keep
/// their old values, and the buffer keeps its length.
pub proof fn lemma_written_frames_read_back(
    new: Seq<i16>,
    old: Seq<i16>,
    tone: Seq<i16>,
    first: int,
    frames: int,
    k: int,
    i: int,
)
    requires
        stereo_frames_written(new, old, tone, first, frames),
    ensures
        new.len() == old.len(),
        0 <= k < frames ==> new[2 * k] == tone[first + k],
        0 <= k < frames ==> new[2 * k + 1] == tone[first + k],
        0 <= k < frames ==> new[2 * k] == new[2 * k + 1],
        2 * frames <= i < new.len() ==> new[i] == old[i],
{
    if 0 <= k < frames {
        assert(new[2 * k] == tone[first + k]);
    }
    if 2 * frames <= i < new.len() {
        assert(new[i] == old[i]);
    }
}

/// After the game fills its sound buffer, frame `k` of the buffer, for
/// every `k` below the sample count, carries `tone[k]` on both channels.
pub proof fn lemma_filled_buffer_carries_tone(
    new: Seq<i16>,
    old: Seq<i16>,
    tone: Seq<i16>,
    sample_count: int,
    k: int,
)
    requires
        stereo_frames_written(new, old, tone, 0, sample_count),
        0 <= k < sample_count,
    ensures
        new[2 * k] == tone[k],
        new[2 * k + 1] == tone[k],
{
    lemma_written_frames_read_back(new, old, tone, 0, sample_count, k, 0);
}

} // verus!
