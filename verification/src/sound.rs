use vstd::prelude::*;

use vstd::arithmetic::div_mod::{
    lemma_fundamental_div_mod, lemma_fundamental_div_mod_converse, lemma_mod_multiples_vanish,
    lemma_small_mod,
};

use crate::audio::{stereo_frames_written, write_stereo_frames};

verus! {

/// Number of distinct values of a 32-bit counter.
pub open spec fn counter_range() -> int {
    0x1_0000_0000
}

/// The state of the looping sound buffer that the platform layer streams
/// the tone into. `wave_sample_index` counts the frames written so far,
/// modulo 2^32; the ring buffer holds one second of sound.
pub struct Win32SoundOutput {
    pub playing_audio: bool,
    pub wave_sample_index: u32,
    pub sound_wave_hz: u32,
    pub sound_wave_volume: i32,
    pub sound_buffer_bytes_per_sample: u32,
    pub sound_buffer_sample_frequency: u32,
    pub latency_sample_count: u32,
}

/// The part of the ring buffer to refill: `bytes_to_write` bytes from
/// `byte_to_lock` on, wrapping round at the end of the buffer.
pub struct SoundWriteRegion {
    pub byte_to_lock: u32,
    pub bytes_to_write: u32,
}

/// The PCM format of the sound buffer.
pub struct WaveFormat {
    pub format_tag: u16,
    pub channels: u16,
    pub samples_per_sec: u32,
    pub avg_bytes_per_sec: u32,
    pub block_align: u16,
    pub bits_per_sample: u16,
    pub cb_size: u16,
}

/// The format tag of uncompressed PCM sound.
pub const WAVE_FORMAT_PCM: u16 = 1;

/// Byte of the ring buffer, `size` bytes long, at which frame number `index`
/// starts when frames are `bytes_per_sample` bytes: the byte count is taken
/// modulo 2^32 first, as a 32-bit counter holds it.
pub open spec fn ring_byte_of_frame(index: int, bytes_per_sample: int, size: int) -> int {
    ((index * bytes_per_sample) % counter_range()) % size
}

/// The byte of the ring buffer that the refill should reach: `latency_bytes`
/// ahead of the play cursor.
pub open spec fn ring_target(play_cursor: int, latency_bytes: int, size: int) -> int {
    (play_cursor + latency_bytes) % size
}

/// Distance in bytes from `from` forward to `to` round a ring of `size` bytes.
pub open spec fn ring_distance(from: int, to: int, size: int) -> int {
    (to - from) % size
}

impl Win32SoundOutput {
    /// Size in bytes of the ring buffer: one second of sound.
    pub open spec fn spec_buffer_bytes(self) -> int {
        self.sound_buffer_sample_frequency * self.sound_buffer_bytes_per_sample
    }

    /// Bytes that the refill keeps ahead of the play cursor.
    pub open spec fn spec_latency_bytes(self) -> int {
        self.latency_sample_count * self.sound_buffer_bytes_per_sample
    }

    /// The stream parameters the platform layer starts with: a 256 Hz tone
    /// at volume 1000, 48 kHz 16-bit stereo, kept a fifteenth of a second
    /// ahead of the play cursor, not yet playing.
    pub fn new() -> (output: Self)
        ensures
            !output.playing_audio,
            output.wave_sample_index == 0,
            output.sound_wave_hz == 256,
            output.sound_wave_volume == 1000,
            output.sound_buffer_bytes_per_sample == 4,
            output.sound_buffer_sample_frequency == 48000,
            output.latency_sample_count == 48000int / 15,
    {
        Win32SoundOutput {
            playing_audio: false,
            wave_sample_index: 0,
            sound_wave_hz: 256,
            sound_wave_volume: 1000,
            sound_buffer_bytes_per_sample: 4,
            sound_buffer_sample_frequency: 48000,
            latency_sample_count: 48000 / 15,
        }
    }

    /// Number of samples in one period of the tone.
    pub fn sound_wave_period_in_samples(&self) -> (period: u32)
        requires
            self.sound_wave_hz > 0,
        ensures
            period == self.sound_buffer_sample_frequency / self.sound_wave_hz,
    {
        self.sound_buffer_sample_frequency / self.sound_wave_hz
    }

    /// Size in bytes of the ring buffer.
    pub fn buffer_bytes_count(&self) -> (count: u32)
        requires
            self.spec_buffer_bytes() <= u32::MAX,
        ensures
            count == self.spec_buffer_bytes(),
    {
        self.sound_buffer_sample_frequency * self.sound_buffer_bytes_per_sample
    }

    /// Bytes written ahead of the play cursor; also what is written before
    /// playback starts.
    pub fn latency_bytes(&self) -> (count: u32)
        requires
            self.spec_latency_bytes() <= u32::MAX,
        ensures
            count == self.spec_latency_bytes(),
    {
        self.latency_sample_count * self.sound_buffer_bytes_per_sample
    }

    /// What the refill needs: a non-empty ring buffer whose size, the
    /// latency in bytes, and the target byte all fit in 32 bits.
    pub open spec fn can_plan_write(self, play_cursor: u32) -> bool {
        &&& 0 < self.spec_buffer_bytes() <= u32::MAX
        &&& play_cursor + self.spec_latency_bytes() <= u32::MAX
    }

    /// The region to refill, given where the sound card is playing: from
    /// the byte after the last frame written, forward round the ring to the
    /// byte `latency_bytes` ahead of `play_cursor`.
    pub fn sound_write_region(&self, play_cursor: u32) -> (region: SoundWriteRegion)
        requires
            self.can_plan_write(play_cursor),
        ensures
            region.byte_to_lock == ring_byte_of_frame(
                self.wave_sample_index as int,
                self.sound_buffer_bytes_per_sample as int,
                self.spec_buffer_bytes(),
            ),
            region.bytes_to_write == ring_distance(
                region.byte_to_lock as int,
                ring_target(play_cursor as int, self.spec_latency_bytes(), self.spec_buffer_bytes()),
                self.spec_buffer_bytes(),
            ),
            region.byte_to_lock < self.spec_buffer_bytes(),
            region.bytes_to_write < self.spec_buffer_bytes(),
            (region.byte_to_lock + region.bytes_to_write) % self.spec_buffer_bytes() == ring_target(
                play_cursor as int,
                self.spec_latency_bytes(),
                self.spec_buffer_bytes(),
            ),
    {
        let size: u32 = self.buffer_bytes_count();
        let bytes_written: u32 = self.wave_sample_index.wrapping_mul(
            self.sound_buffer_bytes_per_sample,
        );
        let byte_to_lock: u32 = bytes_written % size;
        let latency: u32 = self.latency_bytes();
        let target_cursor: u32 = (play_cursor + latency) % size;
        let bytes_to_write: u32 = if byte_to_lock > target_cursor {
            (size - byte_to_lock) + target_cursor
        } else {
            target_cursor - byte_to_lock
        };
        proof {
            let s = size as int;
            let l = byte_to_lock as int;
            let t = target_cursor as int;
            if l > t {
                assert((t - l) % s == t - l + s) by (nonlinear_arith)
                    requires
                        0 <= t < l < s,
                ;
            } else {
                assert((t - l) % s == t - l) by (nonlinear_arith)
                    requires
                        0 <= l <= t < s,
                ;
            }
            assert((l + bytes_to_write) % s == t) by (nonlinear_arith)
                requires
                    0 <= t < s,
                    l + bytes_to_write == t || l + bytes_to_write == t + s,
            ;
        }
        SoundWriteRegion { byte_to_lock, bytes_to_write }
    }

    /// The format the sound buffer is created with: 16-bit stereo PCM at
    /// the output's sample frequency.
    pub fn wave_format(&self) -> (format: WaveFormat)
        requires
            self.sound_buffer_sample_frequency * 4 <= u32::MAX,
        ensures
            format.format_tag == WAVE_FORMAT_PCM,
            format.channels == 2,
            format.samples_per_sec == self.sound_buffer_sample_frequency,
            format.bits_per_sample == 16,
            format.block_align == 4,
            format.avg_bytes_per_sec == self.sound_buffer_sample_frequency * 4,
            format.cb_size == 0,
    {
        let channels: u16 = 2;
        let bits_per_sample: u16 = 16;
        let block_align: u16 = (channels * bits_per_sample) / 8;
        WaveFormat {
            format_tag: WAVE_FORMAT_PCM,
            channels,
            samples_per_sec: self.sound_buffer_sample_frequency,
            avg_bytes_per_sec: self.sound_buffer_sample_frequency * (block_align as u32),
            block_align,
            bits_per_sample,
            cb_size: 0,
        }
    }

    /// Marks the sound as playing; returns whether it was not playing before,
    /// that is, whether playback has to be started now.
    pub fn start_playback(&mut self) -> (must_start: bool)
        ensures
            must_start == !old(self).playing_audio,
            final(self).playing_audio,
            final(self).wave_sample_index == old(self).wave_sample_index,
            final(self).sound_wave_hz == old(self).sound_wave_hz,
            final(self).sound_wave_volume == old(self).sound_wave_volume,
            final(self).sound_buffer_bytes_per_sample == old(self).sound_buffer_bytes_per_sample,
            final(self).sound_buffer_sample_frequency == old(self).sound_buffer_sample_frequency,
            final(self).latency_sample_count == old(self).latency_sample_count,
    {
        if !self.playing_audio {
            self.playing_audio = true;
            true
        } else {
            false
        }
    }
}

/// Number of whole frames that fit in a section of `section_bytes` bytes.
pub fn section_frame_count(section_bytes: u32, bytes_per_sample: u32) -> (frames: u32)
    requires
        bytes_per_sample > 0,
    ensures
        frames == section_bytes / bytes_per_sample,
{
    section_bytes / bytes_per_sample
}

/// What refilling two locked sections needs: a positive frame size, room in
/// each section's samples for its whole frames, and a tone sample for every
/// frame of both.
pub open spec fn can_fill_sections(
    sound_output: Win32SoundOutput,
    section_1: Seq<i16>,
    section_1_size: u32,
    section_2: Seq<i16>,
    section_2_size: u32,
    tone: Seq<i16>,
) -> bool {
    let bps = sound_output.sound_buffer_bytes_per_sample;
    &&& bps > 0
    &&& 2 * (section_1_size / bps) <= section_1.len()
    &&& 2 * (section_2_size / bps) <= section_2.len()
    &&& section_1_size / bps + section_2_size / bps <= tone.len()
}

/// Streams the tone into the two sections of the ring buffer that a lock
/// handed out: the first section gets the first whole frames of `tone`, the
/// second the ones after; both channels of a frame carry the same sample.
/// The frame counter moves on by the number of frames written, modulo 2^32.
pub fn win32_fill_sound_buffer(
    sound_output: &mut Win32SoundOutput,
    section_1: &mut Vec<i16>,
    section_1_size: u32,
    section_2: &mut Vec<i16>,
    section_2_size: u32,
    tone: &Vec<i16>,
)
    requires
        can_fill_sections(
            *old(sound_output),
            old(section_1)@,
            section_1_size,
            old(section_2)@,
            section_2_size,
            tone@,
        ),
    ensures
        ({
            let bps = old(sound_output).sound_buffer_bytes_per_sample;
            let frames_1 = section_1_size / bps;
            let frames_2 = section_2_size / bps;
            &&& stereo_frames_written(final(section_1)@, old(section_1)@, tone@, 0, frames_1 as int)
            &&& stereo_frames_written(
                final(section_2)@,
                old(section_2)@,
                tone@,
                frames_1 as int,
                frames_2 as int,
            )
            &&& final(sound_output).wave_sample_index == (old(sound_output).wave_sample_index
                + frames_1 + frames_2) % counter_range()
        }),
        final(sound_output).playing_audio == old(sound_output).playing_audio,
        final(sound_output).sound_wave_hz == old(sound_output).sound_wave_hz,
        final(sound_output).sound_wave_volume == old(sound_output).sound_wave_volume,
        final(sound_output).sound_buffer_bytes_per_sample == old(
            sound_output,
        ).sound_buffer_bytes_per_sample,
        final(sound_output).sound_buffer_sample_frequency == old(
            sound_output,
        ).sound_buffer_sample_frequency,
        final(sound_output).latency_sample_count == old(sound_output).latency_sample_count,
{
    let bps: u32 = sound_output.sound_buffer_bytes_per_sample;
    let frames_1: u32 = section_frame_count(section_1_size, bps);
    let frames_2: u32 = section_frame_count(section_2_size, bps);
    write_stereo_frames(section_1, tone, 0, frames_1 as usize);
    write_stereo_frames(section_2, tone, frames_1 as usize, frames_2 as usize);
    let index: u32 = sound_output.wave_sample_index.wrapping_add(frames_1);
    sound_output.wave_sample_index = index.wrapping_add(frames_2);
}

/// `x` is `q` times `b`: its remainder by `b` is zero and its quotient `q`.
proof fn lemma_multiple(x: int, q: int, b: int)
    requires
        b > 0,
        x == q * b,
    ensures
        x % b == 0,
        x / b == q,
{
    lemma_fundamental_div_mod_converse(x, b, q, 0);
}

/// A multiple of `b` reduced modulo a multiple of `b` stays a multiple of `b`.
proof fn lemma_remainder_keeps_multiple(a: int, s: int, b: int)
    requires
        b > 0,
        s > 0,
        a % b == 0,
        s % b == 0,
    ensures
        (a % s) % b == 0,
{
    lemma_fundamental_div_mod(a, b);
    lemma_fundamental_div_mod(s, b);
    lemma_fundamental_div_mod(a, s);
    let x = a / b;
    let y = s / b;
    let q = a / s;
    assert(a % s == (x - y * q) * b) by (nonlinear_arith)
        requires
            a == b * x + 0,
            s == b * y + 0,
            a == s * q + a % s,
    ;
    lemma_multiple(a % s, x - y * q, b);
}

/// Streaming keeps the ring buffer contiguous: when the region planned by
/// `sound_write_region` is refilled in two sections split at a frame
/// boundary, and the frame counter moves on by the frames written, the next
/// region starts exactly at the target byte of this one. This holds when
/// the play cursor sits on a frame boundary and the byte count of the frame
/// counter has not passed 2^32.
pub proof fn lemma_refill_continues_at_target(
    output: Win32SoundOutput,
    play_cursor: u32,
    section_1_size: u32,
    section_2_size: u32,
)
    requires
        output.can_plan_write(play_cursor),
        output.sound_buffer_bytes_per_sample > 0,
        play_cursor % output.sound_buffer_bytes_per_sample == 0,
        section_1_size % output.sound_buffer_bytes_per_sample == 0,
        section_1_size + section_2_size == ring_distance(
            ring_byte_of_frame(
                output.wave_sample_index as int,
                output.sound_buffer_bytes_per_sample as int,
                output.spec_buffer_bytes(),
            ),
            ring_target(play_cursor as int, output.spec_latency_bytes(), output.spec_buffer_bytes()),
            output.spec_buffer_bytes(),
        ),
        output.wave_sample_index * output.sound_buffer_bytes_per_sample + section_1_size
            + section_2_size < counter_range(),
    ensures
        ring_byte_of_frame(
            (output.wave_sample_index + section_1_size / output.sound_buffer_bytes_per_sample
                + section_2_size / output.sound_buffer_bytes_per_sample) % counter_range(),
            output.sound_buffer_bytes_per_sample as int,
            output.spec_buffer_bytes(),
        ) == ring_target(play_cursor as int, output.spec_latency_bytes(), output.spec_buffer_bytes()),
{
    let b = output.sound_buffer_bytes_per_sample as int;
    let size = output.spec_buffer_bytes();
    let idx = output.wave_sample_index as int;
    let p = play_cursor as int;
    let lat = output.spec_latency_bytes();
    let s1 = section_1_size as int;
    let s2 = section_2_size as int;
    let written = idx * b;
    let lock = ring_byte_of_frame(idx, b, size);
    let target = ring_target(p, lat, size);
    let d = ring_distance(lock, target, size);
    assert(0 <= written) by (nonlinear_arith)
        requires
            idx >= 0,
            b > 0,
            written == idx * b,
    ;
    lemma_small_mod(written as nat, counter_range() as nat);
    assert(lock == written % size);
    // Every position involved is a whole number of frames.
    lemma_multiple(size, output.sound_buffer_sample_frequency as int, b);
    lemma_multiple(written, idx, b);
    lemma_remainder_keeps_multiple(written, size, b);
    lemma_fundamental_div_mod(p, b);
    assert(p + lat == (p / b + output.latency_sample_count) * b) by (nonlinear_arith)
        requires
            p == b * (p / b) + 0,
            lat == output.latency_sample_count * b,
    ;
    lemma_multiple(p + lat, p / b + output.latency_sample_count, b);
    lemma_remainder_keeps_multiple(p + lat, size, b);
    let lq = lock / b;
    let tq = target / b;
    let sq = size / b;
    lemma_fundamental_div_mod(lock, b);
    lemma_fundamental_div_mod(target, b);
    assert(0 <= lock < size);
    assert(0 <= target < size);
    if lock > target {
        assert(d == target - lock + size) by (nonlinear_arith)
            requires
                0 <= target < lock < size,
                d == (target - lock) % size,
        ;
        assert(d == (tq - lq + sq) * b) by (nonlinear_arith)
            requires
                d == target - lock + size,
                lock == b * lq + 0,
                target == b * tq + 0,
                size == sq * b,
        ;
        lemma_multiple(d, tq - lq + sq, b);
    } else {
        assert(d == target - lock) by (nonlinear_arith)
            requires
                0 <= lock <= target < size,
                d == (target - lock) % size,
        ;
        assert(d == (tq - lq) * b) by (nonlinear_arith)
            requires
                d == target - lock,
                lock == b * lq + 0,
                target == b * tq + 0,
        ;
        lemma_multiple(d, tq - lq, b);
    }
    let dq = d / b;
    lemma_fundamental_div_mod(d, b);
    lemma_fundamental_div_mod(s1, b);
    let a1 = s1 / b;
    lemma_multiple(s1, a1, b);
    assert(s2 == (dq - a1) * b) by (nonlinear_arith)
        requires
            s1 + s2 == d,
            d == b * dq + 0,
            s1 == a1 * b,
    ;
    lemma_multiple(s2, dq - a1, b);
    let frames = s1 / b + s2 / b;
    assert(frames == dq);
    // The counter does not wrap, and the bytes written so far grow by `d`.
    assert((idx + frames) * b == written + d) by (nonlinear_arith)
        requires
            written == idx * b,
            d == b * dq + 0,
            frames == dq,
    ;
    assert(idx + frames < counter_range()) by (nonlinear_arith)
        requires
            (idx + frames) * b < counter_range(),
            b >= 1,
            frames >= 0,
            idx >= 0,
    ;
    lemma_small_mod((idx + frames) as nat, counter_range() as nat);
    lemma_small_mod((written + d) as nat, counter_range() as nat);
    // Past the lock byte by `d` is the target.
    lemma_fundamental_div_mod(written, size);
    lemma_mod_multiples_vanish(written / size, lock + d, size);
    assert(written + d == size * (written / size) + (lock + d));
    if lock + d == target {
        lemma_small_mod(target as nat, size as nat);
    } else {
        assert(lock + d == target + size);
        lemma_mod_multiples_vanish(1, target, size);
        lemma_small_mod(target as nat, size as nat);
    }
}

/// The lock byte depends on the frame counter only through the low 32 bits
/// of its byte count: two counters whose byte counts agree modulo 2^32 lock
/// the same byte. And it is always inside the ring.
pub proof fn lemma_lock_byte_follows_32_bit_byte_count(
    index_1: u32,
    index_2: u32,
    bytes_per_sample: u32,
    size: int,
)
    requires
        size > 0,
        (index_1 * bytes_per_sample) % 0x1_0000_0000 == (index_2 * bytes_per_sample)
            % 0x1_0000_0000,
    ensures
        ring_byte_of_frame(index_1 as int, bytes_per_sample as int, size) == ring_byte_of_frame(
            index_2 as int,
            bytes_per_sample as int,
            size,
        ),
        0 <= ring_byte_of_frame(index_1 as int, bytes_per_sample as int, size) < size,
        index_1 * bytes_per_sample < 0x1_0000_0000 ==> ring_byte_of_frame(
            index_1 as int,
            bytes_per_sample as int,
            size,
        ) == (index_1 * bytes_per_sample) % size,
{
    if index_1 * bytes_per_sample < 0x1_0000_0000 {
        assert(index_1 * bytes_per_sample >= 0) by (nonlinear_arith);
        lemma_small_mod((index_1 * bytes_per_sample) as nat, 0x1_0000_0000nat);
    }
}

} // verus!
