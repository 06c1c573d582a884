use vstd::prelude::*;

verus! {

/// A block of pixel memory handed from the platform layer to the game.
///
/// `memory` holds the raw bytes of the bitmap. Rows start `width *
/// bytes_per_pixel` bytes apart; each pixel is written as four bytes in the
/// order blue, green, red, padding.
pub struct GameOffscreenBuffer {
    pub bytes_per_pixel: i32,
    pub width: i32,
    pub height: i32,
    pub memory: Vec<u8>,
}

/// A block of sound memory handed from the platform layer to the game.
///
/// `memory` holds interleaved 16-bit stereo samples: frame `k` occupies
/// `memory[2k]` (left) and `memory[2k + 1]` (right).
pub struct GameSoundBuffer {
    pub memory: Vec<i16>,
    pub sample_count: u32,
    pub sample_frequency: u32,
}

} // verus!
