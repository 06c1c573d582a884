//! The game layer and the platform decisions of a small software renderer
//! and tone generator: a gradient painted into a pixel buffer, stereo
//! samples written into sound buffers, the ring-buffer arithmetic that keeps
//! the sound card fed, and the handling of window messages and gamepad input.
//! Everything that talks to the operating system lives outside this crate;
//! what is here works on plain values and is verified.

pub mod platform_interop;
pub mod gradient;
pub mod audio;
pub mod sound;
pub mod window;
pub mod input;
pub mod timing;

pub use platform_interop::{GameOffscreenBuffer, GameSoundBuffer};
