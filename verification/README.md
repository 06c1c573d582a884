# handmade

A verified core for a small Win32 game prototype: a scrolling colour
gradient painted into an offscreen bitmap, a sine tone streamed through a
looping sound buffer, gamepad panning and window-message handling.

- `src/gradient.rs` – the gradient painter and its laws (pixel colours,
  untouched bytes, scrolling, idempotence).
- `src/audio.rs` – stereo sample writing and the game's frame function.
- `src/sound.rs` – the looping sound buffer: write regions, refills, format,
  and the law that consecutive refills are contiguous.
- `src/window.rs` – window messages, client size, bitmap resizing.
- `src/input.rs` – left-stick panning and retuning.
- `src/timing.rs` – frame timing in milliseconds.
- `app/` – the Win32 program (Windows only): operating-system calls and the
  floating-point sine.
