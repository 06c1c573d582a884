use handmade::input::apply_left_stick;
use handmade::sound::{section_frame_count, win32_fill_sound_buffer, Win32SoundOutput, WAVE_FORMAT_PCM};
use handmade::timing::elapsed_ms;
use handmade::window::{
    win32_get_window_dimensions, win32_resize_dib_section, winproc, ClientRect, Win32OffscreenBuffer,
    WindowMessageAction, BI_RGB, VK_ESCAPE, VK_F4, VK_SPACE, WM_ACTIVATEAPP, WM_CLOSE, WM_DESTROY,
    WM_KEYDOWN, WM_KEYUP, WM_PAINT, WM_SIZE, WM_SYSKEYDOWN,
};

#[test]
fn sound_output_starts_with_defaults() {
    let s = Win32SoundOutput::new();
    assert!(!s.playing_audio);
    assert_eq!(s.wave_sample_index, 0);
    assert_eq!(s.latency_sample_count, 3200);
    assert_eq!(s.buffer_bytes_count(), 192000);
    assert_eq!(s.latency_bytes(), 12800);
    assert_eq!(s.sound_wave_period_in_samples(), 187);
}

#[test]
fn write_region_from_start() {
    let s = Win32SoundOutput::new();
    let r = s.sound_write_region(0);
    assert_eq!((r.byte_to_lock, r.bytes_to_write), (0, 12800));
}

#[test]
fn write_region_wraps_round_the_ring() {
    let mut s = Win32SoundOutput::new();
    s.wave_sample_index = 47000;
    let r = s.sound_write_region(0);
    assert_eq!(r.byte_to_lock, 188000);
    assert_eq!(r.bytes_to_write, 192000 - 188000 + 12800);
    assert_eq!((r.byte_to_lock + r.bytes_to_write) % 192000, 12800);
}

#[test]
fn write_region_when_caught_up_is_empty() {
    let mut s = Win32SoundOutput::new();
    s.wave_sample_index = 3200;
    let r = s.sound_write_region(0);
    assert_eq!((r.byte_to_lock, r.bytes_to_write), (12800, 0));
}

#[test]
fn write_region_uses_a_32_bit_byte_counter() {
    let mut s = Win32SoundOutput::new();
    s.wave_sample_index = 0x4000_0001; // times 4 wraps to 4
    let r = s.sound_write_region(100);
    assert_eq!(r.byte_to_lock, 4);
    assert_eq!(r.bytes_to_write, 12900 - 4);
}

#[test]
fn fill_sections_and_advance_counter() {
    let mut s = Win32SoundOutput::new();
    s.wave_sample_index = u32::MAX;
    let mut a = vec![0i16; 5];
    let mut b = vec![0i16; 4];
    let tone = vec![1, 2, 3, 4];
    // 8 bytes: 2 frames; 9 bytes: 2 whole frames
    win32_fill_sound_buffer(&mut s, &mut a, 8, &mut b, 9, &tone);
    assert_eq!(a, vec![1, 1, 2, 2, 0]);
    assert_eq!(b, vec![3, 3, 4, 4]);
    assert_eq!(s.wave_sample_index, 3);
}

#[test]
fn next_region_starts_at_previous_target() {
    let mut s = Win32SoundOutput::new();
    s.wave_sample_index = 46000;
    let play = 4000;
    let r = s.sound_write_region(play);
    let target = (play + s.latency_bytes()) % s.buffer_bytes_count();
    let first = s.buffer_bytes_count() - r.byte_to_lock;
    let second = r.bytes_to_write - first;
    let frames = (r.bytes_to_write / 4) as usize;
    let mut a = vec![0i16; (first / 2) as usize];
    let mut b = vec![0i16; (second / 2) as usize];
    let tone = vec![5i16; frames];
    win32_fill_sound_buffer(&mut s, &mut a, first, &mut b, second, &tone);
    let next = s.sound_write_region(play);
    assert_eq!(next.byte_to_lock, target);
    assert_eq!(next.bytes_to_write, 0);
}

#[test]
fn playback_starts_once() {
    let mut s = Win32SoundOutput::new();
    assert!(s.start_playback());
    assert!(s.playing_audio);
    assert!(!s.start_playback());
    assert!(s.playing_audio);
}

#[test]
fn wave_format_is_16_bit_stereo_pcm() {
    let f = Win32SoundOutput::new().wave_format();
    assert_eq!(f.format_tag, WAVE_FORMAT_PCM);
    assert_eq!((f.channels, f.bits_per_sample, f.block_align), (2, 16, 4));
    assert_eq!((f.samples_per_sec, f.avg_bytes_per_sec, f.cb_size), (48000, 192000, 0));
}

#[test]
fn frames_per_section() {
    assert_eq!(section_frame_count(12800, 4), 3200);
    assert_eq!(section_frame_count(7, 4), 1);
}

#[test]
fn window_messages() {
    assert_eq!(winproc(WM_SIZE, 0, 0), WindowMessageAction::Ignore);
    assert_eq!(winproc(WM_CLOSE, 0, 0), WindowMessageAction::StopRunning);
    assert_eq!(winproc(WM_DESTROY, 0, 0), WindowMessageAction::StopRunning);
    assert_eq!(winproc(WM_ACTIVATEAPP, 1, 0), WindowMessageAction::LogActivateApp);
    assert_eq!(winproc(WM_PAINT, 0, 0), WindowMessageAction::Paint);
    assert_eq!(winproc(0x0200, 0, 0), WindowMessageAction::DefaultProcedure);
}

#[test]
fn escape_logged_when_it_changes_state() {
    // pressed: was up (bit 30 clear), is down (bit 31 clear)
    assert_eq!(winproc(WM_KEYDOWN, VK_ESCAPE, 0), WindowMessageAction::LogEscape);
    // auto-repeat: was down, is down
    assert_eq!(winproc(WM_KEYDOWN, VK_ESCAPE, 1 << 30), WindowMessageAction::Ignore);
    // released: was down, is up
    assert_eq!(winproc(WM_KEYUP, VK_ESCAPE, (1 << 30) | (1 << 31)), WindowMessageAction::LogEscape);
}

#[test]
fn space_and_alt_f4() {
    assert_eq!(winproc(WM_KEYUP, VK_SPACE, 0), WindowMessageAction::LogNewline);
    assert_eq!(winproc(WM_SYSKEYDOWN, VK_F4, 1 << 29), WindowMessageAction::StopRunning);
    assert_eq!(winproc(WM_KEYDOWN, VK_F4, 0), WindowMessageAction::Ignore);
    assert_eq!(winproc(WM_KEYDOWN, 'W' as u64, 0), WindowMessageAction::Ignore);
}

#[test]
fn window_dimensions_from_client_rect() {
    let d = win32_get_window_dimensions(&ClientRect { left: 10, top: 20, right: 1290, bottom: 740 });
    assert_eq!((d.width, d.height), (1280, 720));
}

#[test]
fn resize_makes_top_down_zeroed_bitmap() {
    let mut b = Win32OffscreenBuffer::new();
    assert_eq!(b.info.compression, BI_RGB);
    assert_eq!((b.info.planes, b.info.bit_count), (1, 32));
    win32_resize_dib_section(&mut b, 1280, 720);
    assert_eq!((b.pixels.width, b.pixels.height), (1280, 720));
    assert_eq!((b.info.width, b.info.height), (1280, -720));
    assert_eq!(b.pixels.memory.len(), 1280 * 720 * 4);
    assert!(b.pixels.memory.iter().all(|&v| v == 0));
    handmade::gradient::draw_weird_gradient(&mut b.pixels, 0, 0);
    assert_eq!(&b.pixels.memory[4 * 1281..4 * 1281 + 4], &[1, 1, 0, 0]);
}

#[test]
fn resize_to_nothing_has_no_memory() {
    let mut b = Win32OffscreenBuffer::new();
    win32_resize_dib_section(&mut b, 4, 4);
    win32_resize_dib_section(&mut b, -4, 4);
    assert!(b.pixels.memory.is_empty());
    assert_eq!(b.info.height, -4);
}

#[test]
fn left_stick_scrolls_and_retunes() {
    let (mut x, mut y, mut hz) = (0i16, 0i16, 256u32);
    apply_left_stick(&mut x, &mut y, &mut hz, 7849, -7849);
    assert_eq!((x, y, hz), (0, 0, 256));
    apply_left_stick(&mut x, &mut y, &mut hz, 32767, 8192);
    assert_eq!((x, y, hz), (7, 2, 259));
    apply_left_stick(&mut x, &mut y, &mut hz, -8193, -32767);
    // -8193 >> 12 = -3, half rounded towards zero = -1
    assert_eq!((x, y, hz), (4, -6, 258));
}

#[test]
fn elapsed_milliseconds() {
    assert_eq!(elapsed_ms(1000, 4000, 1000), 3000);
    assert_eq!(elapsed_ms(0, 7, 3000), 2);
    assert_eq!(elapsed_ms(7, 0, 3000), -2);
}
