use handmade::audio::{fill_sound_buffer, game_update_and_render, tone_period_in_samples};
use handmade::gradient::draw_weird_gradient;
use handmade::{GameOffscreenBuffer, GameSoundBuffer};

fn buffer(width: i32, height: i32, bytes_per_pixel: i32, len: usize, fill: u8) -> GameOffscreenBuffer {
    GameOffscreenBuffer { bytes_per_pixel, width, height, memory: vec![fill; len] }
}

#[test]
fn gradient_two_by_two_without_offsets() {
    let mut b = buffer(2, 2, 4, 16, 0xAA);
    draw_weird_gradient(&mut b, 0, 0);
    assert_eq!(b.memory, vec![0, 0, 0, 0, 1, 0, 0, 0, 0, 1, 0, 0, 1, 1, 0, 0]);
    assert_eq!((b.width, b.height, b.bytes_per_pixel), (2, 2, 4));
}

#[test]
fn gradient_offsets_scroll_and_wrap() {
    let mut b = buffer(1, 1, 4, 4, 0);
    draw_weird_gradient(&mut b, 3, 1);
    // blue = 0 + 3, green = (0 - 1) mod 256
    assert_eq!(b.memory, vec![3, 255, 0, 0]);
    let mut c = buffer(1, 1, 4, 4, 0);
    draw_weird_gradient(&mut c, 300, -300);
    assert_eq!(c.memory, vec![44, 44, 0, 0]);
    let mut d = buffer(2, 1, 4, 8, 0);
    draw_weird_gradient(&mut d, i16::MAX, i16::MAX);
    // 32767 mod 256 = 255, 32768 mod 256 = 0; green = -32767 mod 256 = 1
    assert_eq!(d.memory, vec![255, 1, 0, 0, 0, 1, 0, 0]);
}

#[test]
fn gradient_with_wide_pixels_leaves_gaps() {
    let mut b = buffer(1, 2, 5, 10, 0xAA);
    draw_weird_gradient(&mut b, 0, 0);
    assert_eq!(b.memory, vec![0, 0, 0, 0, 0xAA, 0, 1, 0, 0, 0xAA]);
}

#[test]
fn gradient_overlapping_rows_later_row_shows() {
    // width 2, two bytes per pixel: rows start 4 bytes apart but span 8 bytes
    let mut b = buffer(2, 2, 2, 12, 0xAA);
    draw_weird_gradient(&mut b, 0, 0);
    assert_eq!(b.memory, vec![0, 0, 0, 0, 0, 1, 0, 0, 1, 1, 0, 0]);
}

#[test]
fn gradient_bytes_past_the_picture_unchanged() {
    let mut b = buffer(1, 1, 4, 7, 0x55);
    draw_weird_gradient(&mut b, 7, 0);
    assert_eq!(b.memory, vec![7, 0, 0, 0, 0x55, 0x55, 0x55]);
}

#[test]
fn gradient_empty_or_negative_size_paints_nothing() {
    let mut b = buffer(-3, 2, 4, 4, 9);
    draw_weird_gradient(&mut b, 1, i16::MIN);
    assert_eq!(b.memory, vec![9, 9, 9, 9]);
    let mut c = buffer(2, 0, 4, 0, 9);
    draw_weird_gradient(&mut c, 1, 1);
    assert!(c.memory.is_empty());
}

#[test]
fn gradient_reads_sizes_as_16_bits() {
    // 65537 read as 16 bits is 1
    let mut b = buffer(65537, 1, 4, 4, 0);
    draw_weird_gradient(&mut b, 5, 0);
    assert_eq!(b.memory, vec![5, 0, 0, 0]);
    assert_eq!(b.width, 65537);
}

#[test]
fn sound_buffer_gets_the_tone_on_both_channels() {
    let mut s = GameSoundBuffer { memory: vec![7; 7], sample_count: 3, sample_frequency: 48000 };
    let tone = vec![10, -20, 30, 40];
    fill_sound_buffer(&mut s, &tone);
    assert_eq!(s.memory, vec![10, 10, -20, -20, 30, 30, 7]);
    assert_eq!((s.sample_count, s.sample_frequency), (3, 48000));
}

#[test]
fn tone_period_is_frequency_over_tone() {
    assert_eq!(tone_period_in_samples(48000), 192);
    assert_eq!(tone_period_in_samples(249), 0);
}

#[test]
fn game_frame_fills_sound_and_paints() {
    let mut b = buffer(1, 1, 4, 4, 0);
    let mut s = GameSoundBuffer { memory: vec![0; 2], sample_count: 1, sample_frequency: 44100 };
    game_update_and_render(&mut b, 2, 0, &mut s, &vec![123]);
    assert_eq!(b.memory, vec![2, 0, 0, 0]);
    assert_eq!(s.memory, vec![123, 123]);
}

#[test]
fn painting_twice_is_painting_once() {
    let mut once = buffer(3, 2, 5, 30, 0x11);
    draw_weird_gradient(&mut once, -9, 4);
    let mut twice = buffer(3, 2, 5, 30, 0x11);
    draw_weird_gradient(&mut twice, -9, 4);
    draw_weird_gradient(&mut twice, -9, 4);
    assert_eq!(once.memory, twice.memory);
    let mut other = buffer(3, 2, 5, 30, 0x77);
    draw_weird_gradient(&mut other, -9, 4);
    for i in 0..30 {
        if once.memory[i] != 0x11 {
            assert_eq!(other.memory[i], once.memory[i]);
        }
    }
}
