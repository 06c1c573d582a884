use vstd::prelude::*;

verus! {

/// Stick deflection, in either direction, below which the left thumb stick
/// of a gamepad counts as centred.
pub const XINPUT_GAMEPAD_LEFT_THUMB_DEADZONE: i16 = 7849;

/// The stick is pushed past the dead zone.
pub open spec fn outside_deadzone(stick: int) -> bool {
    stick > XINPUT_GAMEPAD_LEFT_THUMB_DEADZONE || -stick > XINPUT_GAMEPAD_LEFT_THUMB_DEADZONE
}

/// How far one frame of stick deflection moves the picture: the deflection
/// divided by 4096, rounded down (from -8 to 7).
pub open spec fn stick_step(stick: int) -> int {
    stick / 4096
}

/// Half of `v`, rounded towards zero.
pub open spec fn half_toward_zero(v: int) -> int {
    if v >= 0 {
        v / 2
    } else {
        -((-v) / 2)
    }
}

/// The tone frequency after retuning by stick deflection `stick`: the
/// frequency read as a signed 32-bit value, plus half the stick step rounded
/// towards zero, read back as unsigned.
pub open spec fn retuned_hz(hz: u32, stick: int) -> u32 {
    ((hz as i32) as int + half_toward_zero(stick_step(stick))) as u32
}

/// The stick step of `stick`, computed by an arithmetic shift.
fn stick_shift(stick: i16) -> (step: i16)
    ensures
        step == stick_step(stick as int),
        -8 <= step <= 7,
{
    let step: i16 = stick >> 12u32;
    assert(stick >> 12u32 == stick / 4096) by (bit_vector);
    step
}

/// What moving the picture needs: the stick readings can be negated in 16
/// bits, the offsets stay within 16 bits, and the retuned frequency within
/// 32 signed bits.
pub open spec fn can_apply_left_stick(
    x_offset: i16,
    y_offset: i16,
    sound_wave_hz: u32,
    stick_x: i16,
    stick_y: i16,
) -> bool {
    &&& stick_x != i16::MIN
    &&& stick_y != i16::MIN
    &&& outside_deadzone(stick_x as int) ==> {
        &&& i16::MIN <= x_offset + stick_step(stick_x as int) <= i16::MAX
        &&& i32::MIN <= (sound_wave_hz as i32) as int + half_toward_zero(stick_step(stick_x as int))
            <= i32::MAX
    }
    &&& outside_deadzone(stick_y as int) ==> i16::MIN <= y_offset + stick_step(stick_y as int)
        <= i16::MAX
}

/// Applies one reading of the left thumb stick: past the dead zone, the
/// horizontal deflection scrolls the picture horizontally and retunes the
/// tone, and the vertical deflection scrolls it vertically.
pub fn apply_left_stick(
    x_offset: &mut i16,
    y_offset: &mut i16,
    sound_wave_hz: &mut u32,
    stick_x: i16,
    stick_y: i16,
)
    requires
        can_apply_left_stick(*old(x_offset), *old(y_offset), *old(sound_wave_hz), stick_x, stick_y),
    ensures
        *final(x_offset) == (if outside_deadzone(stick_x as int) {
            *old(x_offset) + stick_step(stick_x as int)
        } else {
            *old(x_offset) as int
        }),
        *final(sound_wave_hz) == (if outside_deadzone(stick_x as int) {
            retuned_hz(*old(sound_wave_hz), stick_x as int)
        } else {
            *old(sound_wave_hz)
        }),
        *final(y_offset) == (if outside_deadzone(stick_y as int) {
            *old(y_offset) + stick_step(stick_y as int)
        } else {
            *old(y_offset) as int
        }),
{
    let magnitude_x: i16 = if stick_x < 0 { -stick_x } else { stick_x };
    let magnitude_y: i16 = if stick_y < 0 { -stick_y } else { stick_y };
    if magnitude_x > XINPUT_GAMEPAD_LEFT_THUMB_DEADZONE {
        let step: i16 = stick_shift(stick_x);
        *x_offset = *x_offset + step;
        let wide_step: i32 = step as i32;
        let half: i32 = if wide_step >= 0 { wide_step / 2 } else { -((-wide_step) / 2) };
        let signed_hz: i32 = #[verifier::truncate] (*sound_wave_hz as i32);
        *sound_wave_hz = #[verifier::truncate] ((signed_hz + half) as u32);
    }
    if magnitude_y > XINPUT_GAMEPAD_LEFT_THUMB_DEADZONE {
        let step: i16 = stick_shift(stick_y);
        *y_offset = *y_offset + step;
    }
}

/// How a stick reading is read: it counts only beyond 7849 either way; its
/// step is the deflection divided by 4096 rounded down; half a step is
/// rounded towards zero; and, for a frequency that fits in 31 bits and a
/// result that is not negative, retuning adds exactly that half step.
pub proof fn lemma_stick_reading(stick: i16, hz: u32)
    ensures
        outside_deadzone(stick as int) <==> (stick > 7849 || stick < -7849),
        4096 * stick_step(stick as int) <= stick < 4096 * stick_step(stick as int) + 4096,
        ({
            let v = stick_step(stick as int);
            let h = half_toward_zero(v);
            &&& v >= 0 ==> 0 <= v - 2 * h <= 1
            &&& v < 0 ==> -1 <= v - 2 * h <= 0
        }),
        hz <= i32::MAX && hz + half_toward_zero(stick_step(stick as int)) >= 0 ==> retuned_hz(
            hz,
            stick as int,
        ) == hz + half_toward_zero(stick_step(stick as int)),
{
    let v = stick_step(stick as int);
    if hz <= i32::MAX {
        assert(hz as i32 == hz) by (bit_vector)
            requires
                hz <= 0x7fff_ffff,
        ;
    }
}

} // verus!
