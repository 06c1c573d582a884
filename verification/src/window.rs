use vstd::prelude::*;

use crate::gradient::gradient_fits;
use crate::platform_interop::GameOffscreenBuffer;

verus! {

/// Window message numbers that the window procedure tells apart.
pub const WM_DESTROY: u32 = 0x0002;
pub const WM_SIZE: u32 = 0x0005;
pub const WM_PAINT: u32 = 0x000F;
pub const WM_CLOSE: u32 = 0x0010;
pub const WM_ACTIVATEAPP: u32 = 0x001C;
pub const WM_KEYDOWN: u32 = 0x0100;
pub const WM_KEYUP: u32 = 0x0101;
pub const WM_SYSKEYDOWN: u32 = 0x0104;
pub const WM_SYSKEYUP: u32 = 0x0105;

/// Virtual key codes that the window procedure reacts to.
pub const VK_ESCAPE: u64 = 0x1B;
pub const VK_SPACE: u64 = 0x20;
pub const VK_F4: u64 = 0x73;

/// What the platform layer does in answer to a window message.
#[derive(PartialEq, Eq, Structural, Debug, Clone, Copy)]
pub enum WindowMessageAction {
    /// Nothing; the message is handled.
    Ignore,
    /// Leave the main loop.
    StopRunning,
    /// Log that the application was activated or deactivated.
    LogActivateApp,
    /// Repaint the window from the offscreen buffer.
    Paint,
    /// Log that escape changed state.
    LogEscape,
    /// Log an empty line.
    LogNewline,
    /// Hand the message to the default window procedure.
    DefaultProcedure,
}

/// The message is one of the four keyboard messages.
pub open spec fn is_key_message(msg: u32) -> bool {
    msg == WM_KEYDOWN || msg == WM_KEYUP || msg == WM_SYSKEYDOWN || msg == WM_SYSKEYUP
}

/// Bit 30 of a keyboard message's `l_param`: the key was down before.
pub open spec fn key_was_down(l_param: i64) -> bool {
    l_param & 0x4000_0000 != 0
}

/// Bit 31 of a keyboard message's `l_param` is clear: the key is down now.
pub open spec fn key_is_down(l_param: i64) -> bool {
    l_param & 0x8000_0000 == 0
}

/// Bit 29 of a keyboard message's `l_param`: alt is held.
pub open spec fn alt_is_down(l_param: i64) -> bool {
    l_param & 0x2000_0000 != 0
}

/// The action that `winproc` takes for a message.
pub open spec fn window_message_action(msg: u32, w_param: u64, l_param: i64) -> WindowMessageAction {
    if msg == WM_SIZE {
        WindowMessageAction::Ignore
    } else if msg == WM_CLOSE || msg == WM_DESTROY {
        WindowMessageAction::StopRunning
    } else if msg == WM_ACTIVATEAPP {
        WindowMessageAction::LogActivateApp
    } else if msg == WM_PAINT {
        WindowMessageAction::Paint
    } else if is_key_message(msg) {
        if w_param == VK_ESCAPE {
            if key_is_down(l_param) != key_was_down(l_param) {
                WindowMessageAction::LogEscape
            } else {
                WindowMessageAction::Ignore
            }
        } else if w_param == VK_SPACE {
            WindowMessageAction::LogNewline
        } else if w_param == VK_F4 && alt_is_down(l_param) {
            WindowMessageAction::StopRunning
        } else {
            WindowMessageAction::Ignore
        }
    } else {
        WindowMessageAction::DefaultProcedure
    }
}

/// Decides what to do with a window message: close and destroy stop the
/// main loop, paint repaints, activation is logged, size changes are
/// ignored; of the keys, escape is logged when it changes state, space logs
/// an empty line and alt+F4 stops the main loop; any other message goes to
/// the default window procedure.
pub fn winproc(msg: u32, w_param: u64, l_param: i64) -> (action: WindowMessageAction)
    ensures
        action == window_message_action(msg, w_param, l_param),
        msg == WM_SIZE ==> action == WindowMessageAction::Ignore,
        msg == WM_CLOSE || msg == WM_DESTROY ==> action == WindowMessageAction::StopRunning,
        msg == WM_ACTIVATEAPP ==> action == WindowMessageAction::LogActivateApp,
        msg == WM_PAINT ==> action == WindowMessageAction::Paint,
        is_key_message(msg) ==> action == (if w_param == VK_ESCAPE {
            if key_is_down(l_param) != key_was_down(l_param) {
                WindowMessageAction::LogEscape
            } else {
                WindowMessageAction::Ignore
            }
        } else if w_param == VK_SPACE {
            WindowMessageAction::LogNewline
        } else if w_param == VK_F4 && alt_is_down(l_param) {
            WindowMessageAction::StopRunning
        } else {
            WindowMessageAction::Ignore
        }),
        msg != WM_SIZE && msg != WM_CLOSE && msg != WM_DESTROY && msg != WM_ACTIVATEAPP && msg
            != WM_PAINT && !is_key_message(msg) ==> action
            == WindowMessageAction::DefaultProcedure,
{
    if msg == WM_SIZE {
        WindowMessageAction::Ignore
    } else if msg == WM_CLOSE || msg == WM_DESTROY {
        WindowMessageAction::StopRunning
    } else if msg == WM_ACTIVATEAPP {
        WindowMessageAction::LogActivateApp
    } else if msg == WM_PAINT {
        WindowMessageAction::Paint
    } else if msg == WM_KEYDOWN || msg == WM_KEYUP || msg == WM_SYSKEYDOWN || msg == WM_SYSKEYUP {
        let vk_code: u64 = w_param;
        let was_down: bool = (l_param & 0x4000_0000) != 0;
        let is_down: bool = (l_param & 0x8000_0000) == 0;
        let alt_down: bool = (l_param & 0x2000_0000) != 0;
        if vk_code == VK_ESCAPE {
            if is_down != was_down {
                WindowMessageAction::LogEscape
            } else {
                WindowMessageAction::Ignore
            }
        } else if vk_code == VK_SPACE {
            WindowMessageAction::LogNewline
        } else if vk_code == VK_F4 && alt_down {
            WindowMessageAction::StopRunning
        } else {
            WindowMessageAction::Ignore
        }
    } else {
        WindowMessageAction::DefaultProcedure
    }
}

/// The client rectangle of a window, in pixels.
pub struct ClientRect {
    pub left: i32,
    pub top: i32,
    pub right: i32,
    pub bottom: i32,
}

/// Width and height of a window's client area.
pub struct WindowDimensions {
    pub width: i32,
    pub height: i32,
}

/// The size of the client area whose rectangle is `rect`.
pub fn win32_get_window_dimensions(rect: &ClientRect) -> (dimensions: WindowDimensions)
    requires
        i32::MIN <= rect.right - rect.left <= i32::MAX,
        i32::MIN <= rect.bottom - rect.top <= i32::MAX,
    ensures
        dimensions.width == rect.right - rect.left,
        dimensions.height == rect.bottom - rect.top,
{
    WindowDimensions { width: rect.right - rect.left, height: rect.bottom - rect.top }
}

/// The header that describes the offscreen bitmap to the blitter.
pub struct BitmapInfoHeader {
    pub size: u32,
    pub width: i32,
    pub height: i32,
    pub planes: u16,
    pub bit_count: u16,
    pub compression: u32,
    pub size_image: u32,
    pub x_pels_per_meter: i32,
    pub y_pels_per_meter: i32,
    pub clr_used: u32,
    pub clr_important: u32,
}

/// Compression tag of an uncompressed RGB bitmap.
pub const BI_RGB: u32 = 0;

/// The platform's offscreen bitmap: its header and its pixels.
pub struct Win32OffscreenBuffer {
    pub info: BitmapInfoHeader,
    pub pixels: GameOffscreenBuffer,
}

impl Win32OffscreenBuffer {
    /// The bitmap before its first resize: an empty 32-bit uncompressed
    /// bitmap of 4 bytes per pixel with no memory.
    pub fn new() -> (buffer: Self)
        ensures
            buffer.info.size == 0,
            buffer.info.width == 0,
            buffer.info.height == 0,
            buffer.info.planes == 1,
            buffer.info.bit_count == 32,
            buffer.info.compression == BI_RGB,
            buffer.info.size_image == 0,
            buffer.info.x_pels_per_meter == 0,
            buffer.info.y_pels_per_meter == 0,
            buffer.info.clr_used == 0,
            buffer.info.clr_important == 0,
            buffer.pixels.bytes_per_pixel == 4,
            buffer.pixels.width == 0,
            buffer.pixels.height == 0,
            buffer.pixels.memory@.len() == 0,
    {
        Win32OffscreenBuffer {
            info: BitmapInfoHeader {
                size: 0,
                width: 0,
                height: 0,
                planes: 1,
                bit_count: 32,
                compression: BI_RGB,
                size_image: 0,
                x_pels_per_meter: 0,
                y_pels_per_meter: 0,
                clr_used: 0,
                clr_important: 0,
            },
            pixels: GameOffscreenBuffer {
                bytes_per_pixel: 4,
                width: 0,
                height: 0,
                memory: Vec::new(),
            },
        }
    }
}

/// Bytes of bitmap memory for `width` by `height` pixels.
pub open spec fn bitmap_memory_size(width: int, height: int, bytes_per_pixel: int) -> int {
    (width * height) * bytes_per_pixel
}

/// `len` zero bytes.
fn zeroed_bytes(len: usize) -> (bytes: Vec<u8>)
    ensures
        bytes@ == Seq::new(len as nat, |i: int| 0u8),
{
    let mut bytes: Vec<u8> = Vec::new();
    let mut k: usize = 0;
    while k < len
        invariant
            k <= len,
            bytes@ == Seq::new(k as nat, |i: int| 0u8),
        decreases len - k,
    {
        bytes.push(0u8);
        k = k + 1;
        assert(bytes@ =~= Seq::new(k as nat, |i: int| 0u8));
    }
    bytes
}

/// Resizes the offscreen bitmap to `width` by `height` pixels: the header
/// describes a top-down bitmap (negative height), and the old memory is
/// replaced by fresh zeroed memory of `width * height * bytes_per_pixel`
/// bytes, or by none when that size is not positive.
pub fn win32_resize_dib_section(buffer: &mut Win32OffscreenBuffer, width: i32, height: i32)
    requires
        height != i32::MIN,
        i32::MIN <= width * height <= i32::MAX,
        i32::MIN <= bitmap_memory_size(width as int, height as int, old(buffer).pixels.bytes_per_pixel as int)
            <= i32::MAX,
    ensures
        final(buffer).pixels.width == width,
        final(buffer).pixels.height == height,
        final(buffer).pixels.bytes_per_pixel == old(buffer).pixels.bytes_per_pixel,
        final(buffer).info.width == width,
        final(buffer).info.height == -height,
        final(buffer).info.size == old(buffer).info.size,
        final(buffer).info.planes == old(buffer).info.planes,
        final(buffer).info.bit_count == old(buffer).info.bit_count,
        final(buffer).info.compression == old(buffer).info.compression,
        final(buffer).info.size_image == old(buffer).info.size_image,
        final(buffer).info.x_pels_per_meter == old(buffer).info.x_pels_per_meter,
        final(buffer).info.y_pels_per_meter == old(buffer).info.y_pels_per_meter,
        final(buffer).info.clr_used == old(buffer).info.clr_used,
        final(buffer).info.clr_important == old(buffer).info.clr_important,
        ({
            let size = bitmap_memory_size(
                width as int,
                height as int,
                old(buffer).pixels.bytes_per_pixel as int,
            );
            final(buffer).pixels.memory@ == (if size > 0 {
                Seq::new(size as nat, |i: int| 0u8)
            } else {
                Seq::<u8>::empty()
            })
        }),
{
    buffer.pixels.width = width;
    buffer.pixels.height = height;
    buffer.info.width = width;
    buffer.info.height = -height;
    let bitmap_memory_size: i32 = (width * height) * buffer.pixels.bytes_per_pixel;
    if bitmap_memory_size > 0 {
        buffer.pixels.memory = zeroed_bytes(bitmap_memory_size as usize);
    } else {
        buffer.pixels.memory = Vec::new();
    }
}

/// A bitmap resized to `width` by `height` pixels of at least four bytes
/// each has room for the whole gradient: every pixel the painter writes lies
/// in the memory the resize gave it.
pub proof fn lemma_resized_bitmap_fits_gradient(width: int, height: int, bytes_per_pixel: int)
    requires
        width >= 0,
        height >= 0,
        bytes_per_pixel >= 4,
    ensures
        ({
            let size = bitmap_memory_size(width, height, bytes_per_pixel);
            let len = if size > 0 { size } else { 0 };
            gradient_fits(len, width, height, width * bytes_per_pixel)
        }),
{
    let size = bitmap_memory_size(width, height, bytes_per_pixel);
    if width > 0 && height > 0 {
        assert(size == (height - 1) * (width * bytes_per_pixel) + width * bytes_per_pixel)
            by (nonlinear_arith)
            requires
                size == (width * height) * bytes_per_pixel,
        ;
        assert(width * bytes_per_pixel >= 4 * width) by (nonlinear_arith)
            requires
                width > 0,
                bytes_per_pixel >= 4,
        ;
        assert(size > 0) by (nonlinear_arith)
            requires
                size == (width * height) * bytes_per_pixel,
                width > 0,
                height > 0,
                bytes_per_pixel >= 4,
        ;
    }
}

/// Bit `n` of `l_param`, as 0 or 1.
pub open spec fn l_param_bit(l_param: i64, n: i64) -> i64 {
    (l_param >> n) & 1
}

/// The three bits of a keyboard message's `l_param` that the window
/// procedure reads, and how it reads them.
proof fn lemma_key_bits(l_param: i64)
    ensures
        alt_is_down(l_param) == (l_param_bit(l_param, 29) == 1),
        key_was_down(l_param) == (l_param_bit(l_param, 30) == 1),
        key_is_down(l_param) == (l_param_bit(l_param, 31) == 0),
{
    assert((l_param & 0x2000_0000 != 0) == ((l_param >> 29i64) & 1 == 1)) by (bit_vector);
    assert((l_param & 0x4000_0000 != 0) == ((l_param >> 30i64) & 1 == 1)) by (bit_vector);
    assert((l_param & 0x8000_0000 == 0) == ((l_param >> 31i64) & 1 == 0)) by (bit_vector);
}

/// The four keyboard messages (key down, key up, system key down, system
/// key up: 0x0100, 0x0101, 0x0104, 0x0105) are always handled by the window
/// procedure itself, never by the default one; space logs an empty line
/// whatever the other bits say.
pub proof fn lemma_keyboard_messages_are_handled(msg: u32, w_param: u64, l_param: i64)
    requires
        msg == 0x0100 || msg == 0x0101 || msg == 0x0104 || msg == 0x0105,
    ensures
        window_message_action(msg, w_param, l_param) != WindowMessageAction::DefaultProcedure,
        w_param == 0x20 ==> window_message_action(msg, w_param, l_param)
            == WindowMessageAction::LogNewline,
{
}

/// F4 in a keyboard message stops the main loop exactly when alt is held
/// (bit 29 of `l_param`); without alt it is ignored, whatever the
/// was-down and transition bits say.
pub proof fn lemma_f4_stops_only_with_alt(msg: u32, w_param: u64, l_param: i64)
    requires
        msg == 0x0100 || msg == 0x0101 || msg == 0x0104 || msg == 0x0105,
        w_param == 0x73,
    ensures
        (window_message_action(msg, w_param, l_param) == WindowMessageAction::StopRunning) == (
        l_param_bit(l_param, 29) == 1),
        l_param_bit(l_param, 29) == 0 ==> window_message_action(msg, w_param, l_param)
            == WindowMessageAction::Ignore,
{
    lemma_key_bits(l_param);
}

/// Escape in a keyboard message is logged exactly when the key changed
/// state: was-down (bit 30 set) differs from is-down (bit 31 clear), that
/// is, when bits 30 and 31 of `l_param` are equal; otherwise it is ignored.
pub proof fn lemma_escape_logged_on_change(msg: u32, w_param: u64, l_param: i64)
    requires
        msg == 0x0100 || msg == 0x0101 || msg == 0x0104 || msg == 0x0105,
        w_param == 0x1B,
    ensures
        window_message_action(msg, w_param, l_param) == (if l_param_bit(l_param, 30)
            == l_param_bit(l_param, 31) {
            WindowMessageAction::LogEscape
        } else {
            WindowMessageAction::Ignore
        }),
{
    lemma_key_bits(l_param);
    assert(0 <= l_param_bit(l_param, 30) <= 1 && 0 <= l_param_bit(l_param, 31) <= 1)
        by (bit_vector);
}

/// Closing or destroying the window (0x0010, 0x0002) stops the main loop,
/// painting (0x000F) repaints, and a message that is none of the handled
/// ones goes to the default window procedure.
pub proof fn lemma_window_lifecycle_messages(msg: u32, w_param: u64, l_param: i64)
    ensures
        msg == 0x0010 || msg == 0x0002 ==> window_message_action(msg, w_param, l_param)
            == WindowMessageAction::StopRunning,
        msg == 0x000F ==> window_message_action(msg, w_param, l_param)
            == WindowMessageAction::Paint,
        msg == 0x001C ==> window_message_action(msg, w_param, l_param)
            == WindowMessageAction::LogActivateApp,
        msg == 0x0005 ==> window_message_action(msg, w_param, l_param)
            == WindowMessageAction::Ignore,
        msg != 0x0002 && msg != 0x0005 && msg != 0x000F && msg != 0x0010 && msg != 0x001C && msg
            != 0x0100 && msg != 0x0101 && msg != 0x0104 && msg != 0x0105 ==> window_message_action(
            msg,
            w_param,
            l_param,
        ) == WindowMessageAction::DefaultProcedure,
{
}

/// The resized bitmap has `bytes_per_pixel` bytes for each of its
/// `width * height` pixels, and the size grows with each dimension: one more
/// row adds `width * bytes_per_pixel` bytes, one more column adds
/// `height * bytes_per_pixel` bytes.
pub proof fn lemma_bitmap_size_counts_every_pixel(width: int, height: int, bytes_per_pixel: int)
    ensures
        bitmap_memory_size(width, height, bytes_per_pixel) == width * height * bytes_per_pixel,
        bitmap_memory_size(width, height + 1, bytes_per_pixel) == bitmap_memory_size(
            width,
            height,
            bytes_per_pixel,
        ) + width * bytes_per_pixel,
        bitmap_memory_size(width + 1, height, bytes_per_pixel) == bitmap_memory_size(
            width,
            height,
            bytes_per_pixel,
        ) + height * bytes_per_pixel,
{
    assert(width * (height + 1) * bytes_per_pixel == width * height * bytes_per_pixel + width
        * bytes_per_pixel) by (nonlinear_arith);
    assert((width + 1) * height * bytes_per_pixel == width * height * bytes_per_pixel + height
        * bytes_per_pixel) by (nonlinear_arith);
}

} // verus!
