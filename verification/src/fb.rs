use vstd::prelude::*;

use crate::fmt::decimal;
use crate::limine::Framebuffer;

verus! {

// ---------------------------------------------------------------------------
// Layout of the boot surface.

pub const LIMINE_FRAMEBUFFER_RGB: u8 = 1;

pub const HEADER_HEIGHT: u64 = 72;
pub const HEADER_ACCENT_Y: u64 = 72;
pub const HEADER_ACCENT_HEIGHT: u64 = 4;
pub const BANNER_X: u64 = 32;
pub const BANNER_Y: u64 = 112;
pub const BANNER_WIDTH: u64 = 256;
pub const BANNER_HEIGHT: u64 = 144;
pub const LOG_ORIGIN_X: u64 = 32;
pub const LOG_ORIGIN_Y: u64 = 288;
pub const LOG_BOTTOM_MARGIN: u64 = 32;

pub const FONT_SCALE: u64 = 2;
pub const GLYPH_WIDTH: u64 = 5;
pub const GLYPH_ADVANCE_X: u64 = 6;
pub const GLYPH_ADVANCE_Y: u64 = 8;
pub const CHAR_WIDTH: u64 = 12;
pub const CHAR_HEIGHT: u64 = 16;

/// What the boot surface found on the framebuffer.
#[derive(Copy, Clone, PartialEq, Eq, Structural, Debug)]
pub struct FramebufferSummary {
    pub width: u64,
    pub height: u64,
    pub pitch: u64,
    pub bpp: u16,
    pub sample_background: u32,
    pub sample_accent: u32,
}

/// Why the framebuffer console could not start.
#[derive(Copy, Clone, PartialEq, Eq, Structural, Debug)]
pub enum FramebufferError {
    UnsupportedMemoryModel,
    UnsupportedBitsPerPixel,
    MissingAddress,
    ConsoleAreaTooSmall,
}

pub open spec fn spec_framebuffer_error_text(e: FramebufferError) -> Seq<char> {
    match e {
        FramebufferError::UnsupportedMemoryModel => "unsupported framebuffer memory model"@,
        FramebufferError::UnsupportedBitsPerPixel => "unsupported framebuffer bits-per-pixel"@,
        FramebufferError::MissingAddress => "framebuffer address is null"@,
        FramebufferError::ConsoleAreaTooSmall => "framebuffer console area is too small"@,
    }
}

impl FramebufferError {
    pub fn as_str(self) -> (text: &'static str)
        ensures
            text@ == spec_framebuffer_error_text(self),
    {
        match self {
            Self::UnsupportedMemoryModel => "unsupported framebuffer memory model",
            Self::UnsupportedBitsPerPixel => "unsupported framebuffer bits-per-pixel",
            Self::MissingAddress => "framebuffer address is null",
            Self::ConsoleAreaTooSmall => "framebuffer console area is too small",
        }
    }
}

/// The colour scheme a console line is drawn with.
#[derive(Copy, Clone, PartialEq, Eq, Structural, Debug)]
pub enum ConsoleStyle {
    Default,
    Accent,
    Success,
    Warning,
    Error,
    Fatal,
    Muted,
}

// ---------------------------------------------------------------------------
// Glyphs and colours.

/// Lower-case letters are drawn with the upper-case glyphs.
pub open spec fn spec_normalize_glyph_byte(b: u8) -> u8 {
    if 0x61 <= b && b <= 0x7a {
        (b - 32) as u8
    } else {
        b
    }
}

pub fn normalize_glyph_byte(byte: u8) -> (b: u8)
    ensures
        b == spec_normalize_glyph_byte(byte),
{
    if byte >= 0x61 && byte <= 0x7a {
        byte - 32
    } else {
        byte
    }
}

/// The seven rows of the 5-pixel-wide glyph of a byte; bytes without a glyph get a box.
pub open spec fn spec_glyph(b: u8) -> Seq<u8> {
    if b == 0x30 {
        seq![0x0eu8, 0x11u8, 0x13u8, 0x15u8, 0x19u8, 0x11u8, 0x0eu8]
    }     else if b == 0x31 {
        seq![0x04u8, 0x0cu8, 0x04u8, 0x04u8, 0x04u8, 0x04u8, 0x0eu8]
    }     else if b == 0x32 {
        seq![0x0eu8, 0x11u8, 0x01u8, 0x02u8, 0x04u8, 0x08u8, 0x1fu8]
    }     else if b == 0x33 {
        seq![0x1fu8, 0x02u8, 0x04u8, 0x02u8, 0x01u8, 0x11u8, 0x0eu8]
    }     else if b == 0x34 {
        seq![0x02u8, 0x06u8, 0x0au8, 0x12u8, 0x1fu8, 0x02u8, 0x02u8]
    }     else if b == 0x35 {
        seq![0x1fu8, 0x10u8, 0x1eu8, 0x01u8, 0x01u8, 0x11u8, 0x0eu8]
    }     else if b == 0x36 {
        seq![0x06u8, 0x08u8, 0x10u8, 0x1eu8, 0x11u8, 0x11u8, 0x0eu8]
    }     else if b == 0x37 {
        seq![0x1fu8, 0x01u8, 0x02u8, 0x04u8, 0x08u8, 0x08u8, 0x08u8]
    }     else if b == 0x38 {
        seq![0x0eu8, 0x11u8, 0x11u8, 0x0eu8, 0x11u8, 0x11u8, 0x0eu8]
    }     else if b == 0x39 {
        seq![0x0eu8, 0x11u8, 0x11u8, 0x0fu8, 0x01u8, 0x02u8, 0x0cu8]
    }     else if b == 0x41 {
        seq![0x0eu8, 0x11u8, 0x11u8, 0x1fu8, 0x11u8, 0x11u8, 0x11u8]
    }     else if b == 0x42 {
        seq![0x1eu8, 0x11u8, 0x11u8, 0x1eu8, 0x11u8, 0x11u8, 0x1eu8]
    }     else if b == 0x43 {
        seq![0x0eu8, 0x11u8, 0x10u8, 0x10u8, 0x10u8, 0x11u8, 0x0eu8]
    }     else if b == 0x44 {
        seq![0x1eu8, 0x11u8, 0x11u8, 0x11u8, 0x11u8, 0x11u8, 0x1eu8]
    }     else if b == 0x45 {
        seq![0x1fu8, 0x10u8, 0x10u8, 0x1eu8, 0x10u8, 0x10u8, 0x1fu8]
    }     else if b == 0x46 {
        seq![0x1fu8, 0x10u8, 0x10u8, 0x1eu8, 0x10u8, 0x10u8, 0x10u8]
    }     else if b == 0x47 {
        seq![0x0eu8, 0x11u8, 0x10u8, 0x17u8, 0x11u8, 0x11u8, 0x0fu8]
    }     else if b == 0x48 {
        seq![0x11u8, 0x11u8, 0x11u8, 0x1fu8, 0x11u8, 0x11u8, 0x11u8]
    }     else if b == 0x49 {
        seq![0x0eu8, 0x04u8, 0x04u8, 0x04u8, 0x04u8, 0x04u8, 0x0eu8]
    }     else if b == 0x4a {
        seq![0x01u8, 0x01u8, 0x01u8, 0x01u8, 0x11u8, 0x11u8, 0x0eu8]
    }     else if b == 0x4b {
        seq![0x11u8, 0x12u8, 0x14u8, 0x18u8, 0x14u8, 0x12u8, 0x11u8]
    }     else if b == 0x4c {
        seq![0x10u8, 0x10u8, 0x10u8, 0x10u8, 0x10u8, 0x10u8, 0x1fu8]
    }     else if b == 0x4d {
        seq![0x11u8, 0x1bu8, 0x15u8, 0x15u8, 0x11u8, 0x11u8, 0x11u8]
    }     else if b == 0x4e {
        seq![0x11u8, 0x19u8, 0x15u8, 0x13u8, 0x11u8, 0x11u8, 0x11u8]
    }     else if b == 0x4f {
        seq![0x0eu8, 0x11u8, 0x11u8, 0x11u8, 0x11u8, 0x11u8, 0x0eu8]
    }     else if b == 0x50 {
        seq![0x1eu8, 0x11u8, 0x11u8, 0x1eu8, 0x10u8, 0x10u8, 0x10u8]
    }     else if b == 0x51 {
        seq![0x0eu8, 0x11u8, 0x11u8, 0x11u8, 0x15u8, 0x12u8, 0x0du8]
    }     else if b == 0x52 {
        seq![0x1eu8, 0x11u8, 0x11u8, 0x1eu8, 0x14u8, 0x12u8, 0x11u8]
    }     else if b == 0x53 {
        seq![0x0fu8, 0x10u8, 0x10u8, 0x0eu8, 0x01u8, 0x01u8, 0x1eu8]
    }     else if b == 0x54 {
        seq![0x1fu8, 0x04u8, 0x04u8, 0x04u8, 0x04u8, 0x04u8, 0x04u8]
    }     else if b == 0x55 {
        seq![0x11u8, 0x11u8, 0x11u8, 0x11u8, 0x11u8, 0x11u8, 0x0eu8]
    }     else if b == 0x56 {
        seq![0x11u8, 0x11u8, 0x11u8, 0x11u8, 0x11u8, 0x0au8, 0x04u8]
    }     else if b == 0x57 {
        seq![0x11u8, 0x11u8, 0x11u8, 0x15u8, 0x15u8, 0x1bu8, 0x11u8]
    }     else if b == 0x58 {
        seq![0x11u8, 0x11u8, 0x0au8, 0x04u8, 0x0au8, 0x11u8, 0x11u8]
    }     else if b == 0x59 {
        seq![0x11u8, 0x11u8, 0x0au8, 0x04u8, 0x04u8, 0x04u8, 0x04u8]
    }     else if b == 0x5a {
        seq![0x1fu8, 0x01u8, 0x02u8, 0x04u8, 0x08u8, 0x10u8, 0x1fu8]
    }     else if b == 0x20 {
        seq![0x00u8, 0x00u8, 0x00u8, 0x00u8, 0x00u8, 0x00u8, 0x00u8]
    }     else if b == 0x3a {
        seq![0x00u8, 0x04u8, 0x04u8, 0x00u8, 0x04u8, 0x04u8, 0x00u8]
    }     else if b == 0x2e {
        seq![0x00u8, 0x00u8, 0x00u8, 0x00u8, 0x00u8, 0x0cu8, 0x0cu8]
    }     else if b == 0x2d {
        seq![0x00u8, 0x00u8, 0x00u8, 0x1fu8, 0x00u8, 0x00u8, 0x00u8]
    }     else if b == 0x2f {
        seq![0x01u8, 0x01u8, 0x02u8, 0x04u8, 0x08u8, 0x10u8, 0x10u8]
    }     else if b == 0x3d {
        seq![0x00u8, 0x00u8, 0x1fu8, 0x00u8, 0x1fu8, 0x00u8, 0x00u8]
    }     else if b == 0x5f {
        seq![0x00u8, 0x00u8, 0x00u8, 0x00u8, 0x00u8, 0x00u8, 0x1fu8]
    }     else if b == 0x5b {
        seq![0x0eu8, 0x08u8, 0x08u8, 0x08u8, 0x08u8, 0x08u8, 0x0eu8]
    }     else if b == 0x5d {
        seq![0x0eu8, 0x02u8, 0x02u8, 0x02u8, 0x02u8, 0x02u8, 0x0eu8]
    }     else if b == 0x28 {
        seq![0x02u8, 0x04u8, 0x08u8, 0x08u8, 0x08u8, 0x04u8, 0x02u8]
    }     else if b == 0x29 {
        seq![0x08u8, 0x04u8, 0x02u8, 0x02u8, 0x02u8, 0x04u8, 0x08u8]
    }     else if b == 0x23 {
        seq![0x0au8, 0x0au8, 0x1fu8, 0x0au8, 0x1fu8, 0x0au8, 0x0au8]
    }     else if b == 0x2c {
        seq![0x00u8, 0x00u8, 0x00u8, 0x00u8, 0x0cu8, 0x0cu8, 0x08u8]
    }     else if b == 0x3f {
        seq![0x0eu8, 0x11u8, 0x01u8, 0x02u8, 0x04u8, 0x00u8, 0x04u8]
    }     else if b == 0x2b {
        seq![0x00u8, 0x04u8, 0x04u8, 0x1fu8, 0x04u8, 0x04u8, 0x00u8]
    } else {
        seq![0x1fu8, 0x11u8, 0x0au8, 0x04u8, 0x0au8, 0x11u8, 0x1fu8]
    }
}

pub fn glyph(byte: u8) -> (rows: [u8; 7])
    ensures
        rows@ == spec_glyph(byte),
{
    let rows: [u8; 7] = match byte {
        0x30 => [0x0e, 0x11, 0x13, 0x15, 0x19, 0x11, 0x0e],
        0x31 => [0x04, 0x0c, 0x04, 0x04, 0x04, 0x04, 0x0e],
        0x32 => [0x0e, 0x11, 0x01, 0x02, 0x04, 0x08, 0x1f],
        0x33 => [0x1f, 0x02, 0x04, 0x02, 0x01, 0x11, 0x0e],
        0x34 => [0x02, 0x06, 0x0a, 0x12, 0x1f, 0x02, 0x02],
        0x35 => [0x1f, 0x10, 0x1e, 0x01, 0x01, 0x11, 0x0e],
        0x36 => [0x06, 0x08, 0x10, 0x1e, 0x11, 0x11, 0x0e],
        0x37 => [0x1f, 0x01, 0x02, 0x04, 0x08, 0x08, 0x08],
        0x38 => [0x0e, 0x11, 0x11, 0x0e, 0x11, 0x11, 0x0e],
        0x39 => [0x0e, 0x11, 0x11, 0x0f, 0x01, 0x02, 0x0c],
        0x41 => [0x0e, 0x11, 0x11, 0x1f, 0x11, 0x11, 0x11],
        0x42 => [0x1e, 0x11, 0x11, 0x1e, 0x11, 0x11, 0x1e],
        0x43 => [0x0e, 0x11, 0x10, 0x10, 0x10, 0x11, 0x0e],
        0x44 => [0x1e, 0x11, 0x11, 0x11, 0x11, 0x11, 0x1e],
        0x45 => [0x1f, 0x10, 0x10, 0x1e, 0x10, 0x10, 0x1f],
        0x46 => [0x1f, 0x10, 0x10, 0x1e, 0x10, 0x10, 0x10],
        0x47 => [0x0e, 0x11, 0x10, 0x17, 0x11, 0x11, 0x0f],
        0x48 => [0x11, 0x11, 0x11, 0x1f, 0x11, 0x11, 0x11],
        0x49 => [0x0e, 0x04, 0x04, 0x04, 0x04, 0x04, 0x0e],
        0x4a => [0x01, 0x01, 0x01, 0x01, 0x11, 0x11, 0x0e],
        0x4b => [0x11, 0x12, 0x14, 0x18, 0x14, 0x12, 0x11],
        0x4c => [0x10, 0x10, 0x10, 0x10, 0x10, 0x10, 0x1f],
        0x4d => [0x11, 0x1b, 0x15, 0x15, 0x11, 0x11, 0x11],
        0x4e => [0x11, 0x19, 0x15, 0x13, 0x11, 0x11, 0x11],
        0x4f => [0x0e, 0x11, 0x11, 0x11, 0x11, 0x11, 0x0e],
        0x50 => [0x1e, 0x11, 0x11, 0x1e, 0x10, 0x10, 0x10],
        0x51 => [0x0e, 0x11, 0x11, 0x11, 0x15, 0x12, 0x0d],
        0x52 => [0x1e, 0x11, 0x11, 0x1e, 0x14, 0x12, 0x11],
        0x53 => [0x0f, 0x10, 0x10, 0x0e, 0x01, 0x01, 0x1e],
        0x54 => [0x1f, 0x04, 0x04, 0x04, 0x04, 0x04, 0x04],
        0x55 => [0x11, 0x11, 0x11, 0x11, 0x11, 0x11, 0x0e],
        0x56 => [0x11, 0x11, 0x11, 0x11, 0x11, 0x0a, 0x04],
        0x57 => [0x11, 0x11, 0x11, 0x15, 0x15, 0x1b, 0x11],
        0x58 => [0x11, 0x11, 0x0a, 0x04, 0x0a, 0x11, 0x11],
        0x59 => [0x11, 0x11, 0x0a, 0x04, 0x04, 0x04, 0x04],
        0x5a => [0x1f, 0x01, 0x02, 0x04, 0x08, 0x10, 0x1f],
        0x20 => [0x00, 0x00, 0x00, 0x00, 0x00, 0x00, 0x00],
        0x3a => [0x00, 0x04, 0x04, 0x00, 0x04, 0x04, 0x00],
        0x2e => [0x00, 0x00, 0x00, 0x00, 0x00, 0x0c, 0x0c],
        0x2d => [0x00, 0x00, 0x00, 0x1f, 0x00, 0x00, 0x00],
        0x2f => [0x01, 0x01, 0x02, 0x04, 0x08, 0x10, 0x10],
        0x3d => [0x00, 0x00, 0x1f, 0x00, 0x1f, 0x00, 0x00],
        0x5f => [0x00, 0x00, 0x00, 0x00, 0x00, 0x00, 0x1f],
        0x5b => [0x0e, 0x08, 0x08, 0x08, 0x08, 0x08, 0x0e],
        0x5d => [0x0e, 0x02, 0x02, 0x02, 0x02, 0x02, 0x0e],
        0x28 => [0x02, 0x04, 0x08, 0x08, 0x08, 0x04, 0x02],
        0x29 => [0x08, 0x04, 0x02, 0x02, 0x02, 0x04, 0x08],
        0x23 => [0x0a, 0x0a, 0x1f, 0x0a, 0x1f, 0x0a, 0x0a],
        0x2c => [0x00, 0x00, 0x00, 0x00, 0x0c, 0x0c, 0x08],
        0x3f => [0x0e, 0x11, 0x01, 0x02, 0x04, 0x00, 0x04],
        0x2b => [0x00, 0x04, 0x04, 0x1f, 0x04, 0x04, 0x00],
        _ => [0x1f, 0x11, 0x0a, 0x04, 0x0a, 0x11, 0x1f],
    };
    assert(rows@ =~= spec_glyph(byte));
    rows
}

/// An 8-bit channel value scaled to a `size`-bit field and moved to bit `shift`.
pub open spec fn spec_pack_channel(value: u8, size: u8, shift: u8) -> u32 {
    if size == 0 {
        0
    } else {
        let max = ((1u32 << size) - 1) as u32;
        let scaled = ((value * max + 127) / 255) as u32;
        scaled << shift
    }
}

pub fn pack_channel(value: u8, size: u8, shift: u8) -> (c: u32)
    requires
        size <= 24,
        shift < 32,
    ensures
        c == spec_pack_channel(value, size, shift),
{
    if size == 0 {
        return 0;
    }
    assert((1u32 << size) >= 1u32 && (1u32 << size) <= 0x100_0000u32) by (bit_vector)
        requires
            size <= 24,
    ;
    let max = (1u32 << size) - 1;
    assert((value as u32) * max + 127 <= 0xffff_ffff) by (nonlinear_arith)
        requires
            max <= 0xff_ffff,
            value <= 255,
    ;
    let scaled = ((value as u32) * max + 127) / 255;
    scaled << shift
}

/// Channel masks the console can pack colours for.
pub open spec fn masks_supported(f: Framebuffer) -> bool {
    &&& f.red_mask_size <= 24
    &&& f.red_mask_shift < 32
    &&& f.green_mask_size <= 24
    &&& f.green_mask_shift < 32
    &&& f.blue_mask_size <= 24
    &&& f.blue_mask_shift < 32
}

pub open spec fn spec_pack_rgb(f: Framebuffer, red: u8, green: u8, blue: u8) -> u32 {
    spec_pack_channel(red, f.red_mask_size, f.red_mask_shift) | spec_pack_channel(
        green,
        f.green_mask_size,
        f.green_mask_shift,
    ) | spec_pack_channel(blue, f.blue_mask_size, f.blue_mask_shift)
}

/// The pixel value of a colour in the framebuffer's channel layout.
pub fn pack_rgb(f: &Framebuffer, red: u8, green: u8, blue: u8) -> (c: u32)
    requires
        masks_supported(*f),
    ensures
        c == spec_pack_rgb(*f, red, green, blue),
{
    pack_channel(red, f.red_mask_size, f.red_mask_shift) | pack_channel(green, f.green_mask_size, f.green_mask_shift)
        | pack_channel(blue, f.blue_mask_size, f.blue_mask_shift)
}

/// The mode line drawn on the boot surface: width, height and depth, separated by `X`.
pub open spec fn spec_mode_line(width: u64, height: u64, bpp: u16) -> Seq<u8> {
    decimal(width as nat) + seq![0x58u8] + decimal(height as nat) + seq![0x58u8] + decimal(bpp as nat)
}

pub fn format_mode_line(width: u64, height: u64, bpp: u16) -> (line: Vec<u8>)
    ensures
        line@ == spec_mode_line(width, height, bpp),
{
    let mut line: Vec<u8> = Vec::new();
    crate::fmt::push_decimal(&mut line, width);
    line.push(0x58);
    crate::fmt::push_decimal(&mut line, height);
    line.push(0x58);
    crate::fmt::push_decimal(&mut line, bpp as u64);
    assert(line@ =~= spec_mode_line(width, height, bpp));
    line
}

// ---------------------------------------------------------------------------
// The console.

/// Where the console draws and with which colours.
#[derive(Copy, Clone, PartialEq, Eq, Structural, Debug)]
pub struct ConsoleGeometry {
    pub framebuffer: Framebuffer,
    pub bytes_per_pixel: usize,
    pub background: u32,
    pub header: u32,
    pub accent: u32,
    pub accent_soft: u32,
    pub text: u32,
    pub success: u32,
    pub warning: u32,
    pub error: u32,
    pub fatal: u32,
    pub muted: u32,
    pub log_origin_x: u64,
    pub log_origin_y: u64,
    pub log_width: u64,
    pub log_height: u64,
    pub columns: u64,
    pub rows: u64,
}

impl ConsoleGeometry {
    /// The log region holds whole cells, at least four each way, inside the framebuffer.
    pub open spec fn wf(&self) -> bool {
        &&& 3 <= self.bytes_per_pixel <= 4
        &&& self.log_origin_x == LOG_ORIGIN_X
        &&& self.log_origin_y == LOG_ORIGIN_Y
        &&& self.columns >= 4
        &&& self.rows >= 4
        &&& self.log_width == self.columns * CHAR_WIDTH
        &&& self.log_height == self.rows * CHAR_HEIGHT
        &&& self.log_origin_x + self.log_width <= self.framebuffer.width
        &&& self.log_origin_y + self.log_height <= self.framebuffer.height
    }
}

/// The framebuffer console: its layout, the framebuffer memory and the text cursor.
pub struct FramebufferConsole {
    pub geometry: ConsoleGeometry,
    pub memory: Vec<u8>,
    pub cursor_column: u64,
    pub cursor_row: u64,
}

impl FramebufferConsole {
    pub open spec fn wf(&self) -> bool {
        &&& self.geometry.wf()
        &&& self.cursor_row < self.geometry.rows
        &&& self.cursor_column <= self.geometry.columns
    }
}

/// The byte offset of pixel `(x, y)` in the framebuffer memory.
pub open spec fn pixel_offset(g: ConsoleGeometry, x: u64, y: u64) -> int {
    (y as int * g.framebuffer.pitch as int) + (x as int * g.bytes_per_pixel as int)
}

/// Whether pixel `(x, y)` is on the framebuffer and inside its memory.
pub open spec fn pixel_in_memory(g: ConsoleGeometry, len: nat, x: u64, y: u64) -> bool {
    &&& x < g.framebuffer.width
    &&& y < g.framebuffer.height
    &&& pixel_offset(g, x, y) + g.bytes_per_pixel <= len
}

/// Byte `i` of a pixel value, least significant first.
pub open spec fn color_byte(color: u32, i: int) -> u8 {
    ((color >> ((8 * i) as u32)) & 0xff) as u8
}

/// The memory after pixel `(x, y)` is set to `color`.
pub open spec fn spec_write_pixel(g: ConsoleGeometry, mem: Seq<u8>, x: u64, y: u64, color: u32) -> Seq<u8> {
    if pixel_in_memory(g, mem.len(), x, y) {
        let off = pixel_offset(g, x, y);
        Seq::new(
            mem.len(),
            |k: int| if off <= k < off + g.bytes_per_pixel { color_byte(color, k - off) } else { mem[k] },
        )
    } else {
        mem
    }
}

/// The value of pixel `(x, y)`, 0 off the framebuffer.
pub open spec fn spec_read_pixel(g: ConsoleGeometry, mem: Seq<u8>, x: u64, y: u64) -> u32 {
    if pixel_in_memory(g, mem.len(), x, y) {
        let off = pixel_offset(g, x, y);
        let low = (mem[off] as u32) | ((mem[off + 1] as u32) << 8u32) | ((mem[off + 2] as u32) << 16u32);
        if g.bytes_per_pixel == 4 {
            low | ((mem[off + 3] as u32) << 24u32)
        } else {
            low
        }
    } else {
        0
    }
}

/// The exec offset of a pixel, when it is in memory.
fn pixel_slot(g: &ConsoleGeometry, len: usize, x: u64, y: u64) -> (r: Option<usize>)
    requires
        3 <= g.bytes_per_pixel <= 4,
    ensures
        match r {
            Some(off) => pixel_in_memory(*g, len as nat, x, y) && off == pixel_offset(*g, x, y),
            None => !pixel_in_memory(*g, len as nat, x, y),
        },
{
    if x >= g.framebuffer.width || y >= g.framebuffer.height {
        return None;
    }
    let bpp = g.bytes_per_pixel as u64;
    let row = y.checked_mul(g.framebuffer.pitch);
    let column = x.checked_mul(bpp);
    match (row, column) {
        (Some(r), Some(c)) => match r.checked_add(c) {
            Some(off) => if off <= len as u64 && bpp <= len as u64 - off {
                Some(off as usize)
            } else {
                None
            },
            None => {
                assert(pixel_offset(*g, x, y) > u64::MAX);
                None
            },
        },
        _ => {
            proof {
                assert(x as int * g.bytes_per_pixel as int >= 0) by (nonlinear_arith);
                assert(y as int * g.framebuffer.pitch as int >= 0) by (nonlinear_arith);
            }
            None
        },
    }
}

/// Sets pixel `(x, y)` to `color`; a pixel off the framebuffer is left alone.
pub fn write_pixel(g: &ConsoleGeometry, memory: &mut Vec<u8>, x: u64, y: u64, color: u32)
    requires
        3 <= g.bytes_per_pixel <= 4,
    ensures
        final(memory)@ == spec_write_pixel(*g, old(memory)@, x, y, color),
{
    let ghost old_mem = memory@;
    match pixel_slot(g, memory.len(), x, y) {
        None => {},
        Some(off) => {
            let mut i: usize = 0;
            while i < g.bytes_per_pixel
                invariant
                    3 <= g.bytes_per_pixel <= 4,
                    i <= g.bytes_per_pixel,
                    off + g.bytes_per_pixel <= old_mem.len(),
                    memory@.len() == old_mem.len(),
                    off + g.bytes_per_pixel <= memory.len(),
                    forall|k: int|
                        0 <= k < memory@.len() ==> #[trigger] memory@[k] == (if off <= k < off + i {
                            color_byte(color, k - off)
                        } else {
                            old_mem[k]
                        }),
                decreases g.bytes_per_pixel - i,
            {
                let shift = (8 * i) as u32;
                let byte = ((color >> shift) & 0xff) as u8;
                memory.set(off + i, byte);
                i = i + 1;
            }
            assert(memory@ =~= spec_write_pixel(*g, old_mem, x, y, color));
        },
    }
}

/// The value of pixel `(x, y)`, 0 off the framebuffer.
pub fn read_pixel(g: &ConsoleGeometry, memory: &[u8], x: u64, y: u64) -> (c: u32)
    requires
        3 <= g.bytes_per_pixel <= 4,
    ensures
        c == spec_read_pixel(*g, memory@, x, y),
{
    match pixel_slot(g, memory.len(), x, y) {
        None => 0,
        Some(off) => {
            let low = (memory[off] as u32) | ((memory[off + 1] as u32) << 8u32) | ((memory[off + 2] as u32) << 16u32);
            if g.bytes_per_pixel == 4 {
                low | ((memory[off + 3] as u32) << 24u32)
            } else {
                low
            }
        },
    }
}

/// Reading a pixel just written gives back the colour, cut to the bytes a pixel holds.
pub proof fn lemma_read_after_write(g: ConsoleGeometry, mem: Seq<u8>, x: u64, y: u64, color: u32)
    requires
        3 <= g.bytes_per_pixel <= 4,
        pixel_in_memory(g, mem.len(), x, y),
    ensures
        spec_read_pixel(g, spec_write_pixel(g, mem, x, y, color), x, y) == (if g.bytes_per_pixel == 4 {
            color
        } else {
            color & 0xff_ffff
        }),
{
    let m = spec_write_pixel(g, mem, x, y, color);
    let off = pixel_offset(g, x, y);
    assert(m[off] == color_byte(color, 0));
    assert(m[off + 1] == color_byte(color, 1));
    assert(m[off + 2] == color_byte(color, 2));
    let b0 = ((color >> 0u32) & 0xff) as u8;
    let b1 = ((color >> 8u32) & 0xff) as u8;
    let b2 = ((color >> 16u32) & 0xff) as u8;
    let b3 = ((color >> 24u32) & 0xff) as u8;
    assert(((b0 as u32) | ((b1 as u32) << 8u32) | ((b2 as u32) << 16u32)) == color & 0xff_ffff) by (bit_vector)
        requires
            b0 == ((color >> 0u32) & 0xff) as u8,
            b1 == ((color >> 8u32) & 0xff) as u8,
            b2 == ((color >> 16u32) & 0xff) as u8,
    ;
    if g.bytes_per_pixel == 4 {
        assert(m[off + 3] == color_byte(color, 3));
        assert(((b0 as u32) | ((b1 as u32) << 8u32) | ((b2 as u32) << 16u32) | ((b3 as u32) << 24u32)) == color)
            by (bit_vector)
            requires
                b0 == ((color >> 0u32) & 0xff) as u8,
                b1 == ((color >> 8u32) & 0xff) as u8,
                b2 == ((color >> 16u32) & 0xff) as u8,
                b3 == ((color >> 24u32) & 0xff) as u8,
        ;
    }
}

/// Rows are at least as long as their pixels, so no two pixels share a byte.
pub open spec fn rows_disjoint(g: ConsoleGeometry) -> bool {
    g.framebuffer.pitch as int >= g.framebuffer.width as int * g.bytes_per_pixel as int
}

/// A colour as a pixel keeps it: all four bytes, or the low three.
pub open spec fn stored_color(g: ConsoleGeometry, color: u32) -> u32 {
    if g.bytes_per_pixel == 4 {
        color
    } else {
        color & 0xff_ffff
    }
}

proof fn lemma_pixel_offsets_apart(g: ConsoleGeometry, x: u64, y: u64, x2: u64, y2: u64)
    requires
        3 <= g.bytes_per_pixel <= 4,
        rows_disjoint(g),
        x < g.framebuffer.width,
        x2 < g.framebuffer.width,
        x != x2 || y != y2,
    ensures
        pixel_offset(g, x, y) + g.bytes_per_pixel <= pixel_offset(g, x2, y2) || pixel_offset(g, x2, y2)
            + g.bytes_per_pixel <= pixel_offset(g, x, y),
{
    let p = g.framebuffer.pitch as int;
    let b = g.bytes_per_pixel as int;
    let w = g.framebuffer.width as int;
    if y == y2 {
        if x < x2 {
            assert(x as int * b + b <= x2 as int * b) by (nonlinear_arith)
                requires
                    x < x2,
                    b >= 0,
            ;
        } else {
            assert(x2 as int * b + b <= x as int * b) by (nonlinear_arith)
                requires
                    x2 < x,
                    b >= 0,
            ;
        }
    } else if y < y2 {
        assert(y as int * p + x as int * b + b <= y2 as int * p + x2 as int * b) by (nonlinear_arith)
            requires
                y < y2,
                p >= w * b,
                x < w,
                x2 >= 0,
                b >= 0,
        ;
    } else {
        assert(y2 as int * p + x2 as int * b + b <= y as int * p + x as int * b) by (nonlinear_arith)
            requires
                y2 < y,
                p >= w * b,
                x2 < w,
                x >= 0,
                b >= 0,
        ;
    }
}

/// Writing one pixel leaves every other pixel as it was.
pub proof fn lemma_write_keeps_other_pixels(g: ConsoleGeometry, mem: Seq<u8>, x: u64, y: u64, color: u32, x2: u64, y2: u64)
    requires
        3 <= g.bytes_per_pixel <= 4,
        rows_disjoint(g),
        x != x2 || y != y2,
    ensures
        spec_read_pixel(g, spec_write_pixel(g, mem, x, y, color), x2, y2) == spec_read_pixel(g, mem, x2, y2),
{
    let m = spec_write_pixel(g, mem, x, y, color);
    if pixel_in_memory(g, mem.len(), x, y) && pixel_in_memory(g, mem.len(), x2, y2) {
        lemma_pixel_offsets_apart(g, x, y, x2, y2);
        let off2 = pixel_offset(g, x2, y2);
        assert(m[off2] == mem[off2]);
        assert(m[off2 + 1] == mem[off2 + 1]);
        assert(m[off2 + 2] == mem[off2 + 2]);
        if g.bytes_per_pixel == 4 {
            assert(m[off2 + 3] == mem[off2 + 3]);
        }
    }
}

/// A colour as the pixel at `(x, y)` shows it: stored, or 0 off the framebuffer.
pub open spec fn surface_pixel(g: ConsoleGeometry, len: nat, x: u64, y: u64, color: u32) -> u32 {
    if pixel_in_memory(g, len, x, y) {
        stored_color(g, color)
    } else {
        0
    }
}

/// Whether pixel `(px, py)` lies in the rectangle at `(x, y)` of the given size.
pub open spec fn in_rect(x: u64, y: u64, width: u64, height: u64, px: u64, py: u64) -> bool {
    x <= px < x + width && y <= py < y + height
}

/// The value of pixel `(px, py)` once the rectangle is painted over `mem`.
pub open spec fn painted_pixel(
    g: ConsoleGeometry,
    mem: Seq<u8>,
    x: u64,
    y: u64,
    width: u64,
    height: u64,
    color: u32,
    px: u64,
    py: u64,
) -> u32 {
    if in_rect(x, y, width, height, px, py) && pixel_in_memory(g, mem.len(), px, py) {
        stored_color(g, color)
    } else {
        spec_read_pixel(g, mem, px, py)
    }
}

proof fn lemma_paint_step(g: ConsoleGeometry, prev: Seq<u8>, cx: u64, cy: u64, color: u32, px: u64, py: u64)
    requires
        3 <= g.bytes_per_pixel <= 4,
        rows_disjoint(g),
    ensures
        spec_read_pixel(g, spec_write_pixel(g, prev, cx, cy, color), px, py) == (if px == cx && py == cy
            && pixel_in_memory(g, prev.len(), px, py) {
            stored_color(g, color)
        } else {
            spec_read_pixel(g, prev, px, py)
        }),
{
    if px == cx && py == cy {
        if pixel_in_memory(g, prev.len(), px, py) {
            lemma_read_after_write(g, prev, cx, cy, color);
        }
    } else {
        lemma_write_keeps_other_pixels(g, prev, cx, cy, color, px, py);
    }
}

/// Paints the part of a rectangle that lies on the framebuffer. When no two pixels
/// share a byte, the pixels of the rectangle hold the colour afterwards and every other
/// pixel is as it was.
pub fn fill_rect(g: &ConsoleGeometry, memory: &mut Vec<u8>, x: u64, y: u64, width: u64, height: u64, color: u32)
    requires
        3 <= g.bytes_per_pixel <= 4,
    ensures
        final(memory)@.len() == old(memory)@.len(),
        rows_disjoint(*g) ==> forall|px: u64, py: u64|
            #[trigger] spec_read_pixel(*g, final(memory)@, px, py) == painted_pixel(
                *g,
                old(memory)@,
                x,
                y,
                width,
                height,
                color,
                px,
                py,
            ),
{
    let right = x.saturating_add(width);
    let max_x = if right < g.framebuffer.width { right } else { g.framebuffer.width };
    let bottom = y.saturating_add(height);
    let max_y = if bottom < g.framebuffer.height { bottom } else { g.framebuffer.height };
    let ghost start = memory@;
    let ghost len = memory@.len();
    let mut cy = y;
    while cy < max_y
        invariant
            3 <= g.bytes_per_pixel <= 4,
            memory@.len() == len,
            start.len() == len,
            y <= cy,
            cy <= max_y || cy == y,
            rows_disjoint(*g) ==> forall|px: u64, py: u64|
                #[trigger] spec_read_pixel(*g, memory@, px, py) == (if x <= px < max_x && y <= py < cy
                    && pixel_in_memory(*g, len, px, py) {
                    stored_color(*g, color)
                } else {
                    spec_read_pixel(*g, start, px, py)
                }),
        decreases max_y - cy,
    {
        let mut cx = x;
        while cx < max_x
            invariant
                3 <= g.bytes_per_pixel <= 4,
                memory@.len() == len,
                start.len() == len,
                y <= cy < max_y,
                x <= cx,
                cx <= max_x || cx == x,
                rows_disjoint(*g) ==> forall|px: u64, py: u64|
                    #[trigger] spec_read_pixel(*g, memory@, px, py) == (if ((x <= px < max_x && y <= py < cy) || (
                    x <= px < cx && py == cy)) && pixel_in_memory(*g, len, px, py) {
                        stored_color(*g, color)
                    } else {
                        spec_read_pixel(*g, start, px, py)
                    }),
            decreases max_x - cx,
        {
            let ghost prev = memory@;
            write_pixel(g, memory, cx, cy, color);
            proof {
                if rows_disjoint(*g) {
                    assert forall|px: u64, py: u64|
                        #[trigger] spec_read_pixel(*g, memory@, px, py) == (if ((x <= px < max_x && y <= py < cy) || (
                        x <= px < cx + 1 && py == cy)) && pixel_in_memory(*g, len, px, py) {
                            stored_color(*g, color)
                        } else {
                            spec_read_pixel(*g, start, px, py)
                        }) by {
                        lemma_paint_step(*g, prev, cx, cy, color, px, py);
                    }
                }
            }
            cx = cx + 1;
        }
        proof {
            if rows_disjoint(*g) {
                assert forall|px: u64, py: u64|
                    #[trigger] spec_read_pixel(*g, memory@, px, py) == (if x <= px < max_x && y <= py < cy + 1
                        && pixel_in_memory(*g, len, px, py) {
                        stored_color(*g, color)
                    } else {
                        spec_read_pixel(*g, start, px, py)
                    }) by {
                    assert(spec_read_pixel(*g, memory@, px, py) == (if ((x <= px < max_x && y <= py < cy) || (x
                        <= px < cx && py == cy)) && pixel_in_memory(*g, len, px, py) {
                        stored_color(*g, color)
                    } else {
                        spec_read_pixel(*g, start, px, py)
                    }));
                }
            }
        }
        cy = cy + 1;
    }
    assert(right as int == if x + width > u64::MAX { u64::MAX as int } else { x + width });
    assert(bottom as int == if y + height > u64::MAX { u64::MAX as int } else { y + height });
    proof {
        if rows_disjoint(*g) {
            assert forall|px: u64, py: u64|
                #[trigger] spec_read_pixel(*g, memory@, px, py) == painted_pixel(
                    *g,
                    start,
                    x,
                    y,
                    width,
                    height,
                    color,
                    px,
                    py,
                ) by {
                assert(spec_read_pixel(*g, memory@, px, py) == (if x <= px < max_x && y <= py < max_y
                    && pixel_in_memory(*g, len, px, py) {
                    stored_color(*g, color)
                } else {
                    spec_read_pixel(*g, start, px, py)
                }));
                if pixel_in_memory(*g, len, px, py) {
                    assert(px < g.framebuffer.width && py < g.framebuffer.height);
                    assert((x <= px < max_x && y <= py < max_y) == in_rect(x, y, width, height, px, py));
                }
            }
        }
    }
}

/// Largest glyph scale: the glyph offsets at that scale stay within 64 bits.
pub const MAX_GLYPH_SCALE: u64 = 0x1000_0000_0000_0000;

/// Whether pixel `(px, py)` is in the box a glyph at `(x, y)` drawn at `scale` can touch.
pub open spec fn in_glyph_box(x: u64, y: u64, scale: u64, px: u64, py: u64) -> bool {
    x <= px < x + GLYPH_WIDTH * scale && y <= py < y + 7 * scale
}

/// Whether dot `(row, column)` of the glyph of `byte` is set: bit `4 - column` of row `row`.
pub open spec fn glyph_dot(byte: u8, row: int, column: int) -> bool {
    0 <= row < 7 && 0 <= column < 5 && spec_glyph(byte)[row] & (1u8 << ((4 - column) as u8)) != 0
}

/// Whether pixel `(px, py)` lies in the square of dot `(row, column)` of a glyph drawn
/// at `(x, y)` at `scale`.
pub open spec fn in_dot(x: u64, y: u64, scale: u64, row: int, column: int, px: u64, py: u64) -> bool {
    &&& x + column * scale <= px < x + column * scale + scale
    &&& y + row * scale <= py < y + row * scale + scale
}

/// Whether pixel `(px, py)` lies in the square of a set dot among the dots before
/// `(row, column)`, row by row.
pub open spec fn inked_before(byte: u8, x: u64, y: u64, scale: u64, row: int, column: int, px: u64, py: u64) -> bool {
    exists|r: int, c: int|
        (r < row || (r == row && c < column)) && glyph_dot(byte, r, c) && #[trigger] in_dot(x, y, scale, r, c, px, py)
}

/// Whether pixel `(px, py)` is inked by the glyph of `byte` drawn at `(x, y)` at `scale`.
pub open spec fn glyph_inked(byte: u8, x: u64, y: u64, scale: u64, px: u64, py: u64) -> bool {
    inked_before(byte, x, y, scale, 7, 0, px, py)
}

proof fn lemma_inked_step(byte: u8, x: u64, y: u64, scale: u64, row: int, column: int, px: u64, py: u64)
    requires
        0 <= column < 5,
    ensures
        inked_before(byte, x, y, scale, row, column + 1, px, py) == (inked_before(byte, x, y, scale, row, column, px, py)
            || (glyph_dot(byte, row, column) && in_dot(x, y, scale, row, column, px, py))),
{
    if inked_before(byte, x, y, scale, row, column + 1, px, py) {
        let (r, c) = choose|r: int, c: int|
            (r < row || (r == row && c < column + 1)) && glyph_dot(byte, r, c) && #[trigger] in_dot(x, y, scale, r, c, px, py);
        if !(r == row && c == column) {
            assert(in_dot(x, y, scale, r, c, px, py));
        }
    }
    if glyph_dot(byte, row, column) && in_dot(x, y, scale, row, column, px, py) {
        assert(in_dot(x, y, scale, row, column, px, py));
    }
    if inked_before(byte, x, y, scale, row, column, px, py) {
        let (r, c) = choose|r: int, c: int|
            (r < row || (r == row && c < column)) && glyph_dot(byte, r, c) && #[trigger] in_dot(x, y, scale, r, c, px, py);
        assert(in_dot(x, y, scale, r, c, px, py));
    }
}

proof fn lemma_inked_next_row(byte: u8, x: u64, y: u64, scale: u64, row: int, px: u64, py: u64)
    ensures
        inked_before(byte, x, y, scale, row, 5, px, py) == inked_before(byte, x, y, scale, row + 1, 0, px, py),
{
    if inked_before(byte, x, y, scale, row, 5, px, py) {
        let (r, c) = choose|r: int, c: int|
            (r < row || (r == row && c < 5)) && glyph_dot(byte, r, c) && #[trigger] in_dot(x, y, scale, r, c, px, py);
        assert(in_dot(x, y, scale, r, c, px, py));
    }
    if inked_before(byte, x, y, scale, row + 1, 0, px, py) {
        let (r, c) = choose|r: int, c: int|
            (r < row + 1 || (r == row + 1 && c < 0)) && glyph_dot(byte, r, c) && #[trigger] in_dot(x, y, scale, r, c, px, py);
        assert(c < 5);
        assert(in_dot(x, y, scale, r, c, px, py));
    }
}

/// Draws the glyph of `byte` with its top left corner at `(x, y)`, each glyph dot a
/// `scale` by `scale` square. When no two pixels share a byte, the pixels of the set
/// dots that lie in memory hold the colour and every other pixel is as it was.
pub fn draw_glyph(g: &ConsoleGeometry, memory: &mut Vec<u8>, x: u64, y: u64, byte: u8, color: u32, scale: u64)
    requires
        3 <= g.bytes_per_pixel <= 4,
        scale <= MAX_GLYPH_SCALE,
    ensures
        final(memory)@.len() == old(memory)@.len(),
        rows_disjoint(*g) ==> forall|px: u64, py: u64|
            !in_glyph_box(x, y, scale, px, py) ==> #[trigger] spec_read_pixel(*g, final(memory)@, px, py)
                == spec_read_pixel(*g, old(memory)@, px, py),
        rows_disjoint(*g) ==> forall|px: u64, py: u64|
            #[trigger] spec_read_pixel(*g, final(memory)@, px, py) == (if glyph_inked(byte, x, y, scale, px, py)
                && pixel_in_memory(*g, old(memory)@.len(), px, py) {
                stored_color(*g, color)
            } else {
                spec_read_pixel(*g, old(memory)@, px, py)
            }),
{
    let rows = glyph(byte);
    let ghost start = memory@;
    let ghost len = memory@.len();
    let mut row: usize = 0;
    while row < 7
        invariant
            3 <= g.bytes_per_pixel <= 4,
            scale <= MAX_GLYPH_SCALE,
            memory@.len() == len,
            start.len() == len,
            rows_disjoint(*g) ==> forall|px: u64, py: u64|
                !in_glyph_box(x, y, scale, px, py) ==> #[trigger] spec_read_pixel(*g, memory@, px, py)
                    == spec_read_pixel(*g, start, px, py),
            rows@ == spec_glyph(byte),
            row <= 7,
            rows_disjoint(*g) ==> forall|px: u64, py: u64|
                #[trigger] spec_read_pixel(*g, memory@, px, py) == (if inked_before(byte, x, y, scale, row as int, 0, px, py)
                    && pixel_in_memory(*g, len, px, py) {
                    stored_color(*g, color)
                } else {
                    spec_read_pixel(*g, start, px, py)
                }),
        decreases 7 - row,
    {
        let bits = rows[row];
        let mut column: u64 = 0;
        while column < GLYPH_WIDTH
            invariant
                3 <= g.bytes_per_pixel <= 4,
                scale <= MAX_GLYPH_SCALE,
                row < 7,
                memory@.len() == len,
                start.len() == len,
                rows_disjoint(*g) ==> forall|px: u64, py: u64|
                    !in_glyph_box(x, y, scale, px, py) ==> #[trigger] spec_read_pixel(*g, memory@, px, py)
                        == spec_read_pixel(*g, start, px, py),
                rows@ == spec_glyph(byte),
                bits == spec_glyph(byte)[row as int],
                column <= 5,
                rows_disjoint(*g) ==> forall|px: u64, py: u64|
                    #[trigger] spec_read_pixel(*g, memory@, px, py) == (if inked_before(byte, x, y, scale, row as int, column as int, px, py)
                        && pixel_in_memory(*g, len, px, py) {
                        stored_color(*g, color)
                    } else {
                        spec_read_pixel(*g, start, px, py)
                    }),
            decreases GLYPH_WIDTH - column,
        {
            let mask: u8 = 1u8 << ((GLYPH_WIDTH - 1 - column) as u8);
            assert(glyph_dot(byte, row as int, column as int) == (bits & mask != 0));
            if bits & mask != 0 {
                assert(column * scale <= 4 * MAX_GLYPH_SCALE) by (nonlinear_arith)
                    requires
                        column < 5,
                        scale <= MAX_GLYPH_SCALE,
                ;
                assert(row as u64 * scale <= 6 * MAX_GLYPH_SCALE) by (nonlinear_arith)
                    requires
                        row < 7,
                        scale <= MAX_GLYPH_SCALE,
                ;
                assert(column * scale + scale <= GLYPH_WIDTH * scale) by (nonlinear_arith)
                    requires
                        column < 5,
                ;
                assert(row as int * scale + scale <= 7 * scale) by (nonlinear_arith)
                    requires
                        row < 7,
                ;
                let pixel_x = x.saturating_add(column * scale);
                let pixel_y = y.saturating_add((row as u64) * scale);
                let ghost prev = memory@;
                fill_rect(g, memory, pixel_x, pixel_y, scale, scale, color);
                proof {
                    if rows_disjoint(*g) {
                        assert forall|px: u64, py: u64|
                            !in_glyph_box(x, y, scale, px, py) implies #[trigger] spec_read_pixel(*g, memory@, px, py)
                                == spec_read_pixel(*g, start, px, py) by {
                            assert(spec_read_pixel(*g, memory@, px, py) == painted_pixel(
                                *g,
                                prev,
                                pixel_x,
                                pixel_y,
                                scale,
                                scale,
                                color,
                                px,
                                py,
                            ));
                            if in_rect(pixel_x, pixel_y, scale, scale, px, py) && pixel_in_memory(*g, len, px, py) {
                                assert(px < g.framebuffer.width);
                                assert(py < g.framebuffer.height);
                                assert(in_glyph_box(x, y, scale, px, py));
                            }
                        }
                        assert forall|px: u64, py: u64|
                            #[trigger] spec_read_pixel(*g, memory@, px, py) == (if inked_before(byte, x, y, scale, row as int, column + 1, px, py)
                                && pixel_in_memory(*g, len, px, py) {
                                stored_color(*g, color)
                            } else {
                                spec_read_pixel(*g, start, px, py)
                            }) by {
                            lemma_inked_step(byte, x, y, scale, row as int, column as int, px, py);
                            assert(spec_read_pixel(*g, memory@, px, py) == painted_pixel(
                                *g,
                                prev,
                                pixel_x,
                                pixel_y,
                                scale,
                                scale,
                                color,
                                px,
                                py,
                            ));
                            if pixel_in_memory(*g, len, px, py) {
                                assert(in_rect(pixel_x, pixel_y, scale, scale, px, py) == in_dot(
                                    x,
                                    y,
                                    scale,
                                    row as int,
                                    column as int,
                                    px,
                                    py,
                                ));
                            }
                        }
                    }
                }
            } else {
                proof {
                    if rows_disjoint(*g) {
                        assert forall|px: u64, py: u64|
                            #[trigger] spec_read_pixel(*g, memory@, px, py) == (if inked_before(byte, x, y, scale, row as int, column + 1, px, py)
                                && pixel_in_memory(*g, len, px, py) {
                                stored_color(*g, color)
                            } else {
                                spec_read_pixel(*g, start, px, py)
                            }) by {
                            lemma_inked_step(byte, x, y, scale, row as int, column as int, px, py);
                        }
                    }
                }
            }
            column = column + 1;
        }
        proof {
            if rows_disjoint(*g) {
                assert forall|px: u64, py: u64|
                    #[trigger] spec_read_pixel(*g, memory@, px, py) == (if inked_before(byte, x, y, scale, row + 1, 0, px, py)
                        && pixel_in_memory(*g, len, px, py) {
                        stored_color(*g, color)
                    } else {
                        spec_read_pixel(*g, start, px, py)
                    }) by {
                    lemma_inked_next_row(byte, x, y, scale, row as int, px, py);
                    assert(spec_read_pixel(*g, memory@, px, py) == (if inked_before(byte, x, y, scale, row as int, 5, px, py)
                        && pixel_in_memory(*g, len, px, py) {
                        stored_color(*g, color)
                    } else {
                        spec_read_pixel(*g, start, px, py)
                    }));
                }
            }
        }
        row = row + 1;
    }
}

/// Whether pixel `(px, py)` is in the band a line of text at `(x, y)` drawn at `scale` can touch.
pub open spec fn in_text_band(x: u64, y: u64, scale: u64, px: u64, py: u64) -> bool {
    x <= px && y <= py < y + 7 * scale
}

/// Draws `text` left to right from `(x, y)`, lower-case letters in upper case. When no
/// two pixels share a byte, pixels outside the band of the line are left as they were.
/// Where character `i` of a line drawn from `x` at `scale` starts: one advance per
/// character, saturating at the top of the address range.
pub open spec fn text_x(x: u64, scale: u64, i: nat) -> u64
    decreases i,
{
    if i == 0 {
        x
    } else {
        let prev = text_x(x, scale, (i - 1) as nat);
        if prev + GLYPH_ADVANCE_X * scale > u64::MAX {
            u64::MAX
        } else {
            (prev + GLYPH_ADVANCE_X * scale) as u64
        }
    }
}

/// The value of pixel `(px, py)` once the first `n` characters of `text` are drawn over
/// `mem`: the colour where one of them inks it, later characters over earlier ones.
pub open spec fn text_pixel(
    g: ConsoleGeometry,
    mem: Seq<u8>,
    x: u64,
    y: u64,
    text: Seq<u8>,
    color: u32,
    scale: u64,
    n: nat,
    px: u64,
    py: u64,
) -> u32
    decreases n,
{
    if n == 0 {
        spec_read_pixel(g, mem, px, py)
    } else if glyph_inked(spec_normalize_glyph_byte(text[n - 1]), text_x(x, scale, (n - 1) as nat), y, scale, px, py)
        && pixel_in_memory(g, mem.len(), px, py) {
        stored_color(g, color)
    } else {
        text_pixel(g, mem, x, y, text, color, scale, (n - 1) as nat, px, py)
    }
}

pub fn draw_text_bytes(g: &ConsoleGeometry, memory: &mut Vec<u8>, x: u64, y: u64, text: &[u8], color: u32, scale: u64)
    requires
        3 <= g.bytes_per_pixel <= 4,
        scale <= MAX_GLYPH_SCALE,
    ensures
        final(memory)@.len() == old(memory)@.len(),
        rows_disjoint(*g) ==> forall|px: u64, py: u64|
            !in_text_band(x, y, scale, px, py) ==> #[trigger] spec_read_pixel(*g, final(memory)@, px, py)
                == spec_read_pixel(*g, old(memory)@, px, py),
        rows_disjoint(*g) ==> forall|px: u64, py: u64|
            #[trigger] spec_read_pixel(*g, final(memory)@, px, py) == text_pixel(
                *g,
                old(memory)@,
                x,
                y,
                text@,
                color,
                scale,
                text@.len(),
                px,
                py,
            ),
{
    let ghost start = memory@;
    let ghost len = memory@.len();
    let mut cursor_x = x;
    let mut i: usize = 0;
    while i < text.len()
        invariant
            3 <= g.bytes_per_pixel <= 4,
            scale <= MAX_GLYPH_SCALE,
            memory@.len() == len,
            start.len() == len,
            x <= cursor_x,
            rows_disjoint(*g) ==> forall|px: u64, py: u64|
                !in_text_band(x, y, scale, px, py) ==> #[trigger] spec_read_pixel(*g, memory@, px, py)
                    == spec_read_pixel(*g, start, px, py),
            i <= text@.len(),
            cursor_x == text_x(x, scale, i as nat),
            rows_disjoint(*g) ==> forall|px: u64, py: u64|
                #[trigger] spec_read_pixel(*g, memory@, px, py) == text_pixel(
                    *g,
                    start,
                    x,
                    y,
                    text@,
                    color,
                    scale,
                    i as nat,
                    px,
                    py,
                ),
        decreases text.len() - i,
    {
        let ghost prev = memory@;
        draw_glyph(g, memory, cursor_x, y, normalize_glyph_byte(text[i]), color, scale);
        proof {
            if rows_disjoint(*g) {
                assert forall|px: u64, py: u64|
                    !in_text_band(x, y, scale, px, py) implies #[trigger] spec_read_pixel(*g, memory@, px, py)
                        == spec_read_pixel(*g, start, px, py) by {
                    assert(!in_glyph_box(cursor_x, y, scale, px, py));
                    assert(spec_read_pixel(*g, memory@, px, py) == spec_read_pixel(*g, prev, px, py));
                }
                assert forall|px: u64, py: u64|
                    #[trigger] spec_read_pixel(*g, memory@, px, py) == text_pixel(
                        *g,
                        start,
                        x,
                        y,
                        text@,
                        color,
                        scale,
                        (i + 1) as nat,
                        px,
                        py,
                    ) by {
                    assert(spec_read_pixel(*g, prev, px, py) == text_pixel(*g, start, x, y, text@, color, scale, i as nat, px, py));
                }
            }
        }
        cursor_x = cursor_x.saturating_add(GLYPH_ADVANCE_X * scale);
        i = i + 1;
    }
}

/// The colour text of a style is drawn in.
pub open spec fn spec_style_color(g: ConsoleGeometry, style: ConsoleStyle) -> u32 {
    match style {
        ConsoleStyle::Default => g.text,
        ConsoleStyle::Accent => g.accent,
        ConsoleStyle::Success => g.success,
        ConsoleStyle::Warning => g.warning,
        ConsoleStyle::Error => g.error,
        ConsoleStyle::Fatal => g.fatal,
        ConsoleStyle::Muted => g.muted,
    }
}

pub fn style_color(g: &ConsoleGeometry, style: ConsoleStyle) -> (c: u32)
    ensures
        c == spec_style_color(*g, style),
{
    match style {
        ConsoleStyle::Default => g.text,
        ConsoleStyle::Accent => g.accent,
        ConsoleStyle::Success => g.success,
        ConsoleStyle::Warning => g.warning,
        ConsoleStyle::Error => g.error,
        ConsoleStyle::Fatal => g.fatal,
        ConsoleStyle::Muted => g.muted,
    }
}

// ---------------------------------------------------------------------------
// The text cursor.

/// The cursor `(column, row)` after a line feed: the next row, or the last row once the
/// log scrolls.
pub open spec fn newline_cursor(c: (u64, u64), rows: u64) -> (u64, u64) {
    (0, if c.1 + 1 >= rows { (rows - 1) as u64 } else { (c.1 + 1) as u64 })
}

/// The cursor after one character cell is drawn: a full line wraps first.
pub open spec fn put_cursor(c: (u64, u64), columns: u64, rows: u64) -> (u64, u64) {
    let c1 = if c.0 >= columns { newline_cursor(c, rows) } else { c };
    ((c1.0 + 1) as u64, c1.1)
}

/// The cursor after a byte of text: carriage returns are dropped, a tab is four spaces.
pub open spec fn byte_cursor(c: (u64, u64), columns: u64, rows: u64, b: u8) -> (u64, u64) {
    if b == 0x0d {
        c
    } else if b == 0x0a {
        newline_cursor(c, rows)
    } else if b == 0x09 {
        put_cursor(put_cursor(put_cursor(put_cursor(c, columns, rows), columns, rows), columns, rows), columns, rows)
    } else {
        put_cursor(c, columns, rows)
    }
}

/// The cursor after a whole text.
pub open spec fn text_cursor(c: (u64, u64), columns: u64, rows: u64, text: Seq<u8>) -> (u64, u64)
    decreases text.len(),
{
    if text.len() == 0 {
        c
    } else {
        byte_cursor(text_cursor(c, columns, rows, text.drop_last()), columns, rows, text.last())
    }
}

/// The pixels of framebuffer memory, by position.
pub open spec fn memory_pixels(g: ConsoleGeometry, mem: Seq<u8>) -> spec_fn(u64, u64) -> u32 {
    |px: u64, py: u64| spec_read_pixel(g, mem, px, py)
}

/// The pixels `prev` once the log moved up one text row and its last row was cleared;
/// `len` is the size of the memory.
pub open spec fn scrolled_pixels(g: ConsoleGeometry, len: nat, prev: spec_fn(u64, u64) -> u32) -> spec_fn(u64, u64) -> u32 {
    |px: u64, py: u64|
        if in_rect(
            g.log_origin_x,
            (g.log_origin_y + g.log_height - CHAR_HEIGHT) as u64,
            g.log_width,
            CHAR_HEIGHT,
            px,
            py,
        ) && pixel_in_memory(g, len, px, py) {
            stored_color(g, g.background)
        } else if in_scrolled_rows(g, px, py) && pixel_in_memory(g, len, px, py) {
            prev(px, (py + CHAR_HEIGHT) as u64)
        } else {
            prev(px, py)
        }
}

/// The pixels `prev` after a new line from cursor `c`: scrolled when `c` is on the last row.
pub open spec fn newline_pixels(g: ConsoleGeometry, len: nat, c: (u64, u64), prev: spec_fn(u64, u64) -> u32) -> spec_fn(u64, u64) -> u32 {
    if c.1 + 1 >= g.rows {
        scrolled_pixels(g, len, prev)
    } else {
        prev
    }
}

/// The pixels `prev` once the cell at cursor `c` is cleared to the background and the
/// glyph of `byte` is drawn in it in `color`.
pub open spec fn cell_pixels(
    g: ConsoleGeometry,
    len: nat,
    c: (u64, u64),
    color: u32,
    byte: u8,
    prev: spec_fn(u64, u64) -> u32,
) -> spec_fn(u64, u64) -> u32 {
    let cx = (g.log_origin_x + c.0 * CHAR_WIDTH) as u64;
    let cy = (g.log_origin_y + c.1 * CHAR_HEIGHT) as u64;
    |px: u64, py: u64|
        if glyph_inked(byte, (cx + FONT_SCALE) as u64, (cy + FONT_SCALE) as u64, FONT_SCALE, px, py) && pixel_in_memory(
            g,
            len,
            px,
            py,
        ) {
            stored_color(g, color)
        } else if in_rect(cx, cy, CHAR_WIDTH, CHAR_HEIGHT, px, py) && pixel_in_memory(g, len, px, py) {
            stored_color(g, g.background)
        } else {
            prev(px, py)
        }
}

/// The pixels `prev` once one character is put at cursor `c`: a full line wraps first.
pub open spec fn put_pixels(
    g: ConsoleGeometry,
    len: nat,
    c: (u64, u64),
    color: u32,
    byte: u8,
    prev: spec_fn(u64, u64) -> u32,
) -> spec_fn(u64, u64) -> u32 {
    if c.0 >= g.columns {
        cell_pixels(g, len, newline_cursor(c, g.rows), color, byte, newline_pixels(g, len, c, prev))
    } else {
        cell_pixels(g, len, c, color, byte, prev)
    }
}

/// The pixels `prev` once byte `b` of a text is written at cursor `c`.
pub open spec fn byte_pixels(
    g: ConsoleGeometry,
    len: nat,
    c: (u64, u64),
    color: u32,
    b: u8,
    prev: spec_fn(u64, u64) -> u32,
) -> spec_fn(u64, u64) -> u32 {
    if b == 0x0d {
        prev
    } else if b == 0x0a {
        newline_pixels(g, len, c, prev)
    } else if b == 0x09 {
        let c1 = put_cursor(c, g.columns, g.rows);
        let c2 = put_cursor(c1, g.columns, g.rows);
        let c3 = put_cursor(c2, g.columns, g.rows);
        put_pixels(
            g,
            len,
            c3,
            color,
            0x20,
            put_pixels(g, len, c2, color, 0x20, put_pixels(g, len, c1, color, 0x20, put_pixels(g, len, c, color, 0x20, prev))),
        )
    } else {
        put_pixels(g, len, c, color, spec_normalize_glyph_byte(b), prev)
    }
}

/// The pixels of `mem` once `text` is written from cursor `c0` in `color`.
pub open spec fn text_pixels(g: ConsoleGeometry, mem: Seq<u8>, c0: (u64, u64), color: u32, text: Seq<u8>) -> spec_fn(u64, u64) -> u32
    decreases text.len(),
{
    if text.len() == 0 {
        memory_pixels(g, mem)
    } else {
        byte_pixels(
            g,
            mem.len(),
            text_cursor(c0, g.columns, g.rows, text.drop_last()),
            color,
            text.last(),
            text_pixels(g, mem, c0, color, text.drop_last()),
        )
    }
}

impl FramebufferConsole {
    pub open spec fn cursor(&self) -> (u64, u64) {
        (self.cursor_column, self.cursor_row)
    }

    /// Moves the cursor to the start of the next line, scrolling the log when it is full.
    fn new_line(&mut self)
        requires
            old(self).wf(),
        ensures
            final(self).wf(),
            final(self).geometry == old(self).geometry,
            final(self).memory@.len() == old(self).memory@.len(),
            final(self).cursor() == newline_cursor(old(self).cursor(), old(self).geometry.rows),
            old(self).cursor_row + 1 < old(self).geometry.rows ==> final(self).memory@ == old(self).memory@,
            old(self).cursor_row + 1 >= old(self).geometry.rows && rows_disjoint(old(self).geometry) ==> forall|
                px: u64,
                py: u64,
            |
                #[trigger] spec_read_pixel(old(self).geometry, final(self).memory@, px, py) == after_scroll_pixel(
                    old(self).geometry,
                    old(self).memory@,
                    px,
                    py,
                ),
            rows_disjoint(old(self).geometry) ==> memory_pixels(old(self).geometry, final(self).memory@) == newline_pixels(
                old(self).geometry,
                old(self).memory@.len(),
                old(self).cursor(),
                memory_pixels(old(self).geometry, old(self).memory@),
            ),
    {
        let ghost m0 = self.memory@;
        let ghost g = self.geometry;
        self.cursor_column = 0;
        if self.cursor_row + 1 >= self.geometry.rows {
            scroll_up(&self.geometry, &mut self.memory);
            self.cursor_row = self.geometry.rows - 1;
            proof {
                if rows_disjoint(g) {
                    assert(memory_pixels(g, self.memory@) =~= scrolled_pixels(g, m0.len(), memory_pixels(g, m0)));
                }
            }
        } else {
            self.cursor_row = self.cursor_row + 1;
            assert(memory_pixels(g, self.memory@) =~= memory_pixels(g, m0));
        }
    }

    /// Draws one character cell at the cursor and advances it.
    fn write_byte(&mut self, style: ConsoleStyle, byte: u8)
        requires
            old(self).wf(),
        ensures
            final(self).wf(),
            final(self).geometry == old(self).geometry,
            final(self).memory@.len() == old(self).memory@.len(),
            final(self).cursor() == put_cursor(old(self).cursor(), old(self).geometry.columns, old(self).geometry.rows),
            rows_disjoint(old(self).geometry) ==> memory_pixels(old(self).geometry, final(self).memory@) == put_pixels(
                old(self).geometry,
                old(self).memory@.len(),
                old(self).cursor(),
                spec_style_color(old(self).geometry, style),
                byte,
                memory_pixels(old(self).geometry, old(self).memory@),
            ),
    {
        let ghost m0 = self.memory@;
        let ghost c0 = self.cursor();
        let ghost prev = memory_pixels(self.geometry, m0);
        let ghost before: spec_fn(u64, u64) -> u32 = if c0.0 >= self.geometry.columns {
            newline_pixels(self.geometry, m0.len(), c0, prev)
        } else {
            prev
        };
        if self.cursor_column >= self.geometry.columns {
            self.new_line();
        }
        let g = self.geometry;
        assert(rows_disjoint(g) ==> memory_pixels(g, self.memory@) == before);
        let ghost m1 = self.memory@;
        let x = g.log_origin_x + self.cursor_column * CHAR_WIDTH;
        let y = g.log_origin_y + self.cursor_row * CHAR_HEIGHT;
        fill_rect(&g, &mut self.memory, x, y, CHAR_WIDTH, CHAR_HEIGHT, g.background);
        let ghost m2 = self.memory@;
        let color = style_color(&g, style);
        draw_glyph(&g, &mut self.memory, x + FONT_SCALE, y + FONT_SCALE, byte, color, FONT_SCALE);
        proof {
            if rows_disjoint(g) {
                let c1 = self.cursor();
                assert(memory_pixels(g, self.memory@) =~= cell_pixels(g, m0.len(), c1, color, byte, before)) by {
                    assert forall|px: u64, py: u64|
                        #[trigger] memory_pixels(g, self.memory@)(px, py) == cell_pixels(g, m0.len(), c1, color, byte, before)(
                            px,
                            py,
                        ) by {
                        assert(spec_read_pixel(g, m2, px, py) == painted_pixel(
                            g,
                            m1,
                            x,
                            y,
                            CHAR_WIDTH,
                            CHAR_HEIGHT,
                            g.background,
                            px,
                            py,
                        ));
                        assert(memory_pixels(g, m1)(px, py) == before(px, py));
                    }
                }
            }
        }
        self.cursor_column = self.cursor_column + 1;
    }

    /// Writes text at the cursor in a style: line feeds start a new line, carriage
    /// returns are dropped, tabs are four spaces, lower-case letters are drawn in upper case.
    pub fn write_text(&mut self, style: ConsoleStyle, text: &[u8])
        requires
            old(self).wf(),
        ensures
            final(self).wf(),
            final(self).geometry == old(self).geometry,
            final(self).memory@.len() == old(self).memory@.len(),
            final(self).cursor() == text_cursor(
                old(self).cursor(),
                old(self).geometry.columns,
                old(self).geometry.rows,
                text@,
            ),
            rows_disjoint(old(self).geometry) ==> memory_pixels(old(self).geometry, final(self).memory@) == text_pixels(
                old(self).geometry,
                old(self).memory@,
                old(self).cursor(),
                spec_style_color(old(self).geometry, style),
                text@,
            ),
    {
        let ghost start = self.cursor();
        let ghost g0 = self.geometry;
        let ghost len = self.memory@.len();
        let ghost m0 = self.memory@;
        let ghost color = spec_style_color(g0, style);
        assert(text@.take(0) =~= Seq::<u8>::empty());
        let mut i: usize = 0;
        while i < text.len()
            invariant
                self.wf(),
                self.geometry == g0,
                self.memory@.len() == len,
                i <= text@.len(),
                self.cursor() == text_cursor(start, g0.columns, g0.rows, text@.take(i as int)),
                m0.len() == len,
                color == spec_style_color(g0, style),
                rows_disjoint(g0) ==> memory_pixels(g0, self.memory@) == text_pixels(g0, m0, start, color, text@.take(i as int)),
            decreases text.len() - i,
        {
            let byte = text[i];
            assert(text@.take(i as int + 1).drop_last() =~= text@.take(i as int));
            assert(text@.take(i as int + 1).last() == byte);
            if byte == 0x0d {
            } else if byte == 0x0a {
                self.new_line();
            } else if byte == 0x09 {
                self.write_byte(style, 0x20);
                self.write_byte(style, 0x20);
                self.write_byte(style, 0x20);
                self.write_byte(style, 0x20);
            } else {
                self.write_byte(style, normalize_glyph_byte(byte));
            }
            i = i + 1;
        }
        assert(text@.take(text@.len() as int) =~= text@);
    }
}

/// A pixel value read back from memory is kept whole when it is written again.
proof fn lemma_read_pixel_is_stored(g: ConsoleGeometry, mem: Seq<u8>, x: u64, y: u64)
    requires
        3 <= g.bytes_per_pixel <= 4,
    ensures
        stored_color(g, spec_read_pixel(g, mem, x, y)) == spec_read_pixel(g, mem, x, y),
{
    if g.bytes_per_pixel == 3 && pixel_in_memory(g, mem.len(), x, y) {
        let off = pixel_offset(g, x, y);
        let b0 = mem[off];
        let b1 = mem[off + 1];
        let b2 = mem[off + 2];
        assert((((b0 as u32) | ((b1 as u32) << 8u32) | ((b2 as u32) << 16u32)) & 0xff_ffff) == ((b0 as u32) | ((
        b1 as u32) << 8u32) | ((b2 as u32) << 16u32))) by (bit_vector);
    } else if g.bytes_per_pixel == 3 {
        assert(0u32 & 0xff_ffff == 0u32) by (bit_vector);
    }
}

/// Whether pixel `(px, py)` lies in the part of the log that takes the row below it on a scroll.
pub open spec fn in_scrolled_rows(g: ConsoleGeometry, px: u64, py: u64) -> bool {
    &&& g.log_origin_x <= px < g.log_origin_x + g.log_width
    &&& g.log_origin_y <= py < g.log_origin_y + g.log_height - CHAR_HEIGHT
}

/// The value of pixel `(px, py)` once every log pixel above the last text row holds the
/// pixel one text row below it.
pub open spec fn scrolled_pixel(g: ConsoleGeometry, mem: Seq<u8>, px: u64, py: u64) -> u32 {
    if in_scrolled_rows(g, px, py) && pixel_in_memory(g, mem.len(), px, py) {
        spec_read_pixel(g, mem, px, (py + CHAR_HEIGHT) as u64)
    } else {
        spec_read_pixel(g, mem, px, py)
    }
}

/// The value of pixel `(px, py)` after a scroll: the log moved up one text row, its last
/// row cleared to the background, everything outside the log as it was.
pub open spec fn after_scroll_pixel(g: ConsoleGeometry, mem: Seq<u8>, px: u64, py: u64) -> u32 {
    if in_rect(
        g.log_origin_x,
        (g.log_origin_y + g.log_height - CHAR_HEIGHT) as u64,
        g.log_width,
        CHAR_HEIGHT,
        px,
        py,
    ) && pixel_in_memory(g, mem.len(), px, py) {
        stored_color(g, g.background)
    } else {
        scrolled_pixel(g, mem, px, py)
    }
}

/// Moves the log up by one text row and clears the last row. When no two pixels share
/// a byte, each pixel reads as `after_scroll_pixel` of the memory before.
pub fn scroll_up(g: &ConsoleGeometry, memory: &mut Vec<u8>)
    requires
        g.wf(),
    ensures
        final(memory)@.len() == old(memory)@.len(),
        rows_disjoint(*g) ==> forall|px: u64, py: u64|
            #[trigger] spec_read_pixel(*g, final(memory)@, px, py) == after_scroll_pixel(
                *g,
                old(memory)@,
                px,
                py,
            ),
{
    let ghost start = memory@;
    let ghost len = memory@.len();
    let destination_y = g.log_origin_y;
    let end_y = g.log_origin_y + g.log_height - CHAR_HEIGHT;
    let end_x = g.log_origin_x + g.log_width;
    let mut y = destination_y;
    while y < end_y
        invariant
            g.wf(),
            memory@.len() == len,
            start.len() == len,
            destination_y == g.log_origin_y,
            end_y == g.log_origin_y + g.log_height - CHAR_HEIGHT,
            end_x == g.log_origin_x + g.log_width,
            destination_y <= y <= end_y,
            end_y + CHAR_HEIGHT <= g.framebuffer.height,
            rows_disjoint(*g) ==> forall|px: u64, py: u64|
                #[trigger] spec_read_pixel(*g, memory@, px, py) == (if in_scrolled_rows(*g, px, py) && py < y
                    && pixel_in_memory(*g, len, px, py) {
                    spec_read_pixel(*g, start, px, (py + CHAR_HEIGHT) as u64)
                } else {
                    spec_read_pixel(*g, start, px, py)
                }),
        decreases end_y - y,
    {
        let mut x = g.log_origin_x;
        while x < end_x
            invariant
                g.wf(),
                memory@.len() == len,
                start.len() == len,
                end_y == g.log_origin_y + g.log_height - CHAR_HEIGHT,
                end_x == g.log_origin_x + g.log_width,
                g.log_origin_y <= y < end_y,
                g.log_origin_x <= x <= end_x,
                end_y + CHAR_HEIGHT <= g.framebuffer.height,
                rows_disjoint(*g) ==> forall|px: u64, py: u64|
                    #[trigger] spec_read_pixel(*g, memory@, px, py) == (if in_scrolled_rows(*g, px, py) && (py < y
                        || (py == y && px < x)) && pixel_in_memory(*g, len, px, py) {
                        spec_read_pixel(*g, start, px, (py + CHAR_HEIGHT) as u64)
                    } else {
                        spec_read_pixel(*g, start, px, py)
                    }),
            decreases end_x - x,
        {
            let ghost prev = memory@;
            let color = read_pixel(g, memory.as_slice(), x, y + CHAR_HEIGHT);
            proof {
                if rows_disjoint(*g) {
                    assert(spec_read_pixel(*g, prev, x, (y + CHAR_HEIGHT) as u64) == spec_read_pixel(
                        *g,
                        start,
                        x,
                        (y + CHAR_HEIGHT) as u64,
                    ));
                }
            }
            write_pixel(g, memory, x, y, color);
            proof {
                if rows_disjoint(*g) {
                    lemma_read_pixel_is_stored(*g, start, x, (y + CHAR_HEIGHT) as u64);
                    assert forall|px: u64, py: u64|
                        #[trigger] spec_read_pixel(*g, memory@, px, py) == (if in_scrolled_rows(*g, px, py) && (py
                            < y || (py == y && px < x + 1)) && pixel_in_memory(*g, len, px, py) {
                            spec_read_pixel(*g, start, px, (py + CHAR_HEIGHT) as u64)
                        } else {
                            spec_read_pixel(*g, start, px, py)
                        }) by {
                        lemma_paint_step(*g, prev, x, y, color, px, py);
                        assert(spec_read_pixel(*g, prev, px, py) == (if in_scrolled_rows(*g, px, py) && (py < y || (
                        py == y && px < x)) && pixel_in_memory(*g, len, px, py) {
                            spec_read_pixel(*g, start, px, (py + CHAR_HEIGHT) as u64)
                        } else {
                            spec_read_pixel(*g, start, px, py)
                        }));
                    }
                }
            }
            x = x + 1;
        }
        proof {
            if rows_disjoint(*g) {
                assert forall|px: u64, py: u64|
                    #[trigger] spec_read_pixel(*g, memory@, px, py) == (if in_scrolled_rows(*g, px, py) && py < y
                        + 1 && pixel_in_memory(*g, len, px, py) {
                        spec_read_pixel(*g, start, px, (py + CHAR_HEIGHT) as u64)
                    } else {
                        spec_read_pixel(*g, start, px, py)
                    }) by {
                    assert(spec_read_pixel(*g, memory@, px, py) == (if in_scrolled_rows(*g, px, py) && (py < y || (
                    py == y && px < x)) && pixel_in_memory(*g, len, px, py) {
                        spec_read_pixel(*g, start, px, (py + CHAR_HEIGHT) as u64)
                    } else {
                        spec_read_pixel(*g, start, px, py)
                    }));
                }
            }
        }
        y = y + 1;
    }
    let ghost mid = memory@;
    fill_rect(g, memory, g.log_origin_x, g.log_origin_y + g.log_height - CHAR_HEIGHT, g.log_width, CHAR_HEIGHT, g.background);
    proof {
        if rows_disjoint(*g) {
            assert forall|px: u64, py: u64|
                #[trigger] spec_read_pixel(*g, memory@, px, py) == after_scroll_pixel(*g, start, px, py) by {
                assert(spec_read_pixel(*g, mid, px, py) == scrolled_pixel(*g, start, px, py));
            }
        }
    }
}

impl FramebufferConsole {
    /// Clears the log region and puts the cursor at its start.
    fn clear_log_region(&mut self)
        requires
            old(self).wf(),
        ensures
            final(self).wf(),
            final(self).geometry == old(self).geometry,
            final(self).memory@.len() == old(self).memory@.len(),
            final(self).cursor() == (0u64, 0u64),
            rows_disjoint(old(self).geometry) ==> forall|px: u64, py: u64|
                #[trigger] spec_read_pixel(old(self).geometry, final(self).memory@, px, py) == painted_pixel(
                    old(self).geometry,
                    old(self).memory@,
                    old(self).geometry.log_origin_x,
                    old(self).geometry.log_origin_y,
                    old(self).geometry.log_width,
                    old(self).geometry.log_height,
                    old(self).geometry.background,
                    px,
                    py,
                ),
    {
        let g = self.geometry;
        fill_rect(&g, &mut self.memory, g.log_origin_x, g.log_origin_y, g.log_width, g.log_height, g.background);
        self.cursor_column = 0;
        self.cursor_row = 0;
    }

    /// Paints the boot surface: background, header bar and accent line, the banner with
    /// its five bars, the title and mode texts; then clears the log region. When no two
    /// pixels share a byte, pixel (8, 8) shows the header and pixel (56, 136) the first
    /// banner bar.
    pub fn paint_boot_surface(&mut self)
        requires
            old(self).wf(),
        ensures
            final(self).wf(),
            final(self).geometry == old(self).geometry,
            final(self).memory@.len() == old(self).memory@.len(),
            final(self).cursor() == (0u64, 0u64),
            rows_disjoint(old(self).geometry) ==> spec_read_pixel(old(self).geometry, final(self).memory@, 8, 8)
                == surface_pixel(old(self).geometry, old(self).memory@.len(), 8, 8, old(self).geometry.header),
            rows_disjoint(old(self).geometry) ==> spec_read_pixel(old(self).geometry, final(self).memory@, 56, 136)
                == surface_pixel(old(self).geometry, old(self).memory@.len(), 56, 136, old(self).geometry.accent),
    {
        let g = self.geometry;
        let f = g.framebuffer;
        let ghost len = self.memory@.len();
        fill_rect(&g, &mut self.memory, 0, 0, f.width, f.height, g.background);
        fill_rect(&g, &mut self.memory, 0, 0, f.width, HEADER_HEIGHT, g.header);
        let ghost m2 = self.memory@;
        fill_rect(&g, &mut self.memory, 0, HEADER_ACCENT_Y, f.width, HEADER_ACCENT_HEIGHT, g.accent);
        let ghost m3 = self.memory@;
        fill_rect(&g, &mut self.memory, BANNER_X, BANNER_Y, BANNER_WIDTH, BANNER_HEIGHT, g.header);
        let ghost m4 = self.memory@;
        fill_rect(&g, &mut self.memory, BANNER_X + 16, BANNER_Y + 16, 32, 96, g.accent);
        let ghost m5 = self.memory@;
        fill_rect(&g, &mut self.memory, BANNER_X + 64, BANNER_Y + 16, 32, 96, g.accent_soft);
        let ghost m6 = self.memory@;
        fill_rect(&g, &mut self.memory, BANNER_X + 112, BANNER_Y + 16, 32, 96, g.accent);
        let ghost m7 = self.memory@;
        fill_rect(&g, &mut self.memory, BANNER_X + 160, BANNER_Y + 16, 32, 96, g.accent_soft);
        let ghost m8 = self.memory@;
        fill_rect(&g, &mut self.memory, BANNER_X + 208, BANNER_Y + 16, 32, 96, g.accent);
        let ghost m9 = self.memory@;
        draw_text_bytes(&g, &mut self.memory, BANNER_X, 20, "HXNU 2605".as_bytes(), g.text, 3);
        let ghost m10 = self.memory@;
        draw_text_bytes(&g, &mut self.memory, 320, 32, "FB READY".as_bytes(), g.text, 2);
        let ghost m11 = self.memory@;
        let mode_line = format_mode_line(f.width, f.height, f.bpp);
        draw_text_bytes(&g, &mut self.memory, 320, 72, mode_line.as_slice(), g.accent, 2);
        let ghost m12 = self.memory@;
        self.clear_log_region();
        proof {
            if rows_disjoint(g) {
                let header = surface_pixel(g, len, 8, 8, g.header);
                assert(spec_read_pixel(g, m2, 8, 8) == header);
                assert(spec_read_pixel(g, m3, 8, 8) == header);
                assert(spec_read_pixel(g, m4, 8, 8) == header);
                assert(spec_read_pixel(g, m5, 8, 8) == header);
                assert(spec_read_pixel(g, m6, 8, 8) == header);
                assert(spec_read_pixel(g, m7, 8, 8) == header);
                assert(spec_read_pixel(g, m8, 8, 8) == header);
                assert(spec_read_pixel(g, m9, 8, 8) == header);
                assert(spec_read_pixel(g, m10, 8, 8) == header);
                assert(spec_read_pixel(g, m11, 8, 8) == header);
                assert(spec_read_pixel(g, m12, 8, 8) == header);
                assert(spec_read_pixel(g, self.memory@, 8, 8) == header);
                let accent = surface_pixel(g, len, 56, 136, g.accent);
                assert(spec_read_pixel(g, m5, 56, 136) == accent);
                assert(spec_read_pixel(g, m6, 56, 136) == accent);
                assert(spec_read_pixel(g, m7, 56, 136) == accent);
                assert(spec_read_pixel(g, m8, 56, 136) == accent);
                assert(spec_read_pixel(g, m9, 56, 136) == accent);
                assert(spec_read_pixel(g, m10, 56, 136) == accent);
                assert(spec_read_pixel(g, m11, 56, 136) == accent);
                assert(spec_read_pixel(g, m12, 56, 136) == accent);
                assert(spec_read_pixel(g, self.memory@, 56, 136) == accent);
            }
        }
    }

    /// The first pixel in the first two text rows and 32 columns of the log region that
    /// differs from the background; the background when there is none.
    pub fn first_ink_sample(&self) -> (c: u32)
        requires
            self.wf(),
        ensures
            c == self.geometry.background || exists|x: u64, y: u64|
                #![trigger spec_read_pixel(self.geometry, self.memory@, x, y)]
                self.geometry.log_origin_x <= x < self.geometry.log_origin_x + self.geometry.log_width
                    && self.geometry.log_origin_y <= y < self.geometry.log_origin_y + self.geometry.log_height
                    && spec_read_pixel(self.geometry, self.memory@, x, y) == c,
    {
        let g = self.geometry;
        let rows_height = if CHAR_HEIGHT * 2 < g.log_height { CHAR_HEIGHT * 2 } else { g.log_height };
        let cols_width = if CHAR_WIDTH * 32 < g.log_width { CHAR_WIDTH * 32 } else { g.log_width };
        let end_y = g.log_origin_y + rows_height;
        let end_x = g.log_origin_x + cols_width;
        let mut y = g.log_origin_y;
        while y < end_y
            invariant
                g == self.geometry,
                g.wf(),
                g.log_origin_y <= y,
                end_y <= g.log_origin_y + g.log_height,
                end_x <= g.log_origin_x + g.log_width,
            decreases end_y - y,
        {
            let mut x = g.log_origin_x;
            while x < end_x
                invariant
                    g == self.geometry,
                    g.wf(),
                    g.log_origin_y <= y < end_y,
                    g.log_origin_x <= x,
                    end_y <= g.log_origin_y + g.log_height,
                    end_x <= g.log_origin_x + g.log_width,
                decreases end_x - x,
            {
                let color = read_pixel(&g, self.memory.as_slice(), x, y);
                if color != g.background {
                    return color;
                }
                x = x + 1;
            }
            y = y + 1;
        }
        g.background
    }
}

/// The console layout for a framebuffer, or why its log region is too small.
pub open spec fn spec_geometry(f: Framebuffer, bytes_per_pixel: usize) -> Result<ConsoleGeometry, FramebufferError> {
    let log_width: int = if f.width >= 2 * LOG_ORIGIN_X { f.width - 2 * LOG_ORIGIN_X } else { 0 };
    let below: int = if f.height >= LOG_ORIGIN_Y { f.height - LOG_ORIGIN_Y } else { 0 };
    let log_height: int = if below >= LOG_BOTTOM_MARGIN { below - LOG_BOTTOM_MARGIN } else { 0 };
    if log_width < CHAR_WIDTH * 4 || log_height < CHAR_HEIGHT * 4 {
        Err(FramebufferError::ConsoleAreaTooSmall)
    } else {
        let columns = (log_width / (CHAR_WIDTH as int)) as u64;
        let rows = (log_height / (CHAR_HEIGHT as int)) as u64;
        Ok(
            ConsoleGeometry {
                framebuffer: f,
                bytes_per_pixel,
                background: spec_pack_rgb(f, 0x09, 0x11, 0x1b),
                header: spec_pack_rgb(f, 0x11, 0x2b, 0x44),
                accent: spec_pack_rgb(f, 0x2d, 0xd4, 0xbf),
                accent_soft: spec_pack_rgb(f, 0x79, 0xe2, 0xd0),
                text: spec_pack_rgb(f, 0xf5, 0xf7, 0xfa),
                success: spec_pack_rgb(f, 0x8b, 0xe9, 0x7d),
                warning: spec_pack_rgb(f, 0xff, 0xc8, 0x57),
                error: spec_pack_rgb(f, 0xff, 0x6b, 0x6b),
                fatal: spec_pack_rgb(f, 0xff, 0x4d, 0x6d),
                muted: spec_pack_rgb(f, 0x94, 0xa3, 0xb8),
                log_origin_x: LOG_ORIGIN_X,
                log_origin_y: LOG_ORIGIN_Y,
                log_width: (columns * CHAR_WIDTH) as u64,
                log_height: (rows * CHAR_HEIGHT) as u64,
                columns,
                rows,
            },
        )
    }
}

/// Lays out the console on a framebuffer.
pub fn console_geometry(f: &Framebuffer, bytes_per_pixel: usize) -> (r: Result<ConsoleGeometry, FramebufferError>)
    requires
        masks_supported(*f),
        3 <= bytes_per_pixel <= 4,
    ensures
        r == spec_geometry(*f, bytes_per_pixel),
        r matches Ok(g) ==> g.wf(),
{
    let log_width = f.width.saturating_sub(LOG_ORIGIN_X * 2);
    let log_height = f.height.saturating_sub(LOG_ORIGIN_Y).saturating_sub(LOG_BOTTOM_MARGIN);
    if log_width < CHAR_WIDTH * 4 || log_height < CHAR_HEIGHT * 4 {
        return Err(FramebufferError::ConsoleAreaTooSmall);
    }
    let columns = log_width / CHAR_WIDTH;
    let rows = log_height / CHAR_HEIGHT;
    Ok(
        ConsoleGeometry {
            framebuffer: *f,
            bytes_per_pixel,
            background: pack_rgb(f, 0x09, 0x11, 0x1b),
            header: pack_rgb(f, 0x11, 0x2b, 0x44),
            accent: pack_rgb(f, 0x2d, 0xd4, 0xbf),
            accent_soft: pack_rgb(f, 0x79, 0xe2, 0xd0),
            text: pack_rgb(f, 0xf5, 0xf7, 0xfa),
            success: pack_rgb(f, 0x8b, 0xe9, 0x7d),
            warning: pack_rgb(f, 0xff, 0xc8, 0x57),
            error: pack_rgb(f, 0xff, 0x6b, 0x6b),
            fatal: pack_rgb(f, 0xff, 0x4d, 0x6d),
            muted: pack_rgb(f, 0x94, 0xa3, 0xb8),
            log_origin_x: LOG_ORIGIN_X,
            log_origin_y: LOG_ORIGIN_Y,
            log_width: columns * CHAR_WIDTH,
            log_height: rows * CHAR_HEIGHT,
            columns,
            rows,
        },
    )
}

/// Bytes per pixel of a depth in bits, rounded up.
pub open spec fn spec_bytes_per_pixel(bpp: u16) -> int {
    (bpp + 7) / 8
}

/// Why a framebuffer cannot carry the console, checked in this order, or the layout.
pub open spec fn spec_console_check(f: Framebuffer, has_memory: bool) -> Result<ConsoleGeometry, FramebufferError> {
    if !has_memory {
        Err(FramebufferError::MissingAddress)
    } else if f.memory_model != LIMINE_FRAMEBUFFER_RGB {
        Err(FramebufferError::UnsupportedMemoryModel)
    } else if spec_bytes_per_pixel(f.bpp) < 3 || spec_bytes_per_pixel(f.bpp) > 4 {
        Err(FramebufferError::UnsupportedBitsPerPixel)
    } else {
        spec_geometry(f, spec_bytes_per_pixel(f.bpp) as usize)
    }
}

/// Starts the console on a framebuffer whose memory is `memory` (`None` when the
/// framebuffer has no address): paints the boot surface and samples two of its pixels.
pub fn initialize(framebuffer: Framebuffer, memory: Option<Vec<u8>>) -> (r: Result<
    (FramebufferConsole, FramebufferSummary),
    FramebufferError,
>)
    requires
        masks_supported(framebuffer),
    ensures
        match spec_console_check(framebuffer, memory is Some) {
            Err(e) => r == Err::<(FramebufferConsole, FramebufferSummary), FramebufferError>(e),
            Ok(g) => r matches Ok((console, summary)) && {
                &&& console.wf()
                &&& console.geometry == g
                &&& console.memory@.len() == memory->Some_0@.len()
                &&& console.cursor() == (0u64, 0u64)
                &&& summary.width == framebuffer.width
                &&& summary.height == framebuffer.height
                &&& summary.pitch == framebuffer.pitch
                &&& summary.bpp == framebuffer.bpp
                &&& summary.sample_background == spec_read_pixel(g, console.memory@, 8, 8)
                &&& summary.sample_accent == spec_read_pixel(g, console.memory@, 56, 136)
                &&& rows_disjoint(g) ==> summary.sample_background == surface_pixel(
                    g,
                    memory->Some_0@.len(),
                    8,
                    8,
                    g.header,
                )
                &&& rows_disjoint(g) ==> summary.sample_accent == surface_pixel(
                    g,
                    memory->Some_0@.len(),
                    56,
                    136,
                    g.accent,
                )
            },
        },
{
    let memory = match memory {
        Some(m) => m,
        None => return Err(FramebufferError::MissingAddress),
    };
    if framebuffer.memory_model != LIMINE_FRAMEBUFFER_RGB {
        return Err(FramebufferError::UnsupportedMemoryModel);
    }
    let bytes_per_pixel = ((framebuffer.bpp as u32 + 7) / 8) as usize;
    if bytes_per_pixel < 3 || bytes_per_pixel > 4 {
        return Err(FramebufferError::UnsupportedBitsPerPixel);
    }
    let geometry = match console_geometry(&framebuffer, bytes_per_pixel) {
        Ok(g) => g,
        Err(e) => return Err(e),
    };
    let mut console = FramebufferConsole { geometry, memory, cursor_column: 0, cursor_row: 0 };
    console.paint_boot_surface();
    let sample_background = read_pixel(&console.geometry, console.memory.as_slice(), 8, 8);
    let sample_accent = read_pixel(&console.geometry, console.memory.as_slice(), 56, 136);
    let summary = FramebufferSummary {
        width: framebuffer.width,
        height: framebuffer.height,
        pitch: framebuffer.pitch,
        bpp: framebuffer.bpp,
        sample_background,
        sample_accent,
    };
    Ok((console, summary))
}

/// Writes text to the console, if there is one, in the default style.
pub fn write_str(console: &mut Option<FramebufferConsole>, text: &[u8])
    requires
        *old(console) matches Some(c) ==> c.wf(),
    ensures
        match *old(console) {
            None => *final(console) is None,
            Some(c) => *final(console) matches Some(n) && n.wf() && n.geometry == c.geometry && n.cursor()
                == text_cursor(c.cursor(), c.geometry.columns, c.geometry.rows, text@) && (rows_disjoint(c.geometry)
                ==> memory_pixels(c.geometry, n.memory@) == text_pixels(
                c.geometry,
                c.memory@,
                c.cursor(),
                spec_style_color(c.geometry, ConsoleStyle::Default),
                text@,
            )),
        },
{
    write_style(console, ConsoleStyle::Default, text);
}

/// Writes text to the console, if there is one, in a style.
pub fn write_style(console: &mut Option<FramebufferConsole>, style: ConsoleStyle, text: &[u8])
    requires
        *old(console) matches Some(c) ==> c.wf(),
    ensures
        match *old(console) {
            None => *final(console) is None,
            Some(c) => *final(console) matches Some(n) && n.wf() && n.geometry == c.geometry && n.cursor()
                == text_cursor(c.cursor(), c.geometry.columns, c.geometry.rows, text@) && (rows_disjoint(c.geometry)
                ==> memory_pixels(c.geometry, n.memory@) == text_pixels(
                c.geometry,
                c.memory@,
                c.cursor(),
                spec_style_color(c.geometry, style),
                text@,
            )),
        },
{
    match console {
        Some(c) => c.write_text(style, text),
        None => {},
    }
}

/// The first ink in the log region of the console, if there is one.
pub fn console_probe(console: &Option<FramebufferConsole>) -> (r: Option<u32>)
    requires
        console matches Some(c) ==> c.wf(),
    ensures
        r is Some <==> console is Some,
{
    match console {
        Some(c) => Some(c.first_ink_sample()),
        None => None,
    }
}

} // verus!
