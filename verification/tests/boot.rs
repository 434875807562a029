use lib::fb::{
    format_mode_line, glyph, initialize as fb_initialize, normalize_glyph_byte, pack_channel, read_pixel, scroll_up,
    write_pixel,
    ConsoleStyle, FramebufferError,
};
use lib::init_exec::{activate_loaded, build_activation, render_status, InitExecActivateError, InitExecState};
use lib::limine::Framebuffer;
use lib::log::write_record;
use lib::power::{
    register_width_bytes, reset_capability, reset_control_values, reset_plan, GenericAddress, PowerResetCapability,
    PowerState, ResetError, ResetWrite,
};
use lib::serial::crlf_bytes;
use lib::time::BootTimestamp;
use lib::tty::{TtyBootstrap, TtyConsole, TtyRoute};
use lib::vfs::{
    ExecutableDiscoveryError, ExecutableFormat, ExecutableLoadImage, ExecutableLoadPrepError, VfsMountKind,
    VmMapImageEntry,
};

fn framebuffer(width: u64, height: u64, bpp: u16) -> Framebuffer {
    Framebuffer {
        width,
        height,
        pitch: width * 4,
        bpp,
        memory_model: 1,
        red_mask_size: 8,
        red_mask_shift: 16,
        green_mask_size: 8,
        green_mask_shift: 8,
        blue_mask_size: 8,
        blue_mask_shift: 0,
    }
}

#[test]
fn framebuffer_refusals() {
    let f = framebuffer(640, 480, 32);
    assert_eq!(fb_initialize(f, None).err(), Some(FramebufferError::MissingAddress));
    let model = Framebuffer { memory_model: 2, ..f };
    assert_eq!(fb_initialize(model, Some(vec![0u8; 16])).err(), Some(FramebufferError::UnsupportedMemoryModel));
    let shallow = framebuffer(640, 480, 16);
    assert_eq!(fb_initialize(shallow, Some(vec![0u8; 16])).err(), Some(FramebufferError::UnsupportedBitsPerPixel));
    let small = framebuffer(100, 100, 32);
    assert_eq!(fb_initialize(small, Some(vec![0u8; 40_000])).err(), Some(FramebufferError::ConsoleAreaTooSmall));
    assert_eq!(FramebufferError::MissingAddress.as_str(), "framebuffer address is null");
}

#[test]
fn framebuffer_boot_surface_and_cursor() {
    let f = framebuffer(640, 480, 32);
    let (mut console, summary) = fb_initialize(f, Some(vec![0u8; 640 * 480 * 4])).ok().unwrap();
    assert_eq!(summary.width, 640);
    assert_eq!(summary.height, 480);
    assert_eq!(summary.bpp, 32);
    assert_eq!(summary.sample_background, 0x11_2b44);
    assert_eq!(summary.sample_accent, 0x2d_d4bf);
    assert_eq!(console.geometry.columns, 48);
    assert_eq!(console.geometry.rows, 10);
    assert_eq!((console.cursor_column, console.cursor_row), (0, 0));
    console.write_text(ConsoleStyle::Default, b"ab\n\tx\r");
    assert_eq!((console.cursor_column, console.cursor_row), (5, 1));
    assert_eq!(console.first_ink_sample(), console.geometry.text);
    for _ in 0..20 {
        console.write_text(ConsoleStyle::Muted, b"line\n");
    }
    assert_eq!(console.cursor_row, 9);
}

#[test]
fn written_character_inks_its_glyph_dots() {
    let f = framebuffer(640, 480, 32);
    let (mut console, _) = fb_initialize(f, Some(vec![0u8; 640 * 480 * 4])).ok().unwrap();
    let g = console.geometry;
    console.write_text(ConsoleStyle::Default, b"1");
    let (ox, oy) = (g.log_origin_x, g.log_origin_y);
    assert_eq!(read_pixel(&g, &console.memory, ox + 6, oy + 2), g.text);
    assert_eq!(read_pixel(&g, &console.memory, ox + 7, oy + 3), g.text);
    assert_eq!(read_pixel(&g, &console.memory, ox + 2, oy + 2), g.background);
    assert_eq!(read_pixel(&g, &console.memory, ox, oy), g.background);
    assert_eq!(read_pixel(&g, &console.memory, ox + 12, oy + 2), g.background);
}

#[test]
fn scroll_moves_the_log_up_one_text_row() {
    let f = framebuffer(640, 480, 32);
    let (mut console, _) = fb_initialize(f, Some(vec![0u8; 640 * 480 * 4])).ok().unwrap();
    let g = console.geometry;
    let x = g.log_origin_x + 5;
    let y = g.log_origin_y + 16 + 3;
    write_pixel(&g, &mut console.memory, x, y, 0x0012_3456);
    let last_row = g.log_origin_y + g.log_height - 2;
    write_pixel(&g, &mut console.memory, x, last_row, 0x00ab_cdef);
    let outside = g.log_origin_y - 1;
    let before_outside = read_pixel(&g, &console.memory, x, outside);
    scroll_up(&g, &mut console.memory);
    assert_eq!(read_pixel(&g, &console.memory, x, y - 16), 0x0012_3456);
    assert_eq!(read_pixel(&g, &console.memory, x, last_row - 16), 0x00ab_cdef);
    assert_eq!(read_pixel(&g, &console.memory, x, last_row), g.background);
    assert_eq!(read_pixel(&g, &console.memory, x, outside), before_outside);
}

#[test]
fn pixel_reads_back_what_was_written() {
    let f = framebuffer(64, 64, 24);
    let g = lib::fb::ConsoleGeometry {
        framebuffer: Framebuffer { pitch: 64 * 3, ..f },
        bytes_per_pixel: 3,
        background: 0,
        header: 0,
        accent: 0,
        accent_soft: 0,
        text: 0,
        success: 0,
        warning: 0,
        error: 0,
        fatal: 0,
        muted: 0,
        log_origin_x: 32,
        log_origin_y: 288,
        log_width: 0,
        log_height: 0,
        columns: 0,
        rows: 0,
    };
    let mut memory = vec![0u8; 64 * 64 * 3];
    write_pixel(&g, &mut memory, 3, 2, 0xaabb_ccdd);
    assert_eq!(read_pixel(&g, &memory, 3, 2), 0x00bb_ccdd);
    assert_eq!(&memory[2 * 192 + 9..2 * 192 + 12], &[0xdd, 0xcc, 0xbb]);
    assert_eq!(read_pixel(&g, &memory, 64, 0), 0);
}

#[test]
fn colours_glyphs_and_mode_line() {
    assert_eq!(pack_channel(0xff, 8, 16), 0x00ff_0000);
    assert_eq!(pack_channel(0x80, 5, 11), 16 << 11);
    assert_eq!(pack_channel(0x80, 0, 11), 0);
    assert_eq!(format_mode_line(640, 480, 32), b"640X480X32".to_vec());
    assert_eq!(glyph(b'0'), [0x0e, 0x11, 0x13, 0x15, 0x19, 0x11, 0x0e]);
    assert_eq!(glyph(b'~'), [0x1f, 0x11, 0x0a, 0x04, 0x0a, 0x11, 0x1f]);
    assert_eq!(normalize_glyph_byte(b'q'), b'Q');
    assert_eq!(normalize_glyph_byte(b'Q'), b'Q');
}

fn segment(executable: bool, map_end: u64, bytes: usize) -> VmMapImageEntry {
    VmMapImageEntry {
        index: 0,
        file_offset: 0,
        virtual_start: 0x40_1000,
        virtual_end: 0x40_1010,
        map_start: 0x40_1000,
        map_end,
        page_offset: 0,
        file_bytes: 16,
        memory_bytes: 16,
        zero_fill_bytes: 0,
        alignment: 0x1000,
        readable: true,
        writable: false,
        executable,
        bytes: vec![0x90u8; bytes],
    }
}

fn image(format: ExecutableFormat, entry: Option<u64>, segments: Vec<VmMapImageEntry>) -> ExecutableLoadImage {
    ExecutableLoadImage {
        path: "/initrd/init".to_string(),
        mount: VfsMountKind::Initrd,
        format,
        size: 4096,
        executable: true,
        image_type: Some(2),
        machine: Some(0x3e),
        entry_point: entry,
        interpreter: None,
        interpreter_source: None,
        interpreter_argument: None,
        interpreter_resolved: false,
        vm_map_images: segments,
        vm_map_total_bytes: 4096,
        vm_map_zero_fill_bytes: 0,
    }
}

#[test]
fn init_status_before_activation() {
    let state = InitExecState::new();
    assert_eq!(render_status(&state), "armed no\nlast_error <none>\n");
}

#[test]
fn init_activation_errors() {
    let text = image(ExecutableFormat::Text, Some(0x40_1000), vec![segment(true, 0x40_2000, 4096)]);
    assert_eq!(build_activation(text).err(), Some(InitExecActivateError::UnsupportedFormat));
    let no_entry = image(ExecutableFormat::Elf, None, vec![segment(true, 0x40_2000, 4096)]);
    assert_eq!(build_activation(no_entry).err(), Some(InitExecActivateError::MissingEntryPoint));
    let empty = image(ExecutableFormat::Elf, Some(0x40_1000), vec![]);
    assert_eq!(build_activation(empty).err(), Some(InitExecActivateError::NoLoadSegments));
    let short = image(ExecutableFormat::Elf, Some(0x40_1000), vec![segment(true, 0x40_2000, 100)]);
    assert_eq!(build_activation(short).err(), Some(InitExecActivateError::InvalidSegmentMap));
    let data = image(ExecutableFormat::Elf, Some(0x40_1000), vec![segment(false, 0x40_2000, 4096)]);
    assert_eq!(build_activation(data).err(), Some(InitExecActivateError::NoExecutableSegments));
    let outside = image(ExecutableFormat::Elf, Some(0x50_0000), vec![segment(true, 0x40_2000, 4096)]);
    assert_eq!(build_activation(outside).err(), Some(InitExecActivateError::EntryOutsideExecutableSegments));
    assert_eq!(InitExecActivateError::NoLoadSegments.as_str(), "init executable has no loadable segments");
}

#[test]
fn init_activation_and_status() {
    let mut state = InitExecState::new();
    let good = image(ExecutableFormat::Elf, Some(0x40_1004), vec![segment(true, 0x40_2000, 4096)]);
    let summary = activate_loaded(&mut state, Ok(good)).ok().unwrap();
    assert!(summary.armed);
    assert_eq!(summary.segment_count, 1);
    assert_eq!(summary.entry_segment_index, 0);
    assert_eq!(summary.entry_segment_map_offset, 4);
    assert_eq!(summary.vm_start, 0x40_1000);
    assert_eq!(summary.vm_end, 0x40_2000);
    let text = render_status(&state);
    assert!(text.starts_with("armed yes\npath /initrd/init\nformat elf\nmachine 0x003e\nimage_type 0x0002\n"));
    assert!(text.contains("entry_point 0x0000000000401004\n"));
    assert!(text.contains("vm_range 0x0000000000401000..0x0000000000402000\n"));
    assert!(text.contains(
        "segment0 idx=0 vaddr=0x0000000000401000..0x0000000000401010 map=0x0000000000401000..0x0000000000402000 file=16 mem=16 perms=r-x bytes=4096\n"
    ));
    assert!(text.ends_with("last_error <none>\n"));
    let failed = activate_loaded(
        &mut state,
        Err(ExecutableLoadPrepError::Discovery(ExecutableDiscoveryError::PathNotFound)),
    );
    assert_eq!(
        failed.err(),
        Some(InitExecActivateError::Load(ExecutableLoadPrepError::Discovery(ExecutableDiscoveryError::PathNotFound)))
    );
    assert_eq!(render_status(&state), "armed no\nlast_error executable path was not found\n");
}

#[test]
fn power_reset_register() {
    let mut state = PowerState::new();
    assert_eq!(reset_plan(&state), Err(ResetError::Unsupported));
    assert_eq!(
        reset_capability(&state),
        PowerResetCapability { supported: false, address_space: 0, address: 0, value: 0 }
    );
    let port = GenericAddress { address_space: 1, bit_width: 8, bit_offset: 0, access_size: 0, address: 0xcf9 };
    state.configure(0xffff_8000_0000_0000, Some(port), 0x06, true);
    assert_eq!(reset_plan(&state), Ok(ResetWrite::Port { port: 0xcf9, width: 1, value: 0x06 }));
    let cap = reset_capability(&state);
    assert_eq!(cap.address_space_str(), "system-io");
    let mmio = GenericAddress { address_space: 0, bit_width: 32, bit_offset: 0, access_size: 3, address: 0xfee0_0000 };
    state.configure(0x1000, Some(mmio), 1, true);
    assert_eq!(
        reset_plan(&state),
        Ok(ResetWrite::Memory { hhdm_offset: 0x1000, address: 0xfee0_0000, width: 4, value: 1 })
    );
    let pci = GenericAddress { address_space: 2, ..mmio };
    state.configure(0, Some(pci), 1, true);
    assert_eq!(reset_plan(&state), Err(ResetError::UnsupportedAddressSpace));
    assert_eq!(register_width_bytes(GenericAddress { access_size: 0, bit_width: 64, ..mmio }), 8);
    assert_eq!(register_width_bytes(GenericAddress { access_size: 0, bit_width: 12, ..mmio }), 2);
    assert_eq!(reset_control_values(0xff, 0x06), (0xf3, 0xf7));
    assert_eq!(PowerResetCapability { supported: true, address_space: 0x7f, address: 0, value: 0 }.address_space_str(), "functional-fixed");
    assert_eq!(PowerResetCapability { supported: true, address_space: 9, address: 0, value: 0 }.address_space_str(), "unknown");
    assert_eq!(ResetError::NotTriggered.as_str(), "power reset register write did not trigger a reset");
}

#[test]
fn tty_routes_and_counts() {
    let mut tty = TtyConsole::new();
    assert_eq!(tty.write_style(b"a\nb\n"), TtyRoute { serial: true, framebuffer: false });
    assert_eq!(tty.stats().lines_written, 2);
    assert_eq!(tty.stats().bytes_written, 4);
    assert_eq!(tty.stats().output_count, 1);
    assert_eq!(tty.initialize(true), TtyBootstrap { console_id: 0, output_count: 2, framebuffer_output: true });
    assert_eq!(tty.write_style(b"x"), TtyRoute { serial: true, framebuffer: true });
    assert_eq!(tty.stats().output_count, 2);
    assert_eq!(tty.stats().bytes_written, 5);
}

#[test]
fn serial_and_log_records() {
    assert_eq!(crlf_bytes(b"a\nb\n"), b"a\r\nb\r\n".to_vec());
    assert_eq!(crlf_bytes(b""), Vec::<u8>::new());
    assert_eq!(write_record(BootTimestamp { seconds: 3, nanoseconds: 42 }, b"hi"), b"[3.000000042] hi\n".to_vec());
    assert_eq!(
        write_record(BootTimestamp { seconds: 0, nanoseconds: 123_456_789 }, b""),
        b"[0.123456789] \n".to_vec()
    );
}
