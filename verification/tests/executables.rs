use lib::block::BlockRegistry;
use lib::compress::store::StoreCounters;
use lib::devfs::Devfs;
use lib::exec::{detect_kind, inspect, ExecutableImage, ImageKind, ParseError};
use lib::fat::FatSummary;
use lib::init_exec::{activate_init_handoff, render_status, InitExecState};
use lib::initrd::{parse_newc_archive, Initrd, InitrdError};
use lib::limine::{Module, ModuleList};
use lib::mm::frame::FrameAllocator;
use lib::mm::heap::BumpAllocator;
use lib::mm::pager::PagerState;
use lib::procfs::{Procfs, ProcfsSources};
use lib::sched::Scheduler;
use lib::tty::TtyStats;
use lib::vfs::{lookup, read, FileSystems, Vfs, VfsMountKind};

fn elf() -> Vec<u8> {
    let mut b = vec![0u8; 256];
    b[0..4].copy_from_slice(&[0x7f, b'E', b'L', b'F']);
    b[4] = 2;
    b[5] = 1;
    b[6] = 1;
    b[16..18].copy_from_slice(&2u16.to_le_bytes());
    b[18..20].copy_from_slice(&0x3eu16.to_le_bytes());
    b[20..24].copy_from_slice(&1u32.to_le_bytes());
    b[24..32].copy_from_slice(&0x40_0078u64.to_le_bytes());
    b[32..40].copy_from_slice(&64u64.to_le_bytes());
    b[52..54].copy_from_slice(&64u16.to_le_bytes());
    b[54..56].copy_from_slice(&56u16.to_le_bytes());
    b[56..58].copy_from_slice(&1u16.to_le_bytes());
    let ph = 64;
    b[ph..ph + 4].copy_from_slice(&1u32.to_le_bytes());
    b[ph + 4..ph + 8].copy_from_slice(&5u32.to_le_bytes());
    b[ph + 8..ph + 16].copy_from_slice(&0u64.to_le_bytes());
    b[ph + 16..ph + 24].copy_from_slice(&0x40_0000u64.to_le_bytes());
    b[ph + 24..ph + 32].copy_from_slice(&0x40_0000u64.to_le_bytes());
    b[ph + 32..ph + 40].copy_from_slice(&256u64.to_le_bytes());
    b[ph + 40..ph + 48].copy_from_slice(&256u64.to_le_bytes());
    b[ph + 48..ph + 56].copy_from_slice(&0x1000u64.to_le_bytes());
    for x in b[120..].iter_mut() {
        *x = 0x90;
    }
    b
}

fn newc_entry(out: &mut Vec<u8>, name: &str, mode: u32, data: &[u8]) {
    let fields = [0u32, mode, 0, 0, 1, 0, data.len() as u32, 0, 0, 0, 0, name.len() as u32 + 1, 0];
    out.extend_from_slice(b"070701");
    for f in fields {
        out.extend_from_slice(format!("{:08x}", f).as_bytes());
    }
    out.extend_from_slice(name.as_bytes());
    out.push(0);
    while out.len() % 4 != 0 {
        out.push(0);
    }
    out.extend_from_slice(data);
    while out.len() % 4 != 0 {
        out.push(0);
    }
}

fn archive() -> Vec<u8> {
    let mut a = Vec::new();
    newc_entry(&mut a, "etc", 0o040755, b"");
    newc_entry(&mut a, "etc/motd", 0o100644, b"welcome\n");
    newc_entry(&mut a, "init", 0o100755, &elf());
    newc_entry(&mut a, "TRAILER!!!", 0, b"");
    a
}

fn file_systems() -> (Vfs, FileSystems) {
    let mut initrd = Initrd::new();
    let modules = ModuleList {
        modules: vec![Module { path: Some(b"/boot/initrd.cpio".to_vec()), string: Some(b"initrd".to_vec()), data: archive() }],
    };
    lib::initrd::initialize(&mut initrd, Some(&modules)).ok().unwrap();
    let blocks = BlockRegistry::new();
    let tty = TtyStats { console_id: 0, output_count: 1, bytes_written: 0, lines_written: 0 };
    let mut devfs = Devfs::new();
    lib::devfs::initialize(&mut devfs, &blocks, &tty).unwrap();
    let sources = ProcfsSources {
        uptime_ns: 0,
        frame: FrameAllocator::new().stats(),
        heap: BumpAllocator::new().stats(),
        sched: Scheduler::new().stats(0),
        topology: None,
        init_exec_status: Vec::new(),
        exec_status: Vec::new(),
        store_initialized: false,
        stored_pages: 0,
        store: StoreCounters {
            store_requests: 0,
            store_successes: 0,
            load_requests: 0,
            load_successes: 0,
            load_misses: 0,
            replacements: 0,
            evictions: 0,
            encode_failures: 0,
            decode_failures: 0,
            total_input_bytes: 0,
            total_encoded_bytes: 0,
        },
        pager_initialized: false,
        pager: PagerState::new().stats(),
        fat_initialized: false,
        fat: FatSummary::offline(),
    };
    let fs = FileSystems { initrd, devfs, procfs: Procfs::new(), blocks, tty, proc_sources: sources };
    let mut vfs = Vfs::new();
    lib::vfs::initialize(&mut vfs, &fs).unwrap();
    (vfs, fs)
}

#[test]
fn elf_images_are_recognized() {
    let image = elf();
    assert_eq!(detect_kind(&image), Ok(ImageKind::Elf64));
    match inspect(&image) {
        Ok(ExecutableImage::Elf64(e)) => {
            assert_eq!(e.entry_point, 0x40_0078);
            assert_eq!(e.machine, 0x3e);
            assert_eq!(e.program_headers.len(), 1);
        },
        _ => panic!("not an ELF image"),
    }
    assert_eq!(detect_kind(b"#!/bin/sh\n"), Ok(ImageKind::ShebangScript));
    let mut bad = elf();
    bad[4] = 1;
    assert!(matches!(inspect(&bad), Err(ParseError::UnsupportedClass)));
    assert!(matches!(inspect(&elf()[..40]), Err(ParseError::Truncated)));
    assert!(matches!(inspect(&elf()[..100]), Err(ParseError::ProgramHeaderOutOfBounds)));
}

#[test]
fn newc_archives_parse() {
    let entries = parse_newc_archive(&archive()).ok().unwrap();
    assert!(entries.len() >= 4);
    assert!(parse_newc_archive(b"not an archive").is_err());
    let mut truncated = archive();
    truncated.truncate(200);
    assert_eq!(parse_newc_archive(&truncated).err(), Some(InitrdError::InvalidArchive));
}

#[test]
fn initrd_files_are_mounted() {
    let (vfs, fs) = file_systems();
    assert_eq!(read(&vfs, &fs, "/initrd/etc/motd").unwrap(), "welcome\n");
    let init = lookup(&vfs, &fs, "/initrd/init").unwrap();
    assert_eq!(init.mount, VfsMountKind::Initrd);
    assert_eq!(init.size, 256);
    assert!(init.executable);
}

#[test]
fn init_image_is_armed_for_the_hand_off() {
    let (vfs, fs) = file_systems();
    let mut state = InitExecState::new();
    let summary = activate_init_handoff(&mut state, &vfs, &fs).ok().unwrap();
    assert_eq!(summary.entry_point, 0x40_0078);
    assert_eq!(summary.segment_count, 1);
    assert_eq!(summary.entry_segment_map_offset, 0x78);
    assert_eq!(summary.vm_start, 0x40_0000);
    assert_eq!(summary.vm_end, 0x40_1000);
    let text = render_status(&state);
    assert!(text.starts_with("armed yes\npath /initrd/init\nformat elf\n"));
}
