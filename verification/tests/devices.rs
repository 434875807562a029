use lib::block::BlockRegistry;
use lib::devfs::{node_kind, parse_block_path, DevfsNodeKind, ParsedBlockPath};
use lib::fat::{parse_bpb, FatType};
use lib::sched::{bootstrap_report, Scheduler, SchedulerError};

fn boot_sector(bytes_per_sector: u16, total: u16) -> [u8; 512] {
    let mut s = [0u8; 512];
    s[11..13].copy_from_slice(&bytes_per_sector.to_le_bytes());
    s[13] = 4;
    s[14..16].copy_from_slice(&1u16.to_le_bytes());
    s[16] = 2;
    s[17..19].copy_from_slice(&512u16.to_le_bytes());
    s[19..21].copy_from_slice(&total.to_le_bytes());
    s[22..24].copy_from_slice(&40u16.to_le_bytes());
    s
}

#[test]
fn fat16_boot_sector_layout() {
    let layout = parse_bpb(&boot_sector(512, 40_000)).unwrap();
    assert_eq!(layout.fat_type, FatType::Fat16);
    assert_eq!(layout.root_dir_sectors, 32);
    assert_eq!(layout.fat_start_lba_offset, 1);
    assert_eq!(layout.root_dir_start_lba_offset, 81);
    assert_eq!(layout.first_data_sector_offset, 113);
    assert!(parse_bpb(&boot_sector(1024, 40_000)).is_none());
    assert!(parse_bpb(&boot_sector(512, 1_000)).is_none());
}

#[test]
fn block_device_paths() {
    assert_eq!(parse_block_path(b"/dev/sda"), Some(ParsedBlockPath { device_index: 0, partition_index: None }));
    assert_eq!(parse_block_path(b"/dev/sdb2"), Some(ParsedBlockPath { device_index: 1, partition_index: Some(2) }));
    assert_eq!(
        parse_block_path(b"/dev/nvme0n1p3"),
        Some(ParsedBlockPath { device_index: 0, partition_index: Some(3) })
    );
    assert_eq!(parse_block_path(b"/dev/sd"), None);
    assert_eq!(parse_block_path(b"/dev/nvme0n2"), None);
    assert_eq!(parse_block_path(b"/dev/sda0"), None);
}

#[test]
fn static_device_nodes() {
    let blocks = BlockRegistry::new();
    assert_eq!(node_kind(&blocks, "/dev"), Some(DevfsNodeKind::Directory));
    assert_eq!(node_kind(&blocks, "/dev/null"), Some(DevfsNodeKind::Device));
    assert_eq!(node_kind(&blocks, "/dev/tty3"), Some(DevfsNodeKind::Device));
    assert_eq!(node_kind(&blocks, "/dev/nope"), None);
}

#[test]
fn scheduler_round_robin_and_exit() {
    let mut s = Scheduler::new();
    assert_eq!(s.activate_idle_thread().err(), Some(SchedulerError::MissingIdleThread));
    s.initialize_bootstrap_threads(0x10_0000, 0x4000).unwrap();
    let stats = s.stats(0);
    assert_eq!(stats.thread_count, 2);
    assert_eq!(stats.runqueue_depth, 2);
    assert_eq!(stats.current_thread_name, "kernel-bootstrap");
    let first = s.on_timer_tick().unwrap();
    assert_eq!(first.current_thread_name, "kernel-idle");
    assert_eq!(first.context_switches, 1);
    let second = s.on_timer_tick().unwrap();
    assert_eq!(second.current_thread_name, "kernel-bootstrap");
    let record = s.request_exit_group(17).unwrap();
    assert_eq!(record.status, 17);
    assert_eq!(record.exited_thread_name, "kernel-bootstrap");
    assert_eq!(record.next_thread_name, "kernel-idle");
    assert_eq!(record.runqueue_depth, 1);
    let report = bootstrap_report(&s.stats(2), 0x40, 16, 1000);
    assert_eq!(report.source, "local-apic-periodic");
    assert_eq!(report.ticks_observed, 2);
}
