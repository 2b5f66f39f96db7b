use chainload::{capacity_mib, describe_media, MediaInfo, MediaSummary};

#[test]
fn capacity_in_whole_mebibytes() {
    // 2048 blocks of 512 bytes: exactly one mebibyte.
    assert_eq!(capacity_mib(2047, 512), 1);
    assert_eq!(capacity_mib(2046, 512), 0);
    assert_eq!(capacity_mib(0x3b9a_ffff, 512), 488_288);
}

#[test]
fn capacity_saturates() {
    assert_eq!(capacity_mib(u64::MAX, 4096), u64::MAX / (1024 * 1024));
    assert_eq!(capacity_mib(u64::MAX / 2, 4), u64::MAX / (1024 * 1024));
}

#[test]
fn media_summary_carries_flags() {
    let info = MediaInfo { removable: true, logical_partition: false, last_block: 4095, block_size: 512 };
    assert_eq!(describe_media(&info), MediaSummary { removable: true, partition: false, capacity_mib: 2 });
}
