use checked_wipe::catalog::{unmounted, DiscoveryError};
use checked_wipe::discovery::{discover, is_node_mounted, is_partition_of, mounted_sources, partition_entries};
use checked_wipe::tables::{parse_decimal, split_fields, split_lines};

const PARTITIONS: &str = "major minor  #blocks  name

   8        0  500107608 sda
   8        1     524288 sda1
   8        2  499582279 sda2
 259        0 1000204886 nvme0n1
 259        1    1048576 nvme0n1p1
   8       16       1024 sdb
   8       32        512 sdc
   8       33        256 sdc1
";

const MOUNTS: &str = "/dev/sda2 / ext4 rw,relatime 0 0
proc /proc proc rw 0 0
/dev/nvme0n1p1 /boot vfat rw 0 0
";

#[test]
fn decimal_parsing() {
    assert_eq!(parse_decimal(b"0"), Some(0));
    assert_eq!(parse_decimal(b"524288"), Some(524288));
    assert_eq!(parse_decimal(b"18446744073709551615"), Some(u64::MAX));
    assert_eq!(parse_decimal(b"18446744073709551616"), None);
    assert_eq!(parse_decimal(b""), None);
    assert_eq!(parse_decimal(b"12a"), None);
    assert_eq!(parse_decimal(b"-1"), None);
}

#[test]
fn fields_are_maximal_non_blank_runs() {
    assert_eq!(split_fields(b"  8 \t 1  sda1\n"), vec![(2, 3), (6, 7), (9, 13)]);
    assert_eq!(split_fields(b"abc"), vec![(0, 3)]);
    assert!(split_fields(b" \t ").is_empty());
    assert!(split_fields(b"").is_empty());
}

#[test]
fn lines_split_at_newlines() {
    assert_eq!(split_lines(b"ab\n\ncd"), vec![(0, 2), (3, 3), (4, 6)]);
    assert_eq!(split_lines(b"x\n"), vec![(0, 1), (2, 2)]);
    assert_eq!(split_lines(b""), vec![(0, 0)]);
}

#[test]
fn partition_names() {
    assert!(is_partition_of(b"sda", b"sda1"));
    assert!(is_partition_of(b"sda", b"sda12"));
    assert!(is_partition_of(b"nvme0n1", b"nvme0n1p1"));
    assert!(!is_partition_of(b"sda", b"sdaa"));
    assert!(!is_partition_of(b"sda", b"sda"));
    assert!(!is_partition_of(b"sda", b"sdb1"));
    assert!(!is_partition_of(b"nvme0n1", b"nvme0n1p"));
}

#[test]
fn entries_skip_header_and_blank_lines() {
    let e = partition_entries(PARTITIONS.as_bytes()).unwrap();
    assert_eq!(e.len(), 8);
    assert_eq!(e[0], (b"sda".to_vec(), 500107608 * 1024));
    assert_eq!(e[7], (b"sdc1".to_vec(), 256 * 1024));
}

#[test]
fn malformed_row_is_a_discovery_error() {
    let bad = "major minor  #blocks  name\n\n   8 0 lots sda\n";
    assert_eq!(partition_entries(bad.as_bytes()), Err(DiscoveryError));
    let short = "major minor  #blocks  name\n   8 0 12\n";
    assert!(discover(short.as_bytes(), MOUNTS.as_bytes()).is_err());
    let huge = "h\n 8 0 18446744073709551615 sda\n";
    assert!(discover(huge.as_bytes(), b"").is_err());
}

#[test]
fn mount_sources_and_nodes() {
    let s = mounted_sources(MOUNTS.as_bytes());
    assert_eq!(s, vec![b"/dev/sda2".to_vec(), b"proc".to_vec(), b"/dev/nvme0n1p1".to_vec()]);
    assert!(is_node_mounted(&s, b"sda2"));
    assert!(!is_node_mounted(&s, b"sda1"));
    assert!(!is_node_mounted(&s, b"proc"));
}

#[test]
fn discovery_groups_partitions_under_devices() {
    let devs = discover(PARTITIONS.as_bytes(), MOUNTS.as_bytes()).unwrap();
    let names: Vec<&[u8]> = devs.iter().map(|d| d.name.as_slice()).collect();
    assert_eq!(names, vec![&b"sda"[..], b"nvme0n1", b"sdb", b"sdc"]);
    assert_eq!(devs[0].size, 500107608 * 1024);
    assert_eq!(devs[0].partitions.len(), 3);
    assert_eq!(devs[0].partitions[0].name, b"sda".to_vec());
    assert!(!devs[0].partitions[1].is_mounted);
    assert!(devs[0].partitions[2].is_mounted);
    assert!(devs[1].partitions[1].is_mounted);
    assert_eq!(devs[3].partitions.len(), 2);
    assert_eq!(unmounted(&devs), vec![2, 3]);
}

#[test]
fn whole_device_mount_counts() {
    let devs = discover(b"h\n 8 16 1024 sdb\n", b"/dev/sdb /mnt ext4 rw 0 0\n").unwrap();
    assert_eq!(devs.len(), 1);
    assert!(devs[0].partitions[0].is_mounted);
    assert!(unmounted(&devs).is_empty());
}
