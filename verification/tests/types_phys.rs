use memlens::phys::PhysicalMemory;
use memlens::types::Address;
use memlens::types::Length;
use memlens::types::PageType;

#[test]
fn address_null_and_arithmetic() {
    assert!(Address::null().is_null());
    assert!(!Address(1).is_null());
    assert_eq!(Address(0x1234).wrapping_add(0x10), Address(0x1244));
    assert_eq!(Address(u64::MAX).wrapping_add(1), Address(0));
    assert_eq!(Address(0x10).wrapping_sub(0x20), Address(u64::MAX - 0xF));
    assert_eq!(Address(0x1FFF).align_down(4096), Address(0x1000));
    assert_eq!(Address(0x1234).as_u64(), 0x1234);
}

#[test]
fn length_accessors() {
    assert!(Length(0).is_zero());
    assert!(!Length(5).is_zero());
    assert_eq!(Length(5).as_u64(), 5);
}

#[test]
fn page_type_tags_are_distinct() {
    let tags = [
        PageType::Code,
        PageType::ReadOnly,
        PageType::Writeable,
        PageType::Stack,
        PageType::Bufferable,
    ];
    for (i, a) in tags.iter().enumerate() {
        for (j, b) in tags.iter().enumerate() {
            assert_eq!(a == b, i == j);
        }
    }
}

#[test]
fn provider_metadata_and_bounds() {
    let mut phys = PhysicalMemory::with_size(8192);
    assert_eq!(phys.metadata(), (8192, 8191));
    assert_eq!(phys.size(), 8192);
    assert!(phys.phys_read(8189, 3).is_some());
    assert!(phys.phys_read(8189, 4).is_none());
    assert!(!phys.phys_write(8192, &[1]));
}

#[test]
fn provider_scatter_read_counts_items() {
    let mut phys = PhysicalMemory::from_bytes((0u8..=255).collect());
    let items = vec![(0u64, 2usize), (10, 3), (300, 4)];
    let before = phys.read_count();
    let results = phys.phys_read_raw_list(&items);
    assert_eq!(phys.read_count() - before, 3);
    assert_eq!(results[0].as_deref(), Some(&[0u8, 1][..]));
    assert_eq!(results[1].as_deref(), Some(&[10u8, 11, 12][..]));
    assert!(results[2].is_none());
}

#[test]
fn provider_write_is_exact() {
    let mut phys = PhysicalMemory::with_size(32);
    assert!(phys.phys_write(4, &[9, 8, 7]));
    let bytes = phys.phys_read(3, 5).unwrap();
    assert_eq!(bytes, vec![0, 9, 8, 7, 0]);
}
