use memlens::cache::CacheEntry;
use memlens::cache::CachedMemoryAccess;
use memlens::cache::PageCache;
use memlens::cache::TimedCache;
use memlens::phys::PhysicalMemory;
use memlens::types::Address;
use memlens::types::ErrorKind;
use memlens::types::PageType;

#[test]
fn cache_entry_accessors() {
    let e = CacheEntry::with(true, Address(0x2000), vec![7u8; 4096]);
    assert!(e.is_valid());
    assert_eq!(e.address(), Address(0x2000));
    assert_eq!(e.buf.len(), 4096);
}

#[test]
fn invalidate_then_lookup_reports_invalid() {
    // P5: after invalidate_page, the next cached_page returns an entry
    // with valid == false.
    let mut cache = TimedCache::with(8, 1000);
    cache.validate_page(Address(0x3000), PageType::ReadOnly, vec![9u8; 4096], 0);
    let e = cache.cached_page(Address(0x3456), 1);
    assert!(e.is_valid());
    cache.invalidate_page(Address(0x3000), PageType::ReadOnly);
    let e = cache.cached_page(Address(0x3456), 2);
    assert!(!e.is_valid());
}

#[test]
fn validate_then_lookup_serves_bytes() {
    let mut cache = TimedCache::with(8, 1000);
    let mut page = vec![0u8; 4096];
    page[5] = 0x77;
    cache.validate_page(Address(0x5000), PageType::Code, page, 10);
    let e = cache.cached_page(Address(0x5005), 500);
    assert!(e.is_valid());
    assert_eq!(e.address(), Address(0x5000));
    assert_eq!(e.buf[5], 0x77);
}

#[test]
fn ttl_expiry_observed_on_lookup() {
    // P6: with TTL = T, the valid bit reads false on first access after
    // last_validated + T.
    let mut cache = TimedCache::with(8, 100);
    cache.validate_page(Address(0x7000), PageType::ReadOnly, vec![1u8; 4096], 1000);
    assert!(cache.cached_page(Address(0x7000), 1100).is_valid());
    assert!(!cache.cached_page(Address(0x7000), 1101).is_valid());
}

#[test]
fn admission_toggle_blocks_storing() {
    let mut cache = TimedCache::with(8, 1000);
    cache.cached_page_type(PageType::Writeable).unwrap();
    cache.validate_page(Address(0x9000), PageType::Writeable, vec![3u8; 4096], 0);
    assert!(!cache.cached_page(Address(0x9000), 0).is_valid());
    // Other tags are still admitted.
    cache.validate_page(Address(0xA000), PageType::Stack, vec![4u8; 4096], 0);
    assert!(cache.cached_page(Address(0xA000), 0).is_valid());
}

#[test]
fn page_size_is_4k() {
    let cache = TimedCache::with(2, 10);
    assert_eq!(cache.page_size().0, 4096);
}

#[test]
fn cached_read_hides_mutation_until_ttl() {
    // S4: TTL 100 ms; a mutation behind the cache's back is invisible at
    // 50 ms and visible at 150 ms.
    let mut phys = PhysicalMemory::from_bytes(vec![0x11u8; 8192]);
    let mut access = CachedMemoryAccess::with(TimedCache::with(8, 100));
    let b0 = access
        .read_page(&mut phys, Address(0x1000), PageType::ReadOnly, 0)
        .unwrap();
    assert_eq!(b0[0], 0x11);
    // Mutate the provider directly.
    assert!(phys.phys_write(0x1000, &[0x99u8; 16]));
    let reads_before = phys.read_count();
    let b1 = access
        .read_page(&mut phys, Address(0x1000), PageType::ReadOnly, 50)
        .unwrap();
    assert_eq!(b1[0], 0x11, "stale bytes served within the TTL");
    assert_eq!(phys.read_count(), reads_before, "no provider call on a fresh hit");
    let b2 = access
        .read_page(&mut phys, Address(0x1000), PageType::ReadOnly, 150)
        .unwrap();
    assert_eq!(b2[0], 0x99, "fresh bytes after the TTL ran out");
}

#[test]
fn cached_read_out_of_range_is_connector_error() {
    let mut phys = PhysicalMemory::from_bytes(vec![0u8; 4096]);
    let mut access = CachedMemoryAccess::with(TimedCache::with(8, 100));
    let err = access
        .read_page(&mut phys, Address(0x10000), PageType::ReadOnly, 0)
        .unwrap_err();
    assert_eq!(err.kind(), ErrorKind::Connector);
}
