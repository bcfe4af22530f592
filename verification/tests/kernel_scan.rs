use memlens::arch::Architecture;
use memlens::kernel::check_page;
use memlens::kernel::find;
use memlens::kernel::find_pae;
use memlens::kernel::find_x64;
use memlens::types::Address;
use memlens::types::ErrorKind;

fn put_u32(buf: &mut Vec<u8>, off: usize, v: u32) {
    buf[off..off + 4].copy_from_slice(&v.to_le_bytes());
}

fn put_u64(buf: &mut Vec<u8>, off: usize, v: u64) {
    buf[off..off + 8].copy_from_slice(&v.to_le_bytes());
}

/// A 16 MiB window with a page at 0x9D000 carrying the x86 DTB
/// signature and nothing else matching any scanner.
fn x86_window() -> Vec<u8> {
    let mut buf = vec![0u8; 16 * 1024 * 1024];
    let base = 0x9D000usize;
    buf[base] = 0x67;
    // Self-referencing PDE with flags 0x3; the neighbouring entry is
    // non-zero so the page cannot pass for a PML4 self-reference.
    put_u32(&mut buf, base + 0xC00, 0x9D003);
    put_u32(&mut buf, base + 0xC04, 0x0000_0001);
    // Seventeen present-and-large entries past index 0x200.
    for k in 0..17 {
        put_u32(&mut buf, base + 0x800 + 4 * k, 0x0040_0063);
    }
    buf
}

#[test]
fn x86_locator_finds_dtb() {
    // S5: the x86 signature at page 0x9D000 yields StartBlock{X86,
    // dtb = 0x9D000}.
    let w = x86_window();
    let sb = find(&w).unwrap();
    assert_eq!(sb.arch, Architecture::X86);
    assert_eq!(sb.dtb, Address(0x9D000));
}

#[test]
fn locator_is_idempotent() {
    // P7: two scans of the same window yield identical start blocks.
    let w = x86_window();
    let a = find(&w).unwrap();
    let b = find(&w).unwrap();
    assert_eq!(a, b);
}

#[test]
fn check_page_demands_all_three_marks() {
    let w = x86_window();
    let page = &w[0x9D000..0x9E000];
    assert!(check_page(Address(0x9D000), page));
    // Without the 0x67 byte the signature fails.
    let mut broken = page.to_vec();
    broken[0] = 0x66;
    assert!(!check_page(Address(0x9D000), &broken));
    // With too few large entries it fails too.
    let mut sparse = page.to_vec();
    put_u32(&mut sparse, 0x800, 0);
    assert!(!check_page(Address(0x9D000), &sparse));
}

#[test]
fn x64_scanner_wins_over_x86() {
    // A window holding both an x64 PML4 and an x86 DTB reports x64.
    let mut w = x86_window();
    let base = 0x40000usize;
    // Canonical self-reference and seventeen present upper-half entries.
    put_u64(&mut w, base + 8 * 100, base as u64 | 0x63);
    for k in 0..17 {
        put_u64(&mut w, base + 8 * (256 + k), 0x0000_0000_0030_0063 + (k as u64) * 0x1000);
    }
    let sb = find(&w).unwrap();
    assert_eq!(sb.arch, Architecture::X64);
    assert_eq!(sb.dtb, Address(0x40000));
    assert_eq!(find_x64(&w), Some(Address(0x40000)));
}

#[test]
fn empty_window_reports_initialization_error() {
    let w = vec![0u8; 4096 * 8];
    let err = find(&w).unwrap_err();
    assert_eq!(err.kind(), ErrorKind::Initialization);
}

#[test]
fn pae_scanner_sees_directory_pointer_table() {
    // A page whose four leading 8-byte entries are cleanly present or
    // absent, with at least one present, is a PAE DTB candidate.
    let mut w = vec![0u8; 64 * 4096];
    put_u64(&mut w, 5 * 4096, 0x0000_0000_0002_3001);
    put_u64(&mut w, 5 * 4096 + 8, 0x0000_0000_0002_4001);
    let sb = find(&w).unwrap();
    assert_eq!(sb.arch, Architecture::X86Pae);
    assert_eq!(sb.dtb, Address(5 * 4096));
    assert_eq!(find_pae(&w), Some(Address(5 * 4096)));
    // A present entry with stray low flag bits disqualifies the page.
    let mut bad = vec![0u8; 64 * 4096];
    put_u64(&mut bad, 5 * 4096, 0x0000_0000_0002_3067);
    assert!(find_pae(&bad).is_none());
}
