use memlens::arch::Architecture;
use memlens::phys::PhysicalMemory;
use memlens::types::Address;
use memlens::types::ErrorKind;
use memlens::vat::translate_batch;
use memlens::vat::TranslateOutcome;
use memlens::virt::VirtualMemoryContext;

fn put_u32(buf: &mut Vec<u8>, off: usize, v: u32) {
    let b = v.to_le_bytes();
    buf[off..off + 4].copy_from_slice(&b);
}

fn put_u64(buf: &mut Vec<u8>, off: usize, v: u64) {
    let b = v.to_le_bytes();
    buf[off..off + 8].copy_from_slice(&b);
}

/// A 64 MiB window with a four-level x64 mapping: the PML4 sits at
/// 0x10000 and virtual 0xFFFF_8000_0000_1000 maps to physical 0x1000.
fn x64_window() -> Vec<u8> {
    let mut buf = vec![0u8; 64 * 1024 * 1024];
    // PML4[256] -> PDPT, PDPT[0] -> PD, PD[0] -> PT, PT[1] -> 0x1000
    put_u64(&mut buf, 0x10000 + 256 * 8, 0x11000 | 3);
    put_u64(&mut buf, 0x11000, 0x12000 | 3);
    put_u64(&mut buf, 0x12000, 0x13000 | 3);
    put_u64(&mut buf, 0x13000 + 8, 0x1000 | 3);
    // PT[2] -> 0x2000 for the cross-page scenario
    put_u64(&mut buf, 0x13000 + 16, 0x2000 | 3);
    for i in 0..16 {
        buf[0x1000 + i] = 0xA0 + i as u8;
    }
    for i in 0..16 {
        buf[0x2000 + i] = 0xB0 + i as u8;
    }
    buf
}

const VA_BASE: u64 = 0xFFFF_8000_0000_1000;

#[test]
fn x64_identity_mapped_read() {
    // S1: reading 8 bytes at the mapped VA returns physical 0x1000's bytes.
    let mut phys = PhysicalMemory::from_bytes(x64_window());
    let ctx = VirtualMemoryContext::with(Architecture::X64, Address(0x10000));
    let data = ctx.virt_read_raw(&mut phys, Address(VA_BASE), 8).unwrap();
    assert_eq!(data, vec![0xA0, 0xA1, 0xA2, 0xA3, 0xA4, 0xA5, 0xA6, 0xA7]);
}

#[test]
fn large_page_read_without_pt_access() {
    // S2: a 2 MiB PD mapping serves reads at several offsets with no
    // page-table read at the bottom level.
    let mut buf = vec![0u8; 8 * 1024 * 1024];
    put_u64(&mut buf, 0x10000 + 256 * 8, 0x11000 | 3);
    put_u64(&mut buf, 0x11000, 0x12000 | 3);
    // PD[0] with PS set maps the 2 MiB at physical 0x200000.
    put_u64(&mut buf, 0x12000, 0x200000 | 0x83);
    for (off, val) in [(0usize, 0x11u8), (0x1000, 0x22), (0x1FFFF8, 0x33)] {
        buf[0x200000 + off] = val;
    }
    let mut phys = PhysicalMemory::from_bytes(buf);
    let ctx = VirtualMemoryContext::with(Architecture::X64, Address(0x10000));
    let va0: u64 = 0xFFFF_8000_0000_0000;
    for (off, val) in [(0u64, 0x11u8), (0x1000, 0x22), (0x1FFFF8, 0x33)] {
        let before = phys.read_count();
        let data = ctx.virt_read_raw(&mut phys, Address(va0 + off), 1).unwrap();
        assert_eq!(data[0], val);
        // three table pages (PML4, PDPT, PD) and one data read; the
        // fourth walk round has nothing left to read.
        assert_eq!(phys.read_count() - before, 4);
    }
}

#[test]
fn cross_page_read_concatenates() {
    // S3: a 6-byte read straddling a 4 KiB boundary returns the last 3
    // bytes of the first page followed by the first 3 of the next.
    let mut buf = x64_window();
    for i in 0..3 {
        buf[0x1000 + 4093 + i] = 0xC1 + i as u8;
    }
    let mut phys = PhysicalMemory::from_bytes(buf);
    let ctx = VirtualMemoryContext::with(Architecture::X64, Address(0x10000));
    let data = ctx
        .virt_read_raw(&mut phys, Address(VA_BASE + 4093), 6)
        .unwrap();
    assert_eq!(data, vec![0xC1, 0xC2, 0xC3, 0xB0, 0xB1, 0xB2]);
}

#[test]
fn page_boundary_equals_two_reads() {
    // A straddling request returns the same bytes as its two halves.
    let mut phys = PhysicalMemory::from_bytes(x64_window());
    let ctx = VirtualMemoryContext::with(Architecture::X64, Address(0x10000));
    let whole = ctx
        .virt_read_raw(&mut phys, Address(VA_BASE + 4093), 6)
        .unwrap();
    let first = ctx
        .virt_read_raw(&mut phys, Address(VA_BASE + 4093), 3)
        .unwrap();
    let second = ctx
        .virt_read_raw(&mut phys, Address(VA_BASE + 4096), 3)
        .unwrap();
    let mut joined = first.clone();
    joined.extend_from_slice(&second);
    assert_eq!(whole, joined);
}

#[test]
fn batch_deduplicates_table_reads() {
    // Two requests walking the same tables cost one read per table page
    // and none twice.
    let mut phys = PhysicalMemory::from_bytes(x64_window());
    let before = phys.read_count();
    let requests = vec![(VA_BASE, 4u64), (VA_BASE + 8, 4u64)];
    let results = translate_batch(&mut phys, Architecture::X64, 0x10000, &requests);
    assert_eq!(results.len(), 2);
    for r in &results {
        assert!(matches!(r.outcome, TranslateOutcome::Mapped(_)));
    }
    // Four levels, each table page read exactly once for both chunks.
    assert_eq!(phys.read_count() - before, 4);
}

#[test]
fn batch_covers_all_requested_bytes() {
    // The batch result covers exactly the requested ranges, split at
    // page boundaries, in order.
    let mut phys = PhysicalMemory::from_bytes(x64_window());
    let requests = vec![(VA_BASE + 4090, 10u64), (VA_BASE, 4u64)];
    let results = translate_batch(&mut phys, Architecture::X64, 0x10000, &requests);
    assert_eq!(results.len(), 3);
    assert_eq!((results[0].va, results[0].len), (VA_BASE + 4090, 6));
    assert_eq!((results[1].va, results[1].len), (VA_BASE + 4096, 4));
    assert_eq!((results[2].va, results[2].len), (VA_BASE, 4));
    let total: u64 = results.iter().map(|r| r.len).sum();
    assert_eq!(total, 14);
}

#[test]
fn unmapped_address_fails_with_va() {
    let mut phys = PhysicalMemory::from_bytes(x64_window());
    let ctx = VirtualMemoryContext::with(Architecture::X64, Address(0x10000));
    let err = ctx
        .virt_read_raw(&mut phys, Address(0xFFFF_8000_0020_0000), 4)
        .unwrap_err();
    assert_eq!(err.kind(), ErrorKind::Translation);
    assert_eq!(err.va, Address(0xFFFF_8000_0020_0000));
}

#[test]
fn non_canonical_address_fails() {
    let mut phys = PhysicalMemory::from_bytes(x64_window());
    let ctx = VirtualMemoryContext::with(Architecture::X64, Address(0x10000));
    let err = ctx
        .virt_read_raw(&mut phys, Address(0x0000_9000_0000_0000), 4)
        .unwrap_err();
    assert_eq!(err.kind(), ErrorKind::Translation);
}

#[test]
fn write_then_read_round_trip() {
    // P3: write through one context, read through a separately
    // constructed one; the bytes come back.
    let mut phys = PhysicalMemory::from_bytes(x64_window());
    let writer = VirtualMemoryContext::with(Architecture::X64, Address(0x10000));
    let payload = vec![0xDE, 0xAD, 0xBE, 0xEF, 0x01, 0x02, 0x03, 0x04];
    writer
        .virt_write_raw(&mut phys, Address(VA_BASE + 4090), &payload)
        .unwrap();
    let reader = VirtualMemoryContext::with(Architecture::X64, Address(0x10000));
    let data = reader
        .virt_read_raw(&mut phys, Address(VA_BASE + 4090), 8)
        .unwrap();
    assert_eq!(data, payload);
}

#[test]
fn failed_write_changes_nothing() {
    let mut phys = PhysicalMemory::from_bytes(x64_window());
    let ctx = VirtualMemoryContext::with(Architecture::X64, Address(0x10000));
    let before = ctx.virt_read_raw(&mut phys, Address(VA_BASE), 16).unwrap();
    // The second half of this write is unmapped, so nothing may change.
    let err = ctx.virt_write_raw(
        &mut phys,
        Address(VA_BASE + 8190),
        &vec![0xFF; 16],
    );
    assert!(err.is_err());
    let after = ctx.virt_read_raw(&mut phys, Address(VA_BASE), 16).unwrap();
    assert_eq!(before, after);
}

#[test]
fn read_into_fills_buffer() {
    let mut phys = PhysicalMemory::from_bytes(x64_window());
    let ctx = VirtualMemoryContext::with(Architecture::X64, Address(0x10000));
    let mut buf = vec![0u8; 4];
    ctx.virt_read_raw_into(&mut phys, Address(VA_BASE), &mut buf)
        .unwrap();
    assert_eq!(buf, vec![0xA0, 0xA1, 0xA2, 0xA3]);
}

#[test]
fn typed_reads_decode_little_endian() {
    let mut phys = PhysicalMemory::from_bytes(x64_window());
    let ctx = VirtualMemoryContext::with(Architecture::X64, Address(0x10000));
    let a = ctx.virt_read_addr(&mut phys, Address(VA_BASE)).unwrap();
    assert_eq!(a.0, 0xA7A6_A5A4_A3A2_A1A0);
    let v = ctx.virt_read_i32(&mut phys, Address(VA_BASE)).unwrap();
    assert_eq!(v, 0xA3A2_A1A0u32 as i32);
}

#[test]
fn wow64_context_reads_narrow_pointers() {
    // A 32-bit type architecture under a 64-bit translation reads 4-byte
    // pointers.
    let mut phys = PhysicalMemory::from_bytes(x64_window());
    let ctx = VirtualMemoryContext::with_proc_arch(
        Architecture::X64,
        Architecture::X86,
        Address(0x10000),
    );
    let a = ctx.virt_read_addr(&mut phys, Address(VA_BASE)).unwrap();
    assert_eq!(a.0, 0xA3A2_A1A0);
}

#[test]
fn cstr_truncates_at_zero() {
    let mut buf = x64_window();
    buf[0x1000..0x1008].copy_from_slice(b"abc\0defg");
    let mut phys = PhysicalMemory::from_bytes(buf);
    let ctx = VirtualMemoryContext::with(Architecture::X64, Address(0x10000));
    let s = ctx
        .virt_read_cstr(&mut phys, Address(VA_BASE), memlens::Length(8))
        .unwrap();
    assert_eq!(s, "abc");
}

#[test]
fn cstr_rejects_invalid_utf8() {
    let mut buf = x64_window();
    buf[0x1000] = 0xFF;
    buf[0x1001] = 0xFE;
    let mut phys = PhysicalMemory::from_bytes(buf);
    let ctx = VirtualMemoryContext::with(Architecture::X64, Address(0x10000));
    let err = ctx
        .virt_read_cstr(&mut phys, Address(VA_BASE), memlens::Length(4))
        .unwrap_err();
    assert_eq!(err.kind(), ErrorKind::Encoding);
}

#[test]
fn aarch64_translation_unsupported() {
    let mut phys = PhysicalMemory::from_bytes(vec![0u8; 4096 * 4]);
    let requests = vec![(0u64, 4u64)];
    let results = translate_batch(&mut phys, Architecture::AArch64, 0, &requests);
    assert_eq!(results.len(), 1);
    assert!(matches!(
        results[0].outcome,
        TranslateOutcome::Fail(memlens::vat::TranslateFail::Unsupported)
    ));
}

#[test]
fn x86_large_page_walk() {
    // Two-level x86 with a 4 MiB large page: VA equals PA low in memory.
    let mut buf = vec![0u8; 8 * 1024 * 1024];
    put_u32(&mut buf, 0x1000, 0x83); // PDE[0]: PS, maps 0..4 MiB identity
    buf[0x3000] = 0x5A;
    let mut phys = PhysicalMemory::from_bytes(buf);
    let ctx = VirtualMemoryContext::with(Architecture::X86, Address(0x1000));
    let data = ctx.virt_read_raw(&mut phys, Address(0x3000), 1).unwrap();
    assert_eq!(data[0], 0x5A);
}

#[test]
fn pae_large_page_walk() {
    // Three-level PAE with a 2 MiB large page mapping low memory onto
    // itself.
    let mut buf = vec![0u8; 4 * 1024 * 1024];
    put_u64(&mut buf, 0x1000, 0x2000 | 1); // PDPTE[0]
    put_u64(&mut buf, 0x2000, 0x83); // PDE[0]: PS, physical 0
    buf[0x3456] = 0x6B;
    let mut phys = PhysicalMemory::from_bytes(buf);
    let ctx = VirtualMemoryContext::with(Architecture::X86Pae, Address(0x1000));
    let data = ctx.virt_read_raw(&mut phys, Address(0x3456), 1).unwrap();
    assert_eq!(data[0], 0x6B);
}

#[test]
fn x64_gigabyte_page_walk() {
    // A PDPT entry with PS set maps a whole 1 GiB range; offsets well
    // past 2 MiB still resolve with no PD or PT in sight.
    let mut buf = vec![0u8; 8 * 1024 * 1024];
    put_u64(&mut buf, 0x10000 + 256 * 8, 0x11000 | 3);
    put_u64(&mut buf, 0x11000, 0x83); // PDPT[0]: PS, physical 0
    buf[0x345678] = 0x4D;
    let mut phys = PhysicalMemory::from_bytes(buf);
    let ctx = VirtualMemoryContext::with(Architecture::X64, Address(0x10000));
    let data = ctx
        .virt_read_raw(&mut phys, Address(0xFFFF_8000_0034_5678), 1)
        .unwrap();
    assert_eq!(data[0], 0x4D);
}

#[test]
fn x86_two_level_page_walk() {
    // The plain two-level x86 walk down to a 4 KiB page.
    let mut buf = vec![0u8; 8 * 1024 * 1024];
    put_u32(&mut buf, 0x1000, 0x2000 | 3); // PDE[0] -> PT
    put_u32(&mut buf, 0x2000 + 4 * 5, 0x7000 | 3); // PT[5] -> 0x7000
    buf[0x7008] = 0x3C;
    let mut phys = PhysicalMemory::from_bytes(buf);
    let ctx = VirtualMemoryContext::with(Architecture::X86, Address(0x1000));
    let data = ctx.virt_read_raw(&mut phys, Address(0x5008), 1).unwrap();
    assert_eq!(data[0], 0x3C);
    // Above the 4 GiB line nothing is canonical for x86.
    let err = ctx
        .virt_read_raw(&mut phys, Address(0x1_0000_0000), 1)
        .unwrap_err();
    assert_eq!(err.kind(), ErrorKind::Translation);
}
