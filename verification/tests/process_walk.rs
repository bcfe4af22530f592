use memlens::arch::Architecture;
use memlens::kernel::StartBlock;
use memlens::phys::PhysicalMemory;
use memlens::types::Address;
use memlens::types::ErrorKind;
use memlens::types::Length;
use memlens::win::ModuleIterator;
use memlens::win::Process;
use memlens::win::ProcessIterator;
use memlens::win::ProcessTrait;
use memlens::win::Win32;
use memlens::win::Win32Offsets;
use memlens::win::Win32Process;

fn put_u16(buf: &mut Vec<u8>, off: usize, v: u16) {
    buf[off..off + 2].copy_from_slice(&v.to_le_bytes());
}

fn put_u32(buf: &mut Vec<u8>, off: usize, v: u32) {
    buf[off..off + 4].copy_from_slice(&v.to_le_bytes());
}

fn put_u64(buf: &mut Vec<u8>, off: usize, v: u64) {
    buf[off..off + 8].copy_from_slice(&v.to_le_bytes());
}

fn offsets_x86() -> Win32Offsets {
    Win32Offsets {
        eproc_pid: 0x10,
        eproc_name: 0x20,
        eproc_wow64: 0,
        eproc_peb: 0x40,
        eproc_links: 0x50,
        kproc_dtb: 0x08,
        peb_ldr_x64: 0x18,
        peb_ldr_x86: 0x0C,
        ldr_list_x64: 0x10,
        ldr_list_x86: 0x0C,
    }
}

/// An 8 MiB x86 target, identity-mapped with two 4 MiB large pages,
/// holding three EPROCESS entries linked back to the anchor, one PEB
/// with a two-entry module list, and a minimal 64-bit kernel image.
fn x86_target() -> (Vec<u8>, Win32, Win32Offsets) {
    let mut buf = vec![0u8; 8 * 1024 * 1024];
    // Identity map: PDE[0] and PDE[1] as 4 MiB large pages.
    put_u32(&mut buf, 0x1000, 0x0000_0083);
    put_u32(&mut buf, 0x1004, 0x0040_0083);
    let offs = offsets_x86();
    let eps = [0x10000usize, 0x20000, 0x30000];
    let pids = [4i32, 500, 1234];
    let names: [&[u8]; 3] = [b"System\0", b"smss.exe\0", b"app.exe\0"];
    for (i, &ep) in eps.iter().enumerate() {
        put_u32(&mut buf, ep + 0x10, pids[i] as u32);
        buf[ep + 0x20..ep + 0x20 + names[i].len()].copy_from_slice(names[i]);
        put_u32(&mut buf, ep + 0x08, 0x1000); // per-process DTB
        put_u32(&mut buf, ep + 0x40, 0x60000); // PEB
        // Blink points at the next entry's list field.
        let next = eps[(i + 1) % 3];
        put_u32(&mut buf, ep + 0x50 + 4, (next + 0x50) as u32);
    }
    // PEB -> Ldr -> InLoadOrder list head, then two modules in a ring.
    put_u32(&mut buf, 0x60000 + 0x0C, 0x61000);
    put_u32(&mut buf, 0x61000 + 0x0C, 0x62000);
    put_u32(&mut buf, 0x62000, 0x63000);
    put_u32(&mut buf, 0x63000, 0x62000);
    // Kernel image at 0x70000.
    let pe = minimal_pe64();
    buf[0x70000..0x70000 + pe.len()].copy_from_slice(&pe);
    put_u32(&mut buf, 0x70000 + 0x1500, 0x62000);
    let win = Win32 {
        start_block: StartBlock {
            arch: Architecture::X86,
            dtb: Address(0x1000),
            kernel_hint: Address(0),
        },
        kernel_base: Address(0x70000),
        kernel_size: Length(0x2000),
        eprocess_base: Address(0x10000),
    };
    (buf, win, offs)
}

/// A minimal mapped 64-bit PE image whose export table lists
/// PsLoadedModuleList at relative address 0x1500.
fn minimal_pe64() -> Vec<u8> {
    let mut pe = vec![0u8; 0x2000];
    pe[0] = b'M';
    pe[1] = b'Z';
    put_u32(&mut pe, 0x3C, 0x80); // e_lfanew
    pe[0x80..0x84].copy_from_slice(b"PE\0\0");
    put_u16(&mut pe, 0x84, 0x8664); // machine
    put_u16(&mut pe, 0x86, 0); // sections
    put_u16(&mut pe, 0x94, 240); // optional header size
    put_u16(&mut pe, 0x96, 0x22); // characteristics
    let opt = 0x98;
    put_u16(&mut pe, opt, 0x20B); // PE32+ magic
    put_u32(&mut pe, opt + 32, 0x1000); // section alignment
    put_u32(&mut pe, opt + 36, 0x200); // file alignment
    put_u32(&mut pe, opt + 56, 0x2000); // size of image
    put_u32(&mut pe, opt + 60, 0x200); // size of headers
    put_u32(&mut pe, opt + 108, 16); // rva-and-sizes count
    put_u32(&mut pe, opt + 112, 0x1000); // export directory rva
    put_u32(&mut pe, opt + 116, 0x200); // export directory size
    // Export directory.
    let ed = 0x1000;
    put_u32(&mut pe, ed + 12, 0x10C0); // dll name rva
    put_u32(&mut pe, ed + 16, 1); // ordinal base
    put_u32(&mut pe, ed + 20, 1); // number of functions
    put_u32(&mut pe, ed + 24, 1); // number of names
    put_u32(&mut pe, ed + 28, 0x1040); // functions array
    put_u32(&mut pe, ed + 32, 0x1050); // names array
    put_u32(&mut pe, ed + 36, 0x1060); // ordinal array
    put_u32(&mut pe, 0x1040, 0x1500); // the export's rva
    put_u32(&mut pe, 0x1050, 0x1070); // name string rva
    put_u16(&mut pe, 0x1060, 0);
    pe[0x1070..0x1070 + 19].copy_from_slice(b"PsLoadedModuleList\0");
    pe[0x10C0..0x10C6].copy_from_slice(b"k.dll\0");
    pe
}

#[test]
fn process_list_yields_each_once_and_stops() {
    // S6 and the termination guarantee: three linked entries come back
    // exactly once; the ring closes at the anchor.
    let (buf, win, offs) = x86_target();
    let mut phys = PhysicalMemory::from_bytes(buf);
    let list = win.eprocess_list(&mut phys, &offs).unwrap();
    assert_eq!(
        list,
        vec![Address(0x10000), Address(0x20000), Address(0x30000)]
    );
}

#[test]
fn process_snapshot_reads_fields() {
    let (buf, win, offs) = x86_target();
    let mut phys = PhysicalMemory::from_bytes(buf);
    let p = Win32Process::try_with_eprocess(&mut phys, &win, &offs, Address(0x20000)).unwrap();
    assert_eq!(p.pid(), 500);
    assert_eq!(p.name(), "smss.exe");
    assert_eq!(p.dtb(), Address(0x1000));
    assert_eq!(p.wow64(), Address(0));
    assert_eq!(p.peb(), Address(0x60000));
    assert_eq!(p.peb_module(), Address(0x62000));
    assert_eq!(p.sys_arch(), Architecture::X86);
    assert_eq!(p.proc_arch(), Architecture::X86);
    assert_eq!(p.address(), Address(0x20000));
}

#[test]
fn find_process_by_name() {
    let (buf, win, offs) = x86_target();
    let mut phys = PhysicalMemory::from_bytes(buf);
    let p = Win32Process::try_with_name(&mut phys, &win, &offs, "app.exe").unwrap();
    assert_eq!(p.pid(), 1234);
    let missing = Win32Process::try_with_name(&mut phys, &win, &offs, "nothere.exe");
    assert_eq!(missing.unwrap_err().kind(), ErrorKind::NotFound);
}

#[test]
fn module_ring_walks_once() {
    let (buf, win, offs) = x86_target();
    let mut phys = PhysicalMemory::from_bytes(buf);
    let p = Win32Process::try_with_eprocess(&mut phys, &win, &offs, Address(0x10000)).unwrap();
    let modules = p.peb_list(&mut phys).unwrap();
    assert_eq!(modules, vec![Address(0x62000), Address(0x63000)]);
}

#[test]
fn kernel_bootstrap_reads_export() {
    let (buf, win, _offs) = x86_target();
    let mut phys = PhysicalMemory::from_bytes(buf);
    let k = Win32Process::try_from_kernel(&mut phys, &win).unwrap();
    assert_eq!(k.name(), "ntoskrnl.exe");
    assert_eq!(k.pid(), 0);
    assert_eq!(k.address(), win.kernel_base);
    assert_eq!(k.peb_module(), Address(0x62000));
}

#[test]
fn export_bounds_check_accepts_and_rejects() {
    // An image too small for PE headers is trivially safe.
    assert!(memlens::pe::pe64_bounds_check(&vec![0u8; 16]));
    // A well-formed image's export directory bounds fit.
    assert!(memlens::pe::pe64_bounds_check(&minimal_pe64()));
    // One whose export directory address and size wrap a u32 is refused.
    let mut bad = minimal_pe64();
    put_u32(&mut bad, 0x98 + 116, 0xFFFF_F000);
    assert!(!memlens::pe::pe64_bounds_check(&bad));
}

#[test]
fn kernel_bootstrap_rejects_wrapping_export_bounds() {
    // A kernel image whose export data directory's address and size sum
    // past u32 never reaches the PE lookup: the bootstrap fails with an
    // initialization error instead.
    let (mut buf, win, _offs) = x86_target();
    put_u32(&mut buf, 0x70000 + 0x98 + 116, 0xFFFF_F000);
    let mut phys = PhysicalMemory::from_bytes(buf);
    let e = Win32Process::try_from_kernel(&mut phys, &win).unwrap_err();
    assert_eq!(e.kind(), ErrorKind::Initialization);
}

#[test]
fn walker_terminates_on_anchorless_cycle() {
    // A corrupted ring that never returns to the anchor still ends: the
    // walk cap bounds it.
    let (mut buf, win, offs) = x86_target();
    // Entry 3's Blink goes back to entry 2, orbiting away from the
    // anchor forever.
    put_u32(&mut buf, 0x30000 + 0x54, 0x20050);
    let mut phys = PhysicalMemory::from_bytes(buf);
    let list = win.eprocess_list(&mut phys, &offs).unwrap();
    assert_eq!(list.len(), 65536);
}

#[test]
fn process_iterator_yields_handles() {
    let (buf, win, offs) = x86_target();
    let mut phys = PhysicalMemory::from_bytes(buf);
    let mut it = ProcessIterator::new(win, offs);
    let mut pids = Vec::new();
    while let Some(p) = it.next(&mut phys) {
        pids.push(p.pid(&mut phys).unwrap());
    }
    assert_eq!(pids, vec![4, 500, 1234]);
}

#[test]
fn process_handle_reads_on_demand() {
    let (buf, win, offs) = x86_target();
    let mut phys = PhysicalMemory::from_bytes(buf);
    let p = Process::with(win, offs, Address(0x10000));
    assert_eq!(p.pid(&mut phys).unwrap(), 4);
    assert_eq!(p.name(&mut phys).unwrap(), "System");
    assert_eq!(p.dtb(&mut phys).unwrap(), Address(0x1000));
    assert!(!p.has_wow64(&mut phys).unwrap());
    assert_eq!(p.arch(), Architecture::X86);
    assert_eq!(p.type_arch(&mut phys).unwrap(), Architecture::X86);
    assert_eq!(p.first_peb_entry(&mut phys).unwrap(), Address(0x62000));
}

#[test]
fn find_offset_resolves_known_fields() {
    let (_buf, win, offs) = x86_target();
    let p = Process::with(win, offs, Address(0x10000));
    assert_eq!(
        p.find_offset("_EPROCESS", "UniqueProcessId").unwrap(),
        Length(0x10)
    );
    assert_eq!(
        p.find_offset("_EPROCESS", "ActiveProcessLinks").unwrap(),
        Length(0x50)
    );
    assert_eq!(
        p.find_offset("_KPROCESS", "DirectoryTableBase").unwrap(),
        Length(0x08)
    );
    let err = p.find_offset("_EPROCESS", "NoSuchField").unwrap_err();
    assert_eq!(err.kind(), ErrorKind::NotFound);
}

#[test]
fn module_iterator_follows_links() {
    let (buf, win, offs) = x86_target();
    let mut phys = PhysicalMemory::from_bytes(buf);
    let p = Process::with(win, offs, Address(0x10000));
    let before = phys.read_count();
    let mut it = p.module_iter().unwrap();
    assert_eq!(
        phys.read_count(),
        before,
        "building the iterator reads nothing from the target"
    );
    let mut mods = Vec::new();
    while let Some(m) = it.next(&mut phys) {
        mods.push(m);
    }
    assert_eq!(mods, vec![Address(0x62000), Address(0x63000)]);
    let it2 = ModuleIterator::new(Process::with(win, offs, Address(0x20000)));
    assert_eq!(it2.process.eprocess, Address(0x20000));
}

/// A small x64 target with a 2 MiB large page mapping the canonical
/// upper half onto low physical memory, and two EPROCESS entries: one
/// native, one WoW64.
fn x64_target() -> (Vec<u8>, Win32, Win32Offsets) {
    let mut buf = vec![0u8; 4 * 1024 * 1024];
    // PML4[256] -> PDPT -> PD[0] as a 2 MiB large page at physical 0,
    // and PML4[0] mapping the same 2 MiB at low addresses, so that
    // 32-bit pointers can reach it.
    put_u64(&mut buf, 0x4000 + 256 * 8, 0x5000 | 3);
    put_u64(&mut buf, 0x5000, 0x6000 | 3);
    put_u64(&mut buf, 0x6000, 0x83);
    put_u64(&mut buf, 0x4000, 0x7000 | 3);
    put_u64(&mut buf, 0x7000, 0x8000 | 3);
    put_u64(&mut buf, 0x8000, 0x83);
    let offs = Win32Offsets {
        eproc_pid: 0x10,
        eproc_name: 0x20,
        eproc_wow64: 0x30,
        eproc_peb: 0x40,
        eproc_links: 0x50,
        kproc_dtb: 0x08,
        peb_ldr_x64: 0x18,
        peb_ldr_x86: 0x0C,
        ldr_list_x64: 0x10,
        ldr_list_x86: 0x0C,
    };
    let va: u64 = 0xFFFF_8000_0000_0000;
    // Native process at physical 0x10000: WoW64 null.
    put_u32(&mut buf, 0x10000 + 0x10, 42);
    buf[0x10000 + 0x20..0x10000 + 0x27].copy_from_slice(b"native\0");
    // Per-process DTB with low flag bits set; the walker masks them.
    put_u64(&mut buf, 0x10000 + 0x08, 0x4000 | 0x8);
    put_u64(&mut buf, 0x10000 + 0x40, va + 0x60000);
    // PEB at 0x60000: Ldr at +0x18, list head at Ldr+0x10.
    put_u64(&mut buf, 0x60000 + 0x18, va + 0x61000);
    put_u64(&mut buf, 0x61000 + 0x10, va + 0x62000);
    // WoW64 process at physical 0x20000.
    put_u32(&mut buf, 0x20000 + 0x10, 43);
    buf[0x20000 + 0x20..0x20000 + 0x26].copy_from_slice(b"wowed\0");
    put_u64(&mut buf, 0x20000 + 0x08, 0x4000);
    put_u64(&mut buf, 0x20000 + 0x30, va + 0x70000); // WoW64 struct
    put_u64(&mut buf, 0x70000, va + 0x71000); // its first field: the PEB
    // 32-bit PEB at 0x71000: Ldr at +0xC, list head at Ldr+0xC, both as
    // 4-byte pointers into the low 4 GiB (identity-low VAs are not
    // canonical here, so keep them inside the mapped window).
    put_u32(&mut buf, 0x71000 + 0x0C, 0x72000);
    put_u32(&mut buf, 0x72000 + 0x0C, 0x73000);
    let win = Win32 {
        start_block: StartBlock {
            arch: Architecture::X64,
            dtb: Address(0x4000),
            kernel_hint: Address(0),
        },
        kernel_base: Address(0),
        kernel_size: Length(0x1000),
        eprocess_base: Address(va + 0x10000),
    };
    (buf, win, offs)
}

#[test]
fn wow64_architecture_selection() {
    // Under a 64-bit system: WoW64 null means a 64-bit process, WoW64
    // set means 32-bit; a 32-bit system always means 32-bit.
    let (buf, win, offs) = x64_target();
    let va: u64 = 0xFFFF_8000_0000_0000;
    let mut phys = PhysicalMemory::from_bytes(buf);
    let native =
        Win32Process::try_with_eprocess(&mut phys, &win, &offs, Address(va + 0x10000)).unwrap();
    assert_eq!(native.proc_arch(), Architecture::X64);
    assert_eq!(native.wow64(), Address(0));
    assert_eq!(native.dtb(), Address(0x4000), "flag bits masked off the DTB");
    assert_eq!(native.peb_module(), Address(va + 0x62000));
    // The 32-bit PEB walk fails here only if pointers were read at the
    // wrong width; it must succeed and land on the 32-bit list head.
    let wowed = match Win32Process::try_with_eprocess(
        &mut phys,
        &win,
        &offs,
        Address(va + 0x20000),
    ) {
        Ok(p) => p,
        Err(e) => panic!("wow64 snapshot failed: {:?}", e),
    };
    assert_eq!(wowed.proc_arch(), Architecture::X86);
    assert_eq!(wowed.wow64(), Address(va + 0x70000));
    assert_eq!(wowed.peb(), Address(va + 0x71000));
    assert_eq!(wowed.peb_module(), Address(0x73000));
}
