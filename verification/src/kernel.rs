//! The kernel locator: per-architecture signature scans over a
//! low-memory window, yielding a start block.

use vstd::prelude::*;

use crate::arch::Architecture;
use crate::types::Address;
use crate::types::Error;
use crate::types::ErrorKind;
use vstd::bytes::spec_u32_from_le_bytes;
use vstd::bytes::spec_u64_from_le_bytes;
use vstd::bytes::u32_from_le_bytes;
use vstd::bytes::u64_from_le_bytes;
use vstd::slice::slice_subrange;

verus! {

/// The discovery result: which architecture the kernel runs, the physical
/// root of its address space, and a hint where its image may sit.
#[derive(Clone, Copy, Debug, PartialEq, Eq, Structural)]
pub struct StartBlock {
    pub arch: Architecture,
    pub dtb: Address,
    pub kernel_hint: Address,
}

impl StartBlock {
    /// The block's standing invariant: its DTB is page-aligned.
    pub open spec fn wf(self) -> bool {
        self.dtb.0 % 4096 == 0
    }
}

/// The 32-bit entry at byte offset `off` of one page.
pub open spec fn page_e32(page: Seq<u8>, off: int) -> u64 {
    spec_u32_from_le_bytes(page.subrange(off, off + 4)) as u64
}

/// The 64-bit entry at byte offset `off` of one page.
pub open spec fn page_e64(page: Seq<u8>, off: int) -> u64 {
    spec_u64_from_le_bytes(page.subrange(off, off + 8))
}

/// How many 4-byte entries from index `j` up hold the
/// present-and-large or present-and-global low byte.
pub open spec fn x86_sig_count(page: Seq<u8>, j: int) -> int
    recommends
        page.len() == 4096,
        0 <= j,
    decreases 1024 - j when j <= 1024
{
    if j >= 1024 {
        0
    } else {
        (if page[4 * j] == 0x63 || page[4 * j] == 0xe3 {
            1int
        } else {
            0int
        }) + x86_sig_count(page, j + 1)
    }
}

/// The two-level x86 DTB signature: byte zero reads 0x67, the
/// self-referencing PDE at offset 0xc00 points back at the page itself
/// with flags 0x3, and more than sixteen of the entries past index 0x200
/// carry the 0x63 / 0xe3 low byte.
pub open spec fn x86_page_sig(base: u64, page: Seq<u8>) -> bool {
    &&& page.len() == 4096
    &&& page[0] == 0x67
    &&& page_e32(page, 0xc00) & 0xffff_f003 == base + 3
    &&& x86_sig_count(page, 0x200) > 16
}

/// How many 8-byte entries of the upper half (index 256 up) are present.
pub open spec fn x64_upper_count(page: Seq<u8>, j: int) -> int
    recommends
        page.len() == 4096,
        256 <= j,
    decreases 512 - j when j <= 512
{
    if j >= 512 {
        0
    } else {
        (if page_e64(page, 8 * j) & 1 == 1 {
            1int
        } else {
            0int
        }) + x64_upper_count(page, j + 1)
    }
}

/// The x64 PML4 signature: some entry points back at the page itself and
/// is present (the canonical self-reference), and more than sixteen
/// upper-half entries — the ones mapping the kernel half of the canonical
/// range — are present.
pub open spec fn x64_page_sig(base: u64, page: Seq<u8>) -> bool {
    &&& page.len() == 4096
    &&& exists|j: int| 0 <= j < 512 && (#[trigger] page_e64(page, 8 * j))
        & 0x000f_ffff_ffff_f000 == base && page_e64(page, 8 * j) & 1 == 1
    &&& x64_upper_count(page, 256) > 16
}

/// One PAE page-directory-pointer entry is acceptable when absent, or
/// present with the reserved low flag bits clear.
pub open spec fn pae_entry_ok(e: u64) -> bool {
    e == 0 || (e & 1 == 1 && e & 0x1e6 == 0)
}

/// The PAE DTB signature: the four 8-byte directory-pointer entries at
/// the page's start are each absent or cleanly present, and at least one
/// is present.
pub open spec fn pae_page_sig(page: Seq<u8>) -> bool {
    &&& page.len() == 4096
    &&& pae_entry_ok(page_e64(page, 0))
    &&& pae_entry_ok(page_e64(page, 8))
    &&& pae_entry_ok(page_e64(page, 16))
    &&& pae_entry_ok(page_e64(page, 24))
    &&& (page_e64(page, 0) != 0 || page_e64(page, 8) != 0 || page_e64(page, 16) != 0
        || page_e64(page, 24) != 0)
}

/// The first 4 KiB-aligned page at or after `from` whose contents satisfy
/// the x86 signature.
pub open spec fn first_x86_dtb(w: Seq<u8>, from: int) -> Option<u64>
    recommends
        0 <= from,
        from % 4096 == 0,
    decreases w.len() - from when 0 <= from
{
    if from + 4096 > w.len() {
        None
    } else if x86_page_sig(from as u64, w.subrange(from, from + 4096)) {
        Some(from as u64)
    } else {
        first_x86_dtb(w, from + 4096)
    }
}

/// The first page satisfying the x64 signature.
pub open spec fn first_x64_dtb(w: Seq<u8>, from: int) -> Option<u64>
    decreases w.len() - from when 0 <= from
{
    if from + 4096 > w.len() {
        None
    } else if x64_page_sig(from as u64, w.subrange(from, from + 4096)) {
        Some(from as u64)
    } else {
        first_x64_dtb(w, from + 4096)
    }
}

/// The first page satisfying the PAE signature.
pub open spec fn first_pae_dtb(w: Seq<u8>, from: int) -> Option<u64>
    decreases w.len() - from when 0 <= from
{
    if from + 4096 > w.len() {
        None
    } else if pae_page_sig(w.subrange(from, from + 4096)) {
        Some(from as u64)
    } else {
        first_pae_dtb(w, from + 4096)
    }
}

/// What scanning the whole window yields: every scanner runs, and where
/// several would succeed the wider architecture wins — x64 first, then
/// PAE, then plain x86.
pub open spec fn find_spec(w: Seq<u8>) -> Option<StartBlock> {
    match first_x64_dtb(w, 0) {
        Some(d) => Some(
            StartBlock { arch: Architecture::X64, dtb: Address(d), kernel_hint: Address(0) },
        ),
        None => match first_pae_dtb(w, 0) {
            Some(d) => Some(
                StartBlock {
                    arch: Architecture::X86Pae,
                    dtb: Address(d),
                    kernel_hint: Address(0),
                },
            ),
            None => match first_x86_dtb(w, 0) {
                Some(d) => Some(
                    StartBlock {
                        arch: Architecture::X86,
                        dtb: Address(d),
                        kernel_hint: Address(0),
                    },
                ),
                None => None,
            },
        },
    }
}

/// Whether one page shows the x86 DTB signature.
pub fn check_page(base: Address, mem: &[u8]) -> (r: bool)
    requires
        mem@.len() == 4096,
        base.0 + 4096 <= usize::MAX,
    ensures
        r == x86_page_sig(base.0, mem@),
{
    if mem[0] != 0x67 {
        return false;
    }
    let e = u32_from_le_bytes(slice_subrange(mem, 0xc00, 0xc04)) as u64;
    if e & 0xffff_f003 != base.0 + 3 {
        return false;
    }
    let mut count: u64 = 0;
    let mut j: usize = 0x200;
    while j < 1024
        invariant
            mem@.len() == 4096,
            0x200 <= j <= 1024,
            count <= j,
            x86_sig_count(mem@, 0x200) == count + x86_sig_count(mem@, j as int),
        decreases 1024 - j,
    {
        let b = mem[4 * j];
        if b == 0x63 || b == 0xe3 {
            count = count + 1;
        }
        j = j + 1;
    }
    count > 16
}

/// Whether one page shows the x64 PML4 signature.
fn check_page_x64(base: u64, mem: &[u8]) -> (r: bool)
    requires
        mem@.len() == 4096,
    ensures
        r == x64_page_sig(base, mem@),
{
    let mut selfref = false;
    let mut j: usize = 0;
    while j < 512
        invariant
            mem@.len() == 4096,
            j <= 512,
            selfref ==> exists|k: int| 0 <= k < 512 && (#[trigger] page_e64(mem@, 8 * k))
                & 0x000f_ffff_ffff_f000 == base && page_e64(mem@, 8 * k) & 1 == 1,
            !selfref ==> forall|k: int| 0 <= k < j
                ==> !((#[trigger] page_e64(mem@, 8 * k)) & 0x000f_ffff_ffff_f000 == base
                    && page_e64(mem@, 8 * k) & 1 == 1),
        decreases 512 - j,
    {
        let e = u64_from_le_bytes(slice_subrange(mem, 8 * j, 8 * j + 8));
        proof {
            assert(mem@.subrange(8 * j as int, 8 * j + 8) =~= mem@.subrange(
                8 * (j as int),
                8 * (j as int) + 8,
            ));
            assert(page_e64(mem@, 8 * (j as int)) == e);
        }
        if e & 0x000f_ffff_ffff_f000 == base && e & 1 == 1 {
            selfref = true;
        }
        j = j + 1;
    }
    if !selfref {
        return false;
    }
    let mut count: u64 = 0;
    let mut j: usize = 256;
    while j < 512
        invariant
            mem@.len() == 4096,
            256 <= j <= 512,
            count <= j,
            x64_upper_count(mem@, 256) == count + x64_upper_count(mem@, j as int),
        decreases 512 - j,
    {
        let e = u64_from_le_bytes(slice_subrange(mem, 8 * j, 8 * j + 8));
        proof {
            assert(mem@.subrange(8 * j as int, 8 * j + 8) =~= mem@.subrange(
                8 * (j as int),
                8 * (j as int) + 8,
            ));
        }
        if e & 1 == 1 {
            count = count + 1;
        }
        j = j + 1;
    }
    count > 16
}

/// Whether one page shows the PAE directory-pointer signature.
fn check_page_pae(mem: &[u8]) -> (r: bool)
    requires
        mem@.len() == 4096,
    ensures
        r == pae_page_sig(mem@),
{
    let e0 = u64_from_le_bytes(slice_subrange(mem, 0, 8));
    let e1 = u64_from_le_bytes(slice_subrange(mem, 8, 16));
    let e2 = u64_from_le_bytes(slice_subrange(mem, 16, 24));
    let e3 = u64_from_le_bytes(slice_subrange(mem, 24, 32));
    let ok = |e: u64| -> (r: bool)
        ensures
            r == pae_entry_ok(e),
        { e == 0 || (e & 1 == 1 && e & 0x1e6 == 0) };
    ok(e0) && ok(e1) && ok(e2) && ok(e3) && (e0 != 0 || e1 != 0 || e2 != 0 || e3 != 0)
}

/// A window none of whose aligned pages shows the x64 signature yields
/// no x64 DTB from `from` up.
proof fn lemma_no_x64(w: Seq<u8>, from: int)
    requires
        0 <= from,
        from % 4096 == 0,
        forall|b: int|
            0 <= b && b % 4096 == 0 && b + 4096 <= w.len() ==> !x64_page_sig(
                b as u64,
                #[trigger] w.subrange(b, b + 4096),
            ),
    ensures
        first_x64_dtb(w, from) is None,
    decreases w.len() - from,
{
    if from + 4096 <= w.len() {
        assert(!x64_page_sig(from as u64, w.subrange(from, from + 4096)));
        lemma_no_x64(w, from + 4096);
    }
}

/// A window none of whose aligned pages shows the PAE signature yields
/// no PAE DTB from `from` up.
proof fn lemma_no_pae(w: Seq<u8>, from: int)
    requires
        0 <= from,
        from % 4096 == 0,
        forall|b: int|
            0 <= b && b % 4096 == 0 && b + 4096 <= w.len() ==> !pae_page_sig(
                #[trigger] w.subrange(b, b + 4096),
            ),
    ensures
        first_pae_dtb(w, from) is None,
    decreases w.len() - from,
{
    if from + 4096 <= w.len() {
        assert(!pae_page_sig(w.subrange(from, from + 4096)));
        lemma_no_pae(w, from + 4096);
    }
}

/// The first x86 match from `from` up is exactly `d` when the page at
/// `d` shows the signature and no aligned page below it does.
proof fn lemma_first_x86(w: Seq<u8>, from: int, d: int)
    requires
        0 <= from <= d,
        from % 4096 == 0,
        d % 4096 == 0,
        d + 4096 <= w.len(),
        x86_page_sig(d as u64, w.subrange(d, d + 4096)),
        forall|b: int|
            0 <= b < d && b % 4096 == 0 ==> !x86_page_sig(
                b as u64,
                #[trigger] w.subrange(b, b + 4096),
            ),
    ensures
        first_x86_dtb(w, from) == Some(d as u64),
    decreases d - from,
{
    if from < d {
        assert(!x86_page_sig(from as u64, w.subrange(from, from + 4096)));
        lemma_first_x86(w, from + 4096, d);
    }
}

/// The x86 discovery outcome in general: over a window none of whose
/// aligned pages shows the x64 or PAE signature, where the page at `d`
/// shows the x86 signature and no aligned page below `d` does, the
/// locator's answer is the x86 start block at `d` with a zero kernel
/// hint.
pub proof fn lemma_find_x86_start_block(w: Seq<u8>, d: int)
    requires
        0 <= d,
        d % 4096 == 0,
        d + 4096 <= w.len(),
        x86_page_sig(d as u64, w.subrange(d, d + 4096)),
        forall|b: int|
            0 <= b < d && b % 4096 == 0 ==> !x86_page_sig(
                b as u64,
                #[trigger] w.subrange(b, b + 4096),
            ),
        forall|b: int|
            0 <= b && b % 4096 == 0 && b + 4096 <= w.len() ==> !x64_page_sig(
                b as u64,
                #[trigger] w.subrange(b, b + 4096),
            ),
        forall|b: int|
            0 <= b && b % 4096 == 0 && b + 4096 <= w.len() ==> !pae_page_sig(
                #[trigger] w.subrange(b, b + 4096),
            ),
    ensures
        find_spec(w) == Some(
            StartBlock { arch: Architecture::X86, dtb: Address(d as u64), kernel_hint: Address(0) },
        ),
{
    lemma_no_x64(w, 0);
    lemma_no_pae(w, 0);
    lemma_first_x86(w, 0, d);
}

/// Scan the low-memory window for a two-level x86 DTB; the first match
/// wins.
pub fn find_x86(mem: &[u8]) -> (r: Option<Address>)
    requires
        mem@.len() <= 0xffff_f000,
    ensures
        r matches Some(a) ==> Some(a.0) == first_x86_dtb(mem@, 0) && a.0 % 4096 == 0,
        r is None ==> first_x86_dtb(mem@, 0) is None,
{
    let n = mem.len();
    if n < 4096 {
        return None;
    }
    let mut base: usize = 0;
    while base <= n - 4096
        invariant
            mem@.len() == n,
            n <= 0xffff_f000,
            n >= 4096,
            base % 4096 == 0,
            base <= n,
            first_x86_dtb(mem@, 0) == first_x86_dtb(mem@, base as int),
        decreases n - base,
    {
        let page = slice_subrange(mem, base, base + 4096);
        if check_page(Address(base as u64), page) {
            return Some(Address(base as u64));
        }
        base = base + 4096;
    }
    None
}

/// Scan the low-memory window for an x64 PML4; the first match wins.
pub fn find_x64(mem: &[u8]) -> (r: Option<Address>)
    requires
        mem@.len() <= 0xffff_f000,
    ensures
        r matches Some(a) ==> Some(a.0) == first_x64_dtb(mem@, 0) && a.0 % 4096 == 0,
        r is None ==> first_x64_dtb(mem@, 0) is None,
{
    let n = mem.len();
    if n < 4096 {
        return None;
    }
    let mut base: usize = 0;
    while base <= n - 4096
        invariant
            mem@.len() == n,
            n <= 0xffff_f000,
            n >= 4096,
            base % 4096 == 0,
            base <= n,
            first_x64_dtb(mem@, 0) == first_x64_dtb(mem@, base as int),
        decreases n - base,
    {
        let page = slice_subrange(mem, base, base + 4096);
        if check_page_x64(base as u64, page) {
            return Some(Address(base as u64));
        }
        base = base + 4096;
    }
    None
}

/// Scan the low-memory window for a PAE directory-pointer table; the
/// first match wins.
pub fn find_pae(mem: &[u8]) -> (r: Option<Address>)
    requires
        mem@.len() <= 0xffff_f000,
    ensures
        r matches Some(a) ==> Some(a.0) == first_pae_dtb(mem@, 0) && a.0 % 4096 == 0,
        r is None ==> first_pae_dtb(mem@, 0) is None,
{
    let n = mem.len();
    if n < 4096 {
        return None;
    }
    let mut base: usize = 0;
    while base <= n - 4096
        invariant
            mem@.len() == n,
            n <= 0xffff_f000,
            n >= 4096,
            base % 4096 == 0,
            base <= n,
            first_pae_dtb(mem@, 0) == first_pae_dtb(mem@, base as int),
        decreases n - base,
    {
        let page = slice_subrange(mem, base, base + 4096);
        if check_page_pae(page) {
            return Some(Address(base as u64));
        }
        base = base + 4096;
    }
    None
}

/// Locate the kernel's start block in a low-memory window.  The result is
/// a function of the window's bytes alone, so scanning the same window
/// twice yields the same block.
pub fn find(mem: &[u8]) -> (r: Result<StartBlock, Error>)
    requires
        mem@.len() <= 0xffff_f000,
    ensures
        r matches Ok(sb) ==> Some(sb) == find_spec(mem@) && sb.wf(),
        r matches Err(e) ==> find_spec(mem@) is None && e.kind == ErrorKind::Initialization,
        (r is Ok) == (find_spec(mem@) is Some),
{
    if let Some(d) = find_x64(mem) {
        return Ok(StartBlock { arch: Architecture::X64, dtb: d, kernel_hint: Address(0) });
    }
    if let Some(d) = find_pae(mem) {
        return Ok(StartBlock { arch: Architecture::X86Pae, dtb: d, kernel_hint: Address(0) });
    }
    if let Some(d) = find_x86(mem) {
        return Ok(StartBlock { arch: Architecture::X86, dtb: d, kernel_hint: Address(0) });
    }
    Err(Error::new(ErrorKind::Initialization, "no kernel start block in low-memory window"))
}

} // verus!
