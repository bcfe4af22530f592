//! Virtual memory contexts: whole-range reads and writes over one
//! address space, typed pointer and string readers, and the laws tying
//! reads and writes together.

use vstd::prelude::*;

use crate::arch::Architecture;
use crate::phys::PhysicalMemory;
use crate::phys::splice;
use crate::types::Address;
use crate::types::Error;
use crate::types::ErrorKind;
use crate::types::Length;
use crate::vat::TranslateOutcome;
use crate::vat::chunk_take;
use crate::vat::split_all;
use crate::vat::split_ranges;
use crate::vat::translate;
use crate::vat::translate_batch;
use vstd::bytes::spec_u32_from_le_bytes;
use vstd::bytes::spec_u64_from_le_bytes;
use vstd::bytes::u32_from_le_bytes;
use vstd::bytes::u64_from_le_bytes;
use vstd::slice::slice_subrange;
use vstd::utf8::encode_utf8;
use vstd::utf8::valid_utf8;

verus! {

/// What reading `len` virtual bytes at `va` yields: the bytes gathered
/// page chunk by page chunk, or nothing as soon as one chunk does not
/// translate or falls outside the physical window.
pub open spec fn read_chunks(
    mem: Seq<u8>,
    arch: Architecture,
    dtb: u64,
    va: u64,
    len: u64,
) -> Option<Seq<u8>>
    recommends
        va + len <= u64::MAX,
    decreases len,
{
    if len == 0 {
        Some(Seq::empty())
    } else {
        let take = chunk_take(va, len);
        match translate(mem, arch, dtb, va) {
            TranslateOutcome::Mapped(pa) => if pa + take <= mem.len() {
                match read_chunks(mem, arch, dtb, (va + take) as u64, (len - take) as u64) {
                    Some(rest) => Some(mem.subrange(pa as int, pa + take) + rest),
                    None => None,
                }
            } else {
                None
            },
            TranslateOutcome::Fail(_) => None,
        }
    }
}

/// The virtual address of the first chunk that fails a read, assuming one
/// does.
pub open spec fn read_fail_va(
    mem: Seq<u8>,
    arch: Architecture,
    dtb: u64,
    va: u64,
    len: u64,
) -> u64
    decreases len,
{
    if len == 0 {
        va
    } else {
        let take = chunk_take(va, len);
        match translate(mem, arch, dtb, va) {
            TranslateOutcome::Mapped(pa) => if pa + take <= mem.len() {
                read_fail_va(mem, arch, dtb, (va + take) as u64, (len - take) as u64)
            } else {
                va
            },
            TranslateOutcome::Fail(_) => va,
        }
    }
}

/// What a whole virtual read returns; a range that wraps the 64-bit space
/// is refused outright.
pub open spec fn virt_read_spec(
    mem: Seq<u8>,
    arch: Architecture,
    dtb: u64,
    va: u64,
    len: u64,
) -> Option<Seq<u8>> {
    if va + len > u64::MAX {
        None
    } else {
        read_chunks(mem, arch, dtb, va, len)
    }
}

/// The physical contents after writing `data` at virtual `va`: every chunk
/// translates against the pre-write tables `tmem`, and the chunks land in
/// `mem` in order; nothing at all if any chunk fails.
pub open spec fn write_chunks(
    tmem: Seq<u8>,
    mem: Seq<u8>,
    arch: Architecture,
    dtb: u64,
    va: u64,
    data: Seq<u8>,
) -> Option<Seq<u8>>
    recommends
        va + data.len() <= u64::MAX,
    decreases data.len() when data.len() <= u64::MAX

{
    if data.len() == 0 {
        Some(mem)
    } else {
        let take = chunk_take(va, data.len() as u64);
        match translate(tmem, arch, dtb, va) {
            TranslateOutcome::Mapped(pa) => if pa + take <= mem.len() {
                write_chunks(
                    tmem,
                    splice(mem, pa as int, data.take(take as int)),
                    arch,
                    dtb,
                    (va + take) as u64,
                    data.skip(take as int),
                )
            } else {
                None
            },
            TranslateOutcome::Fail(_) => None,
        }
    }
}

/// What a whole virtual write leaves behind, or nothing when it is
/// refused; a refused write changes nothing.
pub open spec fn virt_write_spec(
    mem: Seq<u8>,
    arch: Architecture,
    dtb: u64,
    va: u64,
    data: Seq<u8>,
) -> Option<Seq<u8>> {
    if va + data.len() > u64::MAX {
        None
    } else {
        write_chunks(mem, mem, arch, dtb, va, data)
    }
}

/// A pointer-wide little-endian value.
pub open spec fn le_ptr_val(bytes: Seq<u8>, width: u64) -> u64 {
    if width == 4 {
        spec_u32_from_le_bytes(bytes) as u64
    } else {
        spec_u64_from_le_bytes(bytes)
    }
}

/// A reader/writer over one virtual address space: a translation
/// architecture and DTB for the page-table walk, and a type architecture
/// fixing the pointer width of values read out of that space.  The
/// physical provider is borrowed per call, never retained.
#[derive(Clone, Copy, Debug)]
pub struct VirtualMemoryContext {
    pub sys_arch: Architecture,
    pub proc_arch: Architecture,
    pub dtb: Address,
}

impl VirtualMemoryContext {
    /// A context whose type architecture equals its translation
    /// architecture.
    pub fn with(arch: Architecture, dtb: Address) -> (r: VirtualMemoryContext)
        requires
            dtb.0 % 4096 == 0,
        ensures
            r.sys_arch == arch,
            r.proc_arch == arch,
            r.dtb == dtb,
            r.wf(),
    {
        VirtualMemoryContext { sys_arch: arch, proc_arch: arch, dtb }
    }

    /// A context that translates with the system architecture but reads
    /// pointers at the process architecture's width.
    pub fn with_proc_arch(
        sys_arch: Architecture,
        proc_arch: Architecture,
        dtb: Address,
    ) -> (r: VirtualMemoryContext)
        requires
            dtb.0 % 4096 == 0,
        ensures
            r.sys_arch == sys_arch,
            r.proc_arch == proc_arch,
            r.dtb == dtb,
            r.wf(),
    {
        VirtualMemoryContext { sys_arch, proc_arch, dtb }
    }

    /// The context's standing invariant: its DTB is page-aligned.
    pub open spec fn wf(self) -> bool {
        self.dtb.0 % 4096 == 0
    }

    /// Read `len` virtual bytes starting at `addr`.  The whole call fails
    /// with the first untranslatable chunk's address; no partial result is
    /// returned.
    pub fn virt_read_raw(
        &self,
        phys: &mut PhysicalMemory,
        addr: Address,
        len: usize,
    ) -> (r: Result<Vec<u8>, Error>)
        requires
            self.wf(),
        ensures
            final(phys)@ == old(phys)@,
            r matches Ok(data) ==> {
                &&& virt_read_spec(old(phys)@, self.sys_arch, self.dtb.0, addr.0, len as u64)
                    == Some(data@)
            },
            r matches Err(e) ==> {
                &&& virt_read_spec(old(phys)@, self.sys_arch, self.dtb.0, addr.0, len as u64)
                    is None
                &&& e.kind == ErrorKind::Translation
                &&& addr.0 + len <= u64::MAX ==> e.va.0 == read_fail_va(
                    old(phys)@,
                    self.sys_arch,
                    self.dtb.0,
                    addr.0,
                    len as u64,
                )
            },
            (r is Ok) == (virt_read_spec(
                old(phys)@,
                self.sys_arch,
                self.dtb.0,
                addr.0,
                len as u64,
            ) is Some),
    {
        let ghost mem = phys@;
        let arch = self.sys_arch;
        let dtb = self.dtb.0;
        let va0 = addr.0;
        let len64: u64 = len as u64;
        if len64 > u64::MAX - va0 {
            return Err(Error::translation(addr));
        }
        let mut requests: Vec<(u64, u64)> = Vec::new();
        requests.push((va0, len64));
        let results = translate_batch(phys, arch, dtb, &requests);
        let rn = results.len();
        proof {
            assert(requests@.drop_first() =~= Seq::<(u64, u64)>::empty());
            assert(split_all(requests@.drop_first()) =~= Seq::<(u64, u64)>::empty());
            assert(split_all(requests@) =~= split_ranges(va0, len64));
        }
        let size = phys.size();
        proof {
            assert(split_ranges(va0, len64).skip(0) =~= split_ranges(va0, len64));
        }
        let mut out: Vec<u8> = Vec::new();
        let mut i: usize = 0;
        let mut va: u64 = va0;
        let mut rem: u64 = len64;
        while rem > 0
            invariant
                self.wf(),
                phys@ == mem,
                mem == old(phys)@,
                arch == self.sys_arch,
                dtb == self.dtb.0,
                va0 == addr.0,
                len64 == len,
                va0 + len64 <= u64::MAX,
                va + rem <= u64::MAX,
                size == mem.len(),
                rn == results@.len(),
                results@.len() == split_ranges(va0, len64).len(),
                forall|j: int| 0 <= j < results@.len() ==> {
                    &&& (#[trigger] results@[j]).va == split_ranges(va0, len64)[j].0
                    &&& results@[j].len == split_ranges(va0, len64)[j].1
                    &&& results@[j].outcome == translate(mem, arch, dtb, results@[j].va)
                },
                i <= results@.len(),
                split_ranges(va, rem) =~= split_ranges(va0, len64).skip(i as int),
                read_chunks(mem, arch, dtb, va, rem) is Some
                    ==> read_chunks(mem, arch, dtb, va0, len64)
                        == Some(out@ + read_chunks(mem, arch, dtb, va, rem).unwrap()),
                read_chunks(mem, arch, dtb, va, rem) is None
                    ==> read_chunks(mem, arch, dtb, va0, len64) is None,
                read_chunks(mem, arch, dtb, va, rem) is None
                    ==> read_fail_va(mem, arch, dtb, va0, len64)
                        == read_fail_va(mem, arch, dtb, va, rem),
            decreases rem,
        {
            proof {
                assert(split_ranges(va, rem).len() > 0);
                assert(split_ranges(va0, len64).skip(i as int).len() > 0);
                assert(split_ranges(va0, len64)[i as int]
                    == split_ranges(va0, len64).skip(i as int)[0]);
            }
            let rest: u64 = 4096 - va % 4096;
            let take: u64 = if rem <= rest {
                rem
            } else {
                rest
            };
            proof {
                assert(take == chunk_take(va, rem));
                assert(split_ranges(va, rem)[0] == (va, take));
                assert(results@[i as int].va == va);
            }
            let outcome = results[i].outcome;
            match outcome {
                TranslateOutcome::Fail(_) => {
                    return Err(Error::translation(Address(va)));
                },
                TranslateOutcome::Mapped(pa) => {
                    if take > u64::MAX - pa || pa + take > size as u64 {
                        return Err(Error::translation(Address(va)));
                    }
                    let chunk = match phys.phys_read(pa, take as usize) {
                        Some(c) => c,
                        None => {
                            proof {
                                assert(false);
                            }
                            return vstd::pervasive::unreached();
                        },
                    };
                    let mut ci: usize = 0;
                    let ghost out0 = out@;
                    while ci < chunk.len()
                        invariant
                            ci <= chunk@.len(),
                            out@ == out0 + chunk@.take(ci as int),
                        decreases chunk@.len() - ci,
                    {
                        let b = chunk[ci];
                        out.push(b);
                        proof {
                            assert(out@ =~= out0 + chunk@.take(ci + 1));
                        }
                        ci = ci + 1;
                    }
                    proof {
                        assert(chunk@.take(chunk@.len() as int) =~= chunk@);
                        assert(out@ == out0 + chunk@);
                        assert(split_ranges(va, rem).drop_first()
                            =~= split_ranges((va + take) as u64, (rem - take) as u64));
                        assert(split_ranges(va0, len64).skip(i as int).drop_first()
                            =~= split_ranges(va0, len64).skip(i + 1));
                        let tail_opt = read_chunks(
                            mem,
                            arch,
                            dtb,
                            (va + take) as u64,
                            (rem - take) as u64,
                        );
                        if tail_opt is Some {
                            let tail = tail_opt.unwrap();
                            assert(read_chunks(mem, arch, dtb, va, rem)
                                == Some(mem.subrange(pa as int, pa + take) + tail));
                            assert(out0 + (mem.subrange(pa as int, pa + take) + tail)
                                =~= (out0 + mem.subrange(pa as int, pa + take)) + tail);
                        }
                    }
                    proof {
                        assert(i < rn);
                    }
                    va = va + take;
                    rem = rem - take;
                    i = i + 1;
                },
            }
        }
        proof {
            assert(read_chunks(mem, arch, dtb, va, 0) == Some(Seq::<u8>::empty()));
            assert(out@ + Seq::<u8>::empty() =~= out@);
        }
        Ok(out)
    }

    /// Translate the whole of `[addr, addr + buf.len())` and fill `buf`
    /// with the bytes read; on failure the buffer is left as it was.
    pub fn virt_read_raw_into(
        &self,
        phys: &mut PhysicalMemory,
        addr: Address,
        buf: &mut Vec<u8>,
    ) -> (r: Result<(), Error>)
        requires
            self.wf(),
        ensures
            final(phys)@ == old(phys)@,
            (r is Ok) == (virt_read_spec(
                old(phys)@,
                self.sys_arch,
                self.dtb.0,
                addr.0,
                old(buf)@.len() as u64,
            ) is Some),
            r is Ok ==> Some(final(buf)@) == virt_read_spec(
                old(phys)@,
                self.sys_arch,
                self.dtb.0,
                addr.0,
                old(buf)@.len() as u64,
            ),
            r is Err ==> final(buf)@ == old(buf)@,
            r matches Err(e) ==> e.kind == ErrorKind::Translation,
    {
        match self.virt_read_raw(phys, addr, buf.len()) {
            Ok(data) => {
                *buf = data;
                Ok(())
            },
            Err(e) => Err(e),
        }
    }

    /// Write `data` at virtual `addr`.  Every chunk is translated before
    /// any byte is stored, so a refused write changes nothing.
    pub fn virt_write_raw(
        &self,
        phys: &mut PhysicalMemory,
        addr: Address,
        data: &Vec<u8>,
    ) -> (r: Result<(), Error>)
        requires
            self.wf(),
        ensures
            (r is Ok) == (virt_write_spec(
                old(phys)@,
                self.sys_arch,
                self.dtb.0,
                addr.0,
                data@,
            ) is Some),
            r is Ok ==> Some(final(phys)@) == virt_write_spec(
                old(phys)@,
                self.sys_arch,
                self.dtb.0,
                addr.0,
                data@,
            ),
            r is Err ==> final(phys)@ == old(phys)@,
            r matches Err(e) ==> e.kind == ErrorKind::Translation,
    {
        let ghost mem = phys@;
        let arch = self.sys_arch;
        let dtb = self.dtb.0;
        let va0 = addr.0;
        let len64: u64 = data.len() as u64;
        if len64 > u64::MAX - va0 {
            return Err(Error::translation(addr));
        }
        let mut requests: Vec<(u64, u64)> = Vec::new();
        requests.push((va0, len64));
        let results = translate_batch(phys, arch, dtb, &requests);
        let rn = results.len();
        proof {
            assert(requests@.drop_first() =~= Seq::<(u64, u64)>::empty());
            assert(split_all(requests@.drop_first()) =~= Seq::<(u64, u64)>::empty());
            assert(split_all(requests@) =~= split_ranges(va0, len64));
        }
        let size = phys.size();
        let ghost rs = split_ranges(va0, len64);
        let ghost full = write_chunks(mem, mem, arch, dtb, va0, data@);

        // First pass: translate every chunk before any byte is stored, so
        // that a refused write changes nothing.
        proof {
            assert(rs.skip(0) =~= rs);
            assert(data@.skip(0) =~= data@);
        }
        let mut i: usize = 0;
        let mut va: u64 = va0;
        let mut rem: u64 = len64;
        let mut off: usize = 0;
        let ghost mut cur = mem;
        while rem > 0
            invariant
                phys@ == mem,
                mem == old(phys)@,
                arch == self.sys_arch,
                dtb == self.dtb.0,
                va0 == addr.0,
                va0 + len64 <= u64::MAX,
                va + rem <= u64::MAX,
                len64 == data@.len(),
                len64 <= usize::MAX,
                off + rem == len64,
                va == va0 + off,
                size == mem.len(),
                rn == results@.len(),
                rs == split_ranges(va0, len64),
                full == write_chunks(mem, mem, arch, dtb, va0, data@),
                results@.len() == rs.len(),
                forall|j: int| 0 <= j < results@.len() ==> {
                    &&& (#[trigger] results@[j]).va == rs[j].0
                    &&& results@[j].len == rs[j].1
                    &&& results@[j].outcome == translate(mem, arch, dtb, results@[j].va)
                },
                i <= rs.len(),
                split_ranges(va, rem) =~= rs.skip(i as int),
                cur.len() == mem.len(),
                write_chunks(mem, cur, arch, dtb, va, data@.skip(off as int)) == full,
            decreases rem,
        {
            proof {
                assert(split_ranges(va, rem).len() > 0);
                assert(rs[i as int] == rs.skip(i as int)[0]);
            }
            let rest: u64 = 4096 - va % 4096;
            let take: u64 = if rem <= rest {
                rem
            } else {
                rest
            };
            proof {
                assert(take == chunk_take(va, rem));
                assert(split_ranges(va, rem)[0] == (va, take));
                assert(results@[i as int].va == va);
                assert(data@.skip(off as int).len() == rem);
                assert(chunk_take(va, data@.skip(off as int).len() as u64) == take);
            }
            match results[i].outcome {
                TranslateOutcome::Fail(_) => {
                    return Err(Error::translation(Address(va)));
                },
                TranslateOutcome::Mapped(pa) => {
                    if take > u64::MAX - pa || pa + take > size as u64 {
                        return Err(Error::translation(Address(va)));
                    }
                    proof {
                        cur = splice(cur, pa as int, data@.skip(off as int).take(take as int));
                        assert(data@.skip(off as int).skip(take as int)
                            =~= data@.skip(off + take));
                        assert(split_ranges(va, rem).drop_first()
                            =~= split_ranges((va + take) as u64, (rem - take) as u64));
                        assert(rs.skip(i as int).drop_first() =~= rs.skip(i + 1));
                    }
                    va = va + take;
                    rem = rem - take;
                    off = off + take as usize;
                    i = i + 1;
                },
            }
        }
        proof {
            assert(data@.skip(len64 as int) =~= Seq::<u8>::empty());
            assert(write_chunks(mem, cur, arch, dtb, va, Seq::<u8>::empty()) == Some(cur));
            assert(full == Some(cur));
        }

        // Second pass: every chunk translates and fits; store them in order.
        proof {
            assert(rs.skip(0) =~= rs);
            assert(data@.skip(0) =~= data@);
        }
        let mut i: usize = 0;
        let mut va: u64 = va0;
        let mut rem: u64 = len64;
        let mut off: usize = 0;
        while rem > 0
            invariant
                mem == old(phys)@,
                arch == self.sys_arch,
                dtb == self.dtb.0,
                va0 + len64 <= u64::MAX,
                va + rem <= u64::MAX,
                len64 == data@.len(),
                len64 <= usize::MAX,
                off + rem == len64,
                va == va0 + off,
                size == mem.len(),
                rn == results@.len(),
                rs == split_ranges(va0, len64),
                full == write_chunks(mem, mem, arch, dtb, va0, data@),
                full is Some,
                results@.len() == rs.len(),
                forall|j: int| 0 <= j < results@.len() ==> {
                    &&& (#[trigger] results@[j]).va == rs[j].0
                    &&& results@[j].len == rs[j].1
                    &&& results@[j].outcome == translate(mem, arch, dtb, results@[j].va)
                },
                i <= rs.len(),
                split_ranges(va, rem) =~= rs.skip(i as int),
                phys@.len() == mem.len(),
                phys.spec_read_count() == phys.spec_read_count(),
                write_chunks(mem, phys@, arch, dtb, va, data@.skip(off as int)) == full,
            decreases rem,
        {
            proof {
                assert(split_ranges(va, rem).len() > 0);
                assert(rs[i as int] == rs.skip(i as int)[0]);
            }
            let rest: u64 = 4096 - va % 4096;
            let take: u64 = if rem <= rest {
                rem
            } else {
                rest
            };
            proof {
                assert(take == chunk_take(va, rem));
                assert(split_ranges(va, rem)[0] == (va, take));
                assert(results@[i as int].va == va);
                assert(data@.skip(off as int).len() == rem);
                assert(chunk_take(va, data@.skip(off as int).len() as u64) == take);
            }
            let pa = match results[i].outcome {
                TranslateOutcome::Mapped(pa) => pa,
                TranslateOutcome::Fail(_) => {
                    proof {
                        assert(false);
                    }
                    return vstd::pervasive::unreached();
                },
            };
            proof {
                assert(pa + take <= phys@.len());
            }
            let piece = slice_subrange(data.as_slice(), off, off + take as usize);
            let ghost pre = phys@;
            let okw = phys.phys_write(pa, piece);
            proof {
                assert(okw);
                assert(data@.subrange(off as int, off + take as int)
                    =~= data@.skip(off as int).take(take as int));
                assert(phys@ == splice(pre, pa as int, data@.skip(off as int).take(take as int)));
                assert(data@.skip(off as int).skip(take as int) =~= data@.skip(off + take));
                assert(split_ranges(va, rem).drop_first()
                    =~= split_ranges((va + take) as u64, (rem - take) as u64));
                assert(rs.skip(i as int).drop_first() =~= rs.skip(i + 1));
            }
            va = va + take;
            rem = rem - take;
            off = off + take as usize;
            i = i + 1;
        }
        proof {
            assert(data@.skip(len64 as int) =~= Seq::<u8>::empty());
            assert(write_chunks(mem, phys@, arch, dtb, va, Seq::<u8>::empty()) == Some(phys@));
        }
        Ok(())
    }
}

/// A request straddling a page boundary reads the same bytes as its two
/// halves cut at that boundary, read one after the other: the combined
/// read succeeds exactly when both halves do, and then returns their
/// concatenation.
pub proof fn lemma_read_page_boundary(
    mem: Seq<u8>,
    arch: Architecture,
    dtb: u64,
    va: u64,
    len1: u64,
    len2: u64,
)
    requires
        va + len1 + len2 <= u64::MAX,
        len1 == chunk_take(va, (len1 + len2) as u64),
        len1 + len2 > 0,
    ensures
        virt_read_spec(mem, arch, dtb, va, (len1 + len2) as u64) == match (
            virt_read_spec(mem, arch, dtb, va, len1),
            virt_read_spec(mem, arch, dtb, (va + len1) as u64, len2),
        ) {
            (Some(a), Some(b)) => Some(a + b),
            _ => None::<Seq<u8>>,
        },
{
    let total = (len1 + len2) as u64;
    let take = chunk_take(va, total);
    if len1 == 0 {
        assert(read_chunks(mem, arch, dtb, va, 0) == Some(Seq::<u8>::empty()));
        let b_opt = read_chunks(mem, arch, dtb, va, len2);
        if b_opt is Some {
            assert(Seq::<u8>::empty() + b_opt.unwrap() =~= b_opt.unwrap());
        }
    } else {
        assert(chunk_take(va, len1) == len1);
        match translate(mem, arch, dtb, va) {
            TranslateOutcome::Mapped(pa) => {
                if pa + len1 <= mem.len() {
                    assert(read_chunks(mem, arch, dtb, va, len1) == match read_chunks(
                        mem,
                        arch,
                        dtb,
                        (va + len1) as u64,
                        0,
                    ) {
                        Some(rest) => Some(mem.subrange(pa as int, pa + len1) + rest),
                        None => None::<Seq<u8>>,
                    });
                    assert(read_chunks(mem, arch, dtb, (va + len1) as u64, 0)
                        == Some(Seq::<u8>::empty()));
                    assert(mem.subrange(pa as int, pa + len1) + Seq::<u8>::empty()
                        =~= mem.subrange(pa as int, pa + len1));
                    let b_opt = read_chunks(mem, arch, dtb, (va + len1) as u64, len2);
                    if b_opt is Some {
                        let b = b_opt.unwrap();
                        assert(mem.subrange(pa as int, pa + len1) + b
                            =~= (mem.subrange(pa as int, pa + len1) + Seq::<u8>::empty()) + b);
                    }
                }
            },
            TranslateOutcome::Fail(_) => {},
        }
    }
}

/// A successful chunked read returns exactly as many bytes as were asked
/// for.
pub proof fn lemma_read_chunks_len(
    mem: Seq<u8>,
    arch: Architecture,
    dtb: u64,
    va: u64,
    len: u64,
)
    requires
        va + len <= u64::MAX,
    ensures
        read_chunks(mem, arch, dtb, va, len) is Some
            ==> read_chunks(mem, arch, dtb, va, len).unwrap().len() == len,
    decreases len,
{
    if len != 0 {
        let take = chunk_take(va, len);
        lemma_read_chunks_len(mem, arch, dtb, (va + take) as u64, (len - take) as u64);
    }
}

/// The bytes before the first zero byte.
pub open spec fn cstr_prefix(bytes: Seq<u8>) -> Seq<u8>
    decreases bytes.len(),
{
    if bytes.len() == 0 {
        bytes
    } else if bytes[0] == 0 {
        Seq::empty()
    } else {
        seq![bytes[0]] + cstr_prefix(bytes.drop_first())
    }
}

/// Once a scan has passed `i` non-zero bytes and stopped at the end or at
/// a zero, the zero-terminated prefix is exactly what it passed.
pub proof fn lemma_cstr_prefix_take(bytes: Seq<u8>, i: int)
    requires
        0 <= i <= bytes.len(),
        forall|j: int| 0 <= j < i ==> bytes[j] != 0,
        i == bytes.len() || bytes[i] == 0,
    ensures
        cstr_prefix(bytes) == bytes.take(i),
    decreases bytes.len(),
{
    if bytes.len() == 0 {
        assert(cstr_prefix(bytes) =~= bytes.take(i));
    } else if i == 0 {
        assert(bytes[0] == 0);
        assert(cstr_prefix(bytes) =~= bytes.take(0));
    } else {
        assert(bytes[0] != 0);
        let rest = bytes.drop_first();
        assert(forall|j: int| 0 <= j < i - 1 ==> rest[j] == bytes[j + 1] && rest[j] != 0);
        lemma_cstr_prefix_take(rest, i - 1);
        assert(seq![bytes[0]] + rest.take(i - 1) =~= bytes.take(i));
    }
}

/// What a zero-terminated string read yields before decoding: the bytes
/// up to `max_len`, truncated at the first zero; nothing if the raw read
/// fails.
pub open spec fn cstr_bytes(
    mem: Seq<u8>,
    arch: Architecture,
    dtb: u64,
    va: u64,
    max_len: u64,
) -> Option<Seq<u8>> {
    match virt_read_spec(mem, arch, dtb, va, max_len) {
        Some(b) => Some(cstr_prefix(b)),
        None => None,
    }
}

/// Relies on String::from_utf8: it returns a string exactly when the
/// bytes are valid UTF-8, and the string's encoding is those bytes.
#[verifier::external_body]
fn bytes_to_string(bytes: Vec<u8>) -> (r: Option<String>)
    ensures
        (r is Some) == valid_utf8(bytes@),
        r matches Some(s) ==> encode_utf8(s@) == bytes@,
{
    String::from_utf8(bytes).ok()
}

impl VirtualMemoryContext {
    /// Read one pointer at the context's type-architecture width and
    /// widen it to an address.
    pub fn virt_read_addr(
        &self,
        phys: &mut PhysicalMemory,
        addr: Address,
    ) -> (r: Result<Address, Error>)
        requires
            self.wf(),
        ensures
            final(phys)@ == old(phys)@,
            (r is Ok) == (virt_read_spec(
                old(phys)@,
                self.sys_arch,
                self.dtb.0,
                addr.0,
                self.proc_arch.spec_ptr_bytes(),
            ) is Some),
            r matches Ok(a) ==> a.0 == le_ptr_val(
                virt_read_spec(
                    old(phys)@,
                    self.sys_arch,
                    self.dtb.0,
                    addr.0,
                    self.proc_arch.spec_ptr_bytes(),
                ).unwrap(),
                self.proc_arch.spec_ptr_bytes(),
            ),
            r matches Err(e) ==> e.kind == ErrorKind::Translation,
    {
        let w = self.proc_arch.ptr_bytes();
        let data = match self.virt_read_raw(phys, addr, w as usize) {
            Ok(d) => d,
            Err(e) => {
                return Err(e);
            },
        };
        proof {
            lemma_read_chunks_len(old(phys)@, self.sys_arch, self.dtb.0, addr.0, w);
        }
        if w == 4 {
            Ok(Address(u32_from_le_bytes(data.as_slice()) as u64))
        } else {
            Ok(Address(u64_from_le_bytes(data.as_slice())))
        }
    }

    /// Read a little-endian 32-bit signed integer.
    pub fn virt_read_i32(
        &self,
        phys: &mut PhysicalMemory,
        addr: Address,
    ) -> (r: Result<i32, Error>)
        requires
            self.wf(),
        ensures
            final(phys)@ == old(phys)@,
            (r is Ok) == (virt_read_spec(
                old(phys)@,
                self.sys_arch,
                self.dtb.0,
                addr.0,
                4,
            ) is Some),
            r matches Ok(v) ==> v == spec_u32_from_le_bytes(
                virt_read_spec(old(phys)@, self.sys_arch, self.dtb.0, addr.0, 4).unwrap(),
            ) as i32,
            r matches Err(e) ==> e.kind == ErrorKind::Translation,
    {
        let data = match self.virt_read_raw(phys, addr, 4) {
            Ok(d) => d,
            Err(e) => {
                return Err(e);
            },
        };
        proof {
            lemma_read_chunks_len(old(phys)@, self.sys_arch, self.dtb.0, addr.0, 4);
        }
        Ok(u32_from_le_bytes(data.as_slice()) as i32)
    }

    /// Read up to `max_len` bytes, truncate at the first zero byte, and
    /// decode the prefix as UTF-8; an undecodable prefix is an encoding
    /// error, an untranslatable range a translation error.
    pub fn virt_read_cstr(
        &self,
        phys: &mut PhysicalMemory,
        addr: Address,
        max_len: Length,
    ) -> (r: Result<String, Error>)
        requires
            self.wf(),
            max_len.0 <= usize::MAX,
        ensures
            final(phys)@ == old(phys)@,
            (r is Ok) == (cstr_bytes(
                old(phys)@,
                self.sys_arch,
                self.dtb.0,
                addr.0,
                max_len.0,
            ) matches Some(b) && valid_utf8(b)),
            r matches Ok(s) ==> encode_utf8(s@) == cstr_bytes(
                old(phys)@,
                self.sys_arch,
                self.dtb.0,
                addr.0,
                max_len.0,
            ).unwrap(),
            r matches Err(e) ==> e.kind == if cstr_bytes(
                old(phys)@,
                self.sys_arch,
                self.dtb.0,
                addr.0,
                max_len.0,
            ) is None {
                ErrorKind::Translation
            } else {
                ErrorKind::Encoding
            },
    {
        let data = match self.virt_read_raw(phys, addr, max_len.0 as usize) {
            Ok(d) => d,
            Err(e) => {
                return Err(e);
            },
        };
        let mut prefix: Vec<u8> = Vec::new();
        let mut i: usize = 0;
        let n = data.len();
        while i < n && data[i] != 0
            invariant
                n == data@.len(),
                i <= n,
                forall|j: int| 0 <= j < i ==> data@[j] != 0,
                prefix@ == data@.take(i as int),
            decreases n - i,
        {
            let b = data[i];
            prefix.push(b);
            proof {
                assert(prefix@ =~= data@.take(i + 1));
            }
            i = i + 1;
        }
        proof {
            lemma_cstr_prefix_take(data@, i as int);
        }
        match bytes_to_string(prefix) {
            Some(s) => Ok(s),
            None => Err(Error::new(ErrorKind::Encoding, "string bytes are not valid UTF-8")),
        }
    }
}

/// The physical page a mapped outcome names; zero for a failure.
pub open spec fn mapped_pa(o: TranslateOutcome) -> u64 {
    match o {
        TranslateOutcome::Mapped(pa) => pa,
        TranslateOutcome::Fail(_) => 0,
    }
}

/// Every chunk of `rs` translates the same under `m2` as under `tmem`.
pub open spec fn ranges_stable(
    tmem: Seq<u8>,
    m2: Seq<u8>,
    arch: Architecture,
    dtb: u64,
    rs: Seq<(u64, u64)>,
) -> bool {
    forall|i: int| 0 <= i < rs.len() ==> translate(m2, arch, dtb, (#[trigger] rs[i]).0)
        == translate(tmem, arch, dtb, rs[i].0)
}

/// Every chunk of `rs` lands, under `tmem`'s translation, outside
/// `[lo, hi)`.
pub open spec fn ranges_avoid(
    tmem: Seq<u8>,
    arch: Architecture,
    dtb: u64,
    rs: Seq<(u64, u64)>,
    lo: int,
    hi: int,
) -> bool {
    forall|i: int| 0 <= i < rs.len() ==> {
        let pa = mapped_pa(translate(tmem, arch, dtb, (#[trigger] rs[i]).0));
        pa + rs[i].1 <= lo || hi <= pa
    }
}

/// The chunks of `rs` land, under `tmem`'s translation, in pairwise
/// disjoint physical ranges.
pub open spec fn ranges_disjoint(
    tmem: Seq<u8>,
    arch: Architecture,
    dtb: u64,
    rs: Seq<(u64, u64)>,
) -> bool {
    forall|i: int, j: int| 0 <= i < j < rs.len() ==> {
        let pi = mapped_pa(translate(tmem, arch, dtb, (#[trigger] rs[i]).0));
        let pj = mapped_pa(translate(tmem, arch, dtb, (#[trigger] rs[j]).0));
        pi + rs[i].1 <= pj || pj + rs[j].1 <= pi
    }
}

/// A chunked write leaves the length, and every byte its chunks avoid,
/// unchanged.
proof fn lemma_write_preserves(
    tmem: Seq<u8>,
    m: Seq<u8>,
    arch: Architecture,
    dtb: u64,
    va: u64,
    data: Seq<u8>,
    lo: int,
    hi: int,
)
    requires
        va + data.len() <= u64::MAX,
        write_chunks(tmem, m, arch, dtb, va, data) is Some,
        ranges_avoid(tmem, arch, dtb, split_ranges(va, data.len() as u64), lo, hi),
        0 <= lo <= hi,
    ensures
        write_chunks(tmem, m, arch, dtb, va, data).unwrap().len() == m.len(),
        write_chunks(tmem, m, arch, dtb, va, data).unwrap().subrange(lo, hi)
            == m.subrange(lo, hi) || hi > m.len(),
    decreases data.len(),
{
    if data.len() == 0 {
    } else {
        let len64 = data.len() as u64;
        let take = chunk_take(va, len64);
        let rs = split_ranges(va, len64);
        assert(rs[0] == (va, take));
        let o = translate(tmem, arch, dtb, va);
        let pa = mapped_pa(o);
        let ma = splice(m, pa as int, data.take(take as int));
        assert(ma.len() == m.len());
        assert(rs.drop_first() =~= split_ranges((va + take) as u64, (len64 - take) as u64));
        assert forall|i: int| 0 <= i < rs.drop_first().len() implies {
            let pa2 = mapped_pa(
                translate(tmem, arch, dtb, (#[trigger] rs.drop_first()[i]).0),
            );
            pa2 + rs.drop_first()[i].1 <= lo || hi <= pa2
        } by {
            assert(rs.drop_first()[i] == rs[i + 1]);
        }
        lemma_write_preserves(
            tmem,
            ma,
            arch,
            dtb,
            (va + take) as u64,
            data.skip(take as int),
            lo,
            hi,
        );
        if hi <= m.len() {
            assert(pa + take <= lo || hi <= pa);
            assert(ma.subrange(lo, hi) =~= m.subrange(lo, hi));
        }
    }
}

/// After a successful chunked write, reading the written range back,
/// chunk by chunk, returns exactly the written bytes — provided the
/// write left the range's translations unchanged and its chunks landed
/// in pairwise disjoint physical ranges.
proof fn lemma_write_chunks_then_read(
    tmem: Seq<u8>,
    m: Seq<u8>,
    arch: Architecture,
    dtb: u64,
    va: u64,
    data: Seq<u8>,
)
    requires
        va + data.len() <= u64::MAX,
        write_chunks(tmem, m, arch, dtb, va, data) is Some,
        ranges_stable(
            tmem,
            write_chunks(tmem, m, arch, dtb, va, data).unwrap(),
            arch,
            dtb,
            split_ranges(va, data.len() as u64),
        ),
        ranges_disjoint(tmem, arch, dtb, split_ranges(va, data.len() as u64)),
    ensures
        read_chunks(
            write_chunks(tmem, m, arch, dtb, va, data).unwrap(),
            arch,
            dtb,
            va,
            data.len() as u64,
        ) == Some(data),
    decreases data.len(),
{
    let m2 = write_chunks(tmem, m, arch, dtb, va, data).unwrap();
    if data.len() == 0 {
        assert(data =~= Seq::<u8>::empty());
    } else {
        let len64 = data.len() as u64;
        let take = chunk_take(va, len64);
        let rs = split_ranges(va, len64);
        assert(rs[0] == (va, take));
        let o = translate(tmem, arch, dtb, va);
        let pa = mapped_pa(o);
        assert(pa + take <= m.len());
        let ma = splice(m, pa as int, data.take(take as int));
        let va2 = (va + take) as u64;
        let data2 = data.skip(take as int);
        let rs2 = split_ranges(va2, (len64 - take) as u64);
        assert(rs.drop_first() =~= rs2);
        assert(write_chunks(tmem, ma, arch, dtb, va2, data2) == Some(m2));
        assert forall|i: int| 0 <= i < rs2.len() implies translate(
            m2,
            arch,
            dtb,
            (#[trigger] rs2[i]).0,
        ) == translate(tmem, arch, dtb, rs2[i].0) by {
            assert(rs2[i] == rs[i + 1]);
        }
        assert forall|i: int, j: int| 0 <= i < j < rs2.len() implies {
            let pi = mapped_pa(translate(tmem, arch, dtb, (#[trigger] rs2[i]).0));
            let pj = mapped_pa(translate(tmem, arch, dtb, (#[trigger] rs2[j]).0));
            pi + rs2[i].1 <= pj || pj + rs2[j].1 <= pi
        } by {
            assert(rs2[i] == rs[i + 1]);
            assert(rs2[j] == rs[j + 1]);
        }
        lemma_write_chunks_then_read(tmem, ma, arch, dtb, va2, data2);
        assert(read_chunks(m2, arch, dtb, va2, (len64 - take) as u64) == Some(data2));

        // The later chunks avoid this chunk's physical range, so the
        // written bytes survive into the final contents.
        assert forall|i: int| 0 <= i < rs2.len() implies {
            let pa2 = mapped_pa(translate(tmem, arch, dtb, (#[trigger] rs2[i]).0));
            pa2 + rs2[i].1 <= pa as int || pa + take <= pa2
        } by {
            assert(rs2[i] == rs[i + 1]);
        }
        lemma_write_preserves(tmem, ma, arch, dtb, va2, data2, pa as int, pa + take);
        assert(m2.len() == ma.len());
        assert(m2.subrange(pa as int, pa + take) == ma.subrange(pa as int, pa + take));
        assert(ma.subrange(pa as int, pa + take) =~= data.take(take as int));

        // Reassemble the combined read.
        assert(translate(m2, arch, dtb, va) == o);
        assert(read_chunks(m2, arch, dtb, va, len64) == Some(
            m2.subrange(pa as int, pa + take) + data2,
        ));
        assert(data.take(take as int) + data.skip(take as int) =~= data);
    }
}

/// Round trip: writing a region and reading it back through a separately
/// constructed context returns the written bytes, whenever the write
/// succeeds, leaves the region's translations unchanged (it did not hit
/// the page tables), and its chunks land in pairwise disjoint physical
/// ranges (no two virtual pages of the region alias one physical page).
pub proof fn lemma_write_then_read(
    mem: Seq<u8>,
    arch: Architecture,
    dtb: u64,
    va: u64,
    data: Seq<u8>,
)
    requires
        va + data.len() <= u64::MAX,
        virt_write_spec(mem, arch, dtb, va, data) is Some,
        ranges_stable(
            mem,
            virt_write_spec(mem, arch, dtb, va, data).unwrap(),
            arch,
            dtb,
            split_ranges(va, data.len() as u64),
        ),
        ranges_disjoint(mem, arch, dtb, split_ranges(va, data.len() as u64)),
    ensures
        virt_read_spec(
            virt_write_spec(mem, arch, dtb, va, data).unwrap(),
            arch,
            dtb,
            va,
            data.len() as u64,
        ) == Some(data),
{
    lemma_write_chunks_then_read(mem, mem, arch, dtb, va, data);
}

} // verus!
