//! The OS process model: process snapshots assembled from injected
//! structure offsets, process and module list walkers, and the kernel
//! bootstrap through its PE export table.

use vstd::prelude::*;

use crate::arch::Architecture;
use crate::kernel::StartBlock;
use crate::pe::pe64_bounds_check;
use crate::pe::pe64_export;
use crate::pe::pe64_export_bounds_ok;
use crate::pe::pe64_export_rva;
use crate::phys::PhysicalMemory;
use crate::types::Address;
use crate::types::Error;
use crate::types::ErrorKind;
use crate::types::Length;
use crate::types::wadd;
use crate::types::wsub;
use crate::virt::VirtualMemoryContext;
use crate::virt::cstr_bytes;
use crate::virt::le_ptr_val;
use crate::virt::virt_read_spec;
use vstd::bytes::spec_u32_from_le_bytes;
use vstd::string::StringSliceAdditionalSpecFns;
use vstd::utf8::encode_utf8;
use vstd::utf8::valid_utf8;

verus! {

/// The OS structure-field offsets the process walker consumes, injected
/// by the caller from an external source.  A zero `eproc_wow64` means
/// the target OS version has no WoW64 field and detection is skipped.
#[derive(Clone, Copy, Debug, PartialEq, Eq, Structural)]
pub struct Win32Offsets {
    pub eproc_pid: u64,
    pub eproc_name: u64,
    pub eproc_wow64: u64,
    pub eproc_peb: u64,
    pub eproc_links: u64,
    pub kproc_dtb: u64,
    pub peb_ldr_x64: u64,
    pub peb_ldr_x86: u64,
    pub ldr_list_x64: u64,
    pub ldr_list_x86: u64,
}

/// The discovered target: its start block, where the kernel image sits,
/// and the anchor of the process list.
#[derive(Clone, Copy, Debug)]
pub struct Win32 {
    pub start_block: StartBlock,
    pub kernel_base: Address,
    pub kernel_size: Length,
    pub eprocess_base: Address,
}

impl Win32 {
    /// The target's standing invariant.
    pub open spec fn wf(self) -> bool {
        &&& self.start_block.wf()
        &&& self.kernel_size.0 <= usize::MAX
    }
}

/// A pointer read out of a virtual address space: translated with
/// `trans` under `dtb`, `width` bytes wide, little endian.
pub open spec fn ptr_spec(
    mem: Seq<u8>,
    trans: Architecture,
    width: u64,
    dtb: u64,
    va: u64,
) -> Option<u64> {
    match virt_read_spec(mem, trans, dtb, va, width) {
        Some(b) => Some(le_ptr_val(b, width)),
        None => None,
    }
}

/// A 32-bit signed integer read out of a virtual address space.
pub open spec fn i32_spec(mem: Seq<u8>, trans: Architecture, dtb: u64, va: u64) -> Option<i32> {
    match virt_read_spec(mem, trans, dtb, va, 4) {
        Some(b) => Some(spec_u32_from_le_bytes(b) as i32),
        None => None,
    }
}

/// The architecture a process's own pointers use: a 32-bit system runs
/// only 32-bit processes; under a 64-bit system a process is 32-bit
/// exactly when its WoW64 pointer is set.
pub open spec fn proc_arch_of(sys: Architecture, wow64: u64) -> Architecture {
    if sys.spec_bits() == 32 {
        Architecture::X86
    } else if wow64 == 0 {
        Architecture::X64
    } else {
        Architecture::X86
    }
}

/// The DTB value as the walker uses it: the low flag bits the hardware
/// keeps in the register are masked off, leaving the page-aligned root.
pub open spec fn clean_dtb(d: u64) -> u64 {
    d & 0xffff_ffff_ffff_f000
}

/// What one process snapshot holds, as read from the target.
pub struct ProcRec {
    pub pid: i32,
    pub name_bytes: Seq<u8>,
    pub dtb: u64,
    pub wow64: u64,
    pub peb: u64,
    pub proc_arch: Architecture,
    pub peb_module: u64,
}

/// The whole chain of reads that assembles one process snapshot from its
/// EPROCESS address; any failing or undecodable read fails the snapshot.
pub open spec fn proc_rec(
    mem: Seq<u8>,
    win: Win32,
    offs: Win32Offsets,
    ep: u64,
) -> Option<ProcRec> {
    let sys = win.start_block.arch;
    let dtb0 = win.start_block.dtb.0;
    let w = sys.spec_ptr_bytes();
    match i32_spec(mem, sys, dtb0, wadd(ep, offs.eproc_pid)) {
        None => None,
        Some(pid) => match cstr_bytes(mem, sys, dtb0, wadd(ep, offs.eproc_name), 16) {
            None => None,
            Some(nm) => if !valid_utf8(nm) {
                None
            } else {
                match ptr_spec(mem, sys, w, dtb0, wadd(ep, offs.kproc_dtb)) {
                    None => None,
                    Some(dtbp) => match (if offs.eproc_wow64 == 0 {
                        Some(0u64)
                    } else {
                        ptr_spec(mem, sys, w, dtb0, wadd(ep, offs.eproc_wow64))
                    }) {
                        None => None,
                        Some(wow64) => match (if wow64 == 0 {
                            ptr_spec(mem, sys, w, dtb0, wadd(ep, offs.eproc_peb))
                        } else {
                            ptr_spec(mem, sys, w, dtb0, wow64)
                        }) {
                            None => None,
                            Some(peb) => {
                                let parch = proc_arch_of(sys, wow64);
                                let wp = parch.spec_ptr_bytes();
                                let dtbc = clean_dtb(dtbp);
                                let ldr_o = if parch.spec_bits() == 64 {
                                    offs.peb_ldr_x64
                                } else {
                                    offs.peb_ldr_x86
                                };
                                let list_o = if parch.spec_bits() == 64 {
                                    offs.ldr_list_x64
                                } else {
                                    offs.ldr_list_x86
                                };
                                match ptr_spec(mem, sys, wp, dtbc, wadd(peb, ldr_o)) {
                                    None => None,
                                    Some(peb_ldr) => match ptr_spec(
                                        mem,
                                        sys,
                                        wp,
                                        dtbc,
                                        wadd(peb_ldr, list_o),
                                    ) {
                                        None => None,
                                        Some(peb_module) => Some(ProcRec {
                                            pid,
                                            name_bytes: nm,
                                            dtb: dtbc,
                                            wow64,
                                            peb,
                                            proc_arch: parch,
                                            peb_module,
                                        }),
                                    },
                                }
                            },
                        },
                    },
                }
            },
        },
    }
}

/// One process of the target, snapshotted: identity, address-space root,
/// WoW64 standing, PEB, the head of its module list, and the two
/// architectures that govern reading it.
#[derive(Clone, Debug)]
pub struct Win32Process {
    pub address: Address,
    pub pid: i32,
    pub name: String,
    pub dtb: Address,
    pub wow64: Address,
    pub peb: Address,
    pub peb_module: Address,
    pub sys_arch: Architecture,
    pub proc_arch: Architecture,
}

/// Whether an assembled process value carries exactly what the snapshot
/// model says for its EPROCESS address.
pub open spec fn proc_of_rec(p: Win32Process, win: Win32, ep: u64, rec: ProcRec) -> bool {
    &&& p.address.0 == ep
    &&& p.pid == rec.pid
    &&& encode_utf8(p.name@) == rec.name_bytes
    &&& p.dtb.0 == rec.dtb
    &&& p.wow64.0 == rec.wow64
    &&& p.peb.0 == rec.peb
    &&& p.peb_module.0 == rec.peb_module
    &&& p.sys_arch == win.start_block.arch
    &&& p.proc_arch == rec.proc_arch
}

impl Win32Process {
    /// Assemble one process snapshot from its EPROCESS address, reading
    /// through the kernel's address space and then, for the PEB walk,
    /// through the process's own, at the process's pointer width.
    pub fn try_with_eprocess(
        mem: &mut PhysicalMemory,
        win: &Win32,
        offsets: &Win32Offsets,
        eprocess: Address,
    ) -> (r: Result<Win32Process, Error>)
        requires
            win.wf(),
        ensures
            final(mem)@ == old(mem)@,
            (r is Ok) == (proc_rec(old(mem)@, *win, *offsets, eprocess.0) is Some),
            r matches Ok(p) ==> proc_of_rec(
                p,
                *win,
                eprocess.0,
                proc_rec(old(mem)@, *win, *offsets, eprocess.0).unwrap(),
            ),
            r matches Ok(p) ==> p.proc_arch == proc_arch_of(win.start_block.arch, p.wow64.0),
    {
        let sys = win.start_block.arch;
        let reader = VirtualMemoryContext::with(sys, win.start_block.dtb);
        let pid = match reader.virt_read_i32(mem, eprocess.wrapping_add(offsets.eproc_pid)) {
            Ok(v) => v,
            Err(e) => {
                return Err(e);
            },
        };
        let name = match reader.virt_read_cstr(
            mem,
            eprocess.wrapping_add(offsets.eproc_name),
            Length(16),
        ) {
            Ok(v) => v,
            Err(e) => {
                return Err(e);
            },
        };
        let dtb_raw = match reader.virt_read_addr(
            mem,
            eprocess.wrapping_add(offsets.kproc_dtb),
        ) {
            Ok(v) => v,
            Err(e) => {
                return Err(e);
            },
        };
        let wow64 = if offsets.eproc_wow64 == 0 {
            Address(0)
        } else {
            match reader.virt_read_addr(mem, eprocess.wrapping_add(offsets.eproc_wow64)) {
                Ok(v) => v,
                Err(e) => {
                    return Err(e);
                },
            }
        };
        let peb = if wow64.is_null() {
            match reader.virt_read_addr(mem, eprocess.wrapping_add(offsets.eproc_peb)) {
                Ok(v) => v,
                Err(e) => {
                    return Err(e);
                },
            }
        } else {
            match reader.virt_read_addr(mem, wow64) {
                Ok(v) => v,
                Err(e) => {
                    return Err(e);
                },
            }
        };
        let proc_arch = if sys.bits() == 32 {
            Architecture::X86
        } else if wow64.is_null() {
            Architecture::X64
        } else {
            Architecture::X86
        };
        let dtb = Address(dtb_raw.0 & 0xffff_ffff_ffff_f000);
        proof {
            let d = dtb_raw.0;
            assert((d & 0xffff_ffff_ffff_f000) % 4096 == 0) by (bit_vector);
        }
        let (peb_ldr_offs, ldr_list_offs) = if proc_arch.bits() == 64 {
            (offsets.peb_ldr_x64, offsets.ldr_list_x64)
        } else {
            (offsets.peb_ldr_x86, offsets.ldr_list_x86)
        };
        let proc_reader = VirtualMemoryContext::with_proc_arch(sys, proc_arch, dtb);
        let peb_ldr = match proc_reader.virt_read_addr(mem, peb.wrapping_add(peb_ldr_offs)) {
            Ok(v) => v,
            Err(e) => {
                return Err(e);
            },
        };
        let peb_module = match proc_reader.virt_read_addr(
            mem,
            peb_ldr.wrapping_add(ldr_list_offs),
        ) {
            Ok(v) => v,
            Err(e) => {
                return Err(e);
            },
        };
        Ok(
            Win32Process {
                address: eprocess,
                pid,
                name,
                dtb,
                wow64,
                peb,
                peb_module,
                sys_arch: sys,
                proc_arch,
            },
        )
    }

    pub fn wow64(&self) -> (r: Address)
        ensures
            r == self.wow64,
    {
        self.wow64
    }

    pub fn peb(&self) -> (r: Address)
        ensures
            r == self.peb,
    {
        self.peb
    }

    pub fn peb_module(&self) -> (r: Address)
        ensures
            r == self.peb_module,
    {
        self.peb_module
    }

    pub fn address(&self) -> (r: Address)
        ensures
            r == self.address,
    {
        self.address
    }

    pub fn pid(&self) -> (r: i32)
        ensures
            r == self.pid,
    {
        self.pid
    }

    pub fn name(&self) -> (r: String)
        ensures
            r@ == self.name@,
    {
        self.name.clone()
    }

    pub fn dtb(&self) -> (r: Address)
        ensures
            r == self.dtb,
    {
        self.dtb
    }

    pub fn sys_arch(&self) -> (r: Architecture)
        ensures
            r == self.sys_arch,
    {
        self.sys_arch
    }

    pub fn proc_arch(&self) -> (r: Architecture)
        ensures
            r == self.proc_arch,
    {
        self.proc_arch
    }
}

/// The cap on how many list entries a walker follows: a defence against
/// corrupted or adversarial lists, so that walking always terminates.
pub const LIST_WALK_CAP: u64 = 65536;

/// The next EPROCESS after `ep`: the Blink pointer of its list entry,
/// normalized back to the structure's base; a null pointer stays null.
pub open spec fn next_eproc(
    mem: Seq<u8>,
    sys: Architecture,
    dtb: u64,
    links: u64,
    ep: u64,
) -> Option<u64> {
    let w = sys.spec_ptr_bytes();
    match ptr_spec(mem, sys, w, dtb, wadd(wadd(ep, links), w)) {
        Some(b) => Some(
            if b == 0 {
                0u64
            } else {
                wsub(b, links)
            },
        ),
        None => None,
    }
}

/// The process list reached from `cur`, following Blink pointers until
/// the walk returns to `first`, hits null, or runs out of fuel; a failed
/// read fails the walk.
pub open spec fn eproc_chain(
    mem: Seq<u8>,
    sys: Architecture,
    dtb: u64,
    links: u64,
    first: u64,
    cur: u64,
    fuel: nat,
) -> Option<Seq<u64>>
    decreases fuel,
{
    if fuel == 0 {
        Some(Seq::empty())
    } else {
        match next_eproc(mem, sys, dtb, links, cur) {
            None => None,
            Some(nx) => if nx == 0 || nx == first {
                Some(seq![cur])
            } else {
                match eproc_chain(mem, sys, dtb, links, first, nx, (fuel - 1) as nat) {
                    Some(rest) => Some(seq![cur] + rest),
                    None => None,
                }
            },
        }
    }
}

/// A plain pointer-linked list from `cur`, each entry holding the
/// address of the next, ending at null or back at `first`.
pub open spec fn addr_chain(
    mem: Seq<u8>,
    sys: Architecture,
    width: u64,
    dtb: u64,
    first: u64,
    cur: u64,
    fuel: nat,
) -> Option<Seq<u64>>
    decreases fuel,
{
    if fuel == 0 {
        Some(Seq::empty())
    } else {
        match ptr_spec(mem, sys, width, dtb, cur) {
            None => None,
            Some(nx) => if nx == 0 || nx == first {
                Some(seq![cur])
            } else {
                match addr_chain(mem, sys, width, dtb, first, nx, (fuel - 1) as nat) {
                    Some(rest) => Some(seq![cur] + rest),
                    None => None,
                }
            },
        }
    }
}

/// The plain values of a list of addresses.
pub open spec fn addr_vals(s: Seq<Address>) -> Seq<u64> {
    s.map_values(|a: Address| a.0)
}

impl Win32 {
    /// Walk the doubly-linked process list from the anchor EPROCESS,
    /// yielding every member once.  Returning to the anchor ends the
    /// walk, as does a null link or the walk cap.
    pub fn eprocess_list(
        &self,
        mem: &mut PhysicalMemory,
        offsets: &Win32Offsets,
    ) -> (r: Result<Vec<Address>, Error>)
        requires
            self.wf(),
        ensures
            final(mem)@ == old(mem)@,
            (r is Ok) == (eproc_chain(
                old(mem)@,
                self.start_block.arch,
                self.start_block.dtb.0,
                offsets.eproc_links,
                self.eprocess_base.0,
                self.eprocess_base.0,
                LIST_WALK_CAP as nat,
            ) is Some),
            r matches Ok(list) ==> Some(addr_vals(list@)) == eproc_chain(
                old(mem)@,
                self.start_block.arch,
                self.start_block.dtb.0,
                offsets.eproc_links,
                self.eprocess_base.0,
                self.eprocess_base.0,
                LIST_WALK_CAP as nat,
            ),
            r matches Err(e) ==> e.kind == ErrorKind::Translation,
    {
        let ghost mem0 = mem@;
        let sys = self.start_block.arch;
        let dtb = self.start_block.dtb;
        let links = offsets.eproc_links;
        let first = self.eprocess_base;
        let reader = VirtualMemoryContext::with(sys, dtb);
        let w = sys.ptr_bytes();
        let mut list: Vec<Address> = Vec::new();
        let mut cur = first;
        let mut fuel: u64 = LIST_WALK_CAP;
        loop
            invariant
                mem@ == mem0,
                mem0 == old(mem)@,
                reader.wf(),
                reader.sys_arch == sys,
                reader.proc_arch == sys,
                reader.dtb == dtb,
                sys == self.start_block.arch,
                dtb == self.start_block.dtb,
                links == offsets.eproc_links,
                first == self.eprocess_base,
                w == sys.spec_ptr_bytes(),
                fuel <= LIST_WALK_CAP,
                eproc_chain(mem0, sys, dtb.0, links, first.0, first.0, LIST_WALK_CAP as nat)
                    == match eproc_chain(mem0, sys, dtb.0, links, first.0, cur.0, fuel as nat) {
                    Some(t) => Some(addr_vals(list@) + t),
                    None => None::<Seq<u64>>,
                },
            decreases fuel,
        {
            if fuel == 0 {
                proof {
                    assert(addr_vals(list@) + Seq::<u64>::empty() =~= addr_vals(list@));
                }
                return Ok(list);
            }
            let link_ptr = cur.wrapping_add(links).wrapping_add(w);
            let b = match reader.virt_read_addr(mem, link_ptr) {
                Ok(v) => v,
                Err(_) => {
                    return Err(Error::translation(link_ptr));
                },
            };
            let nx = if b.is_null() {
                Address(0)
            } else {
                b.wrapping_sub(links)
            };
            proof {
                assert(next_eproc(mem0, sys, dtb.0, links, cur.0) == Some(nx.0));
            }
            list.push(cur);
            proof {
                assert(addr_vals(list@) =~= addr_vals(list@.drop_last()).push(cur.0));
            }
            if nx.is_null() || nx.0 == first.0 {
                proof {
                    assert(eproc_chain(mem0, sys, dtb.0, links, first.0, cur.0, fuel as nat)
                        == Some(seq![cur.0]));
                    assert(addr_vals(list@.drop_last()) + seq![cur.0] =~= addr_vals(list@));
                    assert(addr_vals(list@) + Seq::<u64>::empty() =~= addr_vals(list@));
                }
                return Ok(list);
            }
            proof {
                assert forall|t: Seq<u64>| true implies addr_vals(list@.drop_last())
                    + (seq![cur.0] + t) =~= addr_vals(list@) + t by {}
            }
            cur = nx;
            fuel = fuel - 1;
        }
    }
}

/// The process chain reachable from the target's anchor, at the walk cap.
pub open spec fn name_chain(mem: Seq<u8>, win: Win32, offs: Win32Offsets) -> Option<Seq<u64>> {
    eproc_chain(
        mem,
        win.start_block.arch,
        win.start_block.dtb.0,
        offs.eproc_links,
        win.eprocess_base.0,
        win.eprocess_base.0,
        LIST_WALK_CAP as nat,
    )
}

/// Whether the snapshot at `ep` assembles, matches `p`, and carries a
/// name encoding to `nb`.
pub open spec fn found_here(
    mem: Seq<u8>,
    win: Win32,
    offs: Win32Offsets,
    ep: u64,
    p: Win32Process,
    nb: Seq<u8>,
) -> bool {
    proc_rec(mem, win, offs, ep) matches Some(rec) && proc_of_rec(p, win, ep, rec)
        && rec.name_bytes == nb
}

/// Whether `p` is the first match in `eps`: some member yields it under
/// the name bytes `nb`, and no assembling member before that one
/// carries the name.
pub open spec fn found_first(
    mem: Seq<u8>,
    win: Win32,
    offs: Win32Offsets,
    eps: Seq<u64>,
    p: Win32Process,
    nb: Seq<u8>,
) -> bool {
    exists|i: int| 0 <= i < eps.len()
        && #[trigger] found_here(mem, win, offs, eps[i], p, nb)
        && none_named(mem, win, offs, eps.take(i), nb)
}

/// Whether no assembling member of `eps` carries a name encoding to `nb`.
pub open spec fn none_named(
    mem: Seq<u8>,
    win: Win32,
    offs: Win32Offsets,
    eps: Seq<u64>,
    nb: Seq<u8>,
) -> bool {
    forall|i: int| 0 <= i < eps.len()
        ==> (proc_rec(mem, win, offs, #[trigger] eps[i]) matches Some(rec)
            ==> rec.name_bytes != nb)
}

fn bytes_eq(a: &[u8], b: &[u8]) -> (r: bool)
    ensures
        r == (a@ == b@),
{
    if a.len() != b.len() {
        proof {
            assert(a@.len() != b@.len());
        }
        return false;
    }
    let n = a.len();
    let mut i: usize = 0;
    while i < n
        invariant
            n == a@.len(),
            n == b@.len(),
            i <= n,
            forall|j: int| 0 <= j < i ==> a@[j] == b@[j],
        decreases n - i,
    {
        if a[i] != b[i] {
            return false;
        }
        i = i + 1;
    }
    proof {
        assert(a@ =~= b@);
    }
    true
}

impl Win32Process {
    /// Find a process by its image-file name: the list is walked from
    /// the anchor, every readable snapshot is assembled, and the first
    /// whose name encodes to the given name's bytes is returned.
    #[verifier::rlimit(100)]
    #[verifier::spinoff_prover]
    pub fn try_with_name(
        mem: &mut PhysicalMemory,
        win: &Win32,
        offsets: &Win32Offsets,
        name: &str,
    ) -> (r: Result<Win32Process, Error>)
        requires
            win.wf(),
        ensures
            final(mem)@ == old(mem)@,
            r matches Ok(p) ==> name_chain(old(mem)@, *win, *offsets) is Some && found_first(
                old(mem)@,
                *win,
                *offsets,
                name_chain(old(mem)@, *win, *offsets).unwrap(),
                p,
                encode_utf8(name@),
            ),
            r matches Err(e) ==> {
                &&& name_chain(old(mem)@, *win, *offsets) is None
                    ==> e.kind == ErrorKind::Translation
                &&& name_chain(old(mem)@, *win, *offsets) matches Some(eps) ==> {
                    &&& e.kind == ErrorKind::NotFound
                    &&& none_named(old(mem)@, *win, *offsets, eps, encode_utf8(name@))
                }
            },
    {
        let ghost mem0 = mem@;
        let list = match win.eprocess_list(mem, offsets) {
            Ok(l) => l,
            Err(e) => {
                return Err(e);
            },
        };
        let ghost eps = addr_vals(list@);
        proof {
            assert(name_chain(old(mem)@, *win, *offsets) == Some(eps));
        }
        let mut i: usize = 0;
        let n = list.len();
        while i < n
            invariant
                mem@ == mem0,
                mem0 == old(mem)@,
                win.wf(),
                n == list@.len(),
                i <= n,
                eps == addr_vals(list@),
                name_chain(old(mem)@, *win, *offsets) == Some(eps),
                forall|j: int| 0 <= j < i
                    ==> (proc_rec(old(mem)@, *win, *offsets, #[trigger] eps[j])
                        matches Some(rec) ==> rec.name_bytes != encode_utf8(name@)),
            decreases n - i,
        {
            match Win32Process::try_with_eprocess(mem, win, offsets, list[i]) {
                Ok(p) => {
                    if bytes_eq(p.name.as_str().as_bytes(), name.as_bytes()) {
                        proof {
                            assert(eps[i as int] == list@[i as int].0);
                            assert(encode_utf8(p.name@) == encode_utf8(name@));
                            assert(found_here(
                                old(mem)@,
                                *win,
                                *offsets,
                                eps[i as int],
                                p,
                                encode_utf8(name@),
                            ));
                            assert forall|j: int| 0 <= j < eps.take(i as int).len()
                                implies (proc_rec(
                                    old(mem)@,
                                    *win,
                                    *offsets,
                                    #[trigger] eps.take(i as int)[j],
                                ) matches Some(rec)
                                    ==> rec.name_bytes != encode_utf8(name@)) by {
                                assert(eps.take(i as int)[j] == eps[j]);
                            }
                            assert(none_named(
                                old(mem)@,
                                *win,
                                *offsets,
                                eps.take(i as int),
                                encode_utf8(name@),
                            ));
                            assert(found_first(
                                old(mem)@,
                                *win,
                                *offsets,
                                eps,
                                p,
                                encode_utf8(name@),
                            ));
                        }
                        return Ok(p);
                    }
                },
                Err(_) => {},
            }
            proof {
                assert(eps[i as int] == list@[i as int].0);
            }
            i = i + 1;
        }
        Err(Error::new(ErrorKind::NotFound, "no process of that name"))
    }

    /// Walk this process's in-load-order module list from its first
    /// entry, yielding each entry's address once; returning to the first
    /// entry ends the walk, as does a null link or the walk cap.
    pub fn peb_list(&self, mem: &mut PhysicalMemory) -> (r: Result<Vec<Address>, Error>)
        requires
            self.dtb.0 % 4096 == 0,
        ensures
            final(mem)@ == old(mem)@,
            (r is Ok) == (addr_chain(
                old(mem)@,
                self.sys_arch,
                self.proc_arch.spec_ptr_bytes(),
                self.dtb.0,
                self.peb_module.0,
                self.peb_module.0,
                LIST_WALK_CAP as nat,
            ) is Some),
            r matches Ok(list) ==> Some(addr_vals(list@)) == addr_chain(
                old(mem)@,
                self.sys_arch,
                self.proc_arch.spec_ptr_bytes(),
                self.dtb.0,
                self.peb_module.0,
                self.peb_module.0,
                LIST_WALK_CAP as nat,
            ),
            r matches Err(e) ==> e.kind == ErrorKind::Translation,
    {
        let ghost mem0 = mem@;
        let sys = self.sys_arch;
        let reader = VirtualMemoryContext::with_proc_arch(sys, self.proc_arch, self.dtb);
        let first = self.peb_module;
        let ghost wp = self.proc_arch.spec_ptr_bytes();
        let mut list: Vec<Address> = Vec::new();
        let mut cur = first;
        let mut fuel: u64 = LIST_WALK_CAP;
        loop
            invariant
                mem@ == mem0,
                mem0 == old(mem)@,
                reader.wf(),
                reader.sys_arch == self.sys_arch,
                reader.proc_arch == self.proc_arch,
                reader.dtb == self.dtb,
                sys == self.sys_arch,
                wp == self.proc_arch.spec_ptr_bytes(),
                first == self.peb_module,
                fuel <= LIST_WALK_CAP,
                addr_chain(mem0, sys, wp, self.dtb.0, first.0, first.0, LIST_WALK_CAP as nat)
                    == match addr_chain(mem0, sys, wp, self.dtb.0, first.0, cur.0, fuel as nat) {
                    Some(t) => Some(addr_vals(list@) + t),
                    None => None::<Seq<u64>>,
                },
            decreases fuel,
        {
            if fuel == 0 {
                proof {
                    assert(addr_vals(list@) + Seq::<u64>::empty() =~= addr_vals(list@));
                }
                return Ok(list);
            }
            let nx = match reader.virt_read_addr(mem, cur) {
                Ok(v) => v,
                Err(_) => {
                    return Err(Error::translation(cur));
                },
            };
            proof {
                assert(ptr_spec(mem0, sys, wp, self.dtb.0, cur.0) == Some(nx.0));
            }
            list.push(cur);
            proof {
                assert(addr_vals(list@) =~= addr_vals(list@.drop_last()).push(cur.0));
            }
            if nx.is_null() || nx.0 == first.0 {
                proof {
                    assert(addr_chain(mem0, sys, wp, self.dtb.0, first.0, cur.0, fuel as nat)
                        == Some(seq![cur.0]));
                    assert(addr_vals(list@.drop_last()) + seq![cur.0] =~= addr_vals(list@));
                    assert(addr_vals(list@) + Seq::<u64>::empty() =~= addr_vals(list@));
                }
                return Ok(list);
            }
            proof {
                assert forall|t: Seq<u64>| true implies addr_vals(list@.drop_last())
                    + (seq![cur.0] + t) =~= addr_vals(list@) + t by {}
            }
            cur = nx;
            fuel = fuel - 1;
        }
    }

    /// Bootstrap a snapshot of the kernel itself: read its image, find
    /// the loaded-module-list export in the PE export table, and read the
    /// list head it names.
    pub fn try_from_kernel(mem: &mut PhysicalMemory, win: &Win32) -> (r: Result<
        Win32Process,
        Error,
    >)
        requires
            win.wf(),
        ensures
            final(mem)@ == old(mem)@,
            (r is Ok) == (kernel_module_head(old(mem)@, *win) is Some),
            r matches Ok(p) ==> {
                &&& p.address == win.kernel_base
                &&& p.pid == 0
                &&& p.name@ == "ntoskrnl.exe"@
                &&& p.dtb == win.start_block.dtb
                &&& p.wow64.0 == 0
                &&& p.peb.0 == 0
                &&& p.peb_module.0 == kernel_module_head(old(mem)@, *win).unwrap()
                &&& p.sys_arch == win.start_block.arch
                &&& p.proc_arch == win.start_block.arch
            },
    {
        let sys = win.start_block.arch;
        let reader = VirtualMemoryContext::with(sys, win.start_block.dtb);
        let pe_buf = match reader.virt_read_raw(
            mem,
            win.kernel_base,
            win.kernel_size.as_u64() as usize,
        ) {
            Ok(v) => v,
            Err(e) => {
                return Err(e);
            },
        };
        if !pe64_bounds_check(&pe_buf) {
            return Err(
                Error::new(ErrorKind::Initialization, "kernel image export directory bounds wrap"),
            );
        }
        let rva = match pe64_export(&pe_buf, "PsLoadedModuleList") {
            Some(v) => v,
            None => {
                return Err(
                    Error::new(ErrorKind::Initialization, "kernel module list export not found"),
                );
            },
        };
        let peb_module = match reader.virt_read_addr(
            mem,
            win.kernel_base.wrapping_add(rva as u64),
        ) {
            Ok(v) => v,
            Err(e) => {
                return Err(e);
            },
        };
        let name = kernel_image_name();
        Ok(
            Win32Process {
                address: win.kernel_base,
                pid: 0,
                name,
                dtb: win.start_block.dtb,
                wow64: Address(0),
                peb: Address(0),
                peb_module,
                sys_arch: sys,
                proc_arch: sys,
            },
        )
    }
}

/// The conventional name of the kernel image.
fn kernel_image_name() -> (r: String)
    ensures
        r@ == "ntoskrnl.exe"@,
{
    let s = "ntoskrnl.exe";
    <String as vstd::string::StringExecFns>::from_str(s)
}

/// The head of the kernel's loaded-module list: the kernel image is read
/// out of its address space, the loaded-module-list export is looked up
/// in the image's PE export table, and the pointer at that export is the
/// head.  An image whose export directory bounds wrap is never handed to
/// the lookup and yields nothing.
pub open spec fn kernel_module_head(mem: Seq<u8>, win: Win32) -> Option<u64> {
    let sys = win.start_block.arch;
    let dtb0 = win.start_block.dtb.0;
    match virt_read_spec(mem, sys, dtb0, win.kernel_base.0, win.kernel_size.0) {
        None => None,
        Some(img) => if !pe64_export_bounds_ok(img) {
            None
        } else {
            match pe64_export_rva(img, "PsLoadedModuleList"@) {
                None => None,
                Some(rva) => ptr_spec(
                    mem,
                    sys,
                    sys.spec_ptr_bytes(),
                    dtb0,
                    wadd(win.kernel_base.0, rva as u64),
                ),
            }
        },
    }
}

/// The offset an injected table holds for a structure field named by its
/// OS symbol names, encoded as UTF-8 bytes.
pub open spec fn offset_lookup(offs: Win32Offsets, s: Seq<u8>, f: Seq<u8>) -> Option<u64> {
    if s == "_EPROCESS".spec_bytes() {
        if f == "UniqueProcessId".spec_bytes() {
            Some(offs.eproc_pid)
        } else if f == "ImageFileName".spec_bytes() {
            Some(offs.eproc_name)
        } else if f == "WoW64Process".spec_bytes() {
            Some(offs.eproc_wow64)
        } else if f == "Peb".spec_bytes() {
            Some(offs.eproc_peb)
        } else if f == "ActiveProcessLinks".spec_bytes() {
            Some(offs.eproc_links)
        } else {
            None
        }
    } else if s == "_KPROCESS".spec_bytes() {
        if f == "DirectoryTableBase".spec_bytes() {
            Some(offs.kproc_dtb)
        } else {
            None
        }
    } else {
        None
    }
}

fn str_eq(a: &str, b: &str) -> (r: bool)
    ensures
        r == (a.spec_bytes() == b.spec_bytes()),
{
    bytes_eq(a.as_bytes(), b.as_bytes())
}

/// The WoW64 pointer of the process at `ep`; a table without the field
/// reports null without a read.
pub open spec fn wow64_spec(mem: Seq<u8>, win: Win32, offs: Win32Offsets, ep: u64) -> Option<
    u64,
> {
    let sys = win.start_block.arch;
    if offs.eproc_wow64 == 0 {
        Some(0u64)
    } else {
        ptr_spec(mem, sys, sys.spec_ptr_bytes(), win.start_block.dtb.0, wadd(ep, offs.eproc_wow64))
    }
}

/// The first in-load-order module entry of the process at `ep`: its PEB
/// is located through the WoW64 pointer or the PEB field, and the
/// loader's list head is read at the process's own pointer width under
/// its own, flag-masked DTB.
pub open spec fn first_module_entry(
    mem: Seq<u8>,
    win: Win32,
    offs: Win32Offsets,
    ep: u64,
) -> Option<u64> {
    let sys = win.start_block.arch;
    let dtb0 = win.start_block.dtb.0;
    let w = sys.spec_ptr_bytes();
    match wow64_spec(mem, win, offs, ep) {
        None => None,
        Some(wow) => match (if wow == 0 {
            ptr_spec(mem, sys, w, dtb0, wadd(ep, offs.eproc_peb))
        } else {
            ptr_spec(mem, sys, w, dtb0, wow)
        }) {
            None => None,
            Some(peb) => match ptr_spec(mem, sys, w, dtb0, wadd(ep, offs.kproc_dtb)) {
                None => None,
                Some(dtbp) => {
                    let parch = proc_arch_of(sys, wow);
                    let wp = parch.spec_ptr_bytes();
                    let dtbc = clean_dtb(dtbp);
                    let ldr_o = if parch.spec_bits() == 64 {
                        0x18u64
                    } else {
                        0xcu64
                    };
                    let list_o = if parch.spec_bits() == 64 {
                        0x10u64
                    } else {
                        0xcu64
                    };
                    match ptr_spec(mem, sys, wp, dtbc, wadd(peb, ldr_o)) {
                        None => None,
                        Some(ldr) => ptr_spec(mem, sys, wp, dtbc, wadd(ldr, list_o)),
                    }
                },
            },
        },
    }
}

/// The reader a process's own module walk uses, once its WoW64 and DTB
/// fields are read: the system translation architecture, the process's
/// pointer width, and its flag-masked DTB.
pub open spec fn proc_reader_spec(
    mem: Seq<u8>,
    win: Win32,
    offs: Win32Offsets,
    ep: u64,
) -> Option<VirtualMemoryContext> {
    let sys = win.start_block.arch;
    match wow64_spec(mem, win, offs, ep) {
        None => None,
        Some(wow) => match ptr_spec(
            mem,
            sys,
            sys.spec_ptr_bytes(),
            win.start_block.dtb.0,
            wadd(ep, offs.kproc_dtb),
        ) {
            None => None,
            Some(dtbp) => Some(
                VirtualMemoryContext {
                    sys_arch: sys,
                    proc_arch: proc_arch_of(sys, wow),
                    dtb: Address(clean_dtb(dtbp)),
                },
            ),
        },
    }
}

/// What a module walk's opening step yields: the first list entry and
/// the entry to visit after it, or nothing when the list head cannot be
/// located, is null, or its link cannot be read.
pub open spec fn module_first_yield(
    mem: Seq<u8>,
    win: Win32,
    offs: Win32Offsets,
    ep: u64,
) -> Option<(u64, u64)> {
    match first_module_entry(mem, win, offs, ep) {
        None => None,
        Some(fm) => if fm == 0 {
            None
        } else {
            match proc_reader_spec(mem, win, offs, ep) {
                None => None,
                Some(rctx) => match ptr_spec(
                    mem,
                    rctx.sys_arch,
                    rctx.proc_arch.spec_ptr_bytes(),
                    rctx.dtb.0,
                    fm,
                ) {
                    None => None,
                    Some(nx) => Some(
                        (
                            fm,
                            if nx == fm {
                                0u64
                            } else {
                                nx
                            },
                        ),
                    ),
                },
            }
        },
    }
}

/// The on-demand view of one process: each accessor reads what it needs
/// when called, against the target state of that moment.
pub trait ProcessTrait: Sized {
    /// The accessor's standing invariant.
    spec fn inv(&self) -> bool;

    /// What reading the process id would yield over contents `mem`.
    spec fn pid_spec(&self, mem: Seq<u8>) -> Option<i32>;

    /// What reading the image-file name would yield, as encoded bytes.
    spec fn name_spec(&self, mem: Seq<u8>) -> Option<Seq<u8>>;

    /// The raw name bytes before decoding: what the name read yields
    /// once translated, whether or not it decodes.
    spec fn name_bytes_spec(&self, mem: Seq<u8>) -> Option<Seq<u8>>;

    /// What reading the per-process DTB would yield, flag bits masked.
    spec fn dtb_spec(&self, mem: Seq<u8>) -> Option<u64>;

    /// What locating the first module-list entry would yield.
    spec fn peb_entry_spec(&self, mem: Seq<u8>) -> Option<u64>;

    fn pid(&self, phys: &mut PhysicalMemory) -> (r: Result<i32, Error>)
        requires
            self.inv(),
        ensures
            final(phys)@ == old(phys)@,
            (r is Ok) == (self.pid_spec(old(phys)@) is Some),
            r matches Ok(v) ==> Some(v) == self.pid_spec(old(phys)@),
            r matches Err(e) ==> e.kind == ErrorKind::Translation,
    ;

    fn name(&self, phys: &mut PhysicalMemory) -> (r: Result<String, Error>)
        requires
            self.inv(),
        ensures
            final(phys)@ == old(phys)@,
            (r is Ok) == (self.name_spec(old(phys)@) is Some),
            r matches Ok(n) ==> Some(encode_utf8(n@)) == self.name_spec(old(phys)@),
            r matches Err(e) ==> e.kind == (if self.name_bytes_spec(old(phys)@) is None {
                ErrorKind::Translation
            } else {
                ErrorKind::Encoding
            }),
    ;

    fn dtb(&self, phys: &mut PhysicalMemory) -> (r: Result<Address, Error>)
        requires
            self.inv(),
        ensures
            final(phys)@ == old(phys)@,
            (r is Ok) == (self.dtb_spec(old(phys)@) is Some),
            r matches Ok(a) ==> Some(a.0) == self.dtb_spec(old(phys)@),
            r matches Err(e) ==> e.kind == ErrorKind::Translation,
    ;

    fn first_peb_entry(&self, phys: &mut PhysicalMemory) -> (r: Result<Address, Error>)
        requires
            self.inv(),
        ensures
            final(phys)@ == old(phys)@,
            (r is Ok) == (self.peb_entry_spec(old(phys)@) is Some),
            r matches Ok(a) ==> Some(a.0) == self.peb_entry_spec(old(phys)@),
            r matches Err(e) ==> e.kind == ErrorKind::Translation,
    ;
}

/// A handle on one process of the target, resolving structure offsets
/// from the injected table and reading fields on demand.
#[derive(Clone, Copy, Debug)]
pub struct Process {
    pub win: Win32,
    pub offsets: Win32Offsets,
    pub eprocess: Address,
}

impl Process {
    pub fn with(win: Win32, offsets: Win32Offsets, eprocess: Address) -> (r: Process)
        ensures
            r.win == win,
            r.offsets == offsets,
            r.eprocess == eprocess,
    {
        Process { win, offsets, eprocess }
    }

    /// Resolve a structure field's offset by its OS symbol names, from
    /// the injected table.
    pub fn find_offset(&self, strct: &str, field: &str) -> (r: Result<Length, Error>)
        ensures
            (r is Ok) == (offset_lookup(self.offsets, strct.spec_bytes(), field.spec_bytes())
                is Some),
            r matches Ok(l) ==> Some(l.0) == offset_lookup(
                self.offsets,
                strct.spec_bytes(),
                field.spec_bytes(),
            ),
            r matches Err(e) ==> e.kind == ErrorKind::NotFound,
    {
        if str_eq(strct, "_EPROCESS") {
            if str_eq(field, "UniqueProcessId") {
                return Ok(Length(self.offsets.eproc_pid));
            }
            if str_eq(field, "ImageFileName") {
                return Ok(Length(self.offsets.eproc_name));
            }
            if str_eq(field, "WoW64Process") {
                return Ok(Length(self.offsets.eproc_wow64));
            }
            if str_eq(field, "Peb") {
                return Ok(Length(self.offsets.eproc_peb));
            }
            if str_eq(field, "ActiveProcessLinks") {
                return Ok(Length(self.offsets.eproc_links));
            }
            return Err(Error::new(ErrorKind::NotFound, "field not in offset table"));
        }
        if str_eq(strct, "_KPROCESS") {
            if str_eq(field, "DirectoryTableBase") {
                return Ok(Length(self.offsets.kproc_dtb));
            }
            return Err(Error::new(ErrorKind::NotFound, "field not in offset table"));
        }
        Err(Error::new(ErrorKind::NotFound, "structure not in offset table"))
    }

    /// The process's WoW64 pointer; null when the target OS has no such
    /// field.
    pub fn wow64(&self, phys: &mut PhysicalMemory) -> (r: Result<Address, Error>)
        requires
            self.inv(),
        ensures
            final(phys)@ == old(phys)@,
            (r is Ok) == (wow64_spec(old(phys)@, self.win, self.offsets, self.eprocess.0)
                is Some),
            r matches Ok(a) ==> Some(a.0) == wow64_spec(
                old(phys)@,
                self.win,
                self.offsets,
                self.eprocess.0,
            ),
            r matches Err(e) ==> e.kind == ErrorKind::Translation,
    {
        if self.offsets.eproc_wow64 == 0 {
            return Ok(Address(0));
        }
        let sys = self.win.start_block.arch;
        let reader = VirtualMemoryContext::with(sys, self.win.start_block.dtb);
        reader.virt_read_addr(phys, self.eprocess.wrapping_add(self.offsets.eproc_wow64))
    }

    /// Whether the process runs 32-bit code under a 64-bit kernel.
    pub fn has_wow64(&self, phys: &mut PhysicalMemory) -> (r: Result<bool, Error>)
        requires
            self.inv(),
        ensures
            final(phys)@ == old(phys)@,
            (r is Ok) == (wow64_spec(old(phys)@, self.win, self.offsets, self.eprocess.0)
                is Some),
            r matches Ok(b) ==> b == (wow64_spec(
                old(phys)@,
                self.win,
                self.offsets,
                self.eprocess.0,
            ).unwrap() != 0),
            r matches Err(e) ==> e.kind == ErrorKind::Translation,
    {
        match self.wow64(phys) {
            Ok(a) => Ok(!a.is_null()),
            Err(e) => Err(e),
        }
    }

    /// The system architecture the process is read under.
    pub fn arch(&self) -> (r: Architecture)
        ensures
            r == self.win.start_block.arch,
    {
        self.win.start_block.arch
    }

    /// The architecture the process's own pointers use.
    pub fn type_arch(&self, phys: &mut PhysicalMemory) -> (r: Result<Architecture, Error>)
        requires
            self.inv(),
        ensures
            final(phys)@ == old(phys)@,
            (r is Ok) == (wow64_spec(old(phys)@, self.win, self.offsets, self.eprocess.0)
                is Some),
            r matches Ok(a) ==> a == proc_arch_of(
                self.win.start_block.arch,
                wow64_spec(old(phys)@, self.win, self.offsets, self.eprocess.0).unwrap(),
            ),
            r matches Err(e) ==> e.kind == ErrorKind::Translation,
    {
        match self.wow64(phys) {
            Ok(w) => {
                if self.win.start_block.arch.bits() == 32 {
                    Ok(Architecture::X86)
                } else if w.is_null() {
                    Ok(Architecture::X64)
                } else {
                    Ok(Architecture::X86)
                }
            },
            Err(e) => Err(e),
        }
    }

    /// An iterator over the process's in-load-order module list.  The
    /// iterator holds a copy of this handle and reads nothing from the
    /// target until iteration begins.
    pub fn module_iter(&self) -> (r: Result<ModuleIterator, Error>)
        ensures
            r matches Ok(it) && it.process == *self && it.state is Fresh,
    {
        Ok(ModuleIterator::new(*self))
    }
}

impl ProcessTrait for Process {
    open spec fn inv(&self) -> bool {
        self.win.wf()
    }

    open spec fn pid_spec(&self, mem: Seq<u8>) -> Option<i32> {
        i32_spec(
            mem,
            self.win.start_block.arch,
            self.win.start_block.dtb.0,
            wadd(self.eprocess.0, self.offsets.eproc_pid),
        )
    }

    open spec fn name_spec(&self, mem: Seq<u8>) -> Option<Seq<u8>> {
        match self.name_bytes_spec(mem) {
            Some(nm) => if valid_utf8(nm) {
                Some(nm)
            } else {
                None
            },
            None => None,
        }
    }

    open spec fn name_bytes_spec(&self, mem: Seq<u8>) -> Option<Seq<u8>> {
        cstr_bytes(
            mem,
            self.win.start_block.arch,
            self.win.start_block.dtb.0,
            wadd(self.eprocess.0, self.offsets.eproc_name),
            16,
        )
    }

    open spec fn dtb_spec(&self, mem: Seq<u8>) -> Option<u64> {
        let sys = self.win.start_block.arch;
        match ptr_spec(
            mem,
            sys,
            sys.spec_ptr_bytes(),
            self.win.start_block.dtb.0,
            wadd(self.eprocess.0, self.offsets.kproc_dtb),
        ) {
            Some(d) => Some(clean_dtb(d)),
            None => None,
        }
    }

    open spec fn peb_entry_spec(&self, mem: Seq<u8>) -> Option<u64> {
        first_module_entry(mem, self.win, self.offsets, self.eprocess.0)
    }

    fn pid(&self, phys: &mut PhysicalMemory) -> (r: Result<i32, Error>) {
        let reader = VirtualMemoryContext::with(
            self.win.start_block.arch,
            self.win.start_block.dtb,
        );
        reader.virt_read_i32(phys, self.eprocess.wrapping_add(self.offsets.eproc_pid))
    }

    fn name(&self, phys: &mut PhysicalMemory) -> (r: Result<String, Error>) {
        let reader = VirtualMemoryContext::with(
            self.win.start_block.arch,
            self.win.start_block.dtb,
        );
        reader.virt_read_cstr(
            phys,
            self.eprocess.wrapping_add(self.offsets.eproc_name),
            Length(16),
        )
    }

    fn dtb(&self, phys: &mut PhysicalMemory) -> (r: Result<Address, Error>) {
        let reader = VirtualMemoryContext::with(
            self.win.start_block.arch,
            self.win.start_block.dtb,
        );
        match reader.virt_read_addr(phys, self.eprocess.wrapping_add(self.offsets.kproc_dtb)) {
            Ok(a) => Ok(Address(a.0 & 0xffff_ffff_ffff_f000)),
            Err(e) => Err(e),
        }
    }

    fn first_peb_entry(&self, phys: &mut PhysicalMemory) -> (r: Result<Address, Error>) {
        let sys = self.win.start_block.arch;
        let reader = VirtualMemoryContext::with(sys, self.win.start_block.dtb);
        let wow = match self.wow64(phys) {
            Ok(a) => a,
            Err(e) => {
                return Err(e);
            },
        };
        let peb = if wow.is_null() {
            match reader.virt_read_addr(phys, self.eprocess.wrapping_add(self.offsets.eproc_peb))
            {
                Ok(a) => a,
                Err(e) => {
                    return Err(e);
                },
            }
        } else {
            match reader.virt_read_addr(phys, wow) {
                Ok(a) => a,
                Err(e) => {
                    return Err(e);
                },
            }
        };
        let dtbp = match reader.virt_read_addr(
            phys,
            self.eprocess.wrapping_add(self.offsets.kproc_dtb),
        ) {
            Ok(a) => a,
            Err(e) => {
                return Err(e);
            },
        };
        let parch = if sys.bits() == 32 {
            Architecture::X86
        } else if wow.is_null() {
            Architecture::X64
        } else {
            Architecture::X86
        };
        let dtbc = Address(dtbp.0 & 0xffff_ffff_ffff_f000);
        proof {
            let d = dtbp.0;
            assert((d & 0xffff_ffff_ffff_f000) % 4096 == 0) by (bit_vector);
        }
        let ldr_offs: u64 = if parch.bits() == 64 {
            0x18
        } else {
            0xc
        };
        let ldr_list_offs: u64 = if parch.bits() == 64 {
            0x10
        } else {
            0xc
        };
        let proc_reader = VirtualMemoryContext::with_proc_arch(sys, parch, dtbc);
        let peb_ldr = match proc_reader.virt_read_addr(phys, peb.wrapping_add(ldr_offs)) {
            Ok(a) => a,
            Err(e) => {
                return Err(e);
            },
        };
        proc_reader.virt_read_addr(phys, peb_ldr.wrapping_add(ldr_list_offs))
    }
}

/// An iterator over the target's process list, one handle per EPROCESS.
#[derive(Clone, Copy, Debug)]
pub struct ProcessIterator {
    pub win: Win32,
    pub offsets: Win32Offsets,
    pub first_eprocess: Address,
    pub eprocess: Address,
}

impl ProcessIterator {
    pub fn new(win: Win32, offsets: Win32Offsets) -> (r: ProcessIterator)
        ensures
            r.win == win,
            r.offsets == offsets,
            r.first_eprocess == win.eprocess_base,
            r.eprocess == win.eprocess_base,
    {
        ProcessIterator {
            win,
            offsets,
            first_eprocess: win.eprocess_base,
            eprocess: win.eprocess_base,
        }
    }

    /// Yield the process at the current EPROCESS and step to the next
    /// list member; returning to the anchor, a null link, or an
    /// unreadable link ends the iteration.
    pub fn next(&mut self, phys: &mut PhysicalMemory) -> (r: Option<Process>)
        requires
            old(self).win.wf(),
        ensures
            final(phys)@ == old(phys)@,
            final(self).win == old(self).win,
            final(self).offsets == old(self).offsets,
            final(self).first_eprocess == old(self).first_eprocess,
            old(self).eprocess.0 == 0 ==> r is None && final(self).eprocess
                == old(self).eprocess,
            old(self).eprocess.0 != 0 ==> match next_eproc(
                old(phys)@,
                old(self).win.start_block.arch,
                old(self).win.start_block.dtb.0,
                old(self).offsets.eproc_links,
                old(self).eprocess.0,
            ) {
                None => r is None && final(self).eprocess.0 == 0,
                Some(nx) => {
                    &&& (r matches Some(p) && p.win == old(self).win
                        && p.offsets == old(self).offsets && p.eprocess == old(self).eprocess)
                    &&& final(self).eprocess.0 == (if nx == old(self).first_eprocess.0 {
                        0u64
                    } else {
                        nx
                    })
                },
            },
    {
        if self.eprocess.is_null() {
            return None;
        }
        let sys = self.win.start_block.arch;
        let reader = VirtualMemoryContext::with(sys, self.win.start_block.dtb);
        let w = sys.ptr_bytes();
        let link_ptr = self.eprocess.wrapping_add(self.offsets.eproc_links).wrapping_add(w);
        let b = match reader.virt_read_addr(phys, link_ptr) {
            Ok(v) => v,
            Err(_) => {
                self.eprocess = Address(0);
                return None;
            },
        };
        let nx = if b.is_null() {
            Address(0)
        } else {
            b.wrapping_sub(self.offsets.eproc_links)
        };
        let cur = self.eprocess;
        self.eprocess = if nx.0 == self.first_eprocess.0 {
            Address(0)
        } else {
            nx
        };
        Some(Process::with(self.win, self.offsets, cur))
    }
}

/// Where a module iteration stands: not yet begun, walking the ring, or
/// finished.
#[derive(Clone, Copy, Debug)]
pub enum ModuleIterState {
    Fresh,
    Running { ctx: VirtualMemoryContext, first: Address, cur: Address },
    Done,
}

/// An iterator over a process's module list, yielding each list entry's
/// virtual address.  The list head, the process DTB and the pointer
/// width are resolved from the target on the first step, not before.
#[derive(Clone, Copy, Debug)]
pub struct ModuleIterator {
    pub process: Process,
    pub state: ModuleIterState,
}

impl ModuleIterator {
    pub fn new(process: Process) -> (r: ModuleIterator)
        ensures
            r.process == process,
            r.state is Fresh,
    {
        ModuleIterator { process, state: ModuleIterState::Fresh }
    }

    /// The iterator's standing invariant.
    pub open spec fn inv(&self) -> bool {
        match self.state {
            ModuleIterState::Fresh => self.process.inv(),
            ModuleIterState::Running { ctx, first, cur } => ctx.wf(),
            ModuleIterState::Done => true,
        }
    }

    /// Yield the next module entry.  The first step locates the list
    /// head and reads its link; later steps follow links.  A null entry,
    /// a return to the first entry, or an unreadable link ends the
    /// iteration.
    pub fn next(&mut self, phys: &mut PhysicalMemory) -> (r: Option<Address>)
        requires
            old(self).inv(),
        ensures
            final(phys)@ == old(phys)@,
            final(self).inv(),
            final(self).process == old(self).process,
            old(self).state is Done ==> r is None && final(self).state is Done,
            old(self).state is Fresh ==> {
                let fy = module_first_yield(
                    old(phys)@,
                    old(self).process.win,
                    old(self).process.offsets,
                    old(self).process.eprocess.0,
                );
                &&& fy is None ==> r is None && final(self).state is Done
                &&& fy matches Some((y, c)) ==> {
                    &&& r == Some(Address(y))
                    &&& final(self).state matches ModuleIterState::Running { ctx, first, cur }
                        && Some(ctx) == proc_reader_spec(
                            old(phys)@,
                            old(self).process.win,
                            old(self).process.offsets,
                            old(self).process.eprocess.0,
                        ) && first.0 == y && cur.0 == c
                }
            },
            old(self).state matches ModuleIterState::Running { ctx, first, cur } ==> {
                &&& cur.0 == 0 ==> r is None && final(self).state is Done
                &&& cur.0 != 0 ==> match ptr_spec(
                    old(phys)@,
                    ctx.sys_arch,
                    ctx.proc_arch.spec_ptr_bytes(),
                    ctx.dtb.0,
                    cur.0,
                ) {
                    None => r is None && final(self).state is Done,
                    Some(nx) => {
                        &&& r == Some(cur)
                        &&& final(self).state matches ModuleIterState::Running {
                            ctx: c2,
                            first: f2,
                            cur: u2,
                        } && c2 == ctx && f2 == first && u2.0 == (if nx == first.0 {
                            0u64
                        } else {
                            nx
                        })
                    },
                }
            },
    {
        match self.state {
            ModuleIterState::Done => None,
            ModuleIterState::Fresh => {
                let p = self.process;
                let first = match p.first_peb_entry(phys) {
                    Ok(a) => a,
                    Err(_) => {
                        self.state = ModuleIterState::Done;
                        return None;
                    },
                };
                let dtb = match p.dtb(phys) {
                    Ok(a) => a,
                    Err(_) => {
                        proof {
                            assert(false);
                        }
                        return vstd::pervasive::unreached();
                    },
                };
                let parch = match p.type_arch(phys) {
                    Ok(a) => a,
                    Err(_) => {
                        proof {
                            assert(false);
                        }
                        return vstd::pervasive::unreached();
                    },
                };
                proof {
                    assert forall|x: u64| (#[trigger] clean_dtb(x)) % 4096 == 0 by {
                        assert((x & 0xffff_ffff_ffff_f000) % 4096 == 0) by (bit_vector);
                    }
                    assert(dtb.0 % 4096 == 0);
                }
                let ctx = VirtualMemoryContext::with_proc_arch(
                    p.win.start_block.arch,
                    parch,
                    dtb,
                );
                if first.is_null() {
                    self.state = ModuleIterState::Done;
                    return None;
                }
                let nx = match ctx.virt_read_addr(phys, first) {
                    Ok(v) => v,
                    Err(_) => {
                        self.state = ModuleIterState::Done;
                        return None;
                    },
                };
                let cur = if nx.0 == first.0 {
                    Address(0)
                } else {
                    nx
                };
                self.state = ModuleIterState::Running { ctx, first, cur };
                Some(first)
            },
            ModuleIterState::Running { ctx, first, cur } => {
                if cur.is_null() {
                    self.state = ModuleIterState::Done;
                    return None;
                }
                let nx = match ctx.virt_read_addr(phys, cur) {
                    Ok(v) => v,
                    Err(_) => {
                        self.state = ModuleIterState::Done;
                        return None;
                    },
                };
                let cur2 = if nx.0 == first.0 {
                    Address(0)
                } else {
                    nx
                };
                self.state = ModuleIterState::Running { ctx, first, cur: cur2 };
                Some(cur)
            },
        }
    }
}

} // verus!
