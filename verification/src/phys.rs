//! The physical-memory provider: scatter/gather byte access to a raw
//! physical window, with a counter of provider accesses.

use vstd::prelude::*;

verus! {

/// The saturating count the provider's read counter reaches after `n` more
/// scatter items.
pub open spec fn count_after(c: u64, n: int) -> u64 {
    if c + n > u64::MAX {
        u64::MAX
    } else {
        (c + n) as u64
    }
}

/// A physical-memory provider backed by an owned byte buffer.  It serves
/// scatter/gather reads and writes over physical address ranges and counts
/// how many scatter items it has been asked to read, so that callers can
/// state and check how many physical accesses an operation costs.
pub struct PhysicalMemory {
    buf: Vec<u8>,
    reads: u64,
}

impl PhysicalMemory {
    /// The provider's contents: one byte per physical address.
    pub closed spec fn view(&self) -> Seq<u8> {
        self.buf@
    }

    /// How many scatter read items the provider has served or refused.
    pub closed spec fn spec_read_count(&self) -> u64 {
        self.reads
    }

    pub fn read_count(&self) -> (r: u64)
        ensures
            r == self.spec_read_count(),
    {
        self.reads
    }

    /// A provider of `size` zeroed bytes.
    pub fn with_size(size: usize) -> (r: PhysicalMemory)
        ensures
            r@ == Seq::new(size as nat, |i: int| 0u8),
            r.spec_read_count() == 0,
    {
        let mut buf: Vec<u8> = Vec::new();
        while buf.len() < size
            invariant
                buf@ =~= Seq::new(buf@.len(), |i: int| 0u8),
                buf@.len() <= size,
            decreases size - buf@.len(),
        {
            buf.push(0u8);
        }
        proof {
            assert(buf@ =~= Seq::new(size as nat, |i: int| 0u8));
        }
        PhysicalMemory { buf, reads: 0 }
    }

    /// A provider holding the given bytes.
    pub fn from_bytes(buf: Vec<u8>) -> (r: PhysicalMemory)
        ensures
            r@ == buf@,
            r.spec_read_count() == 0,
    {
        PhysicalMemory { buf, reads: 0 }
    }

    /// The size of the physical window, in bytes.
    pub fn size(&self) -> (r: usize)
        ensures
            r == self@.len(),
    {
        self.buf.len()
    }

    /// Total size and the highest accessible address, in bytes.
    pub fn metadata(&self) -> (r: (u64, u64))
        requires
            self@.len() <= u64::MAX,
        ensures
            r.0 == self@.len(),
            r.1 == if self@.len() == 0 { 0u64 } else { (self@.len() - 1) as u64 },
    {
        let size = self.buf.len() as u64;
        if size == 0 {
            (0, 0)
        } else {
            (size, size - 1)
        }
    }

    /// One scatter read item: the `len` bytes at physical address `addr`,
    /// or `None` when the range lies outside the provider.
    pub fn phys_read(&mut self, addr: u64, len: usize) -> (r: Option<Vec<u8>>)
        ensures
            final(self)@ == old(self)@,
            final(self).spec_read_count() == count_after(old(self).spec_read_count(), 1),
            addr + len <= old(self)@.len()
                ==> (r matches Some(b) && b@ == old(self)@.subrange(addr as int, addr + len)),
            addr + len > old(self)@.len() ==> r is None,
    {
        self.reads = self.reads.saturating_add(1);
        let end128: u128 = addr as u128 + len as u128;
        if end128 > self.buf.len() as u128 {
            return None;
        }
        let start: usize = addr as usize;
        let buf_len: usize = self.buf.len();
        let mut out: Vec<u8> = Vec::new();
        let mut i: usize = 0;
        while i < len
            invariant
                buf_len == self.buf@.len(),
                start + len <= self.buf@.len(),
                start == addr,
                i <= len,
                out@ =~= self.buf@.subrange(start as int, start + i),
            decreases len - i,
        {
            out.push(self.buf[start + i]);
            i = i + 1;
        }
        proof {
            assert(out@ =~= self@.subrange(addr as int, addr + len));
        }
        Some(out)
    }

    /// A scatter read: each item is a physical range; each result is the
    /// bytes of that range, or `None` where the range lies outside the
    /// provider.  Every item counts as one physical access.
    pub fn phys_read_raw_list(&mut self, items: &Vec<(u64, usize)>) -> (r: Vec<Option<Vec<u8>>>)
        ensures
            final(self)@ == old(self)@,
            final(self).spec_read_count()
                == count_after(old(self).spec_read_count(), items@.len() as int),
            r@.len() == items@.len(),
            forall|i: int| 0 <= i < items@.len() ==> item_matches(
                #[trigger] r@[i],
                read_item(old(self)@, items@[i].0, items@[i].1 as int),
            ),
    {
        let mut r: Vec<Option<Vec<u8>>> = Vec::new();
        let mut i: usize = 0;
        while i < items.len()
            invariant
                i <= items@.len(),
                self@ == old(self)@,
                self.spec_read_count() == count_after(old(self).spec_read_count(), i as int),
                r@.len() == i,
                forall|j: int| 0 <= j < i ==> item_matches(
                    #[trigger] r@[j],
                    read_item(old(self)@, items@[j].0, items@[j].1 as int),
                ),
            decreases items@.len() - i,
        {
            let (addr, len) = items[i];
            let one = self.phys_read(addr, len);
            proof {
                if addr + len <= old(self)@.len() {
                    assert(one matches Some(b)
                        && b@ == old(self)@.subrange(addr as int, addr + len));
                }
            }
            r.push(one);
            i = i + 1;
        }
        r
    }

    /// One scatter write item: stores `data` at physical address `addr`;
    /// fails, leaving the contents unchanged, when the range lies outside
    /// the provider.
    pub fn phys_write(&mut self, addr: u64, data: &[u8]) -> (r: bool)
        ensures
            final(self).spec_read_count() == old(self).spec_read_count(),
            r == (addr + data@.len() <= old(self)@.len()),
            r ==> final(self)@ == splice(old(self)@, addr as int, data@),
            !r ==> final(self)@ == old(self)@,
    {
        let end128: u128 = addr as u128 + data.len() as u128;
        if end128 > self.buf.len() as u128 {
            return false;
        }
        let start: usize = addr as usize;
        let buf_len: usize = self.buf.len();
        let mut i: usize = 0;
        while i < data.len()
            invariant
                buf_len == self.buf@.len(),
                start + data@.len() <= self.buf@.len(),
                start == addr,
                i <= data@.len(),
                self.buf@.len() == old(self)@.len(),
                self.reads == old(self).spec_read_count(),
                forall|k: int| 0 <= k < start ==> self.buf@[k] == old(self)@[k],
                forall|k: int| 0 <= k < i ==> self.buf@[start + k] == data@[k],
                forall|k: int| start + data@.len() <= k < self.buf@.len()
                    ==> self.buf@[k] == old(self)@[k],
            decreases data@.len() - i,
        {
            let b = data[i];
            self.buf[start + i] = b;
            i = i + 1;
        }
        proof {
            assert(self@ =~= splice(old(self)@, addr as int, data@));
        }
        true
    }
}

/// Whether an owned scatter-read result carries exactly the bytes that the
/// model says the item returns.
pub open spec fn item_matches(r: Option<Vec<u8>>, s: Option<Seq<u8>>) -> bool {
    match (r, s) {
        (Some(b), Some(x)) => b@ == x,
        (None, None) => true,
        _ => false,
    }
}

/// What one scatter read item returns over contents `mem`.
pub open spec fn read_item(mem: Seq<u8>, addr: u64, len: int) -> Option<Seq<u8>> {
    if addr + len <= mem.len() {
        Some(mem.subrange(addr as int, addr + len))
    } else {
        None
    }
}

/// `mem` with `data` laid over it starting at `at`.
pub open spec fn splice(mem: Seq<u8>, at: int, data: Seq<u8>) -> Seq<u8> {
    Seq::new(mem.len(), |i: int| if at <= i < at + data.len() {
        data[i - at]
    } else {
        mem[i]
    })
}

} // verus!
