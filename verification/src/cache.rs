//! The page cache: time-validated one-page entries with per-tag
//! admission, and a cached composition over the physical provider.

use vstd::prelude::*;

use crate::phys::PhysicalMemory;
use crate::types::Address;
use crate::types::Error;
use crate::types::ErrorKind;
use crate::types::Length;
use crate::types::PageType;

verus! {

/// What one lookup hands back: whether the entry is current, the page
/// base it covers, and one page of bytes (the cached bytes when valid, a
/// placeholder to fill otherwise).
pub struct CacheEntry {
    pub valid: bool,
    pub address: Address,
    pub buf: Vec<u8>,
}

impl CacheEntry {
    pub fn with(valid: bool, address: Address, buf: Vec<u8>) -> (r: CacheEntry)
        ensures
            r.valid == valid,
            r.address == address,
            r.buf == buf,
    {
        CacheEntry { valid, address, buf }
    }

    pub fn is_valid(&self) -> (r: bool)
        ensures
            r == self.valid,
    {
        self.valid
    }

    pub fn address(&self) -> (r: Address)
        ensures
            r == self.address,
    {
        self.address
    }
}

/// The abstract state of one cached page.
pub struct CacheLine {
    pub valid: bool,
    pub stamp: u64,
    pub tag: PageType,
    pub bytes: Seq<u8>,
}

/// Whether a cached line may still be served at `now_ms`: it must be
/// marked valid and be no older than the time-to-live.
pub open spec fn line_fresh(l: CacheLine, ttl_ms: u64, now_ms: u64) -> bool {
    l.valid && now_ms <= l.stamp + ttl_ms
}

/// A page cache: physical-page-aligned addresses mapped to one-page
/// entries, validated by a time-to-live rather than by use counts, with
/// per-tag admission.
pub trait PageCache: Sized {
    /// The cache's standing invariant.
    spec fn inv(&self) -> bool;

    /// The configured time-to-live, in milliseconds.
    spec fn ttl(&self) -> u64;

    /// Whether pages carrying `tag` are admitted.
    spec fn admits(&self, tag: PageType) -> bool;

    /// The line stored for a page base, if any.
    spec fn line(&self, page: u64) -> Option<CacheLine>;

    /// Whether a line for `page` could be stored at `now_ms` without
    /// evicting a fresh one.
    spec fn can_store(&self, page: u64, now_ms: u64) -> bool;

    fn page_size(&self) -> (r: Length)
        requires
            self.inv(),
        ensures
            r.0 == 4096,
    ;

    /// Toggle admission of one page-type tag.
    fn cached_page_type(&mut self, tag: PageType) -> (r: Result<(), Error>)
        requires
            old(self).inv(),
        ensures
            final(self).inv(),
            r is Ok,
            final(self).admits(tag) == !old(self).admits(tag),
            forall|t: PageType| t != tag
                ==> final(self).admits(t) == old(self).admits(t),
            forall|p: u64| final(self).line(p) == old(self).line(p),
            final(self).ttl() == old(self).ttl(),
    ;

    /// Look up the page containing `addr`.  The entry is valid exactly
    /// when a line for that page exists, is marked valid, and its
    /// time-to-live has not run out; a valid entry carries the line's
    /// bytes.
    fn cached_page(&mut self, addr: Address, now_ms: u64) -> (r: CacheEntry)
        requires
            old(self).inv(),
        ensures
            *final(self) == *old(self),
            r.address.0 == addr.0 - addr.0 % 4096,
            r.buf@.len() == 4096,
            r.valid == (old(self).line((addr.0 - addr.0 % 4096) as u64) matches Some(l)
                && line_fresh(l, old(self).ttl(), now_ms)),
            old(self).line((addr.0 - addr.0 % 4096) as u64) matches Some(l)
                ==> r.buf@ == l.bytes,
            old(self).line((addr.0 - addr.0 % 4096) as u64) is None
                ==> r.buf@ == Seq::new(4096nat, |i: int| 0u8),
    ;

    /// Store one freshly read page, stamped `now_ms`.  A tag that is not
    /// admitted stores nothing; a fresh line is never evicted for a new
    /// page.
    fn validate_page(&mut self, addr: Address, page_type: PageType, data: Vec<u8>, now_ms: u64)
        requires
            old(self).inv(),
            data@.len() == 4096,
            addr.0 % 4096 == 0,
        ensures
            final(self).inv(),
            final(self).ttl() == old(self).ttl(),
            forall|t: PageType| final(self).admits(t) == old(self).admits(t),
            old(self).admits(page_type) && old(self).can_store(addr.0, now_ms)
                ==> (final(self).line(addr.0) matches Some(l) && l == (CacheLine {
                    valid: true,
                    stamp: now_ms,
                    tag: page_type,
                    bytes: data@,
                })),
            !(old(self).admits(page_type) && old(self).can_store(addr.0, now_ms))
                ==> *final(self) == *old(self),
            forall|p: u64| p != addr.0 ==> (final(self).line(p) == old(self).line(p)
                || (final(self).line(p) is None && !(old(self).line(p) matches Some(l)
                    && line_fresh(l, old(self).ttl(), now_ms)))),
    ;

    /// Clear the validity bit of the page containing `addr` at once; the
    /// line's bytes and stamp stay, every other page stays untouched.
    fn invalidate_page(&mut self, addr: Address, page_type: PageType)
        requires
            old(self).inv(),
        ensures
            final(self).inv(),
            final(self).ttl() == old(self).ttl(),
            forall|t: PageType| final(self).admits(t) == old(self).admits(t),
            final(self).line((addr.0 - addr.0 % 4096) as u64) == match old(self).line(
                (addr.0 - addr.0 % 4096) as u64,
            ) {
                Some(l) => Some(CacheLine { valid: false, ..l }),
                None => None::<CacheLine>,
            },
            forall|p: u64| p != (addr.0 - addr.0 % 4096) as u64
                ==> final(self).line(p) == old(self).line(p),
    ;
}

/// One slot's bookkeeping; the page bytes live in a parallel vector.
#[derive(Clone, Copy, Debug, PartialEq, Eq, Structural)]
pub struct SlotMeta {
    pub page: u64,
    pub tag: PageType,
    pub valid: bool,
    pub stamp: u64,
}

/// The timed page cache: fixed capacity, per-tag admission, and a
/// time-to-live bounding how stale a served page can be — the right
/// trade for introspection of a target that mutates underneath.
pub struct TimedCache {
    metas: Vec<SlotMeta>,
    datas: Vec<Vec<u8>>,
    ttl_ms: u64,
    capacity: usize,
    admit_mask: u8,
}

/// The admission bit a tag occupies.
pub open spec fn spec_tag_bit(tag: PageType) -> u8 {
    match tag {
        PageType::Code => 1,
        PageType::ReadOnly => 2,
        PageType::Writeable => 4,
        PageType::Stack => 8,
        PageType::Bufferable => 16,
    }
}

#[verifier::when_used_as_spec(spec_tag_bit)]
fn tag_bit(tag: PageType) -> (r: u8)
    ensures
        r == spec_tag_bit(tag),
{
    match tag {
        PageType::Code => 1,
        PageType::ReadOnly => 2,
        PageType::Writeable => 4,
        PageType::Stack => 8,
        PageType::Bufferable => 16,
    }
}

impl TimedCache {
    /// A cache for up to `capacity` pages, serving entries for `ttl_ms`
    /// milliseconds after validation; every tag starts admitted.
    pub fn with(capacity: usize, ttl_ms: u64) -> (r: TimedCache)
        ensures
            r.inv(),
            r.ttl() == ttl_ms,
            forall|t: PageType| r.admits(t),
            forall|p: u64| r.line(p) is None,
            forall|p: u64, now: u64| r.can_store(p, now),
    {
        let r = TimedCache {
            metas: Vec::new(),
            datas: Vec::new(),
            ttl_ms,
            capacity: if capacity == 0 {
                1
            } else {
                capacity
            },
            admit_mask: 0x1f,
        };
        proof {
            assert(forall|t: PageType| 0x1fu8 & spec_tag_bit(t) != 0) by {
                assert(0x1fu8 & 1 != 0 && 0x1fu8 & 2 != 0 && 0x1fu8 & 4 != 0
                    && 0x1fu8 & 8 != 0 && 0x1fu8 & 16 != 0) by (bit_vector);
            }
        }
        r
    }

    /// Where the slot for `page` sits, if one does.
    fn find_slot(&self, page: u64) -> (r: Option<usize>)
        requires
            self.inv(),
        ensures
            r matches Some(i) ==> i < self.metas@.len() && self.metas@[i as int].page == page,
            r is None ==> forall|i: int| 0 <= i < self.metas@.len()
                ==> self.metas@[i].page != page,
            r is Some == (self.line(page) is Some),
            r matches Some(i) ==> self.line(page) == Some(CacheLine {
                valid: self.metas@[i as int].valid,
                stamp: self.metas@[i as int].stamp,
                tag: self.metas@[i as int].tag,
                bytes: self.datas@[i as int]@,
            }),
    {
        let mut i: usize = 0;
        while i < self.metas.len()
            invariant
                self.inv(),
                i <= self.metas@.len(),
                forall|j: int| 0 <= j < i ==> self.metas@[j].page != page,
            decreases self.metas@.len() - i,
        {
            if self.metas[i].page == page {
                proof {
                    self.lemma_line_at(i as int);
                }
                return Some(i);
            }
            i = i + 1;
        }
        None
    }

    /// With distinct pages, the slot found at `i` is the one `line`
    /// describes.
    proof fn lemma_line_at(&self, i: int)
        requires
            self.inv(),
            0 <= i < self.metas@.len(),
        ensures
            self.line(self.metas@[i].page) == Some(CacheLine {
                valid: self.metas@[i].valid,
                stamp: self.metas@[i].stamp,
                tag: self.metas@[i].tag,
                bytes: self.datas@[i]@,
            }),
    {
        let page = self.metas@[i].page;
        assert(exists|k: int| 0 <= k < self.metas@.len() && self.metas@[k].page == page);
        let k = choose|k: int| 0 <= k < self.metas@.len() && self.metas@[k].page == page;
        assert(k == i);
    }
}

impl PageCache for TimedCache {
    closed spec fn inv(&self) -> bool {
        &&& self.metas@.len() == self.datas@.len()
        &&& self.metas@.len() <= self.capacity
        &&& self.capacity >= 1
        &&& forall|i: int, j: int| 0 <= i < j < self.metas@.len()
            ==> (#[trigger] self.metas@[i]).page != (#[trigger] self.metas@[j]).page
        &&& forall|i: int| 0 <= i < self.datas@.len()
            ==> (#[trigger] self.datas@[i])@.len() == 4096
    }

    closed spec fn ttl(&self) -> u64 {
        self.ttl_ms
    }

    closed spec fn admits(&self, tag: PageType) -> bool {
        self.admit_mask & spec_tag_bit(tag) != 0
    }

    closed spec fn line(&self, page: u64) -> Option<CacheLine> {
        if exists|i: int| 0 <= i < self.metas@.len()
            && (#[trigger] self.metas@[i]).page == page {
            let i = choose|i: int| 0 <= i < self.metas@.len() && self.metas@[i].page == page;
            Some(CacheLine {
                valid: self.metas@[i].valid,
                stamp: self.metas@[i].stamp,
                tag: self.metas@[i].tag,
                bytes: self.datas@[i]@,
            })
        } else {
            None
        }
    }

    closed spec fn can_store(&self, page: u64, now_ms: u64) -> bool {
        ||| self.line(page) is Some
        ||| self.metas@.len() < self.capacity
        ||| exists|i: int| 0 <= i < self.metas@.len() && !line_fresh(
            CacheLine {
                valid: (#[trigger] self.metas@[i]).valid,
                stamp: self.metas@[i].stamp,
                tag: self.metas@[i].tag,
                bytes: self.datas@[i]@,
            },
            self.ttl_ms,
            now_ms,
        )
    }

    fn page_size(&self) -> (r: Length) {
        Length(4096)
    }

    fn cached_page_type(&mut self, tag: PageType) -> (r: Result<(), Error>) {
        let b = tag_bit(tag);
        let ghost m0 = self.admit_mask;
        self.admit_mask = self.admit_mask ^ b;
        proof {
            let m = self.admit_mask;
            assert forall|t: PageType| t != tag implies
                ((m & spec_tag_bit(t) != 0) == (m0 & spec_tag_bit(t) != 0)) by {
                let tb = spec_tag_bit(t);
                assert(tb != b);
                assert(((m0 ^ b) & tb != 0) == (m0 & tb != 0)) by (bit_vector)
                    requires
                        tb != b,
                        (b == 1 || b == 2 || b == 4 || b == 8 || b == 16),
                        (tb == 1 || tb == 2 || tb == 4 || tb == 8 || tb == 16),
                        m == m0 ^ b,
                ;
            }
            assert(((m0 ^ b) & b != 0) == (m0 & b == 0)) by (bit_vector)
                requires
                    (b == 1 || b == 2 || b == 4 || b == 8 || b == 16),
            ;
        }
        Ok(())
    }

    fn cached_page(&mut self, addr: Address, now_ms: u64) -> (r: CacheEntry) {
        let page = addr.align_down(4096);
        match self.find_slot(page.0) {
            Some(i) => {
                let m = self.metas[i];
                let fresh = m.valid && now_ms <= m.stamp.saturating_add(self.ttl_ms);
                let buf = self.datas[i].clone();
                proof {
                    assert(buf@ == self.datas@[i as int]@);
                }
                CacheEntry { valid: fresh, address: page, buf }
            },
            None => {
                let mut buf: Vec<u8> = Vec::new();
                let mut k: usize = 0;
                while k < 4096
                    invariant
                        k <= 4096,
                        buf@ =~= Seq::new(k as nat, |i: int| 0u8),
                    decreases 4096 - k,
                {
                    buf.push(0u8);
                    k = k + 1;
                }
                proof {
                    assert(buf@ =~= Seq::new(4096nat, |i: int| 0u8));
                }
                CacheEntry { valid: false, address: page, buf }
            },
        }
    }

    fn validate_page(&mut self, addr: Address, page_type: PageType, data: Vec<u8>, now_ms: u64) {
        let b = tag_bit(page_type);
        if self.admit_mask & b == 0 {
            return ;
        }
        let meta = SlotMeta { page: addr.0, tag: page_type, valid: true, stamp: now_ms };
        match self.find_slot(addr.0) {
            Some(i) => {
                self.metas[i] = meta;
                self.datas[i] = data;
                proof {
                    assert forall|k: int| 0 <= k < self.metas@.len() && k != i as int
                        implies (#[trigger] self.metas@[k]).page
                            != self.metas@[i as int].page by {
                        assert(old(self).metas@[k].page != old(self).metas@[i as int].page);
                    }
                    self.lemma_inv_after_set(*old(self), i as int);
                    self.lemma_line_at(i as int);
                    assert forall|p: u64| p != addr.0 implies self.line(p) == old(self).line(p)
                        by {
                        self.lemma_line_unchanged(*old(self), p, i as int);
                    }
                }
            },
            None => {
                if self.metas.len() < self.capacity {
                    self.metas.push(meta);
                    self.datas.push(data);
                    proof {
                        let n = self.metas@.len() - 1;
                        assert(self.metas@[n].page == addr.0);
                        self.lemma_inv_after_push(*old(self));
                        self.lemma_line_at(n);
                        assert forall|p: u64| p != addr.0 implies self.line(p)
                            == old(self).line(p) by {
                            self.lemma_line_push(*old(self), p);
                        }
                    }
                } else {
                    // Evict the first slot that is no longer fresh; if
                    // every slot is fresh the page is not admitted now.
                    let mut i: usize = 0;
                    let n = self.metas.len();
                    while i < n
                        invariant
                            self.inv(),
                            self == old(self),
                            meta == (SlotMeta {
                                page: addr.0,
                                tag: page_type,
                                valid: true,
                                stamp: now_ms,
                            }),
                            data@.len() == 4096,
                            self.admits(page_type),
                            n == self.metas@.len(),
                            n == self.capacity,
                            i <= n,
                            forall|j: int| 0 <= j < i ==> line_fresh(
                                CacheLine {
                                    valid: (#[trigger] self.metas@[j]).valid,
                                    stamp: self.metas@[j].stamp,
                                    tag: self.metas@[j].tag,
                                    bytes: self.datas@[j]@,
                                },
                                self.ttl_ms,
                                now_ms,
                            ),
                            forall|j: int| 0 <= j < self.metas@.len()
                                ==> (#[trigger] self.metas@[j]).page != addr.0,
                        decreases n - i,
                    {
                        let m = self.metas[i];
                        let fresh = m.valid && now_ms <= m.stamp.saturating_add(self.ttl_ms);
                        if !fresh {
                            let ghost evicted = m.page;
                            self.metas[i] = meta;
                            self.datas[i] = data;
                            proof {
                                assert forall|k: int| 0 <= k < self.metas@.len()
                                    && k != i as int implies (#[trigger] self.metas@[k]).page
                                        != self.metas@[i as int].page by {
                                    assert(old(self).metas@[k].page != addr.0);
                                }
                                self.lemma_inv_after_set(*old(self), i as int);
                                self.lemma_line_at(i as int);
                                assert forall|p: u64| p != addr.0 implies (self.line(p)
                                    == old(self).line(p) || (self.line(p) is None
                                    && !(old(self).line(p) matches Some(l)
                                        && line_fresh(l, old(self).ttl(), now_ms)))) by {
                                    if p == evicted {
                                        old(self).lemma_line_at(i as int);
                                        assert forall|k: int| 0 <= k < self.metas@.len()
                                            implies (#[trigger] self.metas@[k]).page != p by {
                                            if k != i {
                                                assert(old(self).metas@[k].page
                                                    == self.metas@[k].page);
                                            }
                                        }
                                    } else {
                                        self.lemma_line_unchanged(*old(self), p, i as int);
                                    }
                                }
                            }
                            return ;
                        }
                        i = i + 1;
                    }
                }
            },
        }
    }

    fn invalidate_page(&mut self, addr: Address, page_type: PageType) {
        let page = addr.align_down(4096);
        match self.find_slot(page.0) {
            Some(i) => {
                let m = self.metas[i];
                self.metas[i] = SlotMeta { valid: false, ..m };
                proof {
                    assert forall|k: int| 0 <= k < self.metas@.len() && k != i as int
                        implies (#[trigger] self.metas@[k]).page
                            != self.metas@[i as int].page by {
                        assert(old(self).metas@[k].page != old(self).metas@[i as int].page);
                    }
                    self.lemma_inv_after_set(*old(self), i as int);
                    self.lemma_line_at(i as int);
                    assert forall|p: u64| p != page.0 implies self.line(p) == old(self).line(p)
                        by {
                        self.lemma_line_unchanged(*old(self), p, i as int);
                    }
                }
            },
            None => {},
        }
    }
}

impl TimedCache {
    /// The invariant survives overwriting one slot, provided the new
    /// page collides with no other slot's.
    proof fn lemma_inv_after_set(&self, pre: TimedCache, i: int)
        requires
            pre.inv(),
            self.metas@.len() == pre.metas@.len(),
            self.datas@.len() == pre.datas@.len(),
            self.capacity == pre.capacity,
            self.ttl_ms == pre.ttl_ms,
            0 <= i < self.metas@.len(),
            forall|k: int| 0 <= k < self.metas@.len() && k != i
                ==> (#[trigger] self.metas@[k]) == pre.metas@[k]
                    && self.datas@[k] == pre.datas@[k],
            self.datas@[i]@.len() == 4096,
            forall|k: int| 0 <= k < self.metas@.len() && k != i
                ==> (#[trigger] self.metas@[k]).page != self.metas@[i].page,
        ensures
            self.inv(),
    {
        assert forall|a: int, b: int| 0 <= a < b < self.metas@.len()
            implies (#[trigger] self.metas@[a]).page != (#[trigger] self.metas@[b]).page by {
            if a != i && b != i {
                assert(pre.metas@[a].page != pre.metas@[b].page);
            }
        }
        assert forall|k: int| 0 <= k < self.datas@.len()
            implies (#[trigger] self.datas@[k])@.len() == 4096 by {
            if k != i {
                assert(self.metas@[k] == pre.metas@[k]);
                assert(self.datas@[k] == pre.datas@[k]);
                assert(pre.datas@[k]@.len() == 4096);
            }
        }
    }

    /// The invariant survives appending a slot for a page no other slot
    /// holds.
    proof fn lemma_inv_after_push(&self, pre: TimedCache)
        requires
            pre.inv(),
            self.metas@.len() == pre.metas@.len() + 1,
            self.datas@.len() == pre.datas@.len() + 1,
            self.metas@.len() <= self.capacity,
            self.capacity == pre.capacity,
            self.ttl_ms == pre.ttl_ms,
            forall|k: int| 0 <= k < pre.metas@.len()
                ==> (#[trigger] self.metas@[k]) == pre.metas@[k]
                    && self.datas@[k] == pre.datas@[k],
            self.datas@[self.datas@.len() - 1]@.len() == 4096,
            forall|k: int| 0 <= k < pre.metas@.len()
                ==> (#[trigger] pre.metas@[k]).page
                    != self.metas@[self.metas@.len() - 1].page,
        ensures
            self.inv(),
    {
        let n = self.metas@.len() - 1;
        assert forall|a: int, b: int| 0 <= a < b < self.metas@.len()
            implies (#[trigger] self.metas@[a]).page != (#[trigger] self.metas@[b]).page by {
            if b < n {
                assert(pre.metas@[a].page != pre.metas@[b].page);
            } else {
                assert(self.metas@[a] == pre.metas@[a]);
            }
        }
        assert forall|k: int| 0 <= k < self.datas@.len()
            implies (#[trigger] self.datas@[k])@.len() == 4096 by {
            if k < n {
                assert(self.metas@[k] == pre.metas@[k]);
                assert(self.datas@[k] == pre.datas@[k]);
                assert(pre.datas@[k]@.len() == 4096);
            }
        }
    }

    /// When only slot `i` changed and it neither was nor became `p`'s
    /// slot, the line for `p` is untouched.
    proof fn lemma_line_unchanged(&self, pre: TimedCache, p: u64, i: int)
        requires
            self.inv(),
            pre.inv(),
            self.metas@.len() == pre.metas@.len(),
            0 <= i < self.metas@.len(),
            forall|k: int| 0 <= k < self.metas@.len() && k != i
                ==> (#[trigger] self.metas@[k]) == pre.metas@[k]
                    && self.datas@[k] == pre.datas@[k],
            self.metas@[i].page != p,
            pre.metas@[i].page != p,
        ensures
            self.line(p) == pre.line(p),
    {
        if exists|k: int| 0 <= k < self.metas@.len() && (#[trigger] self.metas@[k]).page == p {
            let k = choose|k: int| 0 <= k < self.metas@.len()
                && (#[trigger] self.metas@[k]).page == p;
            assert(pre.metas@[k].page == p);
            pre.lemma_line_at(k);
            self.lemma_line_at(k);
        } else {
            if exists|k: int| 0 <= k < pre.metas@.len()
                && (#[trigger] pre.metas@[k]).page == p {
                let k = choose|k: int| 0 <= k < pre.metas@.len()
                    && (#[trigger] pre.metas@[k]).page == p;
                assert(self.metas@[k].page == p);
            }
        }
    }

    /// When a new slot was pushed for another page, the line for `p` is
    /// untouched.
    proof fn lemma_line_push(&self, pre: TimedCache, p: u64)
        requires
            self.inv(),
            pre.inv(),
            self.metas@.len() == pre.metas@.len() + 1,
            forall|k: int| 0 <= k < pre.metas@.len()
                ==> (#[trigger] self.metas@[k]) == pre.metas@[k]
                    && self.datas@[k] == pre.datas@[k],
            self.metas@[self.metas@.len() - 1].page != p,
        ensures
            self.line(p) == pre.line(p),
    {
        if exists|k: int| 0 <= k < self.metas@.len() && (#[trigger] self.metas@[k]).page == p {
            let k = choose|k: int| 0 <= k < self.metas@.len()
                && (#[trigger] self.metas@[k]).page == p;
            assert(k < pre.metas@.len());
            assert(pre.metas@[k].page == p);
            pre.lemma_line_at(k);
            self.lemma_line_at(k);
        } else {
            if exists|k: int| 0 <= k < pre.metas@.len()
                && (#[trigger] pre.metas@[k]).page == p {
                let k = choose|k: int| 0 <= k < pre.metas@.len()
                    && (#[trigger] pre.metas@[k]).page == p;
                assert(self.metas@[k].page == p);
            }
        }
    }
}

/// After a page is invalidated, the very next lookup of any address in it
/// reports the entry invalid.
pub proof fn lemma_invalidate_then_lookup(
    pre: Option<CacheLine>,
    post: Option<CacheLine>,
    ttl_ms: u64,
    now_ms: u64,
)
    requires
        post == match pre {
            Some(l) => Some(CacheLine { valid: false, ..l }),
            None => None::<CacheLine>,
        },
    ensures
        !(post matches Some(l) && line_fresh(l, ttl_ms, now_ms)),
{
}

/// With time-to-live T, a line validated at time `stamp` is reported
/// invalid by any lookup later than `stamp + T`.
pub proof fn lemma_ttl_expiry(l: CacheLine, ttl_ms: u64, now_ms: u64)
    requires
        now_ms > l.stamp + ttl_ms,
    ensures
        !line_fresh(l, ttl_ms, now_ms),
{
}

/// A page cache composed over the physical provider: reads are served
/// from fresh cache lines without touching the provider, and refill the
/// cache otherwise.
pub struct CachedMemoryAccess {
    pub cache: TimedCache,
}

impl CachedMemoryAccess {
    pub fn with(cache: TimedCache) -> (r: CachedMemoryAccess)
        ensures
            r.cache == cache,
    {
        CachedMemoryAccess { cache }
    }

    /// Read the whole physical page containing `addr`.  A fresh cached
    /// line is served as it stands — the provider is not consulted, so
    /// its bytes may lag the target by up to the time-to-live.  Otherwise
    /// the page is read from the provider and, when readable, stamped
    /// into the cache.
    pub fn read_page(
        &mut self,
        phys: &mut PhysicalMemory,
        addr: Address,
        tag: PageType,
        now_ms: u64,
    ) -> (r: Result<Vec<u8>, Error>)
        requires
            old(self).cache.inv(),
        ensures
            final(self).cache.inv(),
            old(self).cache.line((addr.0 - addr.0 % 4096) as u64) matches Some(l)
                ==> line_fresh(l, old(self).cache.ttl(), now_ms) ==> {
                &&& (r matches Ok(b) && b@ == l.bytes)
                &&& *final(phys) == *old(phys)
                &&& *final(self) == *old(self)
            },
            !(old(self).cache.line((addr.0 - addr.0 % 4096) as u64) matches Some(l)
                && line_fresh(l, old(self).cache.ttl(), now_ms)) ==> {
                &&& final(phys)@ == old(phys)@
                &&& (r is Ok) == ((addr.0 - addr.0 % 4096) as u64 + 4096
                    <= old(phys)@.len())
                &&& r matches Ok(b) ==> b@ == old(phys)@.subrange(
                    addr.0 - addr.0 % 4096,
                    addr.0 - addr.0 % 4096 + 4096,
                )
                &&& r matches Err(e) ==> e.kind == ErrorKind::Connector
            },
    {
        let page = addr.align_down(4096);
        let entry = self.cache.cached_page(page, now_ms);
        proof {
            assert(page.0 - page.0 % 4096 == page.0);
            assert((addr.0 - addr.0 % 4096) as u64 == page.0);
        }
        if entry.is_valid() {
            return Ok(entry.buf);
        }
        match phys.phys_read(page.0, 4096) {
            Some(fresh) => {
                let copy = fresh.clone();
                proof {
                    assert(copy@ == fresh@);
                }
                self.cache.validate_page(page, tag, copy, now_ms);
                Ok(fresh)
            },
            None => Err(Error::new(ErrorKind::Connector, "physical page not readable")),
        }
    }
}

} // verus!
