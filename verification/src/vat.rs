//! The virtual-address-translation engine: a page-table walk model and
//! a batched walker that splits requests at page boundaries and reads
//! each needed table page once per round.

use vstd::prelude::*;

use crate::arch::Architecture;
use crate::arch::lemma_entry_base_aligned;
use crate::arch::lemma_va_index_in_table;
use crate::phys::PhysicalMemory;
use crate::phys::count_after;
use crate::phys::item_matches;
use crate::phys::read_item;
use vstd::bytes::spec_u32_from_le_bytes;
use vstd::bytes::spec_u64_from_le_bytes;
use vstd::bytes::u32_from_le_bytes;
use vstd::bytes::u64_from_le_bytes;
use vstd::slice::slice_subrange;

verus! {

/// Why one chunk failed to translate.
#[derive(Clone, Copy, Debug, PartialEq, Eq, Structural)]
pub enum TranslateFail {
    /// The walk is not implemented for this architecture.
    Unsupported,
    /// The virtual address lies outside the architecture's canonical range.
    NonCanonical,
    /// A page table lies outside the physical window (a bad root, or a
    /// mapping pointing past the provider).
    ReadFail,
    /// The present bit was clear at some level.
    NotPresent,
}

/// What translating one virtual address yields: its physical address, or
/// the reason the walk stopped.
#[derive(Clone, Copy, Debug, PartialEq, Eq, Structural)]
pub enum TranslateOutcome {
    Mapped(u64),
    Fail(TranslateFail),
}

/// The page-table entry stored at byte position `pos` of `mem`, read with
/// the architecture's entry width, little endian.
pub open spec fn entry_val(mem: Seq<u8>, arch: Architecture, pos: int) -> u64 {
    if arch.spec_entry_size() == 4 {
        spec_u32_from_le_bytes(mem.subrange(pos, pos + 4)) as u64
    } else {
        spec_u64_from_le_bytes(mem.subrange(pos, pos + 8))
    }
}

/// The page-table walk from the table at physical address `table`, which
/// the walk is entering at `level`.  A table is read as one whole page: if
/// the page does not fit inside the physical window the walk fails there.
pub open spec fn walk_from(
    mem: Seq<u8>,
    arch: Architecture,
    table: u64,
    level: u64,
    va: u64,
) -> TranslateOutcome
    recommends
        level < arch.spec_levels(),
    decreases arch.spec_levels() - level,
{
    if table + 4096 > mem.len() {
        TranslateOutcome::Fail(TranslateFail::ReadFail)
    } else {
        let pos = table + arch.spec_va_index(level, va) * arch.spec_entry_size();
        let e = entry_val(mem, arch, pos);
        if !arch.spec_entry_present(e) {
            TranslateOutcome::Fail(TranslateFail::NotPresent)
        } else if level + 1 == arch.spec_levels() {
            TranslateOutcome::Mapped(arch.spec_entry_base(e) | (va & 0xfff))
        } else if arch.spec_large_page_level(level) && arch.spec_entry_is_large(e) {
            TranslateOutcome::Mapped(
                arch.spec_large_base(level, e) | (va & arch.spec_large_offset_mask(level)),
            )
        } else if level + 1 < arch.spec_levels() {
            walk_from(mem, arch, arch.spec_entry_base(e), (level + 1) as u64, va)
        } else {
            TranslateOutcome::Fail(TranslateFail::NotPresent)
        }
    }
}

/// What translating `va` under the address space rooted at `dtb` yields,
/// over physical contents `mem`.
pub open spec fn translate(mem: Seq<u8>, arch: Architecture, dtb: u64, va: u64) -> TranslateOutcome {
    if !arch.spec_supported() {
        TranslateOutcome::Fail(TranslateFail::Unsupported)
    } else if !arch.spec_va_canonical(va) {
        TranslateOutcome::Fail(TranslateFail::NonCanonical)
    } else {
        walk_from(mem, arch, dtb, 0, va)
    }
}

/// How many bytes of a request starting at `va` with `len` bytes left fall
/// into the 4 KiB translation page of `va`.
pub open spec fn chunk_take(va: u64, len: u64) -> u64 {
    if len <= 4096 - va % 4096 {
        len
    } else {
        (4096 - va % 4096) as u64
    }
}

/// One request cut at every 4 KiB page boundary: the sub-ranges translate
/// independently, each within a single translation page.
pub open spec fn split_ranges(va: u64, len: u64) -> Seq<(u64, u64)>
    recommends
        va + len <= u64::MAX,
    decreases len,
{
    if len == 0 {
        Seq::empty()
    } else {
        let take = chunk_take(va, len);
        seq![(va, take)] + split_ranges((va + take) as u64, (len - take) as u64)
    }
}

/// All requests of a batch, each cut at page boundaries, in input order.
pub open spec fn split_all(reqs: Seq<(u64, u64)>) -> Seq<(u64, u64)>
    decreases reqs.len(),
{
    if reqs.len() == 0 {
        Seq::empty()
    } else {
        split_ranges(reqs[0].0, reqs[0].1) + split_all(reqs.drop_first())
    }
}

/// The virtual addresses a range covers, in order.
pub open spec fn addr_seq(va: u64, len: u64) -> Seq<u64>
    recommends
        va + len <= u64::MAX,
{
    Seq::new(len as nat, |i: int| (va + i) as u64)
}

/// The virtual addresses a list of ranges covers, in order, with
/// multiplicity.
pub open spec fn ranges_bytes(rs: Seq<(u64, u64)>) -> Seq<u64>
    decreases rs.len(),
{
    if rs.len() == 0 {
        Seq::empty()
    } else {
        addr_seq(rs[0].0, rs[0].1) + ranges_bytes(rs.drop_first())
    }
}

/// Every element of a split is non-empty, stays within one 4 KiB page,
/// and does not wrap.
pub open spec fn split_elems_wf(rs: Seq<(u64, u64)>) -> bool {
    forall|i: int| 0 <= i < rs.len() ==> {
        &&& 1 <= (#[trigger] rs[i]).1
        &&& rs[i].1 <= 4096 - rs[i].0 % 4096
        &&& rs[i].0 + rs[i].1 <= u64::MAX
    }
}

pub proof fn lemma_split_ranges_wf(va: u64, len: u64)
    requires
        va + len <= u64::MAX,
    ensures
        split_elems_wf(split_ranges(va, len)),
    decreases len,
{
    if len != 0 {
        let take = chunk_take(va, len);
        lemma_split_ranges_wf((va + take) as u64, (len - take) as u64);
        let rs = split_ranges(va, len);
        let rest = split_ranges((va + take) as u64, (len - take) as u64);
        assert forall|i: int| 0 <= i < rs.len() implies {
            &&& 1 <= (#[trigger] rs[i]).1
            &&& rs[i].1 <= 4096 - rs[i].0 % 4096
            &&& rs[i].0 + rs[i].1 <= u64::MAX
        } by {
            if i > 0 {
                assert(rs[i] == rest[i - 1]);
            }
        }
    }
}

/// Splitting loses no byte and adds none: the bytes covered by the split,
/// in order, are exactly the bytes of the original range.
pub proof fn lemma_split_ranges_complete(va: u64, len: u64)
    requires
        va + len <= u64::MAX,
    ensures
        ranges_bytes(split_ranges(va, len)) == addr_seq(va, len),
    decreases len,
{
    if len == 0 {
        assert(ranges_bytes(split_ranges(va, len)) =~= addr_seq(va, len));
    } else {
        let take = chunk_take(va, len);
        let va2 = (va + take) as u64;
        let len2 = (len - take) as u64;
        lemma_split_ranges_complete(va2, len2);
        let rs = split_ranges(va, len);
        assert(rs.drop_first() =~= split_ranges(va2, len2));
        assert(ranges_bytes(rs) == addr_seq(va, take) + ranges_bytes(split_ranges(va2, len2)));
        assert(addr_seq(va, take) + addr_seq(va2, len2) =~= addr_seq(va, len));
    }
}

/// Batch completeness: cutting every request of a batch at page boundaries
/// covers exactly the requested bytes, in order, with no overlap added and
/// none dropped.
pub proof fn lemma_batch_split_complete(reqs: Seq<(u64, u64)>)
    requires
        forall|i: int| 0 <= i < reqs.len()
            ==> (#[trigger] reqs[i]).0 + reqs[i].1 <= u64::MAX,
    ensures
        ranges_bytes(split_all(reqs)) == ranges_bytes(reqs),
    decreases reqs.len(),
{
    if reqs.len() == 0 {
        assert(ranges_bytes(split_all(reqs)) =~= ranges_bytes(reqs));
    } else {
        lemma_split_ranges_complete(reqs[0].0, reqs[0].1);
        lemma_batch_split_complete(reqs.drop_first());
        lemma_ranges_bytes_add(split_ranges(reqs[0].0, reqs[0].1), split_all(reqs.drop_first()));
        assert(ranges_bytes(split_all(reqs)) =~= ranges_bytes(reqs));
    }
}

/// `ranges_bytes` distributes over concatenation.
pub proof fn lemma_ranges_bytes_add(a: Seq<(u64, u64)>, b: Seq<(u64, u64)>)
    ensures
        ranges_bytes(a + b) == ranges_bytes(a) + ranges_bytes(b),
    decreases a.len(),
{
    if a.len() == 0 {
        assert(a + b =~= b);
        assert(ranges_bytes(a) =~= Seq::empty());
        assert(ranges_bytes(a) + ranges_bytes(b) =~= ranges_bytes(b));
    } else {
        lemma_ranges_bytes_add(a.drop_first(), b);
        assert((a + b).drop_first() =~= a.drop_first() + b);
        assert(ranges_bytes(a + b) =~= ranges_bytes(a) + ranges_bytes(b));
    }
}

/// `split_all` over one more request appends that request's split.
pub proof fn lemma_split_all_push(s: Seq<(u64, u64)>, x: (u64, u64))
    ensures
        split_all(s.push(x)) == split_all(s) + split_ranges(x.0, x.1),
    decreases s.len(),
{
    if s.len() == 0 {
        assert(s.push(x)[0] == x);
        assert(s.push(x).drop_first() =~= Seq::<(u64, u64)>::empty());
        assert(split_all(s.push(x)) == split_ranges(s.push(x)[0].0, s.push(x)[0].1)
            + split_all(s.push(x).drop_first()));
        assert(split_all(Seq::<(u64, u64)>::empty()) =~= Seq::<(u64, u64)>::empty());
        assert(split_all(s.push(x)) =~= split_ranges(x.0, x.1));
        assert(split_all(s) + split_ranges(x.0, x.1) =~= split_ranges(x.0, x.1));
    } else {
        lemma_split_all_push(s.drop_first(), x);
        assert(s.push(x).drop_first() =~= s.drop_first().push(x));
        assert(s.push(x)[0] == s[0]);
        assert(split_all(s.push(x)) =~= split_all(s) + split_ranges(x.0, x.1));
    }
}

/// One page-bounded piece of a batched translation: where it starts, how
/// many bytes it covers, and how far its walk has come.
#[derive(Clone, Copy, Debug)]
pub struct TranslationChunk {
    pub va: u64,
    pub len: u64,
    pub state: ChunkState,
}

/// Walk progress of one chunk: still descending from the given table, or
/// finished with an outcome.
#[derive(Clone, Copy, Debug)]
pub enum ChunkState {
    Walking(u64),
    Done(TranslateOutcome),
}

/// One chunk's final standing after a batched translation.
#[derive(Clone, Copy, Debug, PartialEq, Eq, Structural)]
pub struct TranslationResult {
    pub va: u64,
    pub len: u64,
    pub outcome: TranslateOutcome,
}

/// No address occurs twice.
pub open spec fn nodup(s: Seq<u64>) -> bool {
    forall|i: int, j: int| 0 <= i < j < s.len() ==> #[trigger] s[i] != #[trigger] s[j]
}

fn contains_u64(v: &Vec<u64>, x: u64) -> (r: bool)
    ensures
        r == v@.contains(x),
{
    let mut i: usize = 0;
    while i < v.len()
        invariant
            i <= v@.len(),
            forall|j: int| 0 <= j < i ==> v@[j] != x,
        decreases v@.len() - i,
    {
        if v[i] == x {
            return true;
        }
        i = i + 1;
    }
    false
}

/// Whether a chunk is still walking and needs the table page at `t` next.
pub open spec fn chunk_needs(c: TranslationChunk, t: u64) -> bool {
    match c.state {
        ChunkState::Walking(x) => x == t,
        ChunkState::Done(_) => false,
    }
}

/// The next table a single walk step descends to, or nothing when the
/// step ends the walk at this entry (a failure, a leaf, or a large
/// page).
pub open spec fn walk_step_table(
    mem: Seq<u8>,
    arch: Architecture,
    table: u64,
    level: u64,
    va: u64,
) -> Option<u64> {
    if table + 4096 > mem.len() {
        None
    } else {
        let pos = table + arch.spec_va_index(level, va) * arch.spec_entry_size();
        let e = entry_val(mem, arch, pos);
        if !arch.spec_entry_present(e) {
            None
        } else if level + 1 == arch.spec_levels() {
            None
        } else if arch.spec_large_page_level(level) && arch.spec_entry_is_large(e) {
            None
        } else if level + 1 < arch.spec_levels() {
            Some(arch.spec_entry_base(e))
        } else {
            None
        }
    }
}

/// The table page the walk of `va` still has to read before round `r`,
/// or nothing when the walk has already ended.
pub open spec fn walk_table(
    mem: Seq<u8>,
    arch: Architecture,
    dtb: u64,
    va: u64,
    r: u64,
) -> Option<u64>
    decreases r,
{
    if !arch.spec_supported() || !arch.spec_va_canonical(va) {
        None
    } else if r == 0 {
        Some(dtb)
    } else {
        match walk_table(mem, arch, dtb, va, (r - 1) as u64) {
            None => None,
            Some(t) => walk_step_table(mem, arch, t, (r - 1) as u64, va),
        }
    }
}

/// One walk round advances the walk position by one step.
proof fn lemma_walk_table_step(mem: Seq<u8>, arch: Architecture, dtb: u64, va: u64, r: u64)
    requires
        r < arch.spec_levels(),
    ensures
        walk_table(mem, arch, dtb, va, (r + 1) as u64) == match walk_table(
            mem,
            arch,
            dtb,
            va,
            r,
        ) {
            None => None::<u64>,
            Some(t) => walk_step_table(mem, arch, t, r, va),
        },
{
    assert(((r + 1) as u64 - 1) as u64 == r);
}

/// The virtual addresses of a batch's chunks.
pub open spec fn chunk_vas(rs: Seq<(u64, u64)>) -> Seq<u64> {
    Seq::new(rs.len(), |k: int| rs[k].0)
}

/// The distinct table pages the first `k` chunks need in round `r`, in
/// first-need order: a page several chunks need appears once.
pub open spec fn tables_upto(
    mem: Seq<u8>,
    arch: Architecture,
    dtb: u64,
    vas: Seq<u64>,
    r: u64,
    k: int,
) -> Seq<u64>
    decreases k,
{
    if k <= 0 {
        Seq::empty()
    } else {
        let rest = tables_upto(mem, arch, dtb, vas, r, k - 1);
        match walk_table(mem, arch, dtb, vas[k - 1], r) {
            None => rest,
            Some(t) => if rest.contains(t) {
                rest
            } else {
                rest.push(t)
            },
        }
    }
}

/// How many table pages a batch over `vas` reads from the provider in
/// its first `rounds` rounds: per round, each distinct needed page
/// counts once, however many chunks need it.
pub open spec fn table_reads(
    mem: Seq<u8>,
    arch: Architecture,
    dtb: u64,
    vas: Seq<u64>,
    rounds: u64,
) -> int
    decreases rounds,
{
    if rounds == 0 {
        0
    } else {
        table_reads(mem, arch, dtb, vas, (rounds - 1) as u64) + tables_upto(
            mem,
            arch,
            dtb,
            vas,
            (rounds - 1) as u64,
            vas.len() as int,
        ).len()
    }
}

/// Each round's reads count at least zero pages.
proof fn lemma_table_reads_nonneg(
    mem: Seq<u8>,
    arch: Architecture,
    dtb: u64,
    vas: Seq<u64>,
    rounds: u64,
)
    ensures
        table_reads(mem, arch, dtb, vas, rounds) >= 0,
    decreases rounds,
{
    if rounds != 0 {
        lemma_table_reads_nonneg(mem, arch, dtb, vas, (rounds - 1) as u64);
    }
}

/// Saturating counting composes.
proof fn lemma_count_after_add(c: u64, a: int, b: int)
    requires
        a >= 0,
        b >= 0,
    ensures
        count_after(count_after(c, a), b) == count_after(c, a + b),
{
}

fn find_u64(v: &Vec<u64>, x: u64) -> (r: usize)
    requires
        v@.contains(x),
    ensures
        r < v@.len(),
        v@[r as int] == x,
{
    let mut i: usize = 0;
    while i < v.len()
        invariant
            i <= v@.len(),
            v@.contains(x),
            forall|j: int| 0 <= j < i ==> v@[j] != x,
        decreases v@.len() - i,
    {
        if v[i] == x {
            return i;
        }
        i = i + 1;
    }
    proof {
        let w = choose|w: int| 0 <= w < v@.len() && v@[w] == x;
        assert(false);
    }
    vstd::pervasive::unreached()
}

/// Each batch request cut at every 4 KiB page boundary, in input order.
pub fn split_requests(requests: &Vec<(u64, u64)>) -> (r: Vec<(u64, u64)>)
    requires
        forall|i: int| 0 <= i < requests@.len()
            ==> (#[trigger] requests@[i]).0 + requests@[i].1 <= u64::MAX,
    ensures
        r@ == split_all(requests@),
{
    let mut r: Vec<(u64, u64)> = Vec::new();
    let mut i: usize = 0;
    while i < requests.len()
        invariant
            i <= requests@.len(),
            forall|j: int| 0 <= j < requests@.len()
                ==> (#[trigger] requests@[j]).0 + requests@[j].1 <= u64::MAX,
            r@ == split_all(requests@.take(i as int)),
        decreases requests@.len() - i,
    {
        let (va0, len0) = requests[i];
        let mut va: u64 = va0;
        let mut rem: u64 = len0;
        while rem > 0
            invariant
                va + rem <= u64::MAX,
                r@ + split_ranges(va, rem)
                    == split_all(requests@.take(i as int)) + split_ranges(va0, len0),
            decreases rem,
        {
            let rest: u64 = 4096 - va % 4096;
            let take: u64 = if rem <= rest {
                rem
            } else {
                rest
            };
            proof {
                assert(take == chunk_take(va, rem));
                assert(split_ranges(va, rem)
                    == seq![(va, take)] + split_ranges((va + take) as u64, (rem - take) as u64));
                assert(r@.push((va, take)) + split_ranges((va + take) as u64, (rem - take) as u64)
                    =~= r@ + split_ranges(va, rem));
            }
            r.push((va, take));
            va = va + take;
            rem = rem - take;
        }
        proof {
            assert(split_ranges(va, 0) =~= Seq::<(u64, u64)>::empty());
            assert(r@ =~= split_all(requests@.take(i as int)) + split_ranges(va0, len0));
            lemma_split_all_push(requests@.take(i as int), (va0, len0));
            assert(requests@.take(i as int).push((va0, len0)) =~= requests@.take(i + 1));
        }
        i = i + 1;
    }
    proof {
        assert(requests@.take(requests@.len() as int) =~= requests@);
    }
    r
}

/// The walk-progress invariant of one chunk during a batched translation:
/// a finished chunk carries exactly what the translation model says for
/// its address, and a walking chunk's remaining walk agrees with it.
pub open spec fn chunk_inv(
    mem: Seq<u8>,
    arch: Architecture,
    dtb: u64,
    c: TranslationChunk,
    round: u64,
) -> bool {
    match c.state {
        ChunkState::Walking(t) => {
            &&& arch.spec_supported()
            &&& round < arch.spec_levels()
            &&& t % 4096 == 0
            &&& walk_from(mem, arch, t, round, c.va) == translate(mem, arch, dtb, c.va)
            &&& walk_table(mem, arch, dtb, c.va, round) == Some(t)
        },
        ChunkState::Done(o) => {
            &&& o == translate(mem, arch, dtb, c.va)
            &&& walk_table(mem, arch, dtb, c.va, round) is None
        },
    }
}

/// Batched translation.  The requests are cut at 4 KiB page boundaries;
/// the resulting chunks then descend the page tables together, round by
/// round, and each round reads every table page it needs from the
/// provider exactly once: the pinned access count below adds one per
/// round per distinct needed page, however many chunks need it, and the
/// translation itself reads nothing else.  Every chunk ends mapped or
/// failed, exactly as the translation model says for its address.
pub fn translate_batch(
    phys: &mut PhysicalMemory,
    arch: Architecture,
    dtb: u64,
    requests: &Vec<(u64, u64)>,
) -> (r: Vec<TranslationResult>)
    requires
        dtb % 4096 == 0,
        forall|i: int| 0 <= i < requests@.len()
            ==> (#[trigger] requests@[i]).0 + requests@[i].1 <= u64::MAX,
    ensures
        final(phys)@ == old(phys)@,
        final(phys).spec_read_count() == count_after(
            old(phys).spec_read_count(),
            table_reads(
                old(phys)@,
                arch,
                dtb,
                chunk_vas(split_all(requests@)),
                arch.spec_levels(),
            ),
        ),
        r@.len() == split_all(requests@).len(),
        forall|i: int| 0 <= i < r@.len() ==> {
            &&& (#[trigger] r@[i]).va == split_all(requests@)[i].0
            &&& r@[i].len == split_all(requests@)[i].1
            &&& r@[i].outcome == translate(old(phys)@, arch, dtb, r@[i].va)
        },
{
    let ranges = split_requests(requests);
    let ghost mem = phys@;
    let ghost vas = chunk_vas(ranges@);
    let ghost count0 = phys.spec_read_count();
    let supported = arch.supported();
    let mut chunks: Vec<TranslationChunk> = Vec::new();
    let mut k: usize = 0;
    while k < ranges.len()
        invariant
            k <= ranges@.len(),
            chunks@.len() == k,
            supported == arch.spec_supported(),
            dtb % 4096 == 0,
            forall|j: int| 0 <= j < k ==> {
                &&& (#[trigger] chunks@[j]).va == ranges@[j].0
                &&& chunks@[j].len == ranges@[j].1
                &&& chunk_inv(mem, arch, dtb, chunks@[j], 0)
            },
        decreases ranges@.len() - k,
    {
        let (va, len) = ranges[k];
        let st = if !supported {
            ChunkState::Done(TranslateOutcome::Fail(TranslateFail::Unsupported))
        } else if !arch.va_canonical(va) {
            ChunkState::Done(TranslateOutcome::Fail(TranslateFail::NonCanonical))
        } else {
            ChunkState::Walking(dtb)
        };
        chunks.push(TranslationChunk { va, len, state: st });
        k = k + 1;
    }

    let levels = arch.levels();
    let mut round: u64 = 0;
    while round < levels
        invariant
            round <= levels,
            levels == arch.spec_levels(),
            supported == arch.spec_supported(),
            phys@ == mem,
            mem == old(phys)@,
            vas == chunk_vas(ranges@),
            phys.spec_read_count() == count_after(
                count0,
                table_reads(mem, arch, dtb, vas, round),
            ),
            chunks@.len() == ranges@.len(),
            forall|j: int| 0 <= j < chunks@.len() ==> {
                &&& (#[trigger] chunks@[j]).va == ranges@[j].0
                &&& chunks@[j].len == ranges@[j].1
                &&& chunk_inv(mem, arch, dtb, chunks@[j], round)
            },
        decreases levels - round,
    {
        // Collect this round's batch boundary: the distinct table pages
        // the still-walking chunks need, each exactly once.
        let mut pages: Vec<u64> = Vec::new();
        let mut k: usize = 0;
        while k < chunks.len()
            invariant
                k <= chunks@.len(),
                phys@ == mem,
                vas == chunk_vas(ranges@),
                chunks@.len() == ranges@.len(),
                forall|j: int| 0 <= j < chunks@.len() ==> {
                    &&& (#[trigger] chunks@[j]).va == ranges@[j].0
                    &&& chunk_inv(mem, arch, dtb, chunks@[j], round)
                },
                nodup(pages@),
                pages@ == tables_upto(mem, arch, dtb, vas, round, k as int),
                forall|j: int, t: u64| 0 <= j < k && #[trigger] chunk_needs(chunks@[j], t)
                    ==> pages@.contains(t),
            decreases chunks@.len() - k,
        {
            proof {
                assert(vas[k as int] == chunks@[k as int].va);
            }
            match chunks[k].state {
                ChunkState::Walking(t) => {
                    let ghost p0 = pages@;
                    if !contains_u64(&pages, t) {
                        pages.push(t);
                        proof {
                            assert(chunk_needs(chunks@[k as int], t));
                            assert(pages@ == p0.push(t));
                            assert(pages@[p0.len() as int] == t);
                            assert(pages@.contains(t));
                            assert forall|t2: u64| p0.contains(t2)
                                implies pages@.contains(t2) by {
                                let wi = choose|wi: int| 0 <= wi < p0.len() && p0[wi] == t2;
                                assert(pages@[wi] == t2);
                            }
                            assert forall|i: int, j: int| 0 <= i < j < pages@.len()
                                implies #[trigger] pages@[i] != #[trigger] pages@[j] by {
                                if j < pages@.len() - 1 {
                                    assert(p0[i] != p0[j]);
                                } else {
                                    assert(pages@[j] == t);
                                    assert(p0[i] == pages@[i]);
                                    if pages@[i] == t {
                                        assert(p0.contains(t));
                                    }
                                }
                            }
                        }
                    }
                },
                ChunkState::Done(_) => {},
            }
            k = k + 1;
        }
        let ghost round_pages = pages@;
        let mut items: Vec<(u64, usize)> = Vec::new();
        let mut i: usize = 0;
        while i < pages.len()
            invariant
                i <= pages@.len(),
                items@.len() == i,
                forall|j: int| 0 <= j < i ==> #[trigger] items@[j] == (pages@[j], 4096usize),
            decreases pages@.len() - i,
        {
            items.push((pages[i], 4096));
            i = i + 1;
        }
        let ghost count_pre = phys.spec_read_count();
        let bufs = phys.phys_read_raw_list(&items);
        proof {
            lemma_table_reads_nonneg(mem, arch, dtb, vas, round);
            lemma_count_after_add(
                count0,
                table_reads(mem, arch, dtb, vas, round),
                round_pages.len() as int,
            );
            assert(round_pages == tables_upto(mem, arch, dtb, vas, round, vas.len() as int));
            assert(table_reads(mem, arch, dtb, vas, (round + 1) as u64)
                == table_reads(mem, arch, dtb, vas, round) + round_pages.len());
        }
        let mut k: usize = 0;
        while k < chunks.len()
            invariant
                k <= chunks@.len(),
                round < levels,
                levels == arch.spec_levels(),
                supported == arch.spec_supported(),
                phys@ == mem,
                mem == old(phys)@,
                chunks@.len() == ranges@.len(),
                bufs@.len() == pages@.len(),
                nodup(pages@),
                forall|j: int, t: u64| k <= j < chunks@.len()
                    && #[trigger] chunk_needs(chunks@[j], t) ==> pages@.contains(t),
                forall|j: int| 0 <= j < pages@.len() ==> item_matches(
                    #[trigger] bufs@[j],
                    read_item(mem, pages@[j], 4096),
                ),
                forall|j: int| 0 <= j < chunks@.len() ==> {
                    &&& (#[trigger] chunks@[j]).va == ranges@[j].0
                    &&& chunks@[j].len == ranges@[j].1
                },
                forall|j: int| 0 <= j < k
                    ==> chunk_inv(mem, arch, dtb, #[trigger] chunks@[j], (round + 1) as u64),
                forall|j: int| k <= j < chunks@.len()
                    ==> chunk_inv(mem, arch, dtb, #[trigger] chunks@[j], round),
            decreases chunks@.len() - k,
        {
            let c = chunks[k];
            match c.state {
                ChunkState::Done(_) => {
                    proof {
                        lemma_walk_table_step(mem, arch, dtb, c.va, round);
                    }
                },
                ChunkState::Walking(t) => {
                    proof {
                        assert(chunk_needs(chunks@[k as int], t));
                        lemma_walk_table_step(mem, arch, dtb, c.va, round);
                    }
                    let jp = find_u64(&pages, t);
                    proof {
                        assert(item_matches(bufs@[jp as int], read_item(mem, t, 4096)));
                    }
                    match &bufs[jp] {
                        Option::None => {
                            proof {
                                assert(t + 4096 > mem.len());
                            }
                            chunks[k] = TranslationChunk {
                                va: c.va,
                                len: c.len,
                                state: ChunkState::Done(
                                    TranslateOutcome::Fail(TranslateFail::ReadFail),
                                ),
                            };
                        },
                        Option::Some(buf) => {
                            proof {
                                assert(buf@ == mem.subrange(t as int, t + 4096));
                                lemma_va_index_in_table(arch, round, c.va);
                            }
                            let esz = arch.entry_size();
                            let idx = arch.va_index(round, c.va);
                            let off = (idx * esz) as usize;
                            let e: u64 = if esz == 4 {
                                u32_from_le_bytes(
                                    slice_subrange(buf.as_slice(), off, off + 4),
                                ) as u64
                            } else {
                                u64_from_le_bytes(slice_subrange(buf.as_slice(), off, off + 8))
                            };
                            proof {
                                let pos = t + idx * esz;
                                assert(buf@.subrange(off as int, off + esz)
                                    =~= mem.subrange(pos as int, pos + esz));
                                assert(e == entry_val(mem, arch, pos as int));
                            }
                            let newstate = if !arch.entry_present(e) {
                                ChunkState::Done(TranslateOutcome::Fail(TranslateFail::NotPresent))
                            } else if round + 1 == levels {
                                ChunkState::Done(
                                    TranslateOutcome::Mapped(arch.entry_base(e) | (c.va & 0xfff)),
                                )
                            } else if arch.large_page_level(round) && arch.entry_is_large(e) {
                                ChunkState::Done(
                                    TranslateOutcome::Mapped(
                                        arch.large_base(round, e)
                                            | (c.va & arch.large_offset_mask(round)),
                                    ),
                                )
                            } else {
                                proof {
                                    lemma_entry_base_aligned(arch, e);
                                }
                                ChunkState::Walking(arch.entry_base(e))
                            };
                            chunks[k] = TranslationChunk { va: c.va, len: c.len, state: newstate };
                        },
                    }
                },
            }
            k = k + 1;
        }
        round = round + 1;
    }
    proof {
        assert(vas =~= chunk_vas(split_all(requests@)));
    }

    let mut r: Vec<TranslationResult> = Vec::new();
    let mut k: usize = 0;
    while k < chunks.len()
        invariant
            k <= chunks@.len(),
            chunks@.len() == ranges@.len(),
            ranges@ == split_all(requests@),
            phys@ == mem,
            mem == old(phys)@,
            levels == arch.spec_levels(),
            forall|j: int| 0 <= j < chunks@.len() ==> {
                &&& (#[trigger] chunks@[j]).va == ranges@[j].0
                &&& chunks@[j].len == ranges@[j].1
                &&& chunk_inv(mem, arch, dtb, chunks@[j], levels)
            },
            r@.len() == k,
            forall|i: int| 0 <= i < k ==> {
                &&& (#[trigger] r@[i]).va == split_all(requests@)[i].0
                &&& r@[i].len == split_all(requests@)[i].1
                &&& r@[i].outcome == translate(mem, arch, dtb, r@[i].va)
            },
        decreases chunks@.len() - k,
    {
        let c = chunks[k];
        match c.state {
            ChunkState::Done(o) => {
                r.push(TranslationResult { va: c.va, len: c.len, outcome: o });
            },
            ChunkState::Walking(_) => {
                proof {
                    assert(false);
                }
                return vstd::pervasive::unreached();
            },
        }
        k = k + 1;
    }
    r
}

/// The range a translation result stands for.
pub open spec fn result_range(r: TranslationResult) -> (u64, u64) {
    (r.va, r.len)
}

/// Batch completeness over the results themselves: the byte addresses
/// covered by a batch's results — mapped and failed chunks together —
/// are exactly the byte addresses of the requests, in order, with no
/// byte dropped and none counted twice.
pub proof fn lemma_batch_completeness(reqs: Seq<(u64, u64)>, results: Seq<TranslationResult>)
    requires
        forall|i: int| 0 <= i < reqs.len()
            ==> (#[trigger] reqs[i]).0 + reqs[i].1 <= u64::MAX,
        results.len() == split_all(reqs).len(),
        forall|i: int| 0 <= i < results.len() ==> {
            &&& (#[trigger] results[i]).va == split_all(reqs)[i].0
            &&& results[i].len == split_all(reqs)[i].1
        },
    ensures
        ranges_bytes(results.map_values(|r: TranslationResult| result_range(r)))
            == ranges_bytes(reqs),
{
    assert(results.map_values(|r: TranslationResult| result_range(r)) =~= split_all(reqs));
    lemma_batch_split_complete(reqs);
}

} // verus!
