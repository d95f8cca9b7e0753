//! Finality tracking for data-availability blocks.
//!
//! The tracker records decisions made upstream: blocks are first seen as
//! `Pending`, later marked `Final` by the feeder of finalized headers. It
//! keeps a bounded set of statuses, evicting the smallest block numbers
//! once the cap is exceeded. Marking a block final reports the status to
//! broadcast; marking it again reports nothing and changes nothing.
//! Timestamps are logical ticks of the tracker's own counter.

use vstd::prelude::*;

use crate::types::str_eq;

verus! {

/// Why a finality wait failed.
#[derive(Debug, Clone)]
pub enum FinalityError {
    BlockNotFound(String),
    SubscriptionError(String),
    Timeout,
}

/// Status of one tracked block.
#[derive(Debug, Clone)]
pub enum BlockStatus {
    /// Seen, not yet finalized.
    Pending { number: u32, hash: String, timestamp: i64 },
    /// Finalized by the chain.
    Final { number: u32, hash: String, finalized_at: i64 },
}

/// The hash a status speaks of.
pub open spec fn bs_hash(b: BlockStatus) -> Seq<char> {
    match b {
        BlockStatus::Pending { hash, .. } => hash@,
        BlockStatus::Final { hash, .. } => hash@,
    }
}

/// The block number a status speaks of.
pub open spec fn bs_number(b: BlockStatus) -> u32 {
    match b {
        BlockStatus::Pending { number, .. } => number,
        BlockStatus::Final { number, .. } => number,
    }
}

/// Whether a status is `Final`.
pub open spec fn bs_is_final(b: BlockStatus) -> bool {
    b is Final
}

impl BlockStatus {
    /// True exactly on `Final`.
    pub fn is_final(&self) -> (r: bool)
        ensures
            r == bs_is_final(*self),
    {
        matches!(self, BlockStatus::Final { .. })
    }

    /// The block number.
    pub fn block_number(&self) -> (r: u32)
        ensures
            r == bs_number(*self),
    {
        match self {
            BlockStatus::Pending { number, .. } => *number,
            BlockStatus::Final { number, .. } => *number,
        }
    }

    /// The block hash.
    pub fn block_hash(&self) -> (r: &str)
        ensures
            r@ == bs_hash(*self),
    {
        match self {
            BlockStatus::Pending { hash, .. } => hash.as_str(),
            BlockStatus::Final { hash, .. } => hash.as_str(),
        }
    }
}

/// Copies a status.
pub fn clone_status(b: &BlockStatus) -> (r: BlockStatus)
    ensures
        r == *b,
{
    match b {
        BlockStatus::Pending { number, hash, timestamp } => BlockStatus::Pending {
            number: *number,
            hash: hash.clone(),
            timestamp: *timestamp,
        },
        BlockStatus::Final { number, hash, finalized_at } => BlockStatus::Final {
            number: *number,
            hash: hash.clone(),
            finalized_at: *finalized_at,
        },
    }
}

/// Configuration of the tracker.
#[derive(Debug, Clone)]
pub struct FinalityConfig {
    /// Longest wait for finality, in milliseconds.
    pub finality_timeout_ms: u64,
    /// Blocks required on top for finality (decided upstream).
    pub finality_depth: u32,
    /// Most blocks tracked at once.
    pub max_tracked_blocks: usize,
}

impl Default for FinalityConfig {
    /// One minute of patience, depth twenty, a thousand tracked blocks.
    fn default() -> (r: FinalityConfig)
        ensures
            r.finality_timeout_ms == 60000,
            r.finality_depth == 20,
            r.max_tracked_blocks == 1000,
    {
        FinalityConfig { finality_timeout_ms: 60000, finality_depth: 20, max_tracked_blocks: 1000 }
    }
}

/// The first status for a hash, scanning in insertion order.
pub open spec fn spec_find(s: Seq<BlockStatus>, h: Seq<char>) -> Option<BlockStatus>
    decreases s.len(),
{
    if s.len() == 0 {
        None
    } else if bs_hash(s[0]) == h {
        Some(s[0])
    } else {
        spec_find(s.subrange(1, s.len() as int), h)
    }
}

/// Tracked statuses carry pairwise distinct hashes.
pub open spec fn blocks_wf(s: Seq<BlockStatus>) -> bool {
    forall|i: int, j: int| 0 <= i < j < s.len() ==> bs_hash(#[trigger] s[i]) != bs_hash(
        #[trigger] s[j],
    )
}

/// Tracks block finality status.
pub struct FinalityTracker {
    blocks: Vec<BlockStatus>,
    config: FinalityConfig,
    clock: i64,
}

impl FinalityTracker {
    /// The tracked statuses.
    pub closed spec fn blocks_spec(self) -> Seq<BlockStatus> {
        self.blocks@
    }

    /// The configuration.
    pub closed spec fn config_spec(self) -> FinalityConfig {
        self.config
    }

    /// The tracker's well-formedness: one status per hash, within the cap.
    pub open spec fn wf(self) -> bool {
        &&& blocks_wf(self.blocks_spec())
        &&& self.blocks_spec().len() <= self.config_spec().max_tracked_blocks
    }

    /// An empty tracker.
    pub fn new(config: FinalityConfig) -> (r: FinalityTracker)
        ensures
            r.wf(),
            r.blocks_spec().len() == 0,
            r.config_spec() == config,
    {
        FinalityTracker { blocks: Vec::new(), config, clock: 0 }
    }

    /// How many blocks are tracked.
    pub fn tracked_count(&self) -> (r: usize)
        ensures
            r == self.blocks_spec().len(),
    {
        self.blocks.len()
    }

    /// Whether a hash is tracked at all.
    pub fn is_tracked(&self, hash: &str) -> (r: bool)
        ensures
            r == (spec_find(self.blocks_spec(), hash@) is Some),
    {
        self.find_index(hash).is_some()
    }

    /// Whether a hash is tracked and finalized.
    pub fn is_finalized(&self, hash: &str) -> (r: bool)
        ensures
            r == match spec_find(self.blocks_spec(), hash@) {
                Some(b) => bs_is_final(b),
                None => false,
            },
    {
        match self.find_index(hash) {
            Some(i) => self.blocks[i].is_final(),
            None => false,
        }
    }

    /// The one synchronous check of a finality wait: the finalized status
    /// if it is already there. The caller subscribes and keeps applying
    /// `finality_wait_step` to what arrives until the timeout.
    pub fn check_finalized(&self, hash: &str) -> (r: Option<BlockStatus>)
        ensures
            match r {
                Some(b) => spec_find(self.blocks_spec(), hash@) == Some(b) && bs_is_final(b),
                None => !match spec_find(self.blocks_spec(), hash@) {
                    Some(b) => bs_is_final(b),
                    None => false,
                },
            },
    {
        match self.find_index(hash) {
            Some(i) => {
                if self.blocks[i].is_final() {
                    Some(clone_status(&self.blocks[i]))
                } else {
                    None
                }
            },
            None => None,
        }
    }

    /// The index of a hash among the tracked statuses.
    fn find_index(&self, hash: &str) -> (r: Option<usize>)
        ensures
            match r {
                Some(i) => i < self.blocks_spec().len() && bs_hash(self.blocks_spec()[i as int])
                    == hash@ && spec_find(self.blocks_spec(), hash@) == Some(
                    self.blocks_spec()[i as int],
                ) && (forall|j: int| 0 <= j < i ==> bs_hash(#[trigger] self.blocks_spec()[j])
                    != hash@),
                None => spec_find(self.blocks_spec(), hash@) is None && (forall|j: int|
                    0 <= j < self.blocks_spec().len() ==> bs_hash(#[trigger] self.blocks_spec()[j])
                        != hash@),
            },
    {
        let n: usize = self.blocks.len();
        let mut i: usize = 0;
        while i < n
            invariant
                i <= n,
                n == self.blocks@.len(),
                forall|j: int| 0 <= j < i ==> bs_hash(#[trigger] self.blocks@[j]) != hash@,
            decreases n - i,
        {
            let h: &str = self.blocks[i].block_hash();
            if str_eq(h, hash) {
                proof {
                    lemma_find_at(self.blocks@, hash@, i as int);
                }
                return Some(i);
            }
            i = i + 1;
        }
        proof {
            lemma_find_none(self.blocks@, hash@);
        }
        None
    }
}

/// When a hash first occurs at index `i`, the scan finds that status.
pub proof fn lemma_find_at(s: Seq<BlockStatus>, h: Seq<char>, i: int)
    requires
        0 <= i < s.len(),
        bs_hash(s[i]) == h,
        forall|j: int| 0 <= j < i ==> bs_hash(#[trigger] s[j]) != h,
    ensures
        spec_find(s, h) == Some(s[i]),
    decreases i,
{
    if i > 0 {
        lemma_find_at(s.subrange(1, s.len() as int), h, i - 1);
    }
}

/// When no status carries the hash, the scan finds nothing.
pub proof fn lemma_find_none(s: Seq<BlockStatus>, h: Seq<char>)
    requires
        forall|j: int| 0 <= j < s.len() ==> bs_hash(#[trigger] s[j]) != h,
    ensures
        spec_find(s, h) is None,
    decreases s.len(),
{
    if s.len() > 0 {
        lemma_find_none(s.subrange(1, s.len() as int), h);
    }
}


/// The outcome of marking a block final: the new status list and what is
/// reported to subscribers. Scans for the hash; a pending entry becomes
/// `Final` and is reported; a final or absent entry changes nothing and
/// reports nothing.
pub open spec fn spec_finalize(s: Seq<BlockStatus>, number: u32, hash: String, at: i64) -> (
    Seq<BlockStatus>,
    Option<BlockStatus>,
)
    decreases s.len(),
{
    if s.len() == 0 {
        (s, None)
    } else if bs_hash(s[0]) == hash@ {
        if bs_is_final(s[0]) {
            (s, None)
        } else {
            let nb = BlockStatus::Final { number, hash, finalized_at: at };
            (s.update(0, nb), Some(nb))
        }
    } else {
        let rest = spec_finalize(s.subrange(1, s.len() as int), number, hash, at);
        (seq![s[0]] + rest.0, rest.1)
    }
}

/// Finality idempotence: marking the same block final a second time leaves
/// the statuses and the subscriber report of the second call unchanged -
/// whatever the first call did, the second changes nothing and reports
/// nothing.
pub proof fn lemma_finalize_idempotent(
    s: Seq<BlockStatus>,
    number: u32,
    hash: String,
    t1: i64,
    t2: i64,
)
    ensures
        spec_finalize(spec_finalize(s, number, hash, t1).0, number, hash, t2).0 == spec_finalize(
            s,
            number,
            hash,
            t1,
        ).0,
        spec_finalize(spec_finalize(s, number, hash, t1).0, number, hash, t2).1 is None,
    decreases s.len(),
{
    if s.len() == 0 {
    } else if bs_hash(s[0]) == hash@ {
        if bs_is_final(s[0]) {
        } else {
            let nb = BlockStatus::Final { number, hash, finalized_at: t1 };
            let s1 = s.update(0, nb);
            assert(bs_hash(s1[0]) == hash@ && bs_is_final(s1[0]));
        }
    } else {
        let tail = s.subrange(1, s.len() as int);
        let rest1 = spec_finalize(tail, number, hash, t1);
        let s1 = seq![s[0]] + rest1.0;
        lemma_finalize_idempotent(tail, number, hash, t1, t2);
        assert(s1[0] == s[0]);
        assert(s1.subrange(1, s1.len() as int) =~= rest1.0);
        assert(spec_finalize(s1, number, hash, t2).0 =~= s1);
    }
}

impl FinalityTracker {
    /// The logical clock used for timestamps.
    pub closed spec fn clock_spec(self) -> i64 {
        self.clock
    }

    /// Marks a tracked block as finalized and returns the status to
    /// broadcast; a block already final, or not tracked, stays as it is and
    /// nothing is broadcast.
    pub fn finalize_block(&mut self, number: u32, hash: String) -> (r: Option<BlockStatus>)
        requires
            old(self).wf(),
        ensures
            final(self).wf(),
            final(self).config_spec() == old(self).config_spec(),
            final(self).blocks_spec() == spec_finalize(
                old(self).blocks_spec(),
                number,
                hash,
                old(self).clock_spec(),
            ).0,
            r == spec_finalize(old(self).blocks_spec(), number, hash, old(self).clock_spec()).1,
    {
        let at: i64 = self.clock;
        if self.clock < i64::MAX {
            self.clock = self.clock + 1;
        }
        let idx = self.find_index(hash.as_str());
        match idx {
            Some(i) => {
                if self.blocks[i].is_final() {
                    proof {
                        lemma_finalize_found(self.blocks@, number, hash, at, i as int);
                    }
                    None
                } else {
                    let nb = BlockStatus::Final { number, hash, finalized_at: at };
                    let emission = clone_status(&nb);
                    proof {
                        lemma_finalize_found(self.blocks@, number, nb->Final_hash, at, i as int);
                        assert(self.blocks@.update(i as int, nb) =~= spec_finalize(
                            self.blocks@,
                            number,
                            nb->Final_hash,
                            at,
                        ).0);
                    }
                    self.blocks.set(i, nb);
                    Some(emission)
                }
            },
            None => {
                proof {
                    lemma_finalize_absent(self.blocks@, number, hash, at);
                }
                None
            },
        }
    }
}

/// When the hash first occurs at `i`, finalization acts there.
proof fn lemma_finalize_found(s: Seq<BlockStatus>, number: u32, hash: String, at: i64, i: int)
    requires
        0 <= i < s.len(),
        bs_hash(s[i]) == hash@,
        forall|j: int| 0 <= j < i ==> bs_hash(#[trigger] s[j]) != hash@,
    ensures
        bs_is_final(s[i]) ==> spec_finalize(s, number, hash, at) == (s, None::<BlockStatus>),
        !bs_is_final(s[i]) ==> spec_finalize(s, number, hash, at) == (
            s.update(i, BlockStatus::Final { number, hash, finalized_at: at }),
            Some(BlockStatus::Final { number, hash, finalized_at: at }),
        ),
    decreases i,
{
    if i == 0 {
        if !bs_is_final(s[0]) {
            assert(s.update(0, BlockStatus::Final { number, hash, finalized_at: at })
                =~= spec_finalize(s, number, hash, at).0);
        }
    } else {
        let tail = s.subrange(1, s.len() as int);
        lemma_finalize_found(tail, number, hash, at, i - 1);
        if bs_is_final(s[i]) {
            assert(seq![s[0]] + tail =~= s);
        } else {
            assert(seq![s[0]] + tail.update(
                i - 1,
                BlockStatus::Final { number, hash, finalized_at: at },
            ) =~= s.update(i, BlockStatus::Final { number, hash, finalized_at: at }));
        }
    }
}

/// When no status carries the hash, finalization changes nothing.
proof fn lemma_finalize_absent(s: Seq<BlockStatus>, number: u32, hash: String, at: i64)
    requires
        forall|j: int| 0 <= j < s.len() ==> bs_hash(#[trigger] s[j]) != hash@,
    ensures
        spec_finalize(s, number, hash, at) == (s, None::<BlockStatus>),
    decreases s.len(),
{
    if s.len() > 0 {
        lemma_finalize_absent(s.subrange(1, s.len() as int), number, hash, at);
        assert(seq![s[0]] + s.subrange(1, s.len() as int) =~= s);
    }
}


/// With distinct hashes, the scan finds exactly the entry at hand.
proof fn lemma_find_unique(s: Seq<BlockStatus>, k: int)
    requires
        blocks_wf(s),
        0 <= k < s.len(),
    ensures
        spec_find(s, bs_hash(s[k])) == Some(s[k]),
{
    lemma_find_at(s, bs_hash(s[k]), k);
}

/// How the scan behaves after one removal, with distinct hashes.
proof fn lemma_find_remove(s: Seq<BlockStatus>, mi: int, h: Seq<char>)
    requires
        blocks_wf(s),
        0 <= mi < s.len(),
    ensures
        bs_hash(s[mi]) == h ==> spec_find(s.remove(mi), h) is None,
        bs_hash(s[mi]) != h ==> spec_find(s.remove(mi), h) == spec_find(s, h),
    decreases s.len(),
{
    let t = s.remove(mi);
    if bs_hash(s[mi]) == h {
        assert forall|j: int| 0 <= j < t.len() implies bs_hash(#[trigger] t[j]) != h by {
            if j < mi {
                assert(t[j] == s[j]);
            } else {
                assert(t[j] == s[j + 1]);
            }
        }
        lemma_find_none(t, h);
    } else {
        match spec_find(s, h) {
            Some(_) => {
                lemma_find_first_index(s, h);
                let kk = choose|kk: int| 0 <= kk < s.len() && bs_hash(s[kk]) == h && (forall|
                    j: int,
                |
                    0 <= j < kk ==> bs_hash(#[trigger] s[j]) != h) && spec_find(s, h) == Some(
                    s[kk],
                );
                if kk < mi {
                    assert(t[kk] == s[kk]);
                    assert forall|j: int| 0 <= j < kk implies bs_hash(#[trigger] t[j]) != h by {
                        assert(t[j] == s[j]);
                    }
                    lemma_find_at(t, h, kk);
                } else {
                    assert(t[kk - 1] == s[kk]);
                    assert forall|j: int| 0 <= j < kk - 1 implies bs_hash(#[trigger] t[j]) != h
                    by {
                        if j < mi {
                            assert(t[j] == s[j]);
                        } else {
                            assert(t[j] == s[j + 1]);
                        }
                    }
                    lemma_find_at(t, h, kk - 1);
                }
            },
            None => {
                assert forall|j: int| 0 <= j < t.len() implies bs_hash(#[trigger] t[j]) != h by {
                    lemma_find_all_absent(s, h);
                    if j < mi {
                        assert(t[j] == s[j]);
                    } else {
                        assert(t[j] == s[j + 1]);
                    }
                }
                lemma_find_none(t, h);
            },
        }
    }
}

/// A successful scan pins a first index.
pub proof fn lemma_find_first_index(s: Seq<BlockStatus>, h: Seq<char>)
    requires
        spec_find(s, h) is Some,
    ensures
        exists|k: int|
            0 <= k < s.len() && bs_hash(#[trigger] s[k]) == h && (forall|j: int|
                0 <= j < k ==> bs_hash(#[trigger] s[j]) != h) && spec_find(s, h) == Some(s[k]),
    decreases s.len(),
{
    if s.len() > 0 {
        if bs_hash(s[0]) == h {
            assert(spec_find(s, h) == Some(s[0]));
        } else {
            let tail = s.subrange(1, s.len() as int);
            lemma_find_first_index(tail, h);
            let k = choose|k: int|
                0 <= k < tail.len() && bs_hash(#[trigger] tail[k]) == h && (forall|j: int|
                    0 <= j < k ==> bs_hash(#[trigger] tail[j]) != h) && spec_find(tail, h)
                    == Some(tail[k]);
            assert(s[k + 1] == tail[k]);
            assert forall|j: int| 0 <= j < k + 1 implies bs_hash(#[trigger] s[j]) != h by {
                if j > 0 {
                    assert(s[j] == tail[j - 1]);
                }
            }
        }
    }
}

/// A failed scan means no entry carries the hash.
proof fn lemma_find_all_absent(s: Seq<BlockStatus>, h: Seq<char>)
    requires
        spec_find(s, h) is None,
    ensures
        forall|j: int| 0 <= j < s.len() ==> bs_hash(#[trigger] s[j]) != h,
    decreases s.len(),
{
    if s.len() > 0 {
        let tail = s.subrange(1, s.len() as int);
        lemma_find_all_absent(tail, h);
        assert forall|j: int| 0 <= j < s.len() implies bs_hash(#[trigger] s[j]) != h by {
            if j > 0 {
                assert(s[j] == tail[j - 1]);
            }
        }
    }
}

impl FinalityTracker {
    /// The index of an entry whose block number is smallest.
    fn min_number_index(&self) -> (r: usize)
        requires
            self.blocks_spec().len() > 0,
        ensures
            r < self.blocks_spec().len(),
            forall|j: int| 0 <= j < self.blocks_spec().len() ==> bs_number(
                self.blocks_spec()[r as int],
            ) <= bs_number(#[trigger] self.blocks_spec()[j]),
    {
        let n: usize = self.blocks.len();
        let mut best: usize = 0;
        let mut bestnum: u32 = self.blocks[0].block_number();
        let mut i: usize = 1;
        while i < n
            invariant
                1 <= i <= n,
                n == self.blocks@.len(),
                best < i,
                bestnum == bs_number(self.blocks@[best as int]),
                forall|j: int| 0 <= j < i ==> bestnum <= bs_number(#[trigger] self.blocks@[j]),
            decreases n - i,
        {
            let num: u32 = self.blocks[i].block_number();
            if num < bestnum {
                best = i;
                bestnum = num;
            }
            i = i + 1;
        }
        best
    }

    /// Records a newly seen block as `Pending` - replacing any status the
    /// hash had - then enforces the cap by evicting the entries with the
    /// smallest block numbers until at most `max_tracked_blocks` remain.
    pub fn track_block(&mut self, number: u32, hash: String)
        requires
            old(self).wf(),
        ensures
            final(self).wf(),
            final(self).config_spec() == old(self).config_spec(),
            // A surviving entry for this hash is the new pending one.
            forall|j: int|
                0 <= j < final(self).blocks_spec().len() && bs_hash(
                    #[trigger] final(self).blocks_spec()[j],
                ) == hash@ ==> final(self).blocks_spec()[j] is Pending && bs_number(
                    final(self).blocks_spec()[j],
                ) == number,
            // Every other surviving entry was tracked before, unchanged.
            forall|j: int|
                0 <= j < final(self).blocks_spec().len() && bs_hash(
                    #[trigger] final(self).blocks_spec()[j],
                ) != hash@ ==> spec_find(
                    old(self).blocks_spec(),
                    bs_hash(final(self).blocks_spec()[j]),
                ) == Some(final(self).blocks_spec()[j]),
            // While under the cap nothing is evicted.
            old(self).blocks_spec().len() + 1 <= old(self).config_spec().max_tracked_blocks
                ==> spec_find(final(self).blocks_spec(), hash@) is Some && (forall|j1: int|
                0 <= j1 < old(self).blocks_spec().len() && bs_hash(
                    #[trigger] old(self).blocks_spec()[j1],
                ) != hash@ ==> spec_find(
                    final(self).blocks_spec(),
                    bs_hash(old(self).blocks_spec()[j1]),
                ) == Some(old(self).blocks_spec()[j1])),
            // Eviction keeps the largest block numbers: whatever was
            // dropped is no larger than whatever was kept.
            forall|j1: int, j2: int|
                0 <= j1 < old(self).blocks_spec().len() && 0 <= j2
                    < final(self).blocks_spec().len()
                    && bs_hash(#[trigger] old(self).blocks_spec()[j1]) != hash@
                    && spec_find(
                    final(self).blocks_spec(),
                    bs_hash(old(self).blocks_spec()[j1]),
                ) is None ==> bs_number(old(self).blocks_spec()[j1]) <= bs_number(
                    #[trigger] final(self).blocks_spec()[j2],
                ),
            spec_find(final(self).blocks_spec(), hash@) is None ==> forall|j2: int|
                0 <= j2 < final(self).blocks_spec().len() ==> number <= bs_number(
                    #[trigger] final(self).blocks_spec()[j2],
                ),
            // Exactly as many survive as the cap allows: the count after
            // the insert, clipped to the cap.
            final(self).blocks_spec().len() == ({
                let grown: int = if spec_find(old(self).blocks_spec(), hash@) is Some {
                    old(self).blocks_spec().len() as int
                } else {
                    old(self).blocks_spec().len() as int + 1
                };
                if grown <= old(self).config_spec().max_tracked_blocks {
                    grown
                } else {
                    old(self).config_spec().max_tracked_blocks as int
                }
            }),
    {
        let ts: i64 = self.clock;
        if self.clock < i64::MAX {
            self.clock = self.clock + 1;
        }
        let idx = self.find_index(hash.as_str());
        let nb = BlockStatus::Pending { number, hash, timestamp: ts };
        let ghost old_blocks = self.blocks@;
        let ghost nbg = nb;
        match idx {
            Some(i) => {
                proof {
                    assert forall|a: int, b: int|
                        0 <= a < b < old_blocks.update(i as int, nbg).len() implies bs_hash(
                        #[trigger] old_blocks.update(i as int, nbg)[a],
                    ) != bs_hash(#[trigger] old_blocks.update(i as int, nbg)[b]) by {
                        assert(bs_hash(old_blocks[i as int]) == bs_hash(nbg));
                    }
                }
                self.blocks.set(i, nb);
            },
            None => {
                proof {
                    let pushed = old_blocks.push(nbg);
                    assert forall|a: int, b: int| 0 <= a < b < pushed.len() implies bs_hash(
                        #[trigger] pushed[a],
                    ) != bs_hash(#[trigger] pushed[b]) by {
                        if b == old_blocks.len() {
                            assert(pushed[a] == old_blocks[a]);
                            assert(pushed[b] == nbg);
                        } else {
                            assert(pushed[a] == old_blocks[a]);
                            assert(pushed[b] == old_blocks[b]);
                        }
                    }
                }
                self.blocks.push(nb);
            },
        }
        let ghost pre = self.blocks@;
        proof {
            // What the scan reports over the pre-eviction statuses.
            match idx {
                Some(i) => {
                    lemma_find_update_blocks(old_blocks, i as int, nbg);
                },
                None => {
                    lemma_find_push_blocks(old_blocks, nbg);
                },
            }
        }
        proof {
            assert forall|j: int| 0 <= j < pre.len() implies spec_find(
                pre,
                bs_hash(#[trigger] pre[j]),
            ) == Some(pre[j]) by {
                lemma_find_unique(pre, j);
            }
        }
        while self.blocks.len() > self.config.max_tracked_blocks
            invariant
                blocks_wf(pre),
                blocks_wf(self.blocks@),
                pre.len() <= self.config.max_tracked_blocks ==> self.blocks@ == pre,
                pre.len() > self.config.max_tracked_blocks ==> self.blocks@.len()
                    >= self.config.max_tracked_blocks,
                self.config == old(self).config_spec(),
                forall|j: int|
                    0 <= j < self.blocks@.len() ==> spec_find(
                        pre,
                        bs_hash(#[trigger] self.blocks@[j]),
                    ) == Some(self.blocks@[j]),
                forall|j1: int, j2: int|
                    0 <= j1 < pre.len() && 0 <= j2 < self.blocks@.len() && spec_find(
                        self.blocks@,
                        bs_hash(#[trigger] pre[j1]),
                    ) is None ==> bs_number(pre[j1]) <= bs_number(#[trigger] self.blocks@[j2]),
            decreases self.blocks@.len(),
        {
            let mi = self.min_number_index();
            let ghost before = self.blocks@;
            self.blocks.remove(mi);
            proof {
                let after = self.blocks@;
                assert forall|a: int, b: int| 0 <= a < b < after.len() implies bs_hash(
                    #[trigger] after[a],
                ) != bs_hash(#[trigger] after[b]) by {
                    let a2: int = if a < mi as int {
                        a
                    } else {
                        a + 1
                    };
                    let b2: int = if b < mi as int {
                        b
                    } else {
                        b + 1
                    };
                    assert(after[a] == before[a2] && after[b] == before[b2]);
                }
                assert forall|j: int| 0 <= j < after.len() implies spec_find(
                    pre,
                    bs_hash(#[trigger] after[j]),
                ) == Some(after[j]) by {
                    let j2: int = if j < mi as int {
                        j
                    } else {
                        j + 1
                    };
                    assert(after[j] == before[j2]);
                }
                assert forall|j1: int, j2: int|
                    0 <= j1 < pre.len() && 0 <= j2 < after.len() && spec_find(
                        after,
                        bs_hash(#[trigger] pre[j1]),
                    ) is None implies bs_number(pre[j1]) <= bs_number(#[trigger] after[j2]) by {
                    let h1 = bs_hash(pre[j1]);
                    let jj: int = if j2 < mi as int {
                        j2
                    } else {
                        j2 + 1
                    };
                    assert(after[j2] == before[jj]);
                    if spec_find(before, h1) is None {
                    } else {
                        // The entry for this hash was the one removed: the
                        // minimum of the current set.
                        lemma_find_first_index(before, h1);
                        let k = choose|k: int|
                            0 <= k < before.len() && bs_hash(#[trigger] before[k]) == h1 && (
                            forall|j: int| 0 <= j < k ==> bs_hash(#[trigger] before[j]) != h1)
                                && spec_find(before, h1) == Some(before[k]);
                        lemma_find_remove(before, mi as int, h1);
                        assert(k == mi as int);
                        assert(bs_number(pre[j1]) == bs_number(before[k])) by {
                            lemma_find_unique(pre, j1);
                        }
                    }
                }
            }
        }
        proof {
            let cur = self.blocks@;
            assert forall|j1: int|
                0 <= j1 < old_blocks.len() && bs_hash(#[trigger] old_blocks[j1])
                    != bs_hash(nbg) implies spec_find(pre, bs_hash(old_blocks[j1])) == Some(
                old_blocks[j1],
            ) by {
                lemma_find_unique(old_blocks, j1);
            }
            assert forall|j1: int, j2: int|
                0 <= j1 < old_blocks.len() && 0 <= j2 < cur.len() && bs_hash(
                    #[trigger] old_blocks[j1],
                ) != bs_hash(nbg) && spec_find(cur, bs_hash(old_blocks[j1])) is None implies
                bs_number(old_blocks[j1]) <= bs_number(#[trigger] cur[j2]) by {
                let h1 = bs_hash(old_blocks[j1]);
                lemma_find_first_index(pre, h1);
                let k = choose|k: int|
                    0 <= k < pre.len() && bs_hash(#[trigger] pre[k]) == h1 && (forall|j: int|
                        0 <= j < k ==> bs_hash(#[trigger] pre[j]) != h1) && spec_find(pre, h1)
                        == Some(pre[k]);
                assert(pre[k] == old_blocks[j1]);
            }
            if spec_find(cur, bs_hash(nbg)) is None {
                lemma_find_first_index(pre, bs_hash(nbg));
                let k = choose|k: int|
                    0 <= k < pre.len() && bs_hash(#[trigger] pre[k]) == bs_hash(nbg) && (forall|
                        j: int,
                    |
                        0 <= j < k ==> bs_hash(#[trigger] pre[j]) != bs_hash(nbg)) && spec_find(
                        pre,
                        bs_hash(nbg),
                    ) == Some(pre[k]);
                assert(pre[k] == nbg);
            }
        }
    }
}

/// How the scan behaves after replacing the entry that carries a hash with
/// another entry for the same hash.
proof fn lemma_find_update_blocks(s: Seq<BlockStatus>, i: int, nb: BlockStatus)
    requires
        blocks_wf(s),
        0 <= i < s.len(),
        bs_hash(s[i]) == bs_hash(nb),
    ensures
        spec_find(s.update(i, nb), bs_hash(nb)) == Some(nb),
        forall|h: Seq<char>|
            h != bs_hash(nb) ==> #[trigger] spec_find(s.update(i, nb), h) == spec_find(s, h),
    decreases s.len(),
{
    let t = s.update(i, nb);
    assert forall|j: int| 0 <= j < i implies bs_hash(#[trigger] t[j]) != bs_hash(nb) by {
        assert(t[j] == s[j]);
    }
    lemma_find_at(t, bs_hash(nb), i);
    assert forall|h: Seq<char>| h != bs_hash(nb) implies #[trigger] spec_find(t, h) == spec_find(
        s,
        h,
    ) by {
        lemma_find_update_other(s, i, nb, h);
    }
}

/// Replacing one entry leaves the scan for other hashes alone.
proof fn lemma_find_update_other(s: Seq<BlockStatus>, i: int, nb: BlockStatus, h: Seq<char>)
    requires
        0 <= i < s.len(),
        bs_hash(s[i]) == bs_hash(nb),
        h != bs_hash(nb),
    ensures
        spec_find(s.update(i, nb), h) == spec_find(s, h),
    decreases s.len(),
{
    let t = s.update(i, nb);
    if i == 0 {
        assert(t.subrange(1, t.len() as int) =~= s.subrange(1, s.len() as int));
    } else {
        assert(t[0] == s[0]);
        assert(t.subrange(1, t.len() as int) =~= s.subrange(1, s.len() as int).update(i - 1, nb));
        lemma_find_update_other(s.subrange(1, s.len() as int), i - 1, nb, h);
    }
}

/// How the scan behaves after appending an entry for a hash it does not
/// hold yet.
proof fn lemma_find_push_blocks(s: Seq<BlockStatus>, nb: BlockStatus)
    requires
        spec_find(s, bs_hash(nb)) is None,
    ensures
        spec_find(s.push(nb), bs_hash(nb)) == Some(nb),
        forall|h: Seq<char>|
            h != bs_hash(nb) ==> #[trigger] spec_find(s.push(nb), h) == spec_find(s, h),
    decreases s.len(),
{
    let t = s.push(nb);
    lemma_find_all_absent(s, bs_hash(nb));
    assert forall|j: int| 0 <= j < s.len() implies bs_hash(#[trigger] t[j]) != bs_hash(nb) by {
        assert(t[j] == s[j]);
    }
    assert(t[s.len() as int] == nb);
    lemma_find_at(t, bs_hash(nb), s.len() as int);
    assert forall|h: Seq<char>| h != bs_hash(nb) implies #[trigger] spec_find(t, h) == spec_find(
        s,
        h,
    ) by {
        lemma_find_push_other(s, nb, h);
    }
}

/// Appending an entry leaves the scan for other hashes alone.
proof fn lemma_find_push_other(s: Seq<BlockStatus>, nb: BlockStatus, h: Seq<char>)
    requires
        h != bs_hash(nb),
    ensures
        spec_find(s.push(nb), h) == spec_find(s, h),
    decreases s.len(),
{
    let t = s.push(nb);
    if s.len() == 0 {
        assert(t.subrange(1, 1) =~= Seq::<BlockStatus>::empty());
    } else {
        assert(t[0] == s[0]);
        assert(t.subrange(1, t.len() as int) =~= s.subrange(1, s.len() as int).push(nb));
        lemma_find_push_other(s.subrange(1, s.len() as int), nb, h);
    }
}


/// One step of a finality wait, applied to each broadcast status that
/// arrives while waiting: the waiter is done exactly when the received
/// status finalizes its block; otherwise it keeps waiting until its
/// deadline, and reports a timeout there.
pub fn finality_wait_step(received: &BlockStatus, hash: &str) -> (r: Option<BlockStatus>)
    ensures
        r == if bs_hash(*received) == hash@ && bs_is_final(*received) {
            Some(*received)
        } else {
            None::<BlockStatus>
        },
{
    if str_eq(received.block_hash(), hash) && received.is_final() {
        Some(clone_status(received))
    } else {
        None
    }
}

} // verus!
