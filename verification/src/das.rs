//! Data-availability-sampling verification records.
//!
//! A light-client process samples blocks and reports events; the verifier
//! owns a store of verification records and folds each event into the
//! records of the block it speaks of. Progress is measured in parts per
//! million of full confidence. A record's progress never decreases, and a
//! terminal status (`Verified` or `Failed`) never changes again.

use vstd::prelude::*;

use crate::types::str_eq;

verus! {

/// Full progress, in parts per million.
pub const PROGRESS_SCALE: u32 = 1000000;

/// Why the light client failed.
#[derive(Debug, Clone)]
pub enum LightClientError {
    ProcessError(String),
    ParseError(String),
    IoError(String),
}

/// Why a sampling operation failed.
#[derive(Debug, Clone)]
pub enum DASError {
    DatabaseError(String),
    LightClientError(LightClientError),
    VerificationError(String),
}

/// A completed sampling report for one block.
#[derive(Debug, Clone)]
pub struct BlockVerification {
    pub block_hash: String,
    pub block_number: u32,
    /// Confidence reached, in parts per million.
    pub confidence_ppm: u32,
    pub cells_total: u32,
    pub cells_verified: u32,
}

/// One line of the light client's output, as a plain value.
#[derive(Debug, Clone)]
pub enum LightClientEvent {
    BlockVerified(BlockVerification),
    VerificationProgress { block_hash: String, progress_ppm: u32, cells_verified: u32 },
    Error { message: String, block_hash: Option<String> },
}

/// Where a verification stands.
#[derive(Debug, Clone)]
pub enum VerificationStatus {
    Pending,
    InProgress { progress_ppm: u32, cells_verified: u32 },
    Verified { confidence_ppm: u32, cells_total: u32 },
    Failed(String),
}

/// Whether a status can still change.
pub open spec fn is_terminal(st: VerificationStatus) -> bool {
    st is Verified || st is Failed
}

/// The progress a status reports, in parts per million: nothing while
/// pending, the sampled share while in progress, everything once terminal.
pub open spec fn progress_of(st: VerificationStatus) -> u32 {
    match st {
        VerificationStatus::Pending => 0,
        VerificationStatus::InProgress { progress_ppm, .. } => progress_ppm,
        VerificationStatus::Verified { .. } => PROGRESS_SCALE,
        VerificationStatus::Failed(_) => PROGRESS_SCALE,
    }
}

/// A status keeps its progress within the scale.
pub open spec fn status_wf(st: VerificationStatus) -> bool {
    progress_of(st) <= PROGRESS_SCALE
}

/// How an inbound status folds into a stored one: a terminal status never
/// changes again; a progress report never lowers the stored progress (and
/// is capped at the scale); a verified or failed report is adopted.
pub open spec fn step_status(st: VerificationStatus, inbound: VerificationStatus) -> VerificationStatus {
    if is_terminal(st) {
        st
    } else {
        match inbound {
            VerificationStatus::InProgress { progress_ppm, cells_verified } => {
                let capped: u32 = if progress_ppm > PROGRESS_SCALE {
                    PROGRESS_SCALE
                } else {
                    progress_ppm
                };
                let raised: u32 = if capped > progress_of(st) {
                    capped
                } else {
                    progress_of(st)
                };
                VerificationStatus::InProgress { progress_ppm: raised, cells_verified }
            },
            VerificationStatus::Pending => st,
            other => other,
        }
    }
}

/// Progress monotonicity: folding any inbound status into a well-formed
/// stored status never lowers its progress, and a terminal status stays
/// exactly as it is.
pub proof fn lemma_progress_monotonic(st: VerificationStatus, inbound: VerificationStatus)
    requires
        status_wf(st),
    ensures
        progress_of(step_status(st, inbound)) >= progress_of(st),
        status_wf(step_status(st, inbound)),
        is_terminal(st) ==> step_status(st, inbound) == st,
{
}

/// Copies a status.
pub fn clone_verification_status(st: &VerificationStatus) -> (r: VerificationStatus)
    ensures
        r == *st,
{
    match st {
        VerificationStatus::Pending => VerificationStatus::Pending,
        VerificationStatus::InProgress { progress_ppm, cells_verified } => (
        VerificationStatus::InProgress {
            progress_ppm: *progress_ppm,
            cells_verified: *cells_verified,
        }),
        VerificationStatus::Verified { confidence_ppm, cells_total } => (
        VerificationStatus::Verified {
            confidence_ppm: *confidence_ppm,
            cells_total: *cells_total,
        }),
        VerificationStatus::Failed(m) => VerificationStatus::Failed(m.clone()),
    }
}

/// One stored verification.
#[derive(Debug, Clone)]
pub struct VerificationRecord {
    pub id: u64,
    pub block_hash: String,
    pub block_number: i64,
    pub status: VerificationStatus,
    pub created_at: i64,
    pub updated_at: i64,
}

/// The first record carrying an id.
pub open spec fn spec_find_record(s: Seq<VerificationRecord>, id: u64) -> Option<
    VerificationRecord,
>
    decreases s.len(),
{
    if s.len() == 0 {
        None
    } else if s[0].id == id {
        Some(s[0])
    } else {
        spec_find_record(s.subrange(1, s.len() as int), id)
    }
}

/// Records carry pairwise distinct ids and well-formed statuses.
pub open spec fn records_wf(s: Seq<VerificationRecord>) -> bool {
    &&& forall|i: int, j: int| 0 <= i < j < s.len() ==> (#[trigger] s[i]).id != (
    #[trigger] s[j]).id
    &&& forall|i: int| 0 <= i < s.len() ==> status_wf((#[trigger] s[i]).status)
}

/// Owns the verification records fed by the light client's events.
pub struct DASVerifier {
    records: Vec<VerificationRecord>,
    next_id: u64,
    clock: i64,
}

/// What an event does to the status of the block it speaks of: the status
/// it carries, or nothing for an error without a block.
pub open spec fn event_status(ev: LightClientEvent) -> Option<(Seq<char>, VerificationStatus)> {
    match ev {
        LightClientEvent::BlockVerified(v) => Some(
            (
                v.block_hash@,
                VerificationStatus::Verified {
                    confidence_ppm: v.confidence_ppm,
                    cells_total: v.cells_total,
                },
            ),
        ),
        LightClientEvent::VerificationProgress { block_hash, progress_ppm, cells_verified } => Some(
            (block_hash@, VerificationStatus::InProgress { progress_ppm, cells_verified }),
        ),
        LightClientEvent::Error { message, block_hash } => match block_hash {
            Some(h) => Some((h@, VerificationStatus::Failed(message))),
            None => None,
        },
    }
}

impl DASVerifier {
    /// The stored records.
    pub closed spec fn records_spec(self) -> Seq<VerificationRecord> {
        self.records@
    }

    /// The next fresh record id.
    pub closed spec fn next_id_spec(self) -> u64 {
        self.next_id
    }

    /// The verifier's well-formedness: distinct ids, all below the next
    /// fresh one, and well-formed statuses.
    pub open spec fn wf(self) -> bool {
        &&& records_wf(self.records_spec())
        &&& forall|i: int|
            0 <= i < self.records_spec().len() ==> (#[trigger] self.records_spec()[i]).id
                < self.next_id_spec()
    }

    /// An empty record store with the id counter at its start.
    pub fn new() -> (r: DASVerifier)
        ensures
            r.wf(),
            r.records_spec().len() == 0,
            r.next_id_spec() == 0,
    {
        DASVerifier { records: Vec::new(), next_id: 0, clock: 0 }
    }

    /// Starts tracking a verification: stores a `Pending` record for the
    /// block and returns its fresh id.
    pub fn start_verification(&mut self, block_hash: &str, block_number: i64) -> (r: Result<
        u64,
        DASError,
    >)
        requires
            old(self).wf(),
        ensures
            final(self).wf(),
            match r {
                Ok(id) => {
                    &&& id == old(self).next_id_spec()
                    &&& final(self).next_id_spec() == old(self).next_id_spec() + 1
                    &&& final(self).records_spec().len() == old(self).records_spec().len() + 1
                    &&& final(self).records_spec().last().id == id
                    &&& final(self).records_spec().last().block_hash@ == block_hash@
                    &&& final(self).records_spec().last().block_number == block_number
                    &&& final(self).records_spec().last().status == VerificationStatus::Pending
                    &&& final(self).records_spec().drop_last() == old(self).records_spec()
                },
                // Only an exhausted id space is refused.
                Err(_) => old(self).next_id_spec() == u64::MAX && *final(self) == *old(self),
            },
    {
        if self.next_id == u64::MAX {
            return Err(DASError::DatabaseError(String::from_str("id space exhausted")));
        }
        let id: u64 = self.next_id;
        self.next_id = self.next_id + 1;
        let now: i64 = self.clock;
        if self.clock < i64::MAX {
            self.clock = self.clock + 1;
        }
        let rec = VerificationRecord {
            id,
            block_hash: block_hash.to_owned(),
            block_number,
            status: VerificationStatus::Pending,
            created_at: now,
            updated_at: now,
        };
        self.records.push(rec);
        proof {
            assert(self.records@.drop_last() =~= old(self).records_spec());
        }
        Ok(id)
    }

    /// Folds one light-client event into the records: every record of the
    /// block the event speaks of steps by `step_status`; every other
    /// record, and everything else, stays as it is.
    pub fn apply_event(&mut self, event: &LightClientEvent)
        requires
            old(self).wf(),
        ensures
            final(self).wf(),
            final(self).records_spec().len() == old(self).records_spec().len(),
            match event_status(*event) {
                Some((h, inbound)) => forall|j: int|
                    0 <= j < old(self).records_spec().len() ==> (#[trigger] final(self)
                        .records_spec()[j]) == (if old(self).records_spec()[j].block_hash@ == h {
                        VerificationRecord {
                            status: step_status(old(self).records_spec()[j].status, inbound),
                            updated_at: final(self).records_spec()[j].updated_at,
                            ..old(self).records_spec()[j]
                        }
                    } else {
                        old(self).records_spec()[j]
                    }),
                None => final(self).records_spec() == old(self).records_spec(),
            },
    {
        let (hash, inbound): (&String, VerificationStatus) = match event {
            LightClientEvent::BlockVerified(v) => (
                &v.block_hash,
                VerificationStatus::Verified {
                    confidence_ppm: v.confidence_ppm,
                    cells_total: v.cells_total,
                },
            ),
            LightClientEvent::VerificationProgress { block_hash, progress_ppm, cells_verified } => (
                block_hash,
                VerificationStatus::InProgress {
                    progress_ppm: *progress_ppm,
                    cells_verified: *cells_verified,
                },
            ),
            LightClientEvent::Error { message, block_hash } => {
                match block_hash {
                    Some(h) => (h, VerificationStatus::Failed(message.clone())),
                    None => {
                        return ;
                    },
                }
            },
        };
        let n: usize = self.records.len();
        let ghost pre = self.records@;
        let ghost hg = hash@;
        let ghost inb = inbound;
        let ghost pre_next = self.next_id;
        let mut i: usize = 0;
        while i < n
            invariant
                i <= n,
                n == self.records@.len(),
                pre.len() == n,
                records_wf(pre),
                self.next_id == pre_next,
                inb == inbound,
                hg == hash@,
                forall|j: int|
                    0 <= j < i ==> (#[trigger] self.records@[j]) == (if pre[j].block_hash@ == hg {
                        VerificationRecord {
                            status: step_status(pre[j].status, inb),
                            updated_at: self.records@[j].updated_at,
                            ..pre[j]
                        }
                    } else {
                        pre[j]
                    }),
                forall|j: int| i <= j < n ==> (#[trigger] self.records@[j]) == pre[j],
            decreases n - i,
        {
            let matches_hash: bool = str_eq(self.records[i].block_hash.as_str(), hash.as_str());
            if matches_hash {
                let stepped = step_status_exec(&self.records[i].status, &inbound);
                let now: i64 = self.clock;
                let rec = VerificationRecord {
                    id: self.records[i].id,
                    block_hash: self.records[i].block_hash.clone(),
                    block_number: self.records[i].block_number,
                    status: stepped,
                    created_at: self.records[i].created_at,
                    updated_at: now,
                };
                let ghost expected = (VerificationRecord {
                    status: step_status(pre[i as int].status, inb),
                    updated_at: now,
                    ..pre[i as int]
                });
                self.records.set(i, rec);
                proof {
                    assert(self.records@[i as int] == expected);
                }
            }
            i = i + 1;
        }
        if self.clock < i64::MAX {
            self.clock = self.clock + 1;
        }
        proof {
            assert(forall|j: int|
                0 <= j < self.records@.len() ==> (#[trigger] self.records@[j]).id == pre[j].id);
            assert forall|a: int, b: int| 0 <= a < b < self.records@.len() implies (
            #[trigger] self.records@[a]).id != (#[trigger] self.records@[b]).id by {
                assert(self.records@[a].id == pre[a].id && self.records@[b].id == pre[b].id);
            }
            assert forall|a: int| 0 <= a < self.records@.len() implies status_wf(
                (#[trigger] self.records@[a]).status,
            ) by {
                if pre[a].block_hash@ == hg {
                    lemma_progress_monotonic(pre[a].status, inb);
                    assert(progress_of(self.records@[a].status) <= PROGRESS_SCALE);
                }
            }
        }
    }

    /// The stored status of a verification; a record that does not exist
    /// reports a database error.
    pub fn get_verification_status(&self, id: u64) -> (r: Result<VerificationStatus, DASError>)
        ensures
            match r {
                Ok(st) => spec_find_record(self.records_spec(), id) matches Some(rec)
                    && rec.status == st,
                Err(e) => spec_find_record(self.records_spec(), id) is None && e is DatabaseError,
            },
    {
        match self.find_record_index(id) {
            Some(i) => Ok(clone_verification_status(&self.records[i].status)),
            None => Err(DASError::DatabaseError(String::from_str("no such verification"))),
        }
    }

    /// The stored status of a verification together with its progress:
    /// none while pending, the sampled share while in progress, full once
    /// terminal, in parts per million.
    pub fn get_verification_progress(&self, id: u64) -> (r: Result<
        (VerificationStatus, u32),
        DASError,
    >)
        ensures
            match r {
                Ok(p) => spec_find_record(self.records_spec(), id) matches Some(rec)
                    && rec.status == p.0 && p.1 == progress_of(rec.status),
                Err(e) => spec_find_record(self.records_spec(), id) is None && e is DatabaseError,
            },
    {
        match self.find_record_index(id) {
            Some(i) => {
                let st = clone_verification_status(&self.records[i].status);
                let progress: u32 = match &st {
                    VerificationStatus::Pending => 0,
                    VerificationStatus::InProgress { progress_ppm, .. } => *progress_ppm,
                    VerificationStatus::Verified { .. } => PROGRESS_SCALE,
                    VerificationStatus::Failed(_) => PROGRESS_SCALE,
                };
                Ok((st, progress))
            },
            None => Err(DASError::DatabaseError(String::from_str("no such verification"))),
        }
    }

    /// The index of a record id.
    fn find_record_index(&self, id: u64) -> (r: Option<usize>)
        ensures
            match r {
                Some(i) => i < self.records_spec().len() && self.records_spec()[i as int].id == id
                    && spec_find_record(self.records_spec(), id) == Some(
                    self.records_spec()[i as int],
                ),
                None => spec_find_record(self.records_spec(), id) is None,
            },
    {
        let n: usize = self.records.len();
        let mut i: usize = 0;
        while i < n
            invariant
                i <= n,
                n == self.records@.len(),
                forall|j: int| 0 <= j < i ==> (#[trigger] self.records@[j]).id != id,
            decreases n - i,
        {
            if self.records[i].id == id {
                proof {
                    lemma_find_record_at(self.records@, id, i as int);
                }
                return Some(i);
            }
            i = i + 1;
        }
        proof {
            lemma_find_record_none(self.records@, id);
        }
        None
    }
}

/// Folds an inbound status into a stored one, as `step_status` says.
fn step_status_exec(st: &VerificationStatus, inbound: &VerificationStatus) -> (r: VerificationStatus)
    ensures
        r == step_status(*st, *inbound),
{
    match st {
        VerificationStatus::Verified { .. } => clone_verification_status(st),
        VerificationStatus::Failed(_) => clone_verification_status(st),
        _ => {
            match inbound {
                VerificationStatus::InProgress { progress_ppm, cells_verified } => {
                    let capped: u32 = if *progress_ppm > PROGRESS_SCALE {
                        PROGRESS_SCALE
                    } else {
                        *progress_ppm
                    };
                    let current: u32 = match st {
                        VerificationStatus::InProgress { progress_ppm: p, .. } => *p,
                        _ => 0,
                    };
                    let raised: u32 = if capped > current {
                        capped
                    } else {
                        current
                    };
                    VerificationStatus::InProgress {
                        progress_ppm: raised,
                        cells_verified: *cells_verified,
                    }
                },
                VerificationStatus::Pending => clone_verification_status(st),
                other => clone_verification_status(other),
            }
        },
    }
}

/// When an id first occurs at `i`, the scan finds that record.
proof fn lemma_find_record_at(s: Seq<VerificationRecord>, id: u64, i: int)
    requires
        0 <= i < s.len(),
        s[i].id == id,
        forall|j: int| 0 <= j < i ==> (#[trigger] s[j]).id != id,
    ensures
        spec_find_record(s, id) == Some(s[i]),
    decreases i,
{
    if i > 0 {
        lemma_find_record_at(s.subrange(1, s.len() as int), id, i - 1);
    }
}

/// When no record carries the id, the scan finds nothing.
proof fn lemma_find_record_none(s: Seq<VerificationRecord>, id: u64)
    requires
        forall|j: int| 0 <= j < s.len() ==> (#[trigger] s[j]).id != id,
    ensures
        spec_find_record(s, id) is None,
    decreases s.len(),
{
    if s.len() > 0 {
        lemma_find_record_none(s.subrange(1, s.len() as int), id);
    }
}

} // verus!
