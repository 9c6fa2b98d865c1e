//! The reconciliation engine: a state machine that walks one batch of change
//! events through the three tiers — batch targeted scan, retried individual
//! targeted scans, library-enumeration fallback — and assigns every event
//! exactly one final disposition.
//!
//! The engine makes every decision; the caller performs the network calls it
//! decides on and feeds the answers back in as plain values.

use vstd::prelude::*;
use crate::model::{ChangeEvent, Disposition, EventRecord, Library, LibraryV, library_views};
use crate::paths::{any_library_matches, any_library_claims, library_matches, library_claims};
use crate::pager::CatalogScan;
use crate::scan::{ScanPathResponse, batch_marks_success, batch_resolves, is_success_status,
    status_settles};

verus! {

/// How many events of the run still await a disposition.
pub open spec fn pending_count(rs: Seq<EventRecord>) -> nat
    decreases rs.len(),
{
    if rs.len() == 0 {
        0
    } else {
        pending_count(rs.drop_last()) + (if rs.last().disposition is Pending {
            1nat
        } else {
            0nat
        })
    }
}

/// No event of the run still awaits a disposition.
pub open spec fn all_decided(rs: Seq<EventRecord>) -> bool {
    forall|i: int| 0 <= i < rs.len() ==> !((#[trigger] rs[i]).disposition is Pending)
}

pub proof fn lemma_pending_count_take_le(rs: Seq<EventRecord>, i: int)
    requires
        0 <= i <= rs.len(),
    ensures
        pending_count(rs.take(i)) <= pending_count(rs),
    decreases rs.len() - i,
{
    if i == rs.len() {
        assert(rs.take(i) =~= rs);
    } else {
        lemma_pending_count_take_le(rs, i + 1);
        assert(rs.take(i + 1).drop_last() =~= rs.take(i));
        assert(rs.take(i + 1).last() == rs[i]);
    }
}

pub proof fn lemma_pending_rank_lt(rs: Seq<EventRecord>, i: int)
    requires
        0 <= i < rs.len(),
        rs[i].disposition is Pending,
    ensures
        pending_count(rs.take(i)) < pending_count(rs),
{
    assert(rs.take(i + 1).drop_last() =~= rs.take(i));
    assert(rs.take(i + 1).last() == rs[i]);
    lemma_pending_count_take_le(rs, i + 1);
}

pub proof fn lemma_pending_count_zero(rs: Seq<EventRecord>)
    ensures
        (pending_count(rs) == 0) <==> all_decided(rs),
    decreases rs.len(),
{
    if rs.len() > 0 {
        lemma_pending_count_zero(rs.drop_last());
        assert(rs.drop_last().len() == rs.len() - 1);
        if all_decided(rs) {
            assert(forall|i: int|
                0 <= i < rs.drop_last().len() ==> !((#[trigger] rs.drop_last()[i]).disposition
                    is Pending)) by {
                assert(forall|i: int|
                    0 <= i < rs.drop_last().len() ==> rs.drop_last()[i] == rs[i]);
            }
            assert(!(rs.last().disposition is Pending));
        }
        if pending_count(rs) == 0 {
            assert(forall|i: int|
                0 <= i < rs.len() - 1 ==> rs[i] == rs.drop_last()[i]);
        }
    }
}

/// The same record with a new disposition.
pub open spec fn set_disposition(r: EventRecord, d: Disposition) -> EventRecord {
    EventRecord { id: r.id, path: r.path, disposition: d }
}

/// The records a run starts from: one per event, in input order; events no
/// configured library claims are successful no-ops at once, the rest pend.
pub open spec fn initial_records(events: Seq<ChangeEvent>, libs: Seq<LibraryV>) -> Seq<
    EventRecord,
> {
    Seq::new(
        events.len(),
        |i: int|
            EventRecord {
                id: events[i].id,
                path: events[i].path,
                disposition: if any_library_matches(libs, events[i].path@) {
                    Disposition::Pending
                } else {
                    Disposition::Succeeded
                },
            },
    )
}

/// What the batch answer does to the records: a pending event whose path the
/// answer settles succeeds; every other record is untouched.
pub open spec fn batch_updated(rs: Seq<EventRecord>, results: Seq<ScanPathResponse>) -> Seq<
    EventRecord,
> {
    Seq::new(
        rs.len(),
        |i: int|
            if rs[i].disposition is Pending && batch_marks_success(results, rs[i].path@) {
                set_disposition(rs[i], Disposition::Succeeded)
            } else {
                rs[i]
            },
    )
}

/// Position of record `i` among the pending records, counting from the
/// front: the slot its per-event answer occupies in a round's outcome list.
pub open spec fn pending_rank(rs: Seq<EventRecord>, i: int) -> int {
    pending_count(rs.take(i)) as int
}

/// What one retry round's outcomes do to record `i`: a pending event whose
/// own scan answered with a settling status succeeds; an errored or
/// unrecognized answer leaves it pending; decided records are untouched.
pub open spec fn round_update_at(
    rs: Seq<EventRecord>,
    outcomes: Seq<Option<ScanPathResponse>>,
    i: int,
) -> EventRecord {
    if rs[i].disposition is Pending {
        match outcomes[pending_rank(rs, i)] {
            Option::Some(res) => if is_success_status(res.status@) {
                set_disposition(rs[i], Disposition::Succeeded)
            } else {
                rs[i]
            },
            Option::None => rs[i],
        }
    } else {
        rs[i]
    }
}

pub open spec fn round_updated(
    rs: Seq<EventRecord>,
    outcomes: Seq<Option<ScanPathResponse>>,
) -> Seq<EventRecord> {
    Seq::new(rs.len(), |i: int| round_update_at(rs, outcomes, i))
}

/// Every still-pending record marked `Failed`; decided records untouched.
pub open spec fn fail_pending(rs: Seq<EventRecord>) -> Seq<EventRecord> {
    Seq::new(
        rs.len(),
        |i: int|
            if rs[i].disposition is Pending {
                set_disposition(rs[i], Disposition::Failed)
            } else {
                rs[i]
            },
    )
}

/// The paths of the pending records, in record order.
pub open spec fn pending_paths_of(rs: Seq<EventRecord>) -> Seq<String>
    decreases rs.len(),
{
    if rs.len() == 0 {
        Seq::empty()
    } else {
        let p = pending_paths_of(rs.drop_last());
        if rs.last().disposition is Pending {
            p.push(rs.last().path)
        } else {
            p
        }
    }
}

pub proof fn lemma_pending_paths_len(rs: Seq<EventRecord>)
    ensures
        pending_paths_of(rs).len() == pending_count(rs),
    decreases rs.len(),
{
    if rs.len() > 0 {
        lemma_pending_paths_len(rs.drop_last());
    }
}

/// The ids of the succeeded records, in record order.
pub open spec fn succeeded_ids_of(rs: Seq<EventRecord>) -> Seq<String>
    decreases rs.len(),
{
    if rs.len() == 0 {
        Seq::empty()
    } else {
        let p = succeeded_ids_of(rs.drop_last());
        if rs.last().disposition is Succeeded {
            p.push(rs.last().id)
        } else {
            p
        }
    }
}

/// The pending records a given library claims, as pairs of record index and
/// path, in record order.
pub open spec fn wanted_for(rs: Seq<EventRecord>, l: LibraryV) -> Seq<(usize, String)>
    decreases rs.len(),
{
    if rs.len() == 0 {
        Seq::empty()
    } else {
        let p = wanted_for(rs.drop_last(), l);
        if rs.last().disposition is Pending && library_matches(l, rs.last().path@) {
            p.push((((rs.len() - 1) as usize), rs.last().path))
        } else {
            p
        }
    }
}

/// Every wanted pair indexes a pending record and carries its path, and the
/// indices are strictly increasing, hence distinct.
pub proof fn lemma_wanted_for_props(rs: Seq<EventRecord>, l: LibraryV)
    requires
        rs.len() <= usize::MAX,
    ensures
        forall|j: int|
            0 <= j < wanted_for(rs, l).len() ==> {
                let w = #[trigger] wanted_for(rs, l)[j];
                &&& w.0 < rs.len()
                &&& rs[w.0 as int].disposition is Pending
                &&& w.1 == rs[w.0 as int].path
            },
        forall|j: int, k: int|
            0 <= j < k < wanted_for(rs, l).len() ==> #[trigger] wanted_for(rs, l)[j].0
                < #[trigger] wanted_for(rs, l)[k].0,
    decreases rs.len(),
{
    if rs.len() > 0 {
        lemma_wanted_for_props(rs.drop_last(), l);
        assert(forall|i: int| 0 <= i < rs.len() - 1 ==> rs.drop_last()[i] == rs[i]);
        let p = wanted_for(rs.drop_last(), l);
        let w = wanted_for(rs, l);
        if rs.last().disposition is Pending && library_matches(l, rs.last().path@) {
            assert(w == p.push((((rs.len() - 1) as usize), rs.last().path)));
            assert(forall|j: int| 0 <= j < p.len() ==> w[j] == p[j]);
            assert(w[w.len() - 1] == (((rs.len() - 1) as usize), rs.last().path));
            assert(forall|j: int|
                0 <= j < p.len() ==> (#[trigger] w[j]).0 < rs.len() - 1) by {
                assert(forall|j: int| 0 <= j < p.len() ==> w[j] == p[j] && p[j].0
                    < rs.drop_last().len());
            }
        } else {
            assert(w == p);
        }
    }
}

/// Where the run stands: which tier acts next. A retry round number counts
/// 1 through 4: one immediate round and three backoff rounds.
#[derive(Clone, Copy, PartialEq, Eq, Structural, Debug)]
pub enum Phase {
    BatchScan,
    RetryRound(u8),
    Enumerate,
    Done,
}

/// The round a retry phase is about to issue.
pub open spec fn round_of(p: Phase) -> u8 {
    match p {
        Phase::RetryRound(r) => r,
        _ => 0,
    }
}

/// The reconciliation run: per-event records, the tier that acts next, and
/// whether the enumeration fallback is enabled.
pub struct Reconciler {
    pub records: Vec<EventRecord>,
    pub phase: Phase,
    pub refresh_metadata: bool,
}

impl Reconciler {
    /// The run's invariant: the batch tier and every retry round run only
    /// while something is unresolved (a tier stops as soon as the remaining
    /// set empties), rounds count 1 through 4, and a finished run has every
    /// record decided.
    pub open spec fn wf(self) -> bool {
        &&& (self.phase is BatchScan ==> pending_count(self.records@) > 0)
        &&& (self.phase matches Phase::RetryRound(r) ==> 1 <= r <= 4 && pending_count(
            self.records@,
        ) > 0)
        &&& (self.phase is Done ==> all_decided(self.records@))
    }

    /// Starts a run: one record per event in input order. An event that no
    /// configured library claims is dispositioned `Succeeded` at once,
    /// before any network call; the rest await the batch tier.
    pub fn new(events: &Vec<ChangeEvent>, libraries: &Vec<Library>, refresh_metadata: bool) -> (r:
        Reconciler)
        ensures
            r.wf(),
            r.records@ == initial_records(events@, library_views(libraries@)),
            r.refresh_metadata == refresh_metadata,
            (r.phase is Done <==> pending_count(r.records@) == 0),
            pending_count(r.records@) > 0 ==> r.phase is BatchScan,
    {
        let ghost libs = library_views(libraries@);
        let mut records: Vec<EventRecord> = Vec::new();
        let mut i: usize = 0;
        proof {
            assert(records@ =~= initial_records(events@.take(0), libs));
        }
        while i < events.len()
            invariant
                i <= events@.len(),
                records@ == initial_records(events@.take(i as int), libs),
                libs == library_views(libraries@),
            decreases events@.len() - i,
        {
            let ghost before = records@;
            let claimed = any_library_claims(libraries, &events[i].path);
            records.push(
                EventRecord {
                    id: events[i].id.clone(),
                    path: events[i].path.clone(),
                    disposition: if claimed {
                        Disposition::Pending
                    } else {
                        Disposition::Succeeded
                    },
                },
            );
            i = i + 1;
            proof {
                assert(records@ =~= initial_records(events@.take(i as int), libs));
            }
        }
        proof {
            assert(events@.take(events@.len() as int) =~= events@);
        }
        let pending = has_pending(&records);
        let r = Reconciler {
            records,
            phase: if pending {
                Phase::BatchScan
            } else {
                Phase::Done
            },
            refresh_metadata,
        };
        proof {
            lemma_pending_count_zero(r.records@);
        }
        r
    }

    /// The paths the next request must carry: one per pending record, in
    /// record order. Tier 1 sends them as one batch; a retry round issues
    /// one individual scan for each.
    pub fn pending_paths(&self) -> (r: Vec<String>)
        ensures
            r@ == pending_paths_of(self.records@),
            r@.len() == pending_count(self.records@),
    {
        let mut r: Vec<String> = Vec::new();
        let mut i: usize = 0;
        proof {
            assert(r@ =~= pending_paths_of(self.records@.take(0)));
        }
        while i < self.records.len()
            invariant
                i <= self.records@.len(),
                r@ == pending_paths_of(self.records@.take(i as int)),
            decreases self.records@.len() - i,
        {
            proof {
                assert(self.records@.take(i + 1).drop_last() =~= self.records@.take(i as int));
                assert(self.records@.take(i + 1).last() == self.records@[i as int]);
            }
            if self.records[i].disposition == Disposition::Pending {
                r.push(self.records[i].path.clone());
            }
            i = i + 1;
        }
        proof {
            assert(self.records@.take(self.records@.len() as int) =~= self.records@);
            lemma_pending_paths_len(self.records@);
        }
        r
    }

    /// Applies the batch tier's answer. `None` means the batch endpoint
    /// failed outright (absent, transport error, unparseable body): then no
    /// record changes and every pending event proceeds to the retry tier —
    /// none is pre-resolved. A present answer settles exactly the pending
    /// events whose path it marks resolved or terminally not found.
    pub fn apply_batch(&mut self, response: Option<Vec<ScanPathResponse>>)
        requires
            old(self).wf(),
            old(self).phase is BatchScan,
        ensures
            final(self).wf(),
            final(self).refresh_metadata == old(self).refresh_metadata,
            (match response {
                Option::Some(results) => final(self).records@ == batch_updated(
                    old(self).records@,
                    results@,
                ),
                Option::None => final(self).records@ == old(self).records@,
            }),
            pending_count(final(self).records@) == 0 ==> final(self).phase is Done,
            pending_count(final(self).records@) > 0 ==> final(self).phase == Phase::RetryRound(
                1u8,
            ),
    {
        let ghost rs0 = self.records@;
        match &response {
            Option::None => {},
            Option::Some(results) => {
                let n = self.records.len();
                let mut i: usize = 0;
                while i < n
                    invariant
                        i <= n,
                        n == self.records@.len(),
                        n == rs0.len(),
                        forall|j: int| i <= j < n ==> self.records@[j] == rs0[j],
                        forall|j: int|
                            0 <= j < i ==> self.records@[j] == batch_updated(rs0, results@)[j],
                        self.phase == old(self).phase,
                        self.refresh_metadata == old(self).refresh_metadata,
                    decreases n - i,
                {
                    if self.records[i].disposition == Disposition::Pending {
                        if batch_resolves(results, &self.records[i].path) {
                            self.records[i].disposition = Disposition::Succeeded;
                        }
                    }
                    proof {
                        assert(self.records@[i as int] == batch_updated(rs0, results@)[i as int]);
                    }
                    i = i + 1;
                }
                proof {
                    assert(self.records@ =~= batch_updated(rs0, results@));
                }
            },
        }
        if has_pending(&self.records) {
            self.phase = Phase::RetryRound(1);
        } else {
            self.phase = Phase::Done;
            proof {
                lemma_pending_count_zero(self.records@);
            }
        }
    }

    /// Applies one retry round's per-event outcomes. `outcomes[k]` answers
    /// for the `k`-th pending record: `None` is an errored call (the event
    /// stays for the next round), a present answer settles the event exactly
    /// when its status resolves or terminally not-finds the path. After the
    /// last round, what remains goes to the enumeration fallback if that is
    /// enabled, and is dispositioned `Failed` otherwise.
    pub fn apply_round(&mut self, outcomes: &Vec<Option<ScanPathResponse>>)
        requires
            old(self).wf(),
            old(self).phase matches Phase::RetryRound(r),
            outcomes@.len() == pending_count(old(self).records@),
        ensures
            final(self).wf(),
            final(self).refresh_metadata == old(self).refresh_metadata,
            ({
                let mid = round_updated(old(self).records@, outcomes@);
                let r = round_of(old(self).phase);
                &&& (pending_count(mid) == 0 ==> final(self).records@ == mid && final(self).phase
                    is Done)
                &&& (pending_count(mid) > 0 && r < 4 ==> final(self).records@ == mid
                    && final(self).phase == Phase::RetryRound((r + 1) as u8))
                &&& (pending_count(mid) > 0 && r == 4 && old(self).refresh_metadata
                    ==> final(self).records@ == mid && final(self).phase is Enumerate)
                &&& (pending_count(mid) > 0 && r == 4 && !old(self).refresh_metadata
                    ==> final(self).records@ == fail_pending(mid) && final(self).phase is Done)
            }),
    {
        let round = match self.phase {
            Phase::RetryRound(r) => r,
            _ => 1u8,
        };
        let ghost rs0 = self.records@;
        let n = self.records.len();
        let m = outcomes.len();
        let mut i: usize = 0;
        let mut k: usize = 0;
        while i < n
            invariant
                i <= n,
                n == self.records@.len(),
                n == rs0.len(),
                k == pending_count(rs0.take(i as int)),
                m == outcomes@.len(),
                outcomes@.len() == pending_count(rs0),
                forall|j: int| i <= j < n ==> self.records@[j] == rs0[j],
                forall|j: int|
                    0 <= j < i ==> self.records@[j] == round_updated(rs0, outcomes@)[j],
                self.phase == old(self).phase,
                self.refresh_metadata == old(self).refresh_metadata,
            decreases n - i,
        {
            proof {
                assert(rs0.take(i + 1).drop_last() =~= rs0.take(i as int));
                assert(rs0.take(i + 1).last() == rs0[i as int]);
            }
            if self.records[i].disposition == Disposition::Pending {
                proof {
                    lemma_pending_rank_lt(rs0, i as int);
                }
                match &outcomes[k] {
                    Option::Some(res) => {
                        if status_settles(&res.status) {
                            self.records[i].disposition = Disposition::Succeeded;
                        }
                    },
                    Option::None => {},
                }
                k = k + 1;
            }
            proof {
                assert(self.records@[i as int] == round_updated(rs0, outcomes@)[i as int]);
            }
            i = i + 1;
        }
        proof {
            assert(self.records@ =~= round_updated(rs0, outcomes@));
        }
        if has_pending(&self.records) {
            if round < 4 {
                self.phase = Phase::RetryRound(round + 1);
            } else if self.refresh_metadata {
                self.phase = Phase::Enumerate;
            } else {
                fail_all_pending(&mut self.records);
                self.phase = Phase::Done;
            }
        } else {
            self.phase = Phase::Done;
            proof {
                lemma_pending_count_zero(self.records@);
            }
        }
    }

    /// True when the enumeration fallback is configured on.
    pub fn use_fallback(&self) -> (r: bool)
        ensures
            r == self.refresh_metadata,
    {
        self.refresh_metadata
    }

    /// The pending records the given library claims: what the enumeration of
    /// that library's catalog must still find. Pairs of record index and
    /// path, in record order.
    pub fn fallback_wanted(&self, library: &Library) -> (w: Vec<(usize, String)>)
        ensures
            w@ == wanted_for(self.records@, library@),
    {
        let mut w: Vec<(usize, String)> = Vec::new();
        let mut i: usize = 0;
        proof {
            assert(w@ =~= wanted_for(self.records@.take(0), library@));
        }
        while i < self.records.len()
            invariant
                i <= self.records@.len(),
                w@ == wanted_for(self.records@.take(i as int), library@),
            decreases self.records@.len() - i,
        {
            proof {
                assert(self.records@.take(i + 1).drop_last() =~= self.records@.take(i as int));
                assert(self.records@.take(i + 1).last() == self.records@[i as int]);
            }
            if self.records[i].disposition == Disposition::Pending && library_claims(
                library,
                &self.records[i].path,
            ) {
                w.push((i, self.records[i].path.clone()));
            }
            i = i + 1;
        }
        proof {
            assert(self.records@.take(self.records@.len() as int) =~= self.records@);
        }
        w
    }

    /// Opens the enumeration of one library's catalog: a scan that wants
    /// exactly the pending events that library claims.
    pub fn start_catalog_scan(&self, library: &Library) -> (s: CatalogScan)
        ensures
            s.wf(),
            s.wanted@ == wanted_for(self.records@, library@),
            s.found@ == Seq::<(usize, String)>::empty(),
    {
        let w = self.fallback_wanted(library);
        proof {
            assert(self.records@.len() == self.records.len());
            lemma_wanted_for_props(self.records@, library@);
        }
        CatalogScan::new(w)
    }

    /// Applies the result of one explicit metadata refresh, issued for a
    /// record the enumeration matched: success settles the event, a refresh
    /// failure is terminal for that event alone.
    pub fn apply_refresh(&mut self, idx: usize, ok: bool)
        requires
            old(self).wf(),
            old(self).phase is Enumerate,
            idx < old(self).records@.len(),
            old(self).records@[idx as int].disposition is Pending,
        ensures
            final(self).wf(),
            final(self).refresh_metadata == old(self).refresh_metadata,
            final(self).phase == old(self).phase,
            final(self).records@ == old(self).records@.update(
                idx as int,
                set_disposition(
                    old(self).records@[idx as int],
                    if ok {
                        Disposition::Succeeded
                    } else {
                        Disposition::Failed
                    },
                ),
            ),
    {
        self.records[idx].disposition = if ok {
            Disposition::Succeeded
        } else {
            Disposition::Failed
        };
        proof {
            assert(self.records@ =~= old(self).records@.update(
                idx as int,
                set_disposition(
                    old(self).records@[idx as int],
                    if ok {
                        Disposition::Succeeded
                    } else {
                        Disposition::Failed
                    },
                ),
            ));
        }
    }

    /// Ends the enumeration fallback: every event no library's catalog
    /// matched — and, when the fallback was not wanted, every leftover event
    /// — is dispositioned `Failed`. The run is then finished.
    pub fn finish_fallback(&mut self)
        requires
            old(self).wf(),
            old(self).phase is Enumerate,
        ensures
            final(self).wf(),
            final(self).refresh_metadata == old(self).refresh_metadata,
            final(self).records@ == fail_pending(old(self).records@),
            final(self).phase is Done,
    {
        fail_all_pending(&mut self.records);
        self.phase = Phase::Done;
    }

    /// The ids of the succeeded events, in input order: the run's result.
    /// Failed ids are exactly the input ids not present here.
    pub fn succeeded_ids(&self) -> (r: Vec<String>)
        ensures
            r@ == succeeded_ids_of(self.records@),
    {
        let mut r: Vec<String> = Vec::new();
        let mut i: usize = 0;
        proof {
            assert(r@ =~= succeeded_ids_of(self.records@.take(0)));
        }
        while i < self.records.len()
            invariant
                i <= self.records@.len(),
                r@ == succeeded_ids_of(self.records@.take(i as int)),
            decreases self.records@.len() - i,
        {
            proof {
                assert(self.records@.take(i + 1).drop_last() =~= self.records@.take(i as int));
                assert(self.records@.take(i + 1).last() == self.records@[i as int]);
            }
            if self.records[i].disposition == Disposition::Succeeded {
                r.push(self.records[i].id.clone());
            }
            i = i + 1;
        }
        proof {
            assert(self.records@.take(self.records@.len() as int) =~= self.records@);
        }
        r
    }
}

/// Decides whether any record still awaits a disposition.
fn has_pending(records: &Vec<EventRecord>) -> (r: bool)
    ensures
        r == (pending_count(records@) > 0),
{
    let mut i: usize = 0;
    while i < records.len()
        invariant
            i <= records@.len(),
            pending_count(records@.take(i as int)) == 0,
        decreases records@.len() - i,
    {
        proof {
            assert(records@.take(i + 1).drop_last() =~= records@.take(i as int));
            assert(records@.take(i + 1).last() == records@[i as int]);
        }
        if records[i].disposition == Disposition::Pending {
            proof {
                lemma_pending_count_take_le(records@, i + 1);
            }
            return true;
        }
        i = i + 1;
    }
    proof {
        assert(records@.take(records@.len() as int) =~= records@);
    }
    false
}

/// Marks every pending record `Failed`.
fn fail_all_pending(records: &mut Vec<EventRecord>)
    ensures
        final(records)@ == fail_pending(old(records)@),
{
    let ghost rs0 = records@;
    let n = records.len();
    let mut i: usize = 0;
    while i < n
        invariant
            i <= n,
            n == records@.len(),
            n == rs0.len(),
            forall|j: int| i <= j < n ==> records@[j] == rs0[j],
            forall|j: int| 0 <= j < i ==> records@[j] == fail_pending(rs0)[j],
        decreases n - i,
    {
        if records[i].disposition == Disposition::Pending {
            records[i].disposition = Disposition::Failed;
        }
        proof {
            assert(records@[i as int] == fail_pending(rs0)[i as int]);
        }
        i = i + 1;
    }
    proof {
        assert(records@ =~= fail_pending(rs0));
    }
}

/// Law: a finished run leaves every submitted event with exactly one final
/// disposition — each record reads `Succeeded` or else `Failed`, never still
/// `Pending`. Together with the tier steps, which keep one record per input
/// event in input order, no event is dropped or counted twice.
pub proof fn lemma_every_event_dispositioned(r: Reconciler)
    requires
        r.wf(),
        r.phase is Done,
    ensures
        forall|i: int|
            0 <= i < r.records@.len() ==> ((#[trigger] r.records@[i]).disposition is Succeeded
                <==> !(r.records@[i].disposition is Failed)),
{
    assert(all_decided(r.records@));
}

/// Law: no tier step adds, drops or reorders records, and none touches an
/// id or a path — a step moves dispositions only. With one record per input
/// event, every submitted id keeps exactly one slot from start to finish.
pub proof fn lemma_steps_preserve_identity(
    rs: Seq<EventRecord>,
    results: Seq<ScanPathResponse>,
    outcomes: Seq<Option<ScanPathResponse>>,
)
    ensures
        batch_updated(rs, results).len() == rs.len(),
        round_updated(rs, outcomes).len() == rs.len(),
        fail_pending(rs).len() == rs.len(),
        forall|i: int|
            0 <= i < rs.len() ==> #[trigger] batch_updated(rs, results)[i].id == rs[i].id
                && batch_updated(rs, results)[i].path == rs[i].path,
        forall|i: int|
            0 <= i < rs.len() ==> #[trigger] round_updated(rs, outcomes)[i].id == rs[i].id
                && round_updated(rs, outcomes)[i].path == rs[i].path,
        forall|i: int|
            0 <= i < rs.len() ==> #[trigger] fail_pending(rs)[i].id == rs[i].id && fail_pending(
                rs,
            )[i].path == rs[i].path,
{
}

/// Law: retry rounds are numbered 1 through 4 — at most four are ever
/// issued — and a round is only ever entered while some event remains
/// unresolved: once the remaining set empties, the run is done.
pub proof fn lemma_at_most_four_rounds(r: Reconciler)
    requires
        r.wf(),
    ensures
        r.phase matches Phase::RetryRound(k) ==> 1 <= k <= 4 && pending_count(r.records@) > 0,
{
}

/// Law: a batch answer that fails outright pre-resolves nothing — every
/// record keeps its disposition, so exactly the events that were pending
/// proceed to the first retry round.
pub proof fn lemma_failed_batch_keeps_all(pre: Reconciler, post: Reconciler)
    requires
        pre.wf(),
        pre.phase is BatchScan,
        post.records@ == pre.records@,
    ensures
        pending_count(post.records@) == pending_count(pre.records@),
        forall|i: int|
            0 <= i < post.records@.len() ==> #[trigger] post.records@[i].disposition
                == pre.records@[i].disposition,
{
}

} // verus!
