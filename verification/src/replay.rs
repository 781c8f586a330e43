use vstd::prelude::*;

use crate::interfaces::{Address, Bytes32, ReplayError, ReplayEventStatus};

verus! {

/// A single event in the replay log.
pub struct ReplayEvent {
    /// Unique identifier for this event in the replay log.
    pub id: u64,
    /// Protocol identifier (e.g., PROTOCOL, PROTOCOL_CONFIG).
    pub protocol: String,
    /// Action symbol (e.g., ACT_INIT, ACT_DEPOSIT).
    pub action: String,
    /// Timestamp of the original event.
    pub timestamp: u64,
    /// Raw event payload, in its XDR encoding.
    pub payload: Vec<u8>,
    /// Status of this event in the replay.
    pub status: ReplayEventStatus,
    /// Error message if replay failed (empty if success).
    pub error_message: Vec<u8>,
}

/// A replay event as plain values.
#[verifier::ext_equal]
pub struct ReplayEventView {
    pub id: u64,
    pub protocol: Seq<char>,
    pub action: Seq<char>,
    pub timestamp: u64,
    pub payload: Seq<u8>,
    pub status: ReplayEventStatus,
    pub error_message: Seq<u8>,
}

impl View for ReplayEvent {
    type V = ReplayEventView;

    open spec fn view(&self) -> ReplayEventView {
        ReplayEventView {
            id: self.id,
            protocol: self.protocol@,
            action: self.action@,
            timestamp: self.timestamp,
            payload: self.payload@,
            status: self.status,
            error_message: self.error_message@,
        }
    }
}

fn copy_bytes(v: &Vec<u8>) -> (c: Vec<u8>)
    ensures
        c@ == v@,
{
    let mut c: Vec<u8> = Vec::new();
    let mut i: usize = 0;
    while i < v.len()
        invariant
            0 <= i <= v@.len(),
            c@ == v@.take(i as int),
        decreases v.len() - i,
    {
        c.push(v[i]);
        i = i + 1;
        assert(c@ =~= v@.take(i as int));
    }
    assert(v@.take(i as int) =~= v@);
    c
}

impl ReplayEvent {
    /// A copy of the event.
    pub fn copy(&self) -> (c: Self)
        ensures
            c@ == self@,
    {
        ReplayEvent {
            id: self.id,
            protocol: self.protocol.clone(),
            action: self.action.clone(),
            timestamp: self.timestamp,
            payload: copy_bytes(&self.payload),
            status: self.status,
            error_message: copy_bytes(&self.error_message),
        }
    }
}

/// Result of a full replay run.
#[derive(Clone, Copy, Debug, Eq, PartialEq, Structural)]
pub struct ReplayReport {
    /// Unique identifier for this replay run.
    pub run_id: Bytes32,
    /// Total number of events processed.
    pub total_events: u64,
    /// Number of successful events.
    pub successful_events: u64,
    /// Number of failed events.
    pub failed_events: u64,
    /// Number of skipped events.
    pub skipped_events: u64,
    /// Timestamp when replay started.
    pub started_at: u64,
    /// Timestamp when replay ended.
    pub ended_at: u64,
    /// Whether the entire replay was considered successful.
    pub success: bool,
}

pub open spec fn event_views(s: Seq<ReplayEvent>) -> Seq<ReplayEventView> {
    s.map_values(|e: ReplayEvent| e@)
}

/// Event ids increase along the log and stay below the next id to hand out.
pub open spec fn ids_increasing(s: Seq<ReplayEventView>, next_id: u64) -> bool {
    &&& forall|i: int, j: int| 0 <= i < j < s.len() ==> s[i].id < s[j].id
    &&& forall|i: int| 0 <= i < s.len() ==> (#[trigger] s[i]).id < next_id
}

/// Number of logged events not yet processed: those above the last processed id.
pub open spec fn count_above(s: Seq<ReplayEventView>, last: u64) -> nat
    decreases s.len(),
{
    if s.len() == 0 {
        0
    } else {
        count_above(s.drop_last(), last) + if s.last().id > last {
            1nat
        } else {
            0nat
        }
    }
}

/// The log after a replay: every event above `last` is marked replayed successfully.
pub open spec fn replayed(s: Seq<ReplayEventView>, last: u64) -> Seq<ReplayEventView> {
    s.map_values(
        |e: ReplayEventView|
            if e.id > last {
                ReplayEventView { status: ReplayEventStatus::Success, ..e }
            } else {
                e
            },
    )
}

/// The id under which a replay run started at `timestamp` is reported.
pub open spec fn run_id_for(timestamp: u64) -> Bytes32 {
    Bytes32 { high: 0, low: timestamp as u128 }
}

proof fn lemma_count_above_bound(s: Seq<ReplayEventView>, last: u64)
    ensures
        count_above(s, last) <= s.len(),
    decreases s.len(),
{
    if s.len() > 0 {
        lemma_count_above_bound(s.drop_last(), last);
    }
}

/// No two reports share a run id.
pub open spec fn run_ids_unique(reports: Seq<ReplayReport>) -> bool {
    forall|i: int, j: int|
        0 <= i < reports.len() && 0 <= j < reports.len() && i != j ==> reports[i].run_id != reports[j].run_id
}

/// The stored state of the event replay engine.
pub struct ReplayContract {
    pub admin: Option<Address>,
    pub next_event_id: u64,
    pub last_processed_event_id: u64,
    /// The logged events, in the order they were added.
    pub events: Vec<ReplayEvent>,
    /// The reports of past runs, in the order they were first recorded.
    pub reports: Vec<ReplayReport>,
}

impl ReplayContract {
    pub open spec fn log(&self) -> Seq<ReplayEventView> {
        event_views(self.events@)
    }

    /// Event ids increase along the log and stay below the next id; each run
    /// id has at most one report.
    pub open spec fn wf(&self) -> bool {
        &&& ids_increasing(self.log(), self.next_event_id)
        &&& self.next_event_id >= 1
        &&& run_ids_unique(self.reports@)
    }

    /// Returns the contract version.
    pub fn version() -> (v: u32)
        ensures
            v == 1,
    {
        1
    }

    /// An engine before initialization: nothing stored.
    pub fn new() -> (c: Self)
        ensures
            c.wf(),
            c.admin is None,
            c.log().len() == 0,
            c.reports@.len() == 0,
    {
        let c = ReplayContract { admin: None, next_event_id: 1, last_processed_event_id: 0, events: Vec::new(), reports: Vec::new() };
        assert(c.log() =~= Seq::<ReplayEventView>::empty());
        c
    }

    /// Initializes the replay engine with an admin.
    pub fn initialize(&mut self, admin: Address) -> (r: Result<(), ReplayError>)
        requires
            old(self).wf(),
        ensures
            final(self).wf(),
            old(self).admin is Some ==> r == Err::<(), ReplayError>(ReplayError::AlreadyInitialized)
                && *final(self) == *old(self),
            old(self).admin is None ==> r is Ok && final(self).admin == Some(admin)
                && final(self).next_event_id == 1 && final(self).last_processed_event_id == 0
                && final(self).log().len() == 0 && final(self).reports@.len() == 0,
    {
        if self.admin.is_some() {
            return Err(ReplayError::AlreadyInitialized);
        }
        self.admin = Some(admin);
        self.next_event_id = 1;
        self.last_processed_event_id = 0;
        self.events = Vec::new();
        self.reports = Vec::new();
        assert(self.log() =~= Seq::<ReplayEventView>::empty());
        Ok(())
    }

    /// Adds a historical event to the replay log, pending, under the next id
    /// (the admin's authorization is checked by the host).
    pub fn add_event(&mut self, protocol: String, action: String, timestamp: u64, payload: Vec<u8>) -> (r: Result<u64, ReplayError>)
        requires
            old(self).wf(),
            old(self).next_event_id < u64::MAX,
        ensures
            final(self).wf(),
            old(self).admin is None ==> r == Err::<u64, ReplayError>(ReplayError::NotInitialized)
                && *final(self) == *old(self),
            old(self).admin is Some ==> r == Ok::<u64, ReplayError>(old(self).next_event_id)
                && final(self).next_event_id == old(self).next_event_id + 1
                && final(self).log() == old(self).log().push(
                ReplayEventView {
                    id: old(self).next_event_id,
                    protocol: protocol@,
                    action: action@,
                    timestamp,
                    payload: payload@,
                    status: ReplayEventStatus::Pending,
                    error_message: Seq::empty(),
                },
            ) && final(self).admin == old(self).admin && final(self).last_processed_event_id
                == old(self).last_processed_event_id && final(self).reports == old(self).reports,
    {
        if self.admin.is_none() {
            return Err(ReplayError::NotInitialized);
        }
        let event_id = self.next_event_id;
        let event = ReplayEvent {
            id: event_id,
            protocol,
            action,
            timestamp,
            payload,
            status: ReplayEventStatus::Pending,
            error_message: Vec::new(),
        };
        let ghost v = event@;
        self.events.push(event);
        self.next_event_id = event_id + 1;
        proof {
            assert(self.log() =~= old(self).log().push(v));
            assert(v.error_message =~= Seq::<u8>::empty());
        }
        Ok(event_id)
    }

    /// Replays the log from the last checkpoint at ledger time `now`: every
    /// event not yet processed is replayed, the others are counted as skipped,
    /// and the report is stored under the run id.
    pub fn start_replay(&mut self, now: u64) -> (r: Result<ReplayReport, ReplayError>)
        requires
            old(self).wf(),
        ensures
            final(self).wf(),
            old(self).admin is None ==> r == Err::<ReplayReport, ReplayError>(ReplayError::NotInitialized)
                && *final(self) == *old(self),
            old(self).admin is Some ==> (r matches Ok(rep) && {
                &&& rep.run_id == run_id_for(now)
                &&& rep.total_events == count_above(old(self).log(), old(self).last_processed_event_id)
                &&& rep.successful_events == rep.total_events
                &&& rep.failed_events == 0
                &&& rep.skipped_events + rep.total_events == old(self).log().len()
                &&& rep.started_at == now
                &&& rep.ended_at == now
                &&& rep.success
                &&& final(self).log() == replayed(old(self).log(), old(self).last_processed_event_id)
                &&& (old(self).log().len() > 0 && old(self).log().last().id > old(self).last_processed_event_id
                    ==> final(self).last_processed_event_id == old(self).log().last().id)
                &&& (old(self).log().len() == 0 || old(self).log().last().id <= old(self).last_processed_event_id
                    ==> final(self).last_processed_event_id == old(self).last_processed_event_id)
                &&& final(self).reports@.len() >= 1
                &&& final(self).reports@.contains(rep)
                &&& forall|k: int|
                    0 <= k < final(self).reports@.len() && (#[trigger] final(self).reports@[k]).run_id == rep.run_id
                        ==> final(self).reports@[k] == rep
                &&& forall|k: int|
                    0 <= k < old(self).reports@.len() && old(self).reports@[k].run_id != rep.run_id
                        ==> final(self).reports@.contains(#[trigger] old(self).reports@[k])
            }),
            final(self).admin == old(self).admin,
            final(self).next_event_id == old(self).next_event_id,
    {
        if self.admin.is_none() {
            return Err(ReplayError::NotInitialized);
        }
        let run_id = Bytes32 { high: 0, low: now as u128 };
        let started_at = now;
        let last_processed = self.last_processed_event_id;
        let ghost log0 = self.log();
        let mut total_events: u64 = 0;
        let mut skipped_events: u64 = 0;
        let mut i: usize = 0;
        proof {
            lemma_count_above_bound(log0, last_processed);
        }
        while i < self.events.len()
            invariant
                0 <= i <= self.events@.len(),
                self.events@.len() == log0.len(),
                ids_increasing(log0, self.next_event_id),
                self.next_event_id == old(self).next_event_id,
                self.admin == old(self).admin,
                self.reports == old(self).reports,
                last_processed == old(self).last_processed_event_id,
                log0 == old(self).log(),
                forall|k: int| 0 <= k < i ==> (#[trigger] self.log()[k]) == replayed(log0, last_processed)[k],
                forall|k: int| i <= k < log0.len() ==> (#[trigger] self.log()[k]) == log0[k],
                total_events == count_above(log0.take(i as int), last_processed),
                skipped_events + total_events == i,
                i > 0 && log0[i - 1].id > last_processed ==> self.last_processed_event_id == log0[i - 1].id,
                (i == 0 || log0[i - 1].id <= last_processed) ==> self.last_processed_event_id == last_processed,
                self.last_processed_event_id >= last_processed,
            decreases self.events.len() - i,
        {
            proof {
                assert(log0.take(i + 1).drop_last() =~= log0.take(i as int));
                assert(log0.take(i + 1).last() == log0[i as int]);
                assert(self.log()[i as int] == log0[i as int]);
                if i > 0 {
                    assert(log0[i - 1].id < log0[i as int].id);
                }
            }
            let event_id = self.events[i].id;
            if event_id <= last_processed {
                assert(replayed(log0, last_processed)[i as int] == log0[i as int]);
                skipped_events = skipped_events + 1;
            } else {
                let mut event = self.events[i].copy();
                event.status = ReplayEventStatus::Success;
                let ghost v = event@;
                let ghost prev = self.log();
                self.events.set(i, event);
                proof {
                    assert(self.log() =~= prev.update(i as int, v));
                    assert(v =~= replayed(log0, last_processed)[i as int]);
                    assert forall|k: int| 0 <= k < log0.len() && k != i implies #[trigger] self.log()[k] == event_views(
                        self.events@,
                    )[k] by {}
                }
                total_events = total_events + 1;
                self.last_processed_event_id = event_id;
            }
            i = i + 1;
        }
        proof {
            assert(log0.take(i as int) =~= log0);
            assert(self.log() =~= replayed(log0, last_processed));
        }
        let report = ReplayReport {
            run_id,
            total_events,
            successful_events: total_events,
            failed_events: 0,
            skipped_events,
            started_at,
            ended_at: now,
            success: true,
        };
        self.set_report(report);
        Ok(report)
    }

    /// Store a report under its run id, replacing an earlier one with the same id.
    fn set_report(&mut self, report: ReplayReport)
        requires
            run_ids_unique(old(self).reports@),
        ensures
            run_ids_unique(final(self).reports@),
            forall|k: int|
                0 <= k < final(self).reports@.len() && (#[trigger] final(self).reports@[k]).run_id == report.run_id
                    ==> final(self).reports@[k] == report,
            final(self).reports@.contains(report),
            final(self).reports@.len() >= 1,
            final(self).admin == old(self).admin,
            final(self).next_event_id == old(self).next_event_id,
            final(self).last_processed_event_id == old(self).last_processed_event_id,
            final(self).events == old(self).events,
            forall|k: int| 0 <= k < old(self).reports@.len() && old(self).reports@[k].run_id != report.run_id
                ==> final(self).reports@.contains(#[trigger] old(self).reports@[k]),
    {
        let mut i: usize = 0;
        while i < self.reports.len()
            invariant
                0 <= i <= self.reports@.len(),
                *self == *old(self),
                run_ids_unique(old(self).reports@),
                forall|k: int| 0 <= k < i ==> (#[trigger] self.reports@[k]).run_id != report.run_id,
            decreases self.reports.len() - i,
        {
            if self.reports[i].run_id == report.run_id {
                self.reports.set(i, report);
                proof {
                    assert(self.reports@[i as int] == report);
                    assert forall|a: int, b: int|
                        0 <= a < self.reports@.len() && 0 <= b < self.reports@.len() && a != b
                        implies self.reports@[a].run_id != self.reports@[b].run_id by {
                        if a != i && b != i {
                            assert(self.reports@[a] == old(self).reports@[a] && self.reports@[b] == old(self).reports@[b]);
                        } else if a == i {
                            assert(self.reports@[b] == old(self).reports@[b]);
                            assert(old(self).reports@[i as int].run_id == report.run_id);
                        } else {
                            assert(self.reports@[a] == old(self).reports@[a]);
                            assert(old(self).reports@[i as int].run_id == report.run_id);
                        }
                    }
                    assert forall|k: int|
                        0 <= k < self.reports@.len() && (#[trigger] self.reports@[k]).run_id == report.run_id
                        implies self.reports@[k] == report by {
                        if k != i {
                            assert(self.reports@[k] == old(self).reports@[k]);
                            assert(old(self).reports@[i as int].run_id == report.run_id);
                        }
                    }
                    assert forall|k: int| 0 <= k < old(self).reports@.len() && old(self).reports@[k].run_id != report.run_id
                        implies self.reports@.contains(#[trigger] old(self).reports@[k]) by {
                        assert(self.reports@[k] == old(self).reports@[k]);
                    }
                }
                return;
            }
            i = i + 1;
        }
        self.reports.push(report);
        proof {
            assert(self.reports@[self.reports@.len() - 1] == report);
            let n = old(self).reports@.len() as int;
            assert forall|a: int, b: int|
                0 <= a < self.reports@.len() && 0 <= b < self.reports@.len() && a != b
                implies self.reports@[a].run_id != self.reports@[b].run_id by {
                if a < n && b < n {
                    assert(self.reports@[a] == old(self).reports@[a] && self.reports@[b] == old(self).reports@[b]);
                } else if a < n {
                    assert(self.reports@[a] == old(self).reports@[a]);
                } else {
                    assert(self.reports@[b] == old(self).reports@[b]);
                }
            }
            assert forall|k: int|
                0 <= k < self.reports@.len() && (#[trigger] self.reports@[k]).run_id == report.run_id
                implies self.reports@[k] == report by {
                if k < n {
                    assert(self.reports@[k] == old(self).reports@[k]);
                }
            }
            assert forall|k: int| 0 <= k < old(self).reports@.len() && old(self).reports@[k].run_id != report.run_id
                implies self.reports@.contains(#[trigger] old(self).reports@[k]) by {
                assert(self.reports@[k] == old(self).reports@[k]);
            }
        }
    }

    /// Gets a replay event by ID.
    pub fn get_event(&self, event_id: u64) -> (r: Result<ReplayEvent, ReplayError>)
        requires
            self.wf(),
        ensures
            self.admin is None ==> (r matches Err(e) && e == ReplayError::NotInitialized),
            self.admin is Some ==> match r {
                Ok(ev) => exists|k: int| 0 <= k < self.log().len() && self.log()[k] == ev@ && ev@.id == event_id,
                Err(e) => e == ReplayError::InvalidEvent && forall|k: int| 0 <= k < self.log().len() ==> (#[trigger] self.log()[k]).id != event_id,
            },
    {
        if self.admin.is_none() {
            return Err(ReplayError::NotInitialized);
        }
        let mut i: usize = 0;
        while i < self.events.len()
            invariant
                0 <= i <= self.events@.len(),
                self.admin is Some,
                forall|k: int| 0 <= k < i ==> (#[trigger] self.log()[k]).id != event_id,
            decreases self.events.len() - i,
        {
            if self.events[i].id == event_id {
                let ev = self.events[i].copy();
                assert(self.log()[i as int] == ev@);
                return Ok(ev);
            }
            i = i + 1;
        }
        Err(ReplayError::InvalidEvent)
    }

    /// Lists all replay events in log order.
    pub fn list_events(&self) -> (r: Result<Vec<ReplayEvent>, ReplayError>)
        ensures
            self.admin is None ==> (r matches Err(e) && e == ReplayError::NotInitialized),
            self.admin is Some ==> (r matches Ok(v) && event_views(v@) == self.log()),
    {
        if self.admin.is_none() {
            return Err(ReplayError::NotInitialized);
        }
        let mut out: Vec<ReplayEvent> = Vec::new();
        let mut i: usize = 0;
        while i < self.events.len()
            invariant
                0 <= i <= self.events@.len(),
                out@.len() == i,
                forall|k: int| 0 <= k < i ==> (#[trigger] out@[k])@ == self.events@[k]@,
            decreases self.events.len() - i,
        {
            out.push(self.events[i].copy());
            i = i + 1;
        }
        assert(event_views(out@) =~= self.log());
        Ok(out)
    }

    /// Gets a replay report by run ID.
    pub fn get_report(&self, run_id: Bytes32) -> (r: Result<ReplayReport, ReplayError>)
        ensures
            self.admin is Some && self.wf() ==> forall|k: int|
                0 <= k < self.reports@.len() && (#[trigger] self.reports@[k]).run_id == run_id
                    ==> r == Ok::<ReplayReport, ReplayError>(self.reports@[k]),
            self.admin is None ==> r == Err::<ReplayReport, ReplayError>(ReplayError::NotInitialized),
            self.admin is Some ==> match r {
                Ok(rep) => self.reports@.contains(rep) && rep.run_id == run_id,
                Err(e) => e == ReplayError::ReplayFailed && forall|k: int| 0 <= k < self.reports@.len() ==> (#[trigger] self.reports@[k]).run_id != run_id,
            },
    {
        if self.admin.is_none() {
            return Err(ReplayError::NotInitialized);
        }
        let mut i: usize = 0;
        while i < self.reports.len()
            invariant
                0 <= i <= self.reports@.len(),
                self.admin is Some,
                forall|k: int| 0 <= k < i ==> (#[trigger] self.reports@[k]).run_id != run_id,
            decreases self.reports.len() - i,
        {
            if self.reports[i].run_id == run_id {
                assert(self.reports@[i as int] == self.reports[i as int]);
                return Ok(self.reports[i]);
            }
            i = i + 1;
        }
        Err(ReplayError::ReplayFailed)
    }

    /// Gets the current admin.
    pub fn admin(&self) -> (r: Result<Address, ReplayError>)
        ensures
            self.admin is None ==> r == Err::<Address, ReplayError>(ReplayError::NotInitialized),
            self.admin is Some ==> r == Ok::<Address, ReplayError>(self.admin->0),
    {
        match self.admin {
            Some(a) => Ok(a),
            None => Err(ReplayError::NotInitialized),
        }
    }
}

} // verus!
