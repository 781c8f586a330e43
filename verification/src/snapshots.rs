use vstd::prelude::*;

use crate::interfaces::LedgerInfo;
use crate::state::{ProtocolStates, RewardState, StakingState, TreasuryState, VaultState};

verus! {

/// Least time between two snapshots, in seconds.
pub const MIN_SNAPSHOT_INTERVAL: u64 = 3600;

#[derive(Clone, Copy, Debug, PartialEq, Eq, Structural)]
pub struct SnapshotMetadata {
    pub id: u64,
    pub timestamp: u64,
    pub ledger: u32,
}

/// The protocol's states recorded at one moment.
#[derive(Clone, Copy, Debug, PartialEq, Eq, Structural)]
pub struct ProtocolSnapshot {
    pub metadata: SnapshotMetadata,
    pub vault_state: VaultState,
    pub staking_state: StakingState,
    pub reward_state: RewardState,
    pub treasury_state: TreasuryState,
}

#[derive(Clone, Copy, Debug, PartialEq, Eq, Structural)]
pub enum SnapshotError {
    IntervalNotMet,
}

impl SnapshotError {
    /// The numeric code under which the error is reported to callers.
    pub fn code(&self) -> (c: u32)
        ensures
            c == 1,
    {
        match self {
            SnapshotError::IntervalNotMet => 1,
        }
    }
}

/// The snapshots taken so far; the one with id `n` is the `n`-th taken.
pub struct SnapshotStore {
    pub snapshots: Vec<ProtocolSnapshot>,
    pub last_timestamp: u64,
}

/// The snapshot the store records at `ledger` for `states`, with id `id`.
pub open spec fn record(id: u64, ledger: LedgerInfo, states: ProtocolStates) -> ProtocolSnapshot {
    ProtocolSnapshot {
        metadata: SnapshotMetadata { id, timestamp: ledger.timestamp, ledger: ledger.sequence },
        vault_state: states.vault,
        staking_state: states.staking,
        reward_state: states.reward,
        treasury_state: states.treasury,
    }
}

impl SnapshotStore {
    /// Snapshots are numbered from 1 in the order they were taken, each at
    /// least an hour after the one before, the last at the recorded time.
    pub open spec fn wf(&self) -> bool {
        &&& self.snapshots@.len() <= u64::MAX
        &&& forall|i: int| 0 <= i < self.snapshots@.len() ==> #[trigger] self.snapshots@[i].metadata.id == i + 1
        &&& forall|i: int|
            0 < i < self.snapshots@.len() ==> #[trigger] self.snapshots@[i].metadata.timestamp
                >= self.snapshots@[i - 1].metadata.timestamp + MIN_SNAPSHOT_INTERVAL
        &&& self.snapshots@.len() > 0 ==> self.last_timestamp == self.snapshots@.last().metadata.timestamp
    }

    /// No snapshot yet.
    pub fn new() -> (s: Self)
        ensures
            s.wf(),
            s.snapshots@.len() == 0,
            s.last_timestamp == 0,
    {
        SnapshotStore { snapshots: Vec::new(), last_timestamp: 0 }
    }

    /// Record `states` at the ledger's time and sequence, at least an hour
    /// after the previous snapshot.
    pub fn take_snapshot(&mut self, ledger: LedgerInfo, states: ProtocolStates) -> (r: Result<ProtocolSnapshot, SnapshotError>)
        requires
            old(self).wf(),
            old(self).last_timestamp + MIN_SNAPSHOT_INTERVAL <= u64::MAX,
            old(self).snapshots@.len() < u64::MAX,
        ensures
            final(self).wf(),
            ledger.timestamp < old(self).last_timestamp + MIN_SNAPSHOT_INTERVAL ==> r == Err::<ProtocolSnapshot, SnapshotError>(
                SnapshotError::IntervalNotMet,
            ) && final(self).snapshots@ == old(self).snapshots@ && final(self).last_timestamp == old(self).last_timestamp,
            ledger.timestamp >= old(self).last_timestamp + MIN_SNAPSHOT_INTERVAL ==> r == Ok::<ProtocolSnapshot, SnapshotError>(
                record((old(self).snapshots@.len() + 1) as u64, ledger, states),
            ) && final(self).snapshots@ == old(self).snapshots@.push(
                record((old(self).snapshots@.len() + 1) as u64, ledger, states),
            ) && final(self).last_timestamp == ledger.timestamp,
    {
        if ledger.timestamp < self.last_timestamp + MIN_SNAPSHOT_INTERVAL {
            return Err(SnapshotError::IntervalNotMet);
        }
        let id = self.snapshots.len() as u64 + 1;
        let snapshot = ProtocolSnapshot {
            metadata: SnapshotMetadata { id, timestamp: ledger.timestamp, ledger: ledger.sequence },
            vault_state: states.vault,
            staking_state: states.staking,
            reward_state: states.reward,
            treasury_state: states.treasury,
        };
        self.snapshots.push(snapshot);
        self.last_timestamp = ledger.timestamp;
        Ok(snapshot)
    }

    /// The snapshot with id `id`, if it was taken.
    pub fn get_snapshot(&self, id: u64) -> (r: Option<ProtocolSnapshot>)
        ensures
            r == if 1 <= id <= self.snapshots@.len() {
                Some(self.snapshots@[id - 1])
            } else {
                None::<ProtocolSnapshot>
            },
    {
        if id >= 1 && id as usize <= self.snapshots.len() && id <= self.snapshots.len() as u64 {
            Some(self.snapshots[(id - 1) as usize])
        } else {
            None
        }
    }

    /// The last snapshot taken, if any.
    pub fn get_latest_snapshot(&self) -> (r: Option<ProtocolSnapshot>)
        ensures
            r == if self.snapshots@.len() == 0 {
                None::<ProtocolSnapshot>
            } else {
                Some(self.snapshots@.last())
            },
    {
        let n = self.snapshots.len();
        if n == 0 {
            None
        } else {
            Some(self.snapshots[n - 1])
        }
    }

    /// The last `limit` snapshots, newest first.
    pub fn get_snapshot_history(&self, limit: u32) -> (r: Vec<ProtocolSnapshot>)
        ensures
            r@.len() == if self.snapshots@.len() > limit {
                limit as int
            } else {
                self.snapshots@.len() as int
            },
            forall|k: int| 0 <= k < r@.len() ==> #[trigger] r@[k] == self.snapshots@[self.snapshots@.len() - 1 - k],
    {
        let count = self.snapshots.len();
        let take: usize = if count > limit as usize {
            limit as usize
        } else {
            count
        };
        let mut r: Vec<ProtocolSnapshot> = Vec::new();
        let mut k: usize = 0;
        while k < take
            invariant
                0 <= k <= take,
                take <= count,
                count == self.snapshots@.len(),
                r@.len() == k,
                forall|j: int| 0 <= j < k ==> #[trigger] r@[j] == self.snapshots@[count - 1 - j],
            decreases take - k,
        {
            r.push(self.snapshots[count - 1 - k]);
            k = k + 1;
        }
        r
    }
}

} // verus!
