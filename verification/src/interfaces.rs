use vstd::prelude::*;

verus! {

// ---------------------------------------------------------------------------
// Identifiers
// ---------------------------------------------------------------------------

/// An account or contract address, held as its 32 identifying bytes
/// (the high and the low 16 bytes).
#[derive(Clone, Copy, Debug, PartialEq, Eq, Hash, Structural)]
pub struct Address {
    pub high: u128,
    pub low: u128,
}

/// A 32-byte identifier (plan, task, strategy and run ids, wasm hashes).
#[derive(Clone, Copy, Debug, PartialEq, Eq, Hash, Structural)]
pub struct Bytes32 {
    pub high: u128,
    pub low: u128,
}

/// What a contract reads of the ledger it runs in: the close time and the sequence number.
#[derive(Clone, Copy, Debug, PartialEq, Eq, Structural)]
pub struct LedgerInfo {
    pub timestamp: u64,
    pub sequence: u32,
}

// ---------------------------------------------------------------------------
// Treasury allocation framework
// ---------------------------------------------------------------------------

/// Basis point denominator used by treasury and fee calculations.
pub const TREASURY_BPS_DENOMINATOR: u32 = 10_000;

#[derive(Copy, Clone, Debug, Eq, PartialEq, Structural)]
pub enum TreasuryError {
    AlreadyInitialized,
    NotInitialized,
    Unauthorized,
    InvalidAmount,
    InvalidShare,
    InvalidShareTotal,
    EmptyStrategy,
    TooManyRules,
    DuplicateRecipient,
    StrategyNotFound,
    DuplicateDistribution,
    InsufficientBalance,
}

impl TreasuryError {
    /// The numeric code under which the error is reported to callers.
    pub fn code(&self) -> (c: u32)
        ensures
            1 <= c <= 12,
            c == 1 <==> *self == TreasuryError::AlreadyInitialized,
            c == 2 <==> *self == TreasuryError::NotInitialized,
            c == 3 <==> *self == TreasuryError::Unauthorized,
            c == 4 <==> *self == TreasuryError::InvalidAmount,
            c == 5 <==> *self == TreasuryError::InvalidShare,
            c == 6 <==> *self == TreasuryError::InvalidShareTotal,
            c == 7 <==> *self == TreasuryError::EmptyStrategy,
            c == 8 <==> *self == TreasuryError::TooManyRules,
            c == 9 <==> *self == TreasuryError::DuplicateRecipient,
            c == 10 <==> *self == TreasuryError::StrategyNotFound,
            c == 11 <==> *self == TreasuryError::DuplicateDistribution,
            c == 12 <==> *self == TreasuryError::InsufficientBalance,
    {
        match self {
            TreasuryError::AlreadyInitialized => 1,
            TreasuryError::NotInitialized => 2,
            TreasuryError::Unauthorized => 3,
            TreasuryError::InvalidAmount => 4,
            TreasuryError::InvalidShare => 5,
            TreasuryError::InvalidShareTotal => 6,
            TreasuryError::EmptyStrategy => 7,
            TreasuryError::TooManyRules => 8,
            TreasuryError::DuplicateRecipient => 9,
            TreasuryError::StrategyNotFound => 10,
            TreasuryError::DuplicateDistribution => 11,
            TreasuryError::InsufficientBalance => 12,
        }
    }
}

// ---------------------------------------------------------------------------
// Protocol fee framework
// ---------------------------------------------------------------------------

#[derive(Clone, Copy, Debug, Eq, PartialEq, Structural)]
pub enum FeeType {
    Deposit,
    Withdrawal,
    Reward,
}

#[derive(Clone, Debug, Eq, PartialEq, Structural)]
pub struct FeeConfig {
    pub treasury: Address,
    pub deposit_fee_bps: u32,
    pub withdrawal_fee_bps: u32,
    pub reward_fee_bps: u32,
}

#[derive(Clone, Debug, Eq, PartialEq, Structural)]
pub struct FeeReceipt {
    pub fee_type: FeeType,
    pub actor: Address,
    pub treasury: Address,
    pub asset: Option<Address>,
    pub gross_amount: i128,
    pub fee_bps: u32,
    pub fee_amount: i128,
    pub net_amount: i128,
    pub treasury_amount: i128,
    pub timestamp: u64,
}

#[derive(Clone, Copy, Debug, Eq, PartialEq, Structural)]
pub struct FeeTotals {
    pub operation_count: u64,
    pub collected_amount: i128,
    pub treasury_amount: i128,
}

#[derive(Copy, Clone, Debug, Eq, PartialEq, Structural)]
pub enum FeeError {
    InvalidAmount,
    InvalidFeeRate,
    MathOverflow,
}

impl FeeError {
    /// The numeric code under which the error is reported to callers.
    pub fn code(&self) -> (c: u32)
        ensures
            c == 1 <==> *self == FeeError::InvalidAmount,
            c == 2 <==> *self == FeeError::InvalidFeeRate,
            c == 3 <==> *self == FeeError::MathOverflow,
    {
        match self {
            FeeError::InvalidAmount => 1,
            FeeError::InvalidFeeRate => 2,
            FeeError::MathOverflow => 3,
        }
    }
}

/// The configured rate for a kind of fee.
pub open spec fn spec_rate_for(config: FeeConfig, fee_type: FeeType) -> u32 {
    match fee_type {
        FeeType::Deposit => config.deposit_fee_bps,
        FeeType::Withdrawal => config.withdrawal_fee_bps,
        FeeType::Reward => config.reward_fee_bps,
    }
}

impl FeeConfig {
    pub fn rate_for(&self, fee_type: FeeType) -> (r: u32)
        ensures
            r == spec_rate_for(*self, fee_type),
            fee_type == FeeType::Deposit ==> r == self.deposit_fee_bps,
            fee_type == FeeType::Withdrawal ==> r == self.withdrawal_fee_bps,
            fee_type == FeeType::Reward ==> r == self.reward_fee_bps,
    {
        match fee_type {
            FeeType::Deposit => self.deposit_fee_bps,
            FeeType::Withdrawal => self.withdrawal_fee_bps,
            FeeType::Reward => self.reward_fee_bps,
        }
    }
}

// ---------------------------------------------------------------------------
// Cross-contract orchestration
// ---------------------------------------------------------------------------

/// State recorded for a single operation in an execution receipt.
#[derive(Clone, Copy, Debug, Eq, PartialEq, Structural)]
pub enum OperationStatus {
    Pending,
    Executed,
    RolledBack,
}

/// Final state of an execution plan.
#[derive(Clone, Copy, Debug, Eq, PartialEq, Structural)]
pub enum ExecutionStatus {
    Succeeded,
    Failed,
    RolledBack,
}

/// Per-operation receipt data persisted by the orchestrator.
#[derive(Clone, Copy, Debug, Eq, PartialEq, Structural)]
pub struct OperationReceipt {
    pub operation_id: u32,
    pub status: OperationStatus,
}

/// Errors returned by orchestration validation and execution.
#[derive(Copy, Clone, Debug, Eq, PartialEq, Structural)]
pub enum OrchestrationError {
    EmptyPlan,
    TooManyOperations,
    DuplicateOperationId,
    InvalidTarget,
    InvalidDependency,
    DependencyNotOrdered,
    OperationFailed,
    RollbackFailed,
}

impl OrchestrationError {
    /// The numeric code under which the error is reported to callers.
    pub fn code(&self) -> (c: u32)
        ensures
            1 <= c <= 8,
            c == 1 <==> *self == OrchestrationError::EmptyPlan,
            c == 2 <==> *self == OrchestrationError::TooManyOperations,
            c == 3 <==> *self == OrchestrationError::DuplicateOperationId,
            c == 4 <==> *self == OrchestrationError::InvalidTarget,
            c == 5 <==> *self == OrchestrationError::InvalidDependency,
            c == 6 <==> *self == OrchestrationError::DependencyNotOrdered,
            c == 7 <==> *self == OrchestrationError::OperationFailed,
            c == 8 <==> *self == OrchestrationError::RollbackFailed,
    {
        match self {
            OrchestrationError::EmptyPlan => 1,
            OrchestrationError::TooManyOperations => 2,
            OrchestrationError::DuplicateOperationId => 3,
            OrchestrationError::InvalidTarget => 4,
            OrchestrationError::InvalidDependency => 5,
            OrchestrationError::DependencyNotOrdered => 6,
            OrchestrationError::OperationFailed => 7,
            OrchestrationError::RollbackFailed => 8,
        }
    }
}

/// Validation and execution failures for external integrations.
#[derive(Copy, Clone, Debug, Eq, PartialEq, Structural)]
pub enum IntegrationError {
    EmptyTargetAllowList,
    EmptyFunctionAllowList,
    TargetNotAllowed,
    FunctionNotAllowed,
    TooManyArguments,
    SelfCallBlocked,
    ExternalInvocationFailed,
}

impl IntegrationError {
    /// The numeric code under which the error is reported to callers.
    pub fn code(&self) -> (c: u32)
        ensures
            1 <= c <= 7,
            c == 1 <==> *self == IntegrationError::EmptyTargetAllowList,
            c == 2 <==> *self == IntegrationError::EmptyFunctionAllowList,
            c == 3 <==> *self == IntegrationError::TargetNotAllowed,
            c == 4 <==> *self == IntegrationError::FunctionNotAllowed,
            c == 5 <==> *self == IntegrationError::TooManyArguments,
            c == 6 <==> *self == IntegrationError::SelfCallBlocked,
            c == 7 <==> *self == IntegrationError::ExternalInvocationFailed,
    {
        match self {
            IntegrationError::EmptyTargetAllowList => 1,
            IntegrationError::EmptyFunctionAllowList => 2,
            IntegrationError::TargetNotAllowed => 3,
            IntegrationError::FunctionNotAllowed => 4,
            IntegrationError::TooManyArguments => 5,
            IntegrationError::SelfCallBlocked => 6,
            IntegrationError::ExternalInvocationFailed => 7,
        }
    }
}

// ---------------------------------------------------------------------------
// Event replay framework
// ---------------------------------------------------------------------------

/// The status of a replayed event.
#[derive(Clone, Copy, Debug, Eq, PartialEq, Structural)]
pub enum ReplayEventStatus {
    /// Event is pending replay.
    Pending,
    /// Event was successfully replayed.
    Success,
    /// Event replay failed.
    Failed,
    /// Event was skipped (e.g., not applicable).
    Skipped,
}

/// Errors returned by replay engine operations.
#[derive(Copy, Clone, Debug, Eq, PartialEq, Structural)]
pub enum ReplayError {
    AlreadyInitialized,
    NotInitialized,
    Unauthorized,
    EventAlreadyAdded,
    InvalidEvent,
    ReplayInProgress,
    ReplayFailed,
}

impl ReplayError {
    /// The numeric code under which the error is reported to callers.
    pub fn code(&self) -> (c: u32)
        ensures
            1 <= c <= 7,
            c == 1 <==> *self == ReplayError::AlreadyInitialized,
            c == 2 <==> *self == ReplayError::NotInitialized,
            c == 3 <==> *self == ReplayError::Unauthorized,
            c == 4 <==> *self == ReplayError::EventAlreadyAdded,
            c == 5 <==> *self == ReplayError::InvalidEvent,
            c == 6 <==> *self == ReplayError::ReplayInProgress,
            c == 7 <==> *self == ReplayError::ReplayFailed,
    {
        match self {
            ReplayError::AlreadyInitialized => 1,
            ReplayError::NotInitialized => 2,
            ReplayError::Unauthorized => 3,
            ReplayError::EventAlreadyAdded => 4,
            ReplayError::InvalidEvent => 5,
            ReplayError::ReplayInProgress => 6,
            ReplayError::ReplayFailed => 7,
        }
    }
}

// ---------------------------------------------------------------------------
// Scheduling engine
// ---------------------------------------------------------------------------

/// The status of a scheduled task.
#[derive(Clone, Copy, Debug, Eq, PartialEq, Structural)]
pub enum ScheduledTaskStatus {
    /// Task is scheduled but not yet executed.
    Pending,
    /// Task is currently executing.
    Executing,
    /// Task executed successfully.
    Success,
    /// Task execution failed.
    Failed,
    /// Task was canceled.
    Canceled,
}

/// An execution window that defines when a task can run.
#[derive(Clone, Copy, Debug, Eq, PartialEq, Structural)]
pub struct ExecutionWindow {
    /// Start timestamp (inclusive) of the window.
    pub start_time: u64,
    /// End timestamp (inclusive) of the window.
    pub end_time: u64,
    /// Optional: recurrence interval (for recurring tasks).
    pub recurrence_interval: Option<u64>,
    /// Optional: maximum number of recurrences.
    pub max_recurrences: Option<u32>,
}

/// Errors returned by the scheduling engine.
#[derive(Copy, Clone, Debug, Eq, PartialEq, Structural)]
pub enum SchedulerError {
    AlreadyInitialized,
    NotInitialized,
    Unauthorized,
    TaskAlreadyExists,
    TaskNotFound,
    InvalidTaskName,
    InvalidExecutionWindow,
    TaskNotPending,
    ConflictingTasks,
    DependenciesNotMet,
    NotInExecutionWindow,
    ContractPaused,
    NoPendingAdmin,
}

impl SchedulerError {
    /// The numeric code under which the error is reported to callers.
    pub fn code(&self) -> (c: u32)
        ensures
            1 <= c <= 13,
            c == 1 <==> *self == SchedulerError::AlreadyInitialized,
            c == 2 <==> *self == SchedulerError::NotInitialized,
            c == 3 <==> *self == SchedulerError::Unauthorized,
            c == 4 <==> *self == SchedulerError::TaskAlreadyExists,
            c == 5 <==> *self == SchedulerError::TaskNotFound,
            c == 6 <==> *self == SchedulerError::InvalidTaskName,
            c == 7 <==> *self == SchedulerError::InvalidExecutionWindow,
            c == 8 <==> *self == SchedulerError::TaskNotPending,
            c == 9 <==> *self == SchedulerError::ConflictingTasks,
            c == 10 <==> *self == SchedulerError::DependenciesNotMet,
            c == 11 <==> *self == SchedulerError::NotInExecutionWindow,
            c == 12 <==> *self == SchedulerError::ContractPaused,
            c == 13 <==> *self == SchedulerError::NoPendingAdmin,
    {
        match self {
            SchedulerError::AlreadyInitialized => 1,
            SchedulerError::NotInitialized => 2,
            SchedulerError::Unauthorized => 3,
            SchedulerError::TaskAlreadyExists => 4,
            SchedulerError::TaskNotFound => 5,
            SchedulerError::InvalidTaskName => 6,
            SchedulerError::InvalidExecutionWindow => 7,
            SchedulerError::TaskNotPending => 8,
            SchedulerError::ConflictingTasks => 9,
            SchedulerError::DependenciesNotMet => 10,
            SchedulerError::NotInExecutionWindow => 11,
            SchedulerError::ContractPaused => 12,
            SchedulerError::NoPendingAdmin => 13,
        }
    }
}

} // verus!
