use vstd::prelude::*;

use crate::interfaces::{Address, Bytes32, LedgerInfo};

verus! {

/// The deepest nesting of calls a context may record.
pub const MAX_DEPTH: u32 = 8;

/// Standard execution context propagated across contract calls.
#[derive(Clone, Copy, Debug, Eq, PartialEq, Structural)]
pub struct ExecutionContext {
    pub original_caller: Address,
    pub current_caller: Address,
    pub protocol_version: u32,
    pub depth: u32,
    pub timestamp: u64,
    pub ledger_sequence: u32,
    pub operation_id: Option<u32>,
    pub plan_id: Option<Bytes32>,
}

#[derive(Copy, Clone, Debug, Eq, PartialEq, Structural)]
pub enum ContextError {
    MaxDepthExceeded,
    TimestampInconsistency,
    LedgerInconsistency,
}

impl ContextError {
    /// The numeric code under which the error is reported to callers.
    pub fn code(&self) -> (c: u32)
        ensures
            c == 1 <==> *self == ContextError::MaxDepthExceeded,
            c == 2 <==> *self == ContextError::TimestampInconsistency,
            c == 3 <==> *self == ContextError::LedgerInconsistency,
    {
        match self {
            ContextError::MaxDepthExceeded => 1,
            ContextError::TimestampInconsistency => 2,
            ContextError::LedgerInconsistency => 3,
        }
    }
}

/// The context a top-level call starts with.
pub open spec fn spec_new_context(ledger: LedgerInfo, caller: Address) -> ExecutionContext {
    ExecutionContext {
        original_caller: caller,
        current_caller: caller,
        protocol_version: 1,
        depth: 0,
        timestamp: ledger.timestamp,
        ledger_sequence: ledger.sequence,
        operation_id: None,
        plan_id: None,
    }
}

/// The context of a call nested one level below `parent`.
pub open spec fn spec_push(parent: ExecutionContext, ledger: LedgerInfo, caller: Address) -> Result<ExecutionContext, ContextError> {
    if parent.depth >= MAX_DEPTH {
        Err(ContextError::MaxDepthExceeded)
    } else {
        Ok(
            ExecutionContext {
                original_caller: parent.original_caller,
                current_caller: caller,
                protocol_version: parent.protocol_version,
                depth: (parent.depth + 1) as u32,
                timestamp: ledger.timestamp,
                ledger_sequence: ledger.sequence,
                operation_id: parent.operation_id,
                plan_id: parent.plan_id,
            },
        )
    }
}

/// Whether a context was not recorded after the given ledger.
pub open spec fn spec_validate(ctx: ExecutionContext, ledger: LedgerInfo) -> Result<(), ContextError> {
    if ctx.timestamp > ledger.timestamp {
        Err(ContextError::TimestampInconsistency)
    } else if ctx.ledger_sequence > ledger.sequence {
        Err(ContextError::LedgerInconsistency)
    } else {
        Ok(())
    }
}

impl ExecutionContext {
    pub fn new(ledger: &LedgerInfo, caller: Address) -> (c: Self)
        ensures
            c == spec_new_context(*ledger, caller),
    {
        Self {
            original_caller: caller,
            current_caller: caller,
            protocol_version: 1,
            depth: 0,
            timestamp: ledger.timestamp,
            ledger_sequence: ledger.sequence,
            operation_id: None,
            plan_id: None,
        }
    }

    pub fn push(&self, ledger: &LedgerInfo, caller: Address) -> (r: Result<Self, ContextError>)
        ensures
            r == spec_push(*self, *ledger, caller),
    {
        if self.depth >= MAX_DEPTH {
            return Err(ContextError::MaxDepthExceeded);
        }
        Ok(
            Self {
                original_caller: self.original_caller,
                current_caller: caller,
                protocol_version: self.protocol_version,
                depth: self.depth + 1,
                timestamp: ledger.timestamp,
                ledger_sequence: ledger.sequence,
                operation_id: self.operation_id,
                plan_id: self.plan_id,
            },
        )
    }

    pub fn with_operation(self, operation_id: u32, plan_id: Bytes32) -> (c: Self)
        ensures
            c == (ExecutionContext { operation_id: Some(operation_id), plan_id: Some(plan_id), ..self }),
    {
        let mut c = self;
        c.operation_id = Some(operation_id);
        c.plan_id = Some(plan_id);
        c
    }

    pub fn validate(&self, ledger: &LedgerInfo) -> (r: Result<(), ContextError>)
        ensures
            r == spec_validate(*self, *ledger),
    {
        if self.timestamp > ledger.timestamp {
            return Err(ContextError::TimestampInconsistency);
        }
        if self.ledger_sequence > ledger.sequence {
            return Err(ContextError::LedgerInconsistency);
        }
        Ok(())
    }
}

/// Start the context of a top-level call.
pub fn create_context(ledger: &LedgerInfo, caller: Address) -> (c: ExecutionContext)
    ensures
        c == spec_new_context(*ledger, caller),
{
    ExecutionContext::new(ledger, caller)
}

/// Record that `caller` is now calling one level below `parent`.
pub fn push_context(ledger: &LedgerInfo, parent: &ExecutionContext, caller: Address) -> (r: Result<ExecutionContext, ContextError>)
    ensures
        r == spec_push(*parent, *ledger, caller),
{
    parent.push(ledger, caller)
}

/// Nesting keeps who started the call chain, never exceeds the maximum depth,
/// and goes exactly one level deeper each time it succeeds.
pub proof fn lemma_push_preserves_origin(parent: ExecutionContext, ledger: LedgerInfo, caller: Address)
    requires
        parent.depth <= MAX_DEPTH,
    ensures
        spec_push(parent, ledger, caller) matches Ok(c) ==> {
            &&& c.original_caller == parent.original_caller
            &&& c.depth == parent.depth + 1
            &&& c.depth <= MAX_DEPTH
            &&& c.operation_id == parent.operation_id
            &&& c.plan_id == parent.plan_id
        },
        spec_push(parent, ledger, caller) is Err <==> parent.depth == MAX_DEPTH,
{
}

/// A context is always valid at the ledger it was made at, and at any later one.
pub proof fn lemma_fresh_context_valid(ledger: LedgerInfo, later: LedgerInfo, caller: Address)
    requires
        ledger.timestamp <= later.timestamp,
        ledger.sequence <= later.sequence,
    ensures
        spec_validate(spec_new_context(ledger, caller), later) is Ok,
{
}

} // verus!
