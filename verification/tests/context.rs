use axionvera::context::{create_context, push_context, ContextError, ExecutionContext, MAX_DEPTH};
use axionvera::interfaces::{Address, Bytes32, LedgerInfo};

fn ledger(timestamp: u64) -> LedgerInfo {
    LedgerInfo { timestamp, sequence: 10 }
}

fn addr(n: u128) -> Address {
    Address { high: 0, low: n }
}

#[test]
fn creates_top_level_context() {
    let l = ledger(5000);
    let caller = addr(1);
    let ctx = create_context(&l, caller);
    assert_eq!(ctx.original_caller, caller);
    assert_eq!(ctx.current_caller, caller);
    assert_eq!(ctx.protocol_version, 1);
    assert_eq!(ctx.depth, 0);
    assert_eq!(ctx.timestamp, 5000);
    assert!(ctx.operation_id.is_none());
    assert!(ctx.plan_id.is_none());
}

#[test]
fn push_increments_depth() {
    let l = ledger(1000);
    let alice = addr(1);
    let bob = addr(2);
    let ctx = create_context(&l, alice);
    let nested = push_context(&l, &ctx, bob).unwrap();
    assert_eq!(nested.depth, 1);
    assert_eq!(nested.original_caller, alice);
    assert_eq!(nested.current_caller, bob);
}

#[test]
fn push_preserves_plan_metadata() {
    let l = ledger(2000);
    let plan_id = Bytes32 { high: 42, low: 42 };
    let ctx = create_context(&l, addr(1));
    let ctx = ctx.with_operation(7, plan_id);
    let nested = push_context(&l, &ctx, addr(2)).unwrap();
    assert_eq!(nested.operation_id, Some(7));
    assert_eq!(nested.plan_id, Some(plan_id));
}

#[test]
fn validates_consistent_context() {
    let l = ledger(1000);
    let ctx = create_context(&l, addr(1));
    assert_eq!(ctx.validate(&l), Ok(()));
}

#[test]
fn rejects_future_timestamp() {
    let ctx = ExecutionContext::new(&ledger(500), addr(1));
    assert_eq!(ctx.validate(&ledger(100)), Err(ContextError::TimestampInconsistency));
}

#[test]
fn original_caller_immutable_across_nesting() {
    let l = ledger(100);
    let alice = addr(1);
    let ctx = create_context(&l, alice);
    let ctx = push_context(&l, &ctx, addr(2)).unwrap();
    let ctx = push_context(&l, &ctx, addr(3)).unwrap();
    assert_eq!(ctx.original_caller, alice);
    assert_eq!(ctx.depth, 2);
}

#[test]
fn push_beyond_max_depth_returns_error() {
    let l = ledger(100);
    let mut ctx = create_context(&l, addr(1));
    for i in 0..MAX_DEPTH {
        ctx = push_context(&l, &ctx, addr(10 + i as u128)).unwrap();
    }
    assert_eq!(push_context(&l, &ctx, addr(99)), Err(ContextError::MaxDepthExceeded));
}

#[test]
fn with_operation_sets_metadata() {
    let l = ledger(100);
    let plan_id = Bytes32 { high: 1, low: 1 };
    let ctx = create_context(&l, addr(1));
    let ctx = ctx.with_operation(3, plan_id);
    assert_eq!(ctx.operation_id, Some(3));
    assert_eq!(ctx.plan_id, Some(plan_id));
}

#[test]
fn context_from_a_later_ledger_sequence_is_inconsistent() {
    let ctx = ExecutionContext::new(&LedgerInfo { timestamp: 100, sequence: 50 }, addr(1));
    assert_eq!(ctx.validate(&LedgerInfo { timestamp: 100, sequence: 40 }), Err(ContextError::LedgerInconsistency));
}
