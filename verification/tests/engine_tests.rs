use rusty_workers_runtime::buffer::ReadableByteCellSlice;
use rusty_workers_runtime::engine::{
    termination_error, TerminationReason, TerminationReasonBox,
};
use rusty_workers_runtime::interface::PendingCalls;
use rusty_workers_runtime::types::EngineError;

#[test]
fn termination_reasons_are_distinguishable() {
    assert_eq!(
        termination_error(TerminationReason::Unknown),
        EngineError::ScriptThrowsException
    );
    assert_eq!(
        termination_error(TerminationReason::TimeLimit),
        EngineError::TimeLimitExceeded
    );
    assert_eq!(
        termination_error(TerminationReason::MemoryLimit),
        EngineError::MemoryLimitExceeded
    );
}

#[test]
fn recorded_reason_classifies_the_abort() {
    let cell = TerminationReasonBox::new();
    assert_eq!(cell.abort_error(), EngineError::ScriptThrowsException);
    cell.record(TerminationReason::TimeLimit);
    assert_eq!(cell.abort_error(), EngineError::TimeLimitExceeded);
    cell.record(TerminationReason::MemoryLimit);
    assert_eq!(cell.abort_error(), EngineError::MemoryLimitExceeded);
}

#[test]
fn recorded_reason_is_visible_through_clones() {
    let cell = TerminationReasonBox::new();
    let hook_side = cell.clone();
    hook_side.record(TerminationReason::TimeLimit);
    assert_eq!(cell.abort_error(), EngineError::TimeLimitExceeded);
}

#[test]
fn async_calls_complete_at_most_once() {
    let mut calls = PendingCalls::new();
    let a = calls.begin();
    let b = calls.begin();
    assert_ne!(a, b);
    assert_eq!(calls.complete(a), Ok(()));
    assert_eq!(calls.complete(a), Err(EngineError::ProtocolViolation));
    assert_eq!(calls.complete(b), Ok(()));
}

#[test]
fn unknown_completion_is_a_protocol_violation() {
    let mut calls = PendingCalls::new();
    let _ = calls.begin();
    assert_eq!(calls.complete(999), Err(EngineError::ProtocolViolation));
}

#[test]
fn payload_reader_fills_and_advances() {
    let mut reader = ReadableByteCellSlice::new(vec![1, 2, 3, 4, 5]);
    let mut buf = vec![0u8; 3];
    assert_eq!(reader.read(&mut buf), 3);
    assert_eq!(buf, vec![1, 2, 3]);
    assert_eq!(reader.read(&mut buf), 2);
    assert_eq!(buf, vec![4, 5, 3]);
    assert_eq!(reader.read(&mut buf), 0);
    assert_eq!(buf, vec![4, 5, 3]);
}

#[test]
fn payload_reader_with_large_buffer_takes_everything() {
    let mut reader = ReadableByteCellSlice::new(vec![9, 8]);
    let mut buf = vec![0u8; 10];
    assert_eq!(reader.read(&mut buf), 2);
    assert_eq!(&buf[..2], &[9, 8]);
    assert_eq!(&buf[2..], &[0u8; 8]);
}
