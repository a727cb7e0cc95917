use piston::error::DeskError;
use piston::ipc::IpcMessage;
use piston::ipc::Ping;
use piston::ipc::Pong;
use piston::ipc::PublishStep;
use piston::ipc::RetryPolicy;
use piston::portfolio::Portfolio;

#[test]
fn waits_double_up_to_the_cap() {
    let policy = RetryPolicy { base_ms: 100, cap_ms: 1_000, max_retries: 6 };
    assert_eq!(policy.after_failure(1), PublishStep::RetryAfter(100));
    assert_eq!(policy.after_failure(2), PublishStep::RetryAfter(200));
    assert_eq!(policy.after_failure(3), PublishStep::RetryAfter(400));
    assert_eq!(policy.after_failure(4), PublishStep::RetryAfter(800));
    assert_eq!(policy.after_failure(5), PublishStep::RetryAfter(1_000));
    assert_eq!(policy.after_failure(6), PublishStep::RetryAfter(1_000));
}

#[test]
fn publisher_gives_up_when_the_retries_are_used_up() {
    let policy = RetryPolicy { base_ms: 100, cap_ms: 1_000, max_retries: 3 };
    assert_eq!(policy.after_failure(3), PublishStep::RetryAfter(400));
    assert_eq!(policy.after_failure(4), PublishStep::GiveUp(DeskError::TransportFailure));
    assert_eq!(policy.after_failure(u32::MAX), PublishStep::GiveUp(DeskError::TransportFailure));
    let never = RetryPolicy { base_ms: 100, cap_ms: 1_000, max_retries: 0 };
    assert_eq!(never.after_failure(1), PublishStep::GiveUp(DeskError::TransportFailure));
}

#[test]
fn nothing_is_retried_without_a_failure() {
    let policy = RetryPolicy { base_ms: 100, cap_ms: 1_000, max_retries: 3 };
    assert_eq!(policy.after_failure(0), PublishStep::GiveUp(DeskError::TransportFailure));
}

#[test]
fn base_above_the_cap_waits_the_cap() {
    let policy = RetryPolicy { base_ms: 5_000, cap_ms: 1_000, max_retries: 2 };
    assert_eq!(policy.after_failure(1), PublishStep::RetryAfter(1_000));
    assert_eq!(policy.after_failure(2), PublishStep::RetryAfter(1_000));
}

#[test]
fn large_waits_do_not_overflow() {
    let policy = RetryPolicy { base_ms: u64::MAX / 2 + 1, cap_ms: u64::MAX, max_retries: 70 };
    assert_eq!(policy.after_failure(1), PublishStep::RetryAfter(u64::MAX / 2 + 1));
    assert_eq!(policy.after_failure(2), PublishStep::RetryAfter(u64::MAX));
    assert_eq!(policy.after_failure(70), PublishStep::RetryAfter(u64::MAX));
    let zero = RetryPolicy { base_ms: 0, cap_ms: 10, max_retries: 70 };
    assert_eq!(zero.after_failure(64), PublishStep::RetryAfter(0));
}

#[test]
fn messages_carry_their_payload() {
    let stats = Portfolio::new("RMCF".to_string()).snapshot();
    let message = IpcMessage::PortfolioStats(Portfolio::new("RMCF".to_string()).snapshot());
    assert_eq!(message, IpcMessage::PortfolioStats(stats));
    assert_ne!(IpcMessage::Ping(Ping), IpcMessage::Pong(Pong));
}
