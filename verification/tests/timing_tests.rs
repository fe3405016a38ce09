use rawblow::timing::{sidecar_retry_interval, ToastKind, ToastStep};
use std::time::Duration;

#[test]
fn toast_kind_duration_by_severity() {
    assert_eq!(ToastKind::Info.duration(), Some(Duration::from_secs(3)));
    assert_eq!(ToastKind::Notice.duration(), Some(Duration::from_secs(6)));
    assert_eq!(ToastKind::Error.duration(), None);
}

#[test]
fn sidecar_retry_interval_backs_off_after_three_failures() {
    assert_eq!(sidecar_retry_interval(0), Duration::from_millis(300));
    assert_eq!(sidecar_retry_interval(1), Duration::from_millis(300));
    assert_eq!(sidecar_retry_interval(2), Duration::from_millis(300));
    assert_eq!(sidecar_retry_interval(3), Duration::from_secs(5));
    assert_eq!(sidecar_retry_interval(100), Duration::from_secs(5));
}

#[test]
fn toasts_expire_by_severity() {
    assert_eq!(ToastKind::Info.step(2_999_999_999), ToastStep::KeepAlive);
    assert_eq!(ToastKind::Info.step(3_000_000_001), ToastStep::Expire);
    assert_eq!(ToastKind::Notice.step(3_000_000_001), ToastStep::KeepAlive);
    assert_eq!(ToastKind::Notice.step(6_000_000_001), ToastStep::Expire);
    assert_eq!(ToastKind::Error.step(u128::MAX), ToastStep::Stay);
}
