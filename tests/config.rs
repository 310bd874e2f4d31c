use system_monitor::config::{MonitoringConfig, PerformanceConfig};
use system_monitor::error::{
    recovery_action, DefaultErrorHandler, RecoveryAction, RecoveryStrategy, SystemMonitorError,
};

#[test]
fn test_default_error_handler() {
    let handler = DefaultErrorHandler;
    let error = SystemMonitorError::SystemInfo("测试".to_string());

    match handler.handle_error(&error) {
        RecoveryStrategy::Retry { max_attempts, delay_ms } => {
            assert_eq!(max_attempts, 3);
            assert_eq!(delay_ms, 1000);
        }
        _ => panic!("期望重试策略"),
    }
}

#[test]
fn strategies_per_error_kind() {
    let handler = DefaultErrorHandler;
    let text = || "x".to_string();
    assert_eq!(handler.handle_error(&SystemMonitorError::Config(text())), RecoveryStrategy::UseDefault);
    assert_eq!(handler.handle_error(&SystemMonitorError::Ui(text())), RecoveryStrategy::Degrade);
    assert_eq!(handler.handle_error(&SystemMonitorError::Runtime(text())), RecoveryStrategy::Terminate);
    assert_eq!(
        handler.handle_error(&SystemMonitorError::Io(text())),
        RecoveryStrategy::Retry { max_attempts: 2, delay_ms: 500 }
    );
    assert_eq!(handler.handle_error(&SystemMonitorError::Other(text())), RecoveryStrategy::Ignore);
}

#[test]
fn retries_until_attempts_run_out() {
    let retry = RecoveryStrategy::Retry { max_attempts: 3, delay_ms: 1000 };
    assert_eq!(recovery_action(retry, 1), RecoveryAction::RetryAfter(1000));
    assert_eq!(recovery_action(retry, 2), RecoveryAction::RetryAfter(1000));
    assert_eq!(recovery_action(retry, 3), RecoveryAction::GiveUp);
    assert_eq!(recovery_action(RecoveryStrategy::Terminate, 1), RecoveryAction::Exit);
    assert_eq!(recovery_action(RecoveryStrategy::Degrade, 1), RecoveryAction::GiveUp);
}

#[test]
fn monitoring_defaults_validate() {
    let mut config = MonitoringConfig::default();
    assert_eq!(config.refresh_interval_ms, 1000);
    assert!(config.enable_cpu_monitoring);
    assert_eq!(config.cpu_history_points, 60);
    assert!(config.validate().is_ok());
    config.refresh_interval_ms = 50;
    assert!(matches!(config.validate(), Err(SystemMonitorError::Config(_))));
    config.refresh_interval_ms = 10_000;
    config.cpu_history_points = 0;
    assert!(config.validate().is_err());
    config.cpu_history_points = 1000;
    assert!(config.validate().is_ok());
}

#[test]
fn worker_threads_are_capped() {
    let performance = PerformanceConfig::default();
    assert!(performance.worker_threads >= 1 && performance.worker_threads <= 4);
    assert_eq!(performance.cache_size_mb, 64);
}
