//! Errors of the monitoring core and the recovery policy attached to them.

use vstd::prelude::*;

verus! {

/// Failures the core reports; each carries a human-readable message.
#[derive(Debug, PartialEq, Eq)]
pub enum SystemMonitorError {
    /// The snapshot source could not be read, or its shared state could not be locked.
    SystemInfo(String),
    /// Configuration was rejected.
    Config(String),
    /// Rendering failed.
    Ui(String),
    /// A runtime facility failed.
    Runtime(String),
    /// An I/O operation failed.
    Io(String),
    /// A value could not be serialised or parsed.
    Serialization(String),
    /// A configuration file could not be parsed.
    ConfigParsing(String),
    /// Statistics were asked of a metric that has no history.
    InvalidMetric(String),
    /// Anything else.
    Other(String),
}

/// What the caller should do about an error.
#[derive(Clone, Copy, Debug, PartialEq, Eq, Structural)]
pub enum RecoveryStrategy {
    /// Try again, at most `max_attempts` times in all, `delay_ms` apart.
    Retry { max_attempts: u32, delay_ms: u64 },
    /// Carry on with a default value.
    UseDefault,
    /// Carry on with reduced function.
    Degrade,
    /// Carry on as if nothing happened.
    Ignore,
    /// Stop the application.
    Terminate,
}

/// The strategy the default handler picks for each kind of error.
pub open spec fn default_strategy(e: SystemMonitorError) -> RecoveryStrategy {
    match e {
        SystemMonitorError::SystemInfo(_) => RecoveryStrategy::Retry { max_attempts: 3, delay_ms: 1000 },
        SystemMonitorError::Config(_) => RecoveryStrategy::UseDefault,
        SystemMonitorError::Ui(_) => RecoveryStrategy::Degrade,
        SystemMonitorError::Runtime(_) => RecoveryStrategy::Terminate,
        SystemMonitorError::Io(_) => RecoveryStrategy::Retry { max_attempts: 2, delay_ms: 500 },
        SystemMonitorError::Serialization(_) => RecoveryStrategy::UseDefault,
        SystemMonitorError::ConfigParsing(_) => RecoveryStrategy::UseDefault,
        SystemMonitorError::InvalidMetric(_) => RecoveryStrategy::Ignore,
        SystemMonitorError::Other(_) => RecoveryStrategy::Ignore,
    }
}

/// The default error handler.
pub struct DefaultErrorHandler;

impl DefaultErrorHandler {
    /// The recovery strategy for `error`.
    pub fn handle_error(&self, error: &SystemMonitorError) -> (r: RecoveryStrategy)
        ensures
            r == default_strategy(*error),
    {
        match error {
            SystemMonitorError::SystemInfo(_) => RecoveryStrategy::Retry {
                max_attempts: 3,
                delay_ms: 1000,
            },
            SystemMonitorError::Config(_) => RecoveryStrategy::UseDefault,
            SystemMonitorError::Ui(_) => RecoveryStrategy::Degrade,
            SystemMonitorError::Runtime(_) => RecoveryStrategy::Terminate,
            SystemMonitorError::Io(_) => RecoveryStrategy::Retry { max_attempts: 2, delay_ms: 500 },
            SystemMonitorError::Serialization(_) => RecoveryStrategy::UseDefault,
            SystemMonitorError::ConfigParsing(_) => RecoveryStrategy::UseDefault,
            SystemMonitorError::InvalidMetric(_) => RecoveryStrategy::Ignore,
            SystemMonitorError::Other(_) => RecoveryStrategy::Ignore,
        }
    }
}

/// What a recovery loop does after a failed attempt.
#[derive(Clone, Copy, Debug, PartialEq, Eq, Structural)]
pub enum RecoveryAction {
    /// Wait `delay_ms`, then try again.
    RetryAfter(u64),
    /// Give the error back to the caller.
    GiveUp,
    /// Stop the application.
    Exit,
}

/// The action after the `attempts`-th failure (counting from one) under `strategy`.
pub open spec fn recovery_action_spec(strategy: RecoveryStrategy, attempts: u32) -> RecoveryAction {
    match strategy {
        RecoveryStrategy::Retry { max_attempts, delay_ms } => if attempts >= max_attempts {
            RecoveryAction::GiveUp
        } else {
            RecoveryAction::RetryAfter(delay_ms)
        },
        RecoveryStrategy::Terminate => RecoveryAction::Exit,
        _ => RecoveryAction::GiveUp,
    }
}

/// Decides what a recovery loop does after its `attempts`-th failed attempt:
/// retry while a retry strategy has attempts left, stop on `Terminate`,
/// otherwise hand the error back.
pub fn recovery_action(strategy: RecoveryStrategy, attempts: u32) -> (r: RecoveryAction)
    ensures
        r == recovery_action_spec(strategy, attempts),
{
    match strategy {
        RecoveryStrategy::Retry { max_attempts, delay_ms } => {
            if attempts >= max_attempts {
                RecoveryAction::GiveUp
            } else {
                RecoveryAction::RetryAfter(delay_ms)
            }
        },
        RecoveryStrategy::Terminate => RecoveryAction::Exit,
        _ => RecoveryAction::GiveUp,
    }
}

} // verus!
