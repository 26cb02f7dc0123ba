//! Timeouts of the environment service.
use ecolog_lsp::services::{REFRESH_TIMEOUT_SECS, RESOLUTION_TIMEOUT_SECS};
use std::time::Duration;

#[test]
fn test_resolution_timeout_constant() {
    assert_eq!(Duration::from_secs(RESOLUTION_TIMEOUT_SECS), Duration::from_secs(5));
}

#[test]
fn test_refresh_timeout_constant() {
    assert_eq!(Duration::from_secs(REFRESH_TIMEOUT_SECS), Duration::from_secs(10));
}
