//! Restart policy and stream metadata.

use turbo_capture::metadata::{
    event_line, post_event, post_inactive, SelectorEvent, StreamInfoUpdate, MAX_EVENT_BYTES,
};
use turbo_capture::publisher::AbandonmentFault;
use turbo_capture::restart::{
    next_delay, recovery_scope, Component, RecoveryScope, RestartBackoff, INITIAL_BACKOFF_MS,
    MAX_CONSECUTIVE_RESTARTS, STABLE_RESET_AFTER_MS,
};
use turbo_capture::shared_texture::RESOURCE_GENERATION_LOST_EXIT_CODE;

#[test]
fn resource_loss_overrides_component_local_recovery() {
    assert_eq!(
        recovery_scope(Component::Capture, Some(RESOURCE_GENERATION_LOST_EXIT_CODE)),
        RecoveryScope::ResourceGeneration
    );
    assert_eq!(
        recovery_scope(Component::Encoder, Some(RESOURCE_GENERATION_LOST_EXIT_CODE)),
        RecoveryScope::ResourceGeneration
    );
    assert_eq!(recovery_scope(Component::Capture, Some(1)), RecoveryScope::Capture);
    assert_eq!(recovery_scope(Component::Relay, Some(0)), RecoveryScope::EncoderRelay);
}

#[test]
fn backoff_is_capped_and_exhausts() {
    let mut backoff = RestartBackoff::default();
    let delays = std::iter::repeat_with(|| backoff.next_delay(0).unwrap())
        .take(MAX_CONSECUTIVE_RESTARTS as usize)
        .collect::<Vec<_>>();
    assert_eq!(delays, vec![250, 500, 1_000, 2_000, 4_000, 4_000]);
    assert_eq!(backoff.next_delay(0), None);
}

#[test]
fn stable_uptime_resets_failure_history() {
    let mut backoff = RestartBackoff::default();
    assert_eq!(backoff.next_delay(0), Some(INITIAL_BACKOFF_MS));
    assert_eq!(backoff.next_delay(0), Some(500));
    assert_eq!(backoff.next_delay(STABLE_RESET_AFTER_MS), Some(INITIAL_BACKOFF_MS));
}

#[test]
fn exhausted_components_are_named() {
    let mut backoff = RestartBackoff::default();
    for _ in 0..MAX_CONSECUTIVE_RESTARTS {
        next_delay(&mut backoff, 0, "encoder").unwrap();
    }
    assert_eq!(backoff.failures(), MAX_CONSECUTIVE_RESTARTS);
    assert!(next_delay(&mut backoff, 0, "encoder").unwrap_err().contains("encoder"));
    backoff.reset();
    assert_eq!(next_delay(&mut backoff, 0, "encoder"), Ok(INITIAL_BACKOFF_MS));
}

#[test]
fn abandonment_fault_triggers_only_at_requested_acquisition() {
    let mut fault = AbandonmentFault::new(3);
    assert!(!fault.record_acquisition());
    assert!(!fault.record_acquisition());
    assert!(fault.record_acquisition());
    assert!(!fault.record_acquisition());
}

#[test]
fn selected_event_preserves_profile_and_capture_facts() {
    let event = SelectorEvent::Selected {
        hwnd: "0x1234".to_owned(),
        title: "Editor".to_owned(),
        file_description: "Code".to_owned(),
        profile: "code".to_owned(),
    };
    let update = StreamInfoUpdate::from_event(event, "shared");
    assert!(update.active);
    assert_eq!(update.hwnd, "0x1234");
    assert_eq!(update.mode.as_deref(), Some("code"));
    assert_eq!(update.capture_mode, "shared");
}

#[test]
fn clear_event_removes_target_specific_values() {
    let update = StreamInfoUpdate::from_event(SelectorEvent::Cleared, "shared");
    assert!(!update.active);
    assert!(update.hwnd.is_empty());
    assert!(update.mode.is_none());
    assert_eq!(update.capture_mode, "shared");
}

#[test]
fn posts_carry_their_generation() {
    let task = post_event(4, SelectorEvent::Cleared, "shared");
    assert_eq!(task, post_inactive(4, "shared"));
    assert_eq!(task.generation, 4);
}

#[test]
fn event_lines_are_bounded_and_trimmed() {
    assert_eq!(event_line("{} \r\n").as_deref(), Some("{}"));
    assert_eq!(event_line("  \n").as_deref(), Some(""));
    assert_eq!(event_line(&"x".repeat(MAX_EVENT_BYTES + 1)), None);
}
