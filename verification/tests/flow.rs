use airdrop::confirmation::{initial_progress, pairing_step, pairing_timeout_seconds, PairingAction, PairingEvent};
use airdrop::platform::{clipboard_poll_interval, device_name, platform_name, sanitize_hostname, TargetPlatform};

fn confirm(accepted: bool, hash: &str) -> PairingEvent {
    PairingEvent::RemoteConfirm { schema_version: 1, pairing_id: "pair".to_string(), context_hash: hash.to_string(), accepted }
}

#[test]
fn pairing_completes_after_both_confirmations_and_both_completes() {
    let p = initial_progress();
    let step = pairing_step(p, PairingEvent::LocalDecision(true), "pair", "hash");
    assert!(matches!(step.actions[0], PairingAction::SendConfirm(true)));
    assert!(matches!(step.actions[1], PairingAction::Status("waiting_for_peer")));
    assert_eq!(step.actions.len(), 2);
    assert_eq!(pairing_timeout_seconds(step.progress), 120);
    let step = pairing_step(step.progress, confirm(true, "hash"), "pair", "hash");
    assert_eq!(step.actions.len(), 2);
    assert!(matches!(step.actions[0], PairingAction::SendComplete));
    assert!(matches!(step.actions[1], PairingAction::Status("waiting_for_peer_complete")));
    assert!(step.progress.local_complete_sent);
    assert_eq!(pairing_timeout_seconds(step.progress), 10);
    let step = pairing_step(step.progress, PairingEvent::RemoteComplete { schema_version: 1, pairing_id: "pair".to_string() }, "pair", "hash");
    assert_eq!(step.actions.len(), 1);
    assert!(matches!(step.actions[0], PairingAction::Completed));
    assert!(step.progress.remote_completed);
}

#[test]
fn a_peer_that_confirms_first_waits_for_the_user() {
    let step = pairing_step(initial_progress(), confirm(true, "hash"), "pair", "hash");
    assert_eq!(step.actions.len(), 1);
    assert!(matches!(step.actions[0], PairingAction::Status("peer_confirmed")));
    let step = pairing_step(step.progress, PairingEvent::LocalDecision(true), "pair", "hash");
    assert_eq!(step.actions.len(), 4);
    assert!(matches!(step.actions[2], PairingAction::SendComplete));
    // A second decision changes nothing.
    let again = pairing_step(step.progress, PairingEvent::LocalDecision(false), "pair", "hash");
    assert!(again.actions.is_empty());
}

#[test]
fn pairing_fails_on_refusal_mismatch_early_complete_or_timeout() {
    let refused = pairing_step(initial_progress(), PairingEvent::LocalDecision(false), "pair", "hash");
    assert!(matches!(refused.actions[0], PairingAction::SendConfirm(false)));
    assert!(matches!(&refused.actions[1], PairingAction::Failed(m) if m == "用户拒绝了配对"));
    let wrong = pairing_step(initial_progress(), confirm(true, "other"), "pair", "hash");
    assert!(matches!(&wrong.actions[0], PairingAction::Failed(m) if m == "配对确认消息无效"));
    let declined = pairing_step(initial_progress(), confirm(false, "hash"), "pair", "hash");
    assert!(matches!(&declined.actions[0], PairingAction::Failed(m) if m == "对方拒绝了配对"));
    let early = pairing_step(
        initial_progress(),
        PairingEvent::RemoteComplete { schema_version: 1, pairing_id: "pair".to_string() },
        "pair",
        "hash",
    );
    assert!(matches!(&early.actions[0], PairingAction::Failed(m) if m == "配对确认消息无效"));
    let timeout = pairing_step(initial_progress(), PairingEvent::TimedOut, "pair", "hash");
    assert!(matches!(&timeout.actions[0], PairingAction::Failed(m) if m == "配对确认已超时"));
    let aborted = pairing_step(initial_progress(), PairingEvent::RemoteAbort("bye".to_string()), "pair", "hash");
    assert!(matches!(&aborted.actions[0], PairingAction::Failed(m) if m == "bye"));
}

#[test]
fn platforms_poll_at_their_own_pace_and_have_names() {
    assert_eq!(clipboard_poll_interval(TargetPlatform::Linux), 700);
    assert_eq!(clipboard_poll_interval(TargetPlatform::Windows), 450);
    assert_eq!(clipboard_poll_interval(TargetPlatform::MacOs), 500);
    assert_eq!(clipboard_poll_interval(TargetPlatform::Android), 900);
    assert_eq!(clipboard_poll_interval(TargetPlatform::Other), 1000);
    assert_eq!(platform_name(TargetPlatform::Linux), Some("linux"));
    assert_eq!(platform_name(TargetPlatform::Android), Some("android"));
    assert_eq!(platform_name(TargetPlatform::Other), Some("unknown"));
}

#[test]
fn device_and_host_names_are_cleaned() {
    assert_eq!(device_name("  my-laptop \n"), "my-laptop");
    assert_eq!(device_name("   "), "AirDrop Device");
    assert_eq!(sanitize_hostname("My Laptop (2)"), "My-Laptop--2");
    assert_eq!(sanitize_hostname("--édition--"), "dition");
    assert_eq!(sanitize_hostname("***"), "airdrop-device");
    assert_eq!(sanitize_hostname(&"a".repeat(60)).len(), 48);
}
