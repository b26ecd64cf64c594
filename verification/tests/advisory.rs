use cmdgate::advice::{advice_note, advice_prompt};
use cmdgate::permission::Permission;

#[test]
fn test_no_prompt_for_allow() {
    assert!(advice_prompt("ls", "fine", &Permission::Allow).is_none());
}

#[test]
fn test_prompt_for_ask_mentions_command_and_reason() {
    let p = advice_prompt("mycmd --x", "needs review", &Permission::Ask).unwrap();
    assert!(p.contains("Command: mycmd --x"));
    assert!(p.contains("Current decision: ask because: needs review"));
}

#[test]
fn test_prompt_for_deny() {
    let p = advice_prompt("rm -rf /", "destructive", &Permission::Deny).unwrap();
    assert!(p.contains("Current decision: deny because: destructive"));
}

#[test]
fn test_note_trims_and_labels() {
    assert_eq!(
        advice_note("  Allow: looks safe \n"),
        Some("AI advice: Allow: looks safe".to_string())
    );
}

#[test]
fn test_note_empty_reply_is_no_advice() {
    assert_eq!(advice_note("   \n  "), None);
    assert_eq!(advice_note(""), None);
}
