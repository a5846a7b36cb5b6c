use baba_bot::command::DEVELOPER;
use baba_bot::message::{keke_author, relay_to_developer, Keke, MessageOrigin};

#[test]
fn private_messages_are_relayed() {
    assert!(relay_to_developer(MessageOrigin::PublicChannel, "a", "b").is_none());
    let (to, text) = relay_to_developer(MessageOrigin::PrivateChannel, "baba", "hi there").unwrap();
    assert_eq!(to, DEVELOPER);
    assert_eq!(text, "Incoming message from baba:\n> hi there");
}

#[test]
fn introductions_rename_opted_in_users() {
    match keke_author("I'm keke", "baba", true) {
        Some(Keke::Rename { nickname, announcement }) => {
            assert_eq!(nickname, "keke");
            assert_eq!(announcement, "baba is `keke`!\n\nWanna optout? use -keke!");
        }
        _ => panic!("expected a rename"),
    }
    match keke_author("i am flag", "baba", true) {
        Some(Keke::Rename { nickname, .. }) => assert_eq!(nickname, "flag"),
        _ => panic!("expected a rename"),
    }
    assert!(keke_author("I'm keke", "baba", false).is_none());
    assert!(keke_author("hello", "baba", true).is_none());
}

#[test]
fn long_introductions_are_refused() {
    let long = format!("i'm {}", "x".repeat(33));
    match keke_author(&long, "baba", true) {
        Some(Keke::Refuse { announcement }) => assert!(announcement.starts_with("baba is NOT `")),
        _ => panic!("expected a refusal"),
    }
    let fits = format!("i'm {}", "x".repeat(32));
    assert!(matches!(keke_author(&fits, "baba", true), Some(Keke::Rename { .. })));
}
