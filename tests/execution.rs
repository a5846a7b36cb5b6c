use baba_bot::command::{Command, DEVELOPER};
use baba_bot::execute::{end_after, mute_end, Action, ExecError, Execution, Outcome, Progress};
use baba_bot::time::Time;

fn perform(progress: Progress) -> Action {
    match progress {
        Progress::Perform(action) => action,
        other => panic!("expected an action, got {:?}", other),
    }
}

#[test]
fn ban_asks_for_lookup_ban_notice_and_confirmation() {
    let mut run = Execution::start(Command::Ban(7, "spam".to_string()), 1, true, 0);
    assert!(matches!(perform(run.advance(Outcome::Done)), Action::LookUpMember(7)));
    match perform(run.advance(Outcome::Member("troll".to_string()))) {
        Action::BanMember(7, reason) => assert_eq!(reason, "spam"),
        other => panic!("{:?}", other),
    }
    match perform(run.advance(Outcome::Done)) {
        Action::DirectMessage(7, text) => {
            assert!(text.starts_with("You were given a ban in the __Baba is You Discord Server__ for the following reason:\n> *spam*\n"));
        }
        other => panic!("{:?}", other),
    }
    match perform(run.advance(Outcome::Done)) {
        Action::Reply(text) => assert_eq!(text, "Successfully banned troll for the following reason: \n>spam"),
        other => panic!("{:?}", other),
    }
    assert!(matches!(run.advance(Outcome::Done), Progress::Finished(Ok(()))));
    assert!(run.is_finished());
}

#[test]
fn failed_ban_sends_nothing_more() {
    let mut run = Execution::start(Command::Ban(7, "spam".to_string()), 1, true, 0);
    perform(run.advance(Outcome::Done));
    assert!(matches!(
        run.advance(Outcome::Failed(ExecError::MemberNotFound)),
        Progress::Finished(Err(ExecError::MemberNotFound))
    ));
    let mut run = Execution::start(Command::Ban(7, "spam".to_string()), 1, true, 0);
    perform(run.advance(Outcome::Done));
    perform(run.advance(Outcome::Member("troll".to_string())));
    assert!(matches!(
        run.advance(Outcome::Failed(ExecError::Platform)),
        Progress::Finished(Err(ExecError::Platform))
    ));
    assert!(run.is_finished());
}

#[test]
fn mute_asks_for_the_whole_duration_in_seconds() {
    let time = Time { seconds: 0, minutes: 30, hours: 2, days: 0 };
    let mut run = Execution::start(Command::Mute(9, time, "loud".to_string()), 1, true, 0);
    assert!(matches!(perform(run.advance(Outcome::Done)), Action::MuteMember(9, 9000)));
    match perform(run.advance(Outcome::Done)) {
        Action::DirectMessage(9, text) => assert_eq!(
            text,
            "You were given a mute in the __Baba is You Discord Server__ for the following reason:\n> *loud*\nIf you beleive this to be in error, contact the staff team.\n"
        ),
        other => panic!("{:?}", other),
    }
    match perform(run.advance(Outcome::Done)) {
        Action::Reply(text) => assert_eq!(text, "Successfully muted user for the following reason: \n>loud"),
        other => panic!("{:?}", other),
    }
    assert!(matches!(run.advance(Outcome::Done), Progress::Finished(Ok(()))));
}

#[test]
fn mute_past_the_representable_range_fails() {
    let time = Time { seconds: 1, minutes: 0, hours: 0, days: 0 };
    let mut run = Execution::start(Command::Mute(9, time, String::new()), 1, true, 0);
    perform(run.advance(Outcome::Done));
    assert!(matches!(
        run.advance(Outcome::Failed(ExecError::TimestampOverflow)),
        Progress::Finished(Err(ExecError::TimestampOverflow))
    ));
}

#[test]
fn stop_says_farewell_then_halts_even_if_the_farewell_fails() {
    let mut run = Execution::start(Command::Dev("stop".to_string()), DEVELOPER, true, 0);
    match perform(run.advance(Outcome::Done)) {
        Action::Reply(text) => assert_eq!(text, "Shutting down..."),
        other => panic!("{:?}", other),
    }
    assert!(matches!(perform(run.advance(Outcome::Failed(ExecError::Platform))), Action::Halt));
    let mut run = Execution::start(Command::Dev("dance".to_string()), DEVELOPER, true, 0);
    assert!(matches!(run.advance(Outcome::Done), Progress::Finished(Ok(()))));
}

#[test]
fn suggestion_goes_to_the_developer() {
    let mut run = Execution::start(Command::Suggestion("more cats".to_string()), 1, true, 0);
    match perform(run.advance(Outcome::Done)) {
        Action::DirectMessage(to, text) => {
            assert_eq!(to, DEVELOPER);
            assert_eq!(text, "Heads up Cami! Someone sent in a suggestion:\n> more cats");
        }
        other => panic!("{:?}", other),
    }
    assert!(matches!(perform(run.advance(Outcome::Done)), Action::Reply(_)));
}

#[test]
fn coin_flip_follows_the_coin() {
    let mut run = Execution::start(Command::CoinFlip, 1, true, 0);
    match perform(run.advance(Outcome::Done)) {
        Action::Reply(text) => assert_eq!(text, "The result of the coin flip was... ||heads!||"),
        other => panic!("{:?}", other),
    }
    let mut run = Execution::start(Command::CoinFlip, 1, false, 0);
    match perform(run.advance(Outcome::Done)) {
        Action::Reply(text) => assert_eq!(text, "The result of the coin flip was... ||tails!||"),
        other => panic!("{:?}", other),
    }
    let mut run = Command::CoinFlip.execute_command(1);
    match perform(run.advance(Outcome::Done)) {
        Action::Reply(text) => assert!(text.ends_with("||heads!||") || text.ends_with("||tails!||")),
        other => panic!("{:?}", other),
    }
}

#[test]
fn opting_in_and_out_touch_the_actor() {
    let mut run = Execution::start(Command::Optin, 55, true, 0);
    assert!(matches!(perform(run.advance(Outcome::Done)), Action::OptIn(55)));
    assert!(matches!(
        run.advance(Outcome::Failed(ExecError::Storage)),
        Progress::Finished(Err(ExecError::Storage))
    ));
    let mut run = Execution::start(Command::Optout, 55, true, 0);
    assert!(matches!(perform(run.advance(Outcome::Done)), Action::OptOut(55)));
}

#[test]
fn fixed_replies() {
    let cases = [
        (Command::DontAskToAsk, "https://dontasktoask.com/"),
        (Command::Notice("be nice".to_string()), "The following is an official announcement from the Baba is You staff team:\n> **be nice**"),
        (
            Command::PrivateModMessage { message: "m".to_string(), user: "u".to_string() },
            "One-Time private mod messages are unimplemented. For now, you can use the modmail system.",
        ),
    ];
    for (command, expected) in cases {
        let mut run = Execution::start(command, 1, true, 0);
        match perform(run.advance(Outcome::Done)) {
            Action::Reply(text) => assert_eq!(text, expected),
            other => panic!("{:?}", other),
        }
        assert!(matches!(run.advance(Outcome::Done), Progress::Finished(Ok(()))));
    }
    let mut run = Execution::start(Command::Keke, 1, true, 0);
    match perform(run.advance(Outcome::Done)) {
        Action::Reply(text) => assert!(text.ends_with("SPOILER_Untitled_28_1080p.mp4")),
        other => panic!("{:?}", other),
    }
}

#[test]
fn mute_end_in_unix_seconds() {
    assert_eq!(end_after(1_000, 9_000), Some(10_000));
    assert_eq!(end_after(-5, 3), Some(-2));
    assert_eq!(end_after(i64::MAX - 1, 1), Some(i64::MAX));
    assert_eq!(end_after(i64::MAX - 1, 2), None);
    assert_eq!(end_after(i64::MIN, u64::MAX), Some(i64::MAX));
    assert_eq!(end_after(0, u64::MAX), None);
    assert!(mute_end(0).is_some());
    assert!(mute_end(60).unwrap() > 0);
}
