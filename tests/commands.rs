use baba_bot::command::{xkcd_from_alias, xkcd_from_string, Command, CommandType, DEVELOPER};
use baba_bot::execute::{Action, Execution, Outcome, Progress};
use baba_bot::time::Time;

const SOMEONE: u64 = 42;

fn parse(text: &str) -> Command {
    Command::parse_from_message(text, SOMEONE, "someone", Some(false))
}

fn replies(command: Command, draw: u64) -> Vec<String> {
    let mut run = Execution::start(command, SOMEONE, true, draw);
    let mut sent = Vec::new();
    loop {
        match run.advance(Outcome::Done) {
            Progress::Perform(Action::Reply(text)) => sent.push(text),
            Progress::Perform(other) => panic!("unexpected action {:?}", other),
            Progress::Finished(result) => {
                assert!(result.is_ok());
                return sent;
            }
        }
    }
}

#[test]
fn randint_scenario_sends_one_number_below_the_bound() {
    let command = parse("-randint 10");
    assert_eq!(command, Command::RandomInt(10));
    for draw in [0u64, 1, 1 << 63, u64::MAX - 1, u64::MAX] {
        let sent = replies(Command::RandomInt(10), draw);
        assert_eq!(sent.len(), 1);
        let text = &sent[0];
        assert!(text.starts_with("Between 0 and 10, I choose... ||"));
        let number: u64 = text
            .trim_start_matches("Between 0 and 10, I choose... ||")
            .trim_end_matches("!||")
            .parse()
            .unwrap();
        assert!(number < 10);
    }
    assert_eq!(replies(Command::RandomInt(10), u64::MAX), vec!["Between 0 and 10, I choose... ||9!||".to_string()]);
    assert_eq!(replies(Command::RandomInt(10), 1 << 63), vec!["Between 0 and 10, I choose... ||5!||".to_string()]);
}

#[test]
fn randint_with_a_bound_of_zero_chooses_zero() {
    assert_eq!(replies(Command::RandomInt(0), u64::MAX), vec!["Between 0 and 0, I choose... ||0!||".to_string()]);
}

#[test]
fn randint_without_a_number_is_not_valid() {
    assert_eq!(
        parse("-randint ten"),
        Command::NotValid("Couldn't parse an integer from the given arguments!".to_string())
    );
    assert_eq!(
        parse("-rand 18446744073709551616"),
        Command::NotValid("Couldn't parse an integer from the given arguments!".to_string())
    );
    assert_eq!(parse("-rand 18446744073709551615"), Command::RandomInt(u64::MAX));
}

#[test]
fn xkcd_scenario_tautology() {
    assert_eq!(parse("-xkcd tautology"), Command::Xkcd(703));
}

#[test]
fn xkcd_lookup_by_number_and_phrase() {
    assert_eq!(xkcd_from_string("1234"), 1234);
    assert_eq!(xkcd_from_string("Python"), 353);
    assert_eq!(xkcd_from_string("IMPORT ANTIGRAVITY"), 353);
    assert_eq!(xkcd_from_string("side effects"), 1312);
    assert_eq!(xkcd_from_string("trolley problem"), 1455);
    assert_eq!(xkcd_from_string("OS"), 272);
    assert_eq!(xkcd_from_string("linux"), 272);
    assert_eq!(xkcd_from_string("Honor Society"), 703);
    assert_eq!(xkcd_from_string("something else"), 404);
    assert_eq!(xkcd_from_alias("haskell"), 1312);
    assert_eq!(xkcd_from_alias("Haskell"), 404);
    assert_eq!(parse("-xkcd side effects"), Command::Xkcd(1312));
    assert_eq!(replies(Command::Xkcd(703), 0), vec!["https://xkcd.com/703/".to_string()]);
}

#[test]
fn ban_scenario_from_a_non_moderator_is_refused() {
    let command = parse("-ban 123456 spamming");
    assert_eq!(command, Command::NotValid("User is not a moderator!".to_string()));
    let sent = replies(command, 0);
    assert_eq!(sent.len(), 1);
    assert!(sent[0].contains("moderator"));
}

#[test]
fn ban_from_a_moderator_keeps_its_reason() {
    let command = Command::parse_from_message("-ban 123456 spamming links", SOMEONE, "mod", Some(true));
    assert_eq!(command, Command::Ban(123456, "spamming links".to_string()));
    let command = Command::parse_from_message("-ban <@!77> spam", SOMEONE, "mod", Some(true));
    assert_eq!(command, Command::Ban(77, "spam".to_string()));
    let command = Command::parse_from_message("-ban <@78>", SOMEONE, "mod", Some(true));
    assert_eq!(command, Command::Ban(78, String::new()));
}

#[test]
fn ban_with_a_bad_user_is_not_valid() {
    let refused = Command::NotValid("Given user was not a valid UserID".to_string());
    assert_eq!(Command::parse_from_message("-ban foo_bar", SOMEONE, "mod", Some(true)), refused);
    assert_eq!(Command::parse_from_message("-ban", SOMEONE, "mod", Some(true)), refused);
    assert_eq!(Command::parse_from_message("-ban <@12\u{e9}", SOMEONE, "mod", Some(true)), refused);
}

#[test]
fn moderator_check_that_failed_refuses_privileged_commands() {
    let command = Command::parse_from_message("-notice hello", SOMEONE, "x", None);
    assert_eq!(
        command,
        Command::NotValid(
            "Could not determine whether the user is a mod, so I'm falling back to not allowing it."
                .to_string()
        )
    );
    assert_eq!(Command::parse_from_message("-flip", SOMEONE, "x", None), Command::CoinFlip);
}

#[test]
fn mute_parses_user_time_and_reason() {
    let command = Command::parse_from_message("-mute 99 2h30m too loud", SOMEONE, "mod", Some(true));
    let time = Time { seconds: 0, minutes: 30, hours: 2, days: 0 };
    assert_eq!(command, Command::Mute(99, time, "too loud".to_string()));
    assert_eq!(
        Command::parse_from_message("-mute 99 2x", SOMEONE, "mod", Some(true)),
        Command::NotValid("Given time was invalid!".to_string())
    );
    assert_eq!(
        Command::parse_from_message("-mute 99", SOMEONE, "mod", Some(true)),
        Command::NotValid("Given time was invalid!".to_string())
    );
    assert_eq!(
        Command::parse_from_message("-mute foo 2h", SOMEONE, "mod", Some(true)),
        Command::NotValid("Given user was not a valid UserID".to_string())
    );
}

#[test]
fn no_prefix_scenario_is_silent() {
    let command = parse("hello there");
    assert_eq!(command, Command::NotACommand);
    assert!(replies(command, 0).is_empty());
    assert_eq!(parse(""), Command::NotACommand);
}

#[test]
fn unknown_command_is_not_valid() {
    assert_eq!(parse("-frobnicate"), Command::NotValid("I couldn't parse the command!".to_string()));
    assert_eq!(parse("- ban"), Command::NotValid("I couldn't parse the command!".to_string()));
    let sent = replies(parse("-frobnicate"), 0);
    assert_eq!(
        sent,
        vec!["Oops! That command was invalid for the following reason: \n> I couldn't parse the command!".to_string()]
    );
}

#[test]
fn classify_is_total() {
    assert_eq!(CommandType::classify(""), CommandType::NotValid);
    assert_eq!(CommandType::classify("whatever"), CommandType::NotValid);
    assert_eq!(CommandType::classify("BAN"), CommandType::Ban);
    assert_eq!(CommandType::classify("Flip"), CommandType::CoinFlip);
    assert_eq!(CommandType::classify("rand"), CommandType::RandomInt);
    assert_eq!(CommandType::classify("private"), CommandType::PrivateModMessage);
    assert_eq!(CommandType::classify("optout"), CommandType::Optout);
    assert_eq!(CommandType::from_word("KEKE"), CommandType::NotValid);
    assert_eq!(CommandType::from_word("keke"), CommandType::Keke);
}

#[test]
fn kind_of_a_ban_is_the_kind_of_the_word_ban() {
    let kind = CommandType::from(Command::Ban(1, "r".to_string()));
    assert_eq!(kind, CommandType::classify("ban"));
    assert_eq!(CommandType::from(Command::Keke), CommandType::Keke);
}

#[test]
fn moderator_gate() {
    let notice = Command::Notice("hi".to_string()).requires_mod(Some(false));
    assert!(matches!(notice, Command::NotValid(_)));
    assert_eq!(Command::CoinFlip.requires_mod(Some(false)), Command::CoinFlip);
    assert_eq!(
        Command::Notice("hi".to_string()).requires_mod(Some(true)),
        Command::Notice("hi".to_string())
    );
}

#[test]
fn developer_gate() {
    assert_eq!(
        Command::Dev("stop".to_string()).requires_dev(SOMEONE),
        Command::NotValid("User is not the dev!".to_string())
    );
    assert_eq!(
        Command::Dev("stop".to_string()).requires_dev(DEVELOPER),
        Command::Dev("stop".to_string())
    );
    assert_eq!(
        Command::parse_from_message("-dev stop", SOMEONE, "x", Some(true)),
        Command::NotValid("User is not the dev!".to_string())
    );
    assert_eq!(
        Command::parse_from_message("-dev stop", DEVELOPER, "x", Some(false)),
        Command::Dev("stop".to_string())
    );
}

#[test]
fn other_commands_parse_with_their_arguments() {
    assert_eq!(
        parse("-pvm general chat  is breaking rule 5"),
        Command::PrivateModMessage {
            message: "general chat is breaking rule 5".to_string(),
            user: "someone".to_string()
        }
    );
    assert_eq!(parse("-help"), Command::Help(None));
    assert_eq!(parse("-help da2a"), Command::Help(Some(CommandType::DontAskToAsk)));
    assert_eq!(parse("-help nothing"), Command::Help(Some(CommandType::NotValid)));
    assert_eq!(parse("-suggest more cats"), Command::Suggestion("more cats".to_string()));
    assert_eq!(parse("-DA2A"), Command::DontAskToAsk);
    assert_eq!(parse("-optin"), Command::Optin);
    assert_eq!(parse("-optout"), Command::Optout);
    assert_eq!(parse("-keke"), Command::Keke);
    assert_eq!(
        Command::parse_from_message("-notice be nice", SOMEONE, "x", Some(true)),
        Command::Notice("be nice".to_string())
    );
}

#[test]
fn help_texts() {
    assert!(CommandType::Ban.help_message().starts_with("```\n-ban [user] - Mod Only!\n"));
    assert!(CommandType::RandomInt.help_message().contains("not including"));
    assert_eq!(CommandType::NotACommand.help_message(), "```\nINVALID COMMAND\n```\n");
    assert_eq!(
        replies(Command::Help(Some(CommandType::Keke)), 0),
        vec![CommandType::Keke.help_message()]
    );
    assert_eq!(replies(Command::Help(None), 0), vec!["Availible Commands:\n".to_string()]);
}
