use sms_relay::command::{parse_command, parse_delete, parse_list, Command, CommandError};

fn parse(text: &str) -> Result<Command, CommandError> {
    parse_command(text, "SmsRelayBot")
}

fn chars(s: &str) -> Vec<char> {
    s.chars().collect()
}

#[test]
fn list_takes_one_slot() {
    assert_eq!(parse("/list 2"), Ok(Command::List(2)));
    assert_eq!(parse("/list 0"), Ok(Command::List(0)));
    assert_eq!(parse("/list 255"), Ok(Command::List(255)));
    assert_eq!(parse("/list +7"), Ok(Command::List(7)));
    assert_eq!(parse("/list 007"), Ok(Command::List(7)));
    assert_eq!(parse("/list 000000000000000000000000255"), Ok(Command::List(255)));
}

#[test]
fn list_rejects_what_is_no_slot() {
    for text in [
        "/list", "/list ", "/list 256", "/list 1000", "/list -1", "/list +", "/list ++1", "/list 2 3",
        "/list  2", "/list 2 ", "/list two", "/list 2x", "/list \u{ff12}", "/list 99999999999999999999999",
    ] {
        assert_eq!(parse(text), Err(CommandError::IncorrectFormat), "{:?}", text);
    }
}

#[test]
fn delete_takes_slot_and_index() {
    assert_eq!(parse("/delete 2 5"), Ok(Command::Delete { slot: 2, index: 5 }));
    assert_eq!(parse("/delete 255 4294967295"), Ok(Command::Delete { slot: 255, index: u32::MAX }));
    assert_eq!(parse("/delete +3 +0010"), Ok(Command::Delete { slot: 3, index: 10 }));
    assert_eq!(parse("/delete 0 0"), Ok(Command::Delete { slot: 0, index: 0 }));
}

#[test]
fn delete_counts_its_arguments() {
    assert_eq!(parse("/delete 2"), Err(CommandError::TooFewArguments));
    assert_eq!(parse("/delete 2 5 6"), Err(CommandError::TooManyArguments));
    assert_eq!(parse("/delete 2 5 "), Err(CommandError::TooManyArguments));
    assert_eq!(parse("/delete 2 5 x y"), Err(CommandError::TooManyArguments));
}

#[test]
fn delete_rejects_what_is_no_number() {
    for text in [
        "/delete", "/delete ", "/delete x 5", "/delete 2 x", "/delete 256 1", "/delete 2 4294967296",
        "/delete 2  5", "/delete  2 5", "/delete 2 ", "/delete 2 -5", "/delete x",
    ] {
        assert_eq!(parse(text), Err(CommandError::IncorrectFormat), "{:?}", text);
    }
}

#[test]
fn first_failure_decides() {
    assert_eq!(parse("/delete x"), Err(CommandError::IncorrectFormat));
    assert_eq!(parse("/delete 2 x 9"), Err(CommandError::IncorrectFormat));
    assert_eq!(parse("/delete@other 2 5"), Err(CommandError::WrongBotName));
    assert_eq!(parse("/nothing@other"), Err(CommandError::WrongBotName));
}

#[test]
fn command_may_address_the_bot_in_any_case() {
    assert_eq!(parse("/list@SmsRelayBot 2"), Ok(Command::List(2)));
    assert_eq!(parse("/list@smsrelaybot 2"), Ok(Command::List(2)));
    assert_eq!(parse("/delete@SMSRELAYBOT 2 5"), Ok(Command::Delete { slot: 2, index: 5 }));
    assert_eq!(parse("/list@SmsRelayBot@more 2"), Ok(Command::List(2)));
}

#[test]
fn command_for_another_bot_is_rejected() {
    assert_eq!(parse("/list@OtherBot 2"), Err(CommandError::WrongBotName));
    assert_eq!(parse("/list@ 2"), Err(CommandError::WrongBotName));
    assert_eq!(parse("/list@SmsRelayBo 2"), Err(CommandError::WrongBotName));
    assert_eq!(parse("/list@SmsRelayBot2 2"), Err(CommandError::WrongBotName));
    assert_eq!(parse_command("/list@\u{431}\u{43e}\u{442} 2", "\u{411}\u{41e}\u{422}"), Err(CommandError::WrongBotName));
    assert_eq!(parse_command("/list@[ 2", "{"), Err(CommandError::WrongBotName));
    assert_eq!(parse_command("/list@@ 2", "`"), Err(CommandError::WrongBotName));
}

#[test]
fn empty_bot_name_matches_an_empty_address() {
    assert_eq!(parse_command("/list@ 2", ""), Ok(Command::List(2)));
    assert_eq!(parse_command("/list@@x 2", ""), Ok(Command::List(2)));
}

#[test]
fn unknown_words_are_no_commands() {
    for text in ["", " ", "/", "list 2", "/LIST 2", "/List 2", "/lists 2", "/start", "hello", " /list 2", "/list\t2", "/delete\n2 5"] {
        assert_eq!(parse(text), Err(CommandError::UnknownCommand), "{:?}", text);
    }
}

#[test]
fn parse_list_reads_the_whole_rest() {
    assert_eq!(parse_list(&chars("12")), Ok(Command::List(12)));
    assert_eq!(parse_list(&chars("")), Err(CommandError::IncorrectFormat));
    assert_eq!(parse_list(&chars("1 2")), Err(CommandError::IncorrectFormat));
}

#[test]
fn parse_delete_reads_two_numbers() {
    assert_eq!(parse_delete(&chars("3 44")), Ok(Command::Delete { slot: 3, index: 44 }));
    assert_eq!(parse_delete(&chars("3")), Err(CommandError::TooFewArguments));
    assert_eq!(parse_delete(&chars("3 44 5")), Err(CommandError::TooManyArguments));
    assert_eq!(parse_delete(&chars("")), Err(CommandError::IncorrectFormat));
}
