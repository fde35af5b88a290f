//! The command and message grammar, and client input normalisation.

use networkingirc::client::CmdOperator;
use networkingirc::command::{Command, CommandParseError};
use networkingirc::message::Message;

#[test]
fn command_parse_test() {
    let join = String::from("JOIN newroom,secondroom,thirdroom 12345,12345");
    assert_eq!(
        Command::parse(&join).unwrap(),
        Command::JOIN(
            vec![
                String::from("newroom"),
                String::from("secondroom"),
                String::from("thirdroom")
            ],
            vec![String::from("12345"), String::from("12345")],
            None
        )
    );

    let user = String::from("USER cardinal hephaestus 127.0.0.1:2323 Julian Lazaras");
    let usercmd = Command::parse(&user).unwrap();
    assert_eq!(
        usercmd,
        Command::USER(
            "cardinal".to_string(),
            "hephaestus".to_string(),
            "127.0.0.1:2323".to_string(),
            "Julian".to_string()
        )
    );
}

#[test]
fn raw_message_test() {
    let message_str = ":cardinal@localhost this is a message test".to_string();
    let message = Message::parse(message_str).unwrap();
    assert_eq!(message.command(), &Command::RAW);

    assert_eq!(message.prefix(), Some("cardinal@localhost"));
    assert_eq!(message.raw_message(), "this is a message test");

    let second_str = "this is another message".to_string();
    let second_message = Message::parse(second_str).unwrap();
    assert_eq!(second_message.command(), &Command::RAW);

    let third_str = "JOIN Welcome,myroom".to_string();
    let third = Message::parse(third_str).unwrap();
    assert!(third.command() != &Command::RAW);

    match third.command() {
        Command::JOIN(channels, _keys, _realname) => {
            assert_eq!(channels, &vec!["Welcome".to_string(), "myroom".to_string()]);
        }
        _ => panic!("unexpected type"),
    }
}

#[test]
fn convert_input() {
    let input = "/join cardinal".to_string();
    let parsed = CmdOperator::parse_input(input).unwrap();
    assert_eq!(parsed.as_str(), String::from("JOIN cardinal"));
    let list = "/list".to_string();
    let list_parsed = CmdOperator::parse_input(list).unwrap();
    assert_eq!(list_parsed.as_str(), "LIST".to_string());
}

#[test]
fn join_with_keys_and_no_trailing() {
    let cmd = Command::parse("JOIN room1,room2 key1,key2").unwrap();
    assert_eq!(
        cmd,
        Command::JOIN(
            vec!["room1".to_string(), "room2".to_string()],
            vec!["key1".to_string(), "key2".to_string()],
            None
        )
    );
}

#[test]
fn trailing_starts_at_space_colon_only() {
    let msg = Message::parse(":nick!user@host PRIVMSG #chan :hello world".to_string()).unwrap();
    assert_eq!(msg.prefix(), Some("nick!user@host"));
    // PRIVMSG is not a dispatched verb, so the command degrades to RAW,
    // but the trailing text is split at the first " :", not at the bare
    // colon inside the prefix or anywhere else.
    assert_eq!(msg.command(), &Command::RAW);
    assert_eq!(msg.trailing(), Some("hello world"));
}

#[test]
fn trailing_keeps_embedded_colons_and_spaces() {
    let msg = Message::parse("TOPIC #chan :a : b :c".to_string()).unwrap();
    assert_eq!(msg.trailing(), Some("a : b :c"));
}

#[test]
fn user_with_colon_in_address_is_not_truncated() {
    let msg = Message::parse("USER cardinal hephaestus 127.0.0.1:2323 Julian".to_string()).unwrap();
    assert_eq!(
        msg.command(),
        &Command::USER(
            "cardinal".to_string(),
            "hephaestus".to_string(),
            "127.0.0.1:2323".to_string(),
            "Julian".to_string()
        )
    );
}

#[test]
fn missing_argument_errors() {
    assert!(matches!(
        Command::parse("JOIN"),
        Err(CommandParseError::MissingArgument)
    ));
    assert!(matches!(
        Command::parse("USER a b c"),
        Err(CommandParseError::MissingArgument)
    ));
    assert!(matches!(
        Command::parse("PING"),
        Err(CommandParseError::MissingArgument)
    ));
    assert!(matches!(
        Command::parse("NICK"),
        Err(CommandParseError::MissingArgument)
    ));
    assert!(matches!(
        Command::parse("PASS"),
        Err(CommandParseError::MissingArgument)
    ));
}

#[test]
fn empty_command_section_is_rejected() {
    assert!(matches!(
        Command::parse(""),
        Err(CommandParseError::EmptyString)
    ));
    assert!(matches!(
        Message::parse(String::new()),
        Err(CommandParseError::EmptyString)
    ));
}

#[test]
fn prefix_without_command_is_rejected() {
    assert!(matches!(
        Message::parse(":onlyaprefix".to_string()),
        Err(CommandParseError::PrefixOnly(_))
    ));
}

#[test]
fn optional_arguments_default() {
    assert_eq!(Command::parse("QUIT").unwrap(), Command::QUIT(None));
    assert_eq!(
        Command::parse("QUIT bye").unwrap(),
        Command::QUIT(Some("bye".to_string()))
    );
    assert_eq!(
        Command::parse("LIST").unwrap(),
        Command::LIST(Vec::new(), None)
    );
    assert_eq!(
        Command::parse("NAMES a,b").unwrap(),
        Command::NAMES(vec!["a".to_string(), "b".to_string()], None)
    );
    assert_eq!(
        Command::parse("PONG server").unwrap(),
        Command::PONG("server".to_string(), None)
    );
}

#[test]
fn unknown_verbs_degrade_to_raw() {
    assert_eq!(Command::parse("FROBNICATE x y").unwrap(), Command::RAW);
    assert_eq!(Command::parse("hello everyone").unwrap(), Command::RAW);
    // The match is case-sensitive: a lowercase verb is not recognized.
    assert_eq!(Command::parse("join room1").unwrap(), Command::RAW);
}

#[test]
fn parse_input_passes_chat_text_through() {
    let text = "just some chat".to_string();
    assert_eq!(
        CmdOperator::parse_input(text.clone()).unwrap(),
        text
    );
}

#[test]
fn parse_input_uppercases_verb_only() {
    let parsed = CmdOperator::parse_input("/join Room1 key\n".to_string()).unwrap();
    assert_eq!(parsed.as_str(), "JOIN Room1 key");
}
