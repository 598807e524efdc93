use dbot::ids::{ChannelId, GuildId, UserId};
use dbot::message::{
    build_prompt, find_command, is_for_bot, message, parse_voice_command, respond, sound_request,
    IncomingMessage, MentionedUser, MessageAction, VoiceCommand,
};
use dbot::program::{program_config, program_message};

const BOT: UserId = UserId(42);

fn user(id: u64, name: &str, global: Option<&str>) -> MentionedUser {
    MentionedUser {
        id: UserId(id),
        name: name.to_string(),
        global_name: global.map(|n| n.to_string()),
    }
}

fn msg(content: &str, mentions: Vec<MentionedUser>) -> IncomingMessage {
    IncomingMessage {
        author_id: UserId(7),
        author_name: "pepe".to_string(),
        author_is_bot: false,
        guild_id: Some(GuildId(1)),
        channel_id: ChannelId(5),
        content: content.to_string(),
        mentions,
        mention_channels: vec![],
    }
}

fn to_bot(content: &str) -> IncomingMessage {
    msg(content, vec![user(42, "dad", None)])
}

#[test]
fn keywords_are_commands_in_any_case() {
    for word in ["join", "come", "komm", "JOIN", "Komm"] {
        let m = to_bot(&format!("<@42>  {word} "));
        assert!(matches!(parse_voice_command(&m, BOT), Some(VoiceCommand::JoinAuthor)));
    }
    for word in ["leave", "disconnect", "go away", "Go Away"] {
        let m = to_bot(&format!("{word} <@!42>"));
        assert!(matches!(parse_voice_command(&m, BOT), Some(VoiceCommand::Leave)));
    }
    assert!(matches!(
        parse_voice_command(&to_bot("<@42> STOP"), BOT),
        Some(VoiceCommand::StopSound)
    ));
    assert!(parse_voice_command(&to_bot("<@42> stop it"), BOT).is_none());
    assert!(parse_voice_command(&to_bot("<@42>"), BOT).is_none());
}

#[test]
fn sounds_are_named_in_lower_case() {
    match parse_voice_command(&to_bot("<@42> play   BOING "), BOT) {
        Some(VoiceCommand::PlaySound(name)) => assert_eq!(name, "boing"),
        other => panic!("{other:?}"),
    }
    match parse_voice_command(&to_bot("<@42> sound ÄHM"), BOT) {
        Some(VoiceCommand::PlaySound(name)) => assert_eq!(name, "ähm"),
        other => panic!("{other:?}"),
    }
    // the word itself counts as it is written
    assert!(parse_voice_command(&to_bot("<@42> Play boing"), BOT).is_none());
    assert!(parse_voice_command(&to_bot("<@42> play "), BOT).is_none());
    assert_eq!(sound_request("sound  a "), Some("a".to_string()));
    assert_eq!(sound_request("play b"), Some("b".to_string()));
    assert_eq!(sound_request("sound"), None);
}

#[test]
fn join_takes_a_user_before_a_channel() {
    let mut m = msg(
        "<@42> join <@9> <#77>",
        vec![user(42, "dad", None), user(9, "ana", None), user(10, "luis", None)],
    );
    m.mention_channels = vec![ChannelId(77), ChannelId(78)];
    assert!(matches!(
        parse_voice_command(&m, BOT),
        Some(VoiceCommand::JoinUser(UserId(9)))
    ));
    m.mentions = vec![user(42, "dad", None)];
    assert!(matches!(
        parse_voice_command(&m, BOT),
        Some(VoiceCommand::JoinChannel(ChannelId(77)))
    ));
    m.mention_channels = vec![];
    assert!(parse_voice_command(&m, BOT).is_none());
}

#[test]
fn command_is_found_from_its_parts() {
    let users = vec![user(42, "dad", None), user(9, "ana", None)];
    let c = find_command("komm her", None, &users, &vec![], BOT);
    assert!(matches!(c, Some(VoiceCommand::JoinUser(UserId(9)))));
    let c = find_command("come", Some("x".to_string()), &users, &vec![], BOT);
    assert!(matches!(c, Some(VoiceCommand::JoinAuthor)));
    let c = find_command("come x", Some("x".to_string()), &users, &vec![], BOT);
    assert!(matches!(c, Some(VoiceCommand::PlaySound(_))));
    let c = find_command("come x", Some("".to_string()), &vec![], &vec![ChannelId(3)], BOT);
    assert!(matches!(c, Some(VoiceCommand::JoinChannel(ChannelId(3)))));
    assert!(find_command("hola", None, &users, &vec![ChannelId(3)], BOT).is_none());
}

#[test]
fn prompt_names_the_mentioned_users() {
    let m = msg(
        " <@42> saluda a <@9>, a <@!10> y a <@11> ",
        vec![user(42, "dad", Some("Dad")), user(9, "ana", Some("Ana")), user(10, "luis", None)],
    );
    assert_eq!(build_prompt(&m, BOT), "saluda a Ana, a luis y a <@11>");
    assert_eq!(build_prompt(&to_bot("hola <3 "), BOT), "hola <3");
}

#[test]
fn others_are_ignored() {
    let mut m = to_bot("<@42> hola");
    assert!(is_for_bot(&m, BOT));
    m.author_is_bot = true;
    assert!(!is_for_bot(&m, BOT));
    assert!(matches!(message(&m, BOT), MessageAction::Ignore));
    let m = msg("<@42> hola", vec![]);
    assert!(matches!(message(&m, BOT), MessageAction::Ignore));
    assert!(matches!(program_message(&m, BOT), MessageAction::Ignore));
}

#[test]
fn message_decides_what_to_do() {
    assert!(matches!(
        message(&to_bot("<@42> leave"), BOT),
        MessageAction::Voice(VoiceCommand::Leave)
    ));
    match message(&to_bot(" <@42> <@!42>"), BOT) {
        MessageAction::Reply(text) => assert_eq!(text, "Hey! What would you like to talk about?"),
        other => panic!("{other:?}"),
    }
    match message(&to_bot("<@42> ¿qué tal?"), BOT) {
        MessageAction::Ask(prompt) => assert_eq!(prompt, "¿qué tal?"),
        other => panic!("{other:?}"),
    }
    assert!(matches!(
        respond(&to_bot("<@42> hola"), BOT, Some(VoiceCommand::StopSound)),
        MessageAction::Voice(VoiceCommand::StopSound)
    ));
}

#[test]
fn program_knows_no_voice_commands() {
    match program_message(&to_bot("<@42> leave"), BOT) {
        MessageAction::Ask(prompt) => assert_eq!(prompt, "leave"),
        other => panic!("{other:?}"),
    }
    match program_message(&to_bot("<@42>"), BOT) {
        MessageAction::Reply(text) => {
            assert_eq!(text, "Hey! What would you like to talk about? 🤖")
        }
        other => panic!("{other:?}"),
    }
    let m = msg("<@42> hola <@9>", vec![user(42, "dad", None), user(9, "ana", None)]);
    match program_message(&m, BOT) {
        MessageAction::Ask(prompt) => assert_eq!(prompt, "hola <@9>"),
        other => panic!("{other:?}"),
    }
    let config = program_config("t".to_string(), "k".to_string());
    assert_eq!(config.model, "openai/gpt-oss-120b");
    assert_eq!(config.memory_size, 30);
    assert_eq!(config.max_tokens, 1000);
}

#[test]
fn leading_mention_is_taken_off() {
    for content in ["<@42> tell me <@9>", "<@!42> tell me <@9>", "<@42>tell me <@9>\n"] {
        assert_eq!(build_prompt(&to_bot(content), BOT), "tell me <@9>");
    }
    assert_eq!(build_prompt(&to_bot("  no mention "), BOT), "no mention");
}

#[test]
fn place_of_the_mention_does_not_matter() {
    for text in ["play Boing", "hi <@9> and <@42> again", "<@", "1>", "<@!42"] {
        let plain = to_bot(text);
        for content in [
            format!("<@42>{text}"),
            format!(" <@!42>\u{3000} {text}"),
            format!("{text}<@42>"),
            format!("{text} \n<@!42>  "),
        ] {
            let other = to_bot(&content);
            assert_eq!(build_prompt(&other, BOT), build_prompt(&plain, BOT));
            assert_eq!(
                format!("{:?}", parse_voice_command(&other, BOT)),
                format!("{:?}", parse_voice_command(&plain, BOT))
            );
        }
    }
}

#[test]
fn first_word_decides_whatever_follows() {
    match message(&to_bot("<@42> sound ÄHM İ"), BOT) {
        MessageAction::Voice(VoiceCommand::PlaySound(name)) => assert_eq!(name, "ähm i\u{307}"),
        other => panic!("{other:?}"),
    }
    let m = msg("<@42> JoIn <@9> ÄΣ", vec![user(42, "dad", None), user(9, "ana", None)]);
    assert!(matches!(
        parse_voice_command(&m, BOT),
        Some(VoiceCommand::JoinUser(UserId(9)))
    ));
    assert!(parse_voice_command(&to_bot("<@42> come ä"), BOT).is_none());
}
