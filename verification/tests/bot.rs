use dbot::completion::{
    after_answer, after_refusal, after_send, report_refusal, spoken_line, Sent, NVIDIA_URL,
};
use dbot::config::Temperature;
use dbot::ids::{ChannelId, GuildId, UserId};
use dbot::memory::{ChatMessage, Memory};
use dbot::scheduler::{SchedulerEvent, SchedulerStep};
use dbot::zone::Timezone;
use dbot::{Bot, BotConfig, SleepSchedule};

fn config() -> BotConfig {
    BotConfig::new("token".to_string(), "key".to_string())
}

fn said(role: &str, content: &str) -> ChatMessage {
    ChatMessage { role: role.to_string(), content: content.to_string() }
}

fn lines(messages: &[ChatMessage]) -> Vec<String> {
    let mut r = Vec::new();
    for m in messages {
        r.push(format!("{}|{}", m.role, m.content));
    }
    r
}

#[test]
fn default_settings() {
    let c = config();
    assert_eq!(c.discord_token, "token");
    assert_eq!(c.nvidia_api_key, "key");
    assert_eq!(c.model, "openai/gpt-oss-20b");
    assert_eq!(c.memory_size, 30);
    assert_eq!(c.max_tokens, 1000);
    assert_eq!(f32::from_bits(c.temperature.bits), 0.7f32);
    assert!(c.system_prompt.starts_with("You are the Old Dad of the Discord server. You are"));
    assert!(c.system_prompt.ends_with("any type of reasoning in your responses. "));
    assert!(c.sleep_schedule.is_none());
    assert_eq!(NVIDIA_URL, "https://integrate.api.nvidia.com/v1/chat/completions");
}

#[test]
fn settings_can_be_changed() {
    let schedule = SleepSchedule::daily(
        GuildId(1),
        UserId(2),
        22,
        15,
        Timezone::named("Europe/Madrid").unwrap(),
    )
    .unwrap();
    let c = config()
        .model("m".to_string())
        .memory_size(3)
        .max_tokens(4)
        .temperature(Temperature { bits: 1.5f32.to_bits() })
        .system_prompt("p".to_string())
        .sleep_schedule(schedule);
    assert_eq!(c.model, "m");
    assert_eq!(c.memory_size, 3);
    assert_eq!(c.max_tokens, 4);
    assert_eq!(f32::from_bits(c.temperature.bits), 1.5);
    assert_eq!(c.system_prompt, "p");
    assert_eq!(c.discord_token, "token");
    let copy = c.clone();
    let s = copy.sleep_schedule.unwrap();
    assert_eq!((s.hour, s.minute), (22, 15));
    assert_eq!(s.timezone.name(), "Europe/Madrid");
}

#[test]
fn memory_keeps_the_newest() {
    let mut memory = Memory::new();
    for i in 0..5u32 {
        memory.remember(9, said("user", &i.to_string()), 3);
    }
    memory.remember(8, said("user", "x"), 3);
    assert_eq!(lines(&memory.history(9)), vec!["user|2", "user|3", "user|4"]);
    assert_eq!(lines(&memory.history(8)), vec!["user|x"]);
    assert!(memory.history(7).is_empty());
    memory.clear_channel(9);
    assert!(memory.history(9).is_empty());
    assert_eq!(memory.history(8).len(), 1);
    memory.clear();
    assert!(memory.history(8).is_empty());
}

#[test]
fn memory_of_no_size_keeps_nothing() {
    let mut memory = Memory::new();
    memory.remember(9, said("user", "a"), 0);
    assert!(memory.history(9).is_empty());
}

#[test]
fn question_holds_the_conversation() {
    let mut bot: Bot<u32> = Bot::new(config().system_prompt("be dad".to_string()).max_tokens(5));
    bot.remember(3, said("user", "ana: hola"));
    bot.remember(3, said("assistant", "hola hija"));
    bot.remember(4, said("user", "luis: otra cosa"));
    let q = bot.ask_nvidia(3, "ana", "¿qué tal?");
    assert_eq!(q.model, "openai/gpt-oss-20b");
    assert_eq!(q.max_tokens, 5);
    assert_eq!(f32::from_bits(q.temperature.bits), 0.7f32);
    assert_eq!(
        lines(&q.messages),
        vec!["system|be dad", "user|ana: hola", "assistant|hola hija", "user|ana: ¿qué tal?"]
    );
    assert_eq!(spoken_line("a", "b"), "a: b");
}

#[test]
fn answer_is_remembered_and_sent() {
    let mut bot: Bot<u32> = Bot::new(config().memory_size(3));
    let mut out = bot.answer(3, "ana", "hola", Ok("hola hija".to_string()));
    assert_eq!(out.next_message(), Some("hola hija".to_string()));
    assert_eq!(out.next_message(), None);
    let mut out = bot.answer(3, "luis", "oye", Err("down".to_string()));
    assert_eq!(
        out.next_message(),
        Some("Sorry, I couldn't reach the AI service right now.".to_string())
    );
    let q = bot.ask_nvidia(3, "x", "y");
    assert_eq!(
        lines(&q.messages[1..]),
        vec![
            "assistant|hola hija",
            "user|luis: oye",
            "assistant|Sorry, I couldn't reach the AI service right now.",
            "user|x: y",
        ]
    );
    bot.clear_memory(4);
    assert_eq!(bot.ask_nvidia(3, "x", "y").messages.len(), 5);
    bot.clear_memory(3);
    assert_eq!(bot.ask_nvidia(3, "x", "y").messages.len(), 2);
    bot.remember(1, said("user", "a"));
    bot.clear_all_memory();
    assert_eq!(bot.ask_nvidia(1, "x", "y").messages.len(), 2);
    assert_eq!(bot.config().memory_size, 3);
}

#[test]
fn long_answer_goes_out_in_parts() {
    let mut bot: Bot<u32> = Bot::new(config());
    let text = "palabra ".repeat(500);
    let mut out = bot.answer(3, "ana", "hola", Ok(text.clone()));
    let first = out.next_message().unwrap();
    assert!(first.len() <= 1900);
    let second = out.next_message().unwrap();
    assert_eq!(format!("{first} {second} ").len() < text.len(), true);
    out.give_up();
    assert_eq!(out.next_message(), None);
}

#[test]
fn status_decides_how_the_reply_is_read() {
    assert!(matches!(after_send(Ok(200)), Sent::Accepted));
    assert!(matches!(after_send(Ok(299)), Sent::Accepted));
    assert!(matches!(after_send(Ok(300)), Sent::Refused(300)));
    assert!(matches!(after_send(Ok(199)), Sent::Refused(199)));
    match after_send(Err("timeout".to_string())) {
        Sent::Failed(e) => assert_eq!(e, "NVIDIA request failed: timeout"),
        other => panic!("{other:?}"),
    }
}

#[test]
fn refusals_are_reported() {
    assert_eq!(
        after_refusal(404, Some("gone".to_string())),
        "NVIDIA API returned 404 Not Found: gone"
    );
    assert_eq!(
        after_refusal(599, None),
        "NVIDIA API returned 599 <unknown status code>: unknown error"
    );
    assert_eq!(report_refusal("S", Some("b".to_string())), "NVIDIA API returned S: b");
}

#[test]
fn first_choice_is_the_answer() {
    let two = vec![said("assistant", "uno"), said("assistant", "dos")];
    assert_eq!(after_answer(Ok(two)), Ok("uno".to_string()));
    assert_eq!(after_answer(Ok(vec![])), Err("NVIDIA returned no response".to_string()));
    assert_eq!(
        after_answer(Err("no json".to_string())),
        Err("Invalid NVIDIA response: no json".to_string())
    );
}

#[test]
fn sleepers_are_disconnected() {
    let schedule = SleepSchedule::daily(
        GuildId(1),
        UserId(2),
        22,
        0,
        Timezone::named("UTC").unwrap(),
    )
    .unwrap();
    let mut bot: Bot<u32> = Bot::new(config());
    let here = Some(ChannelId(5));
    assert_eq!(bot.voice_state_update(Some(GuildId(1)), here, UserId(2)), None);
    bot.scheduler_step(&schedule, SchedulerStep::Waiting, SchedulerEvent::Woke);
    assert_eq!(
        bot.voice_state_update(Some(GuildId(1)), here, UserId(2)),
        Some((GuildId(1), UserId(2)))
    );
    assert_eq!(bot.voice_state_update(Some(GuildId(1)), None, UserId(2)), None);
    assert_eq!(bot.voice_state_update(None, here, UserId(2)), None);
    assert_eq!(bot.voice_state_update(Some(GuildId(3)), here, UserId(2)), None);
    bot.clear_all_memory();
    assert!(bot.voice_state_update(Some(GuildId(1)), here, UserId(2)).is_some());
}

#[test]
fn next_question_repeats_the_exchange() {
    let mut bot: Bot<()> = Bot::new(config().memory_size(2).system_prompt("p".to_string()));
    let _ = bot.answer(3, "ana", "one", Ok("uno".to_string()));
    let _ = bot.answer(3, "ana", "two", Ok("dos".to_string()));
    assert_eq!(
        lines(&bot.ask_nvidia(3, "eva", "three").messages),
        vec!["system|p", "user|ana: two", "assistant|dos", "user|eva: three"]
    );
    assert_eq!(
        lines(&bot.ask_nvidia(4, "eva", "three").messages),
        vec!["system|p", "user|eva: three"]
    );
    bot.clear_all_memory();
    assert_eq!(
        lines(&bot.ask_nvidia(3, "eva", "three").messages),
        vec!["system|p", "user|eva: three"]
    );
}
