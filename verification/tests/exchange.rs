use dbot::exchange::{ExchangeAction, ExchangeEvent, ExchangeTask};
use dbot::memory::ChatMessage;
use dbot::{Bot, BotConfig};

fn bot() -> Bot<()> {
    Bot::new(
        BotConfig::new("token".to_string(), "key".to_string())
            .memory_size(4)
            .system_prompt("p".to_string()),
    )
}

fn asked(bot: &Bot<()>) -> Vec<String> {
    match bot.exchange_start(3, "eva", "now").1 {
        ExchangeAction::Ask(request) => {
            request.messages.iter().map(|m| format!("{}|{}", m.role, m.content)).collect()
        }
        other => panic!("{other:?}"),
    }
}

fn reported(action: ExchangeAction) -> String {
    match action {
        ExchangeAction::Report(text) => text,
        other => panic!("{other:?}"),
    }
}

fn sent(action: ExchangeAction) -> String {
    match action {
        ExchangeAction::Send(text) => text,
        other => panic!("{other:?}"),
    }
}

fn choices(contents: &[&str]) -> ExchangeEvent {
    let mut messages = Vec::new();
    for content in contents {
        messages.push(ChatMessage { role: "assistant".to_string(), content: content.to_string() });
    }
    ExchangeEvent::Answer(Ok(messages))
}

const SORRY: &str = "Sorry, I couldn't reach the AI service right now.";

#[test]
fn an_answer_is_read_remembered_and_sent() {
    let mut b = bot();
    assert_eq!(asked(&b), vec!["system|p", "user|eva: now"]);
    let (task, _) = b.exchange_start(3, "ana", "hi");
    assert_eq!(asked(&b), vec!["system|p", "user|eva: now"]);
    let (task, action) = b.exchange_step(task, ExchangeEvent::Status(Ok(200)));
    assert!(matches!(action, ExchangeAction::ReadAnswer));
    assert_eq!(asked(&b), vec!["system|p", "user|eva: now"]);
    let (task, action) = b.exchange_step(task, choices(&["hola", "other"]));
    assert_eq!(sent(action), "hola");
    assert_eq!(asked(&b), vec!["system|p", "user|ana: hi", "assistant|hola", "user|eva: now"]);
    let (task, action) = b.exchange_step(task, ExchangeEvent::Sent(true));
    assert!(matches!((task, action), (ExchangeTask::Finished, ExchangeAction::Finish)));
    assert_eq!(asked(&b).len(), 4);
}

#[test]
fn a_refusal_is_read_as_text() {
    let mut b = bot();
    let (task, _) = b.exchange_start(3, "ana", "hi");
    let (task, action) = b.exchange_step(task, ExchangeEvent::Status(Ok(404)));
    assert!(matches!(action, ExchangeAction::ReadText));
    let (task, action) = b.exchange_step(task, ExchangeEvent::Text(Some("gone".to_string())));
    assert_eq!(reported(action), "NVIDIA API returned 404 Not Found: gone");
    assert_eq!(asked(&b).len(), 2);
    let (_, action) = b.exchange_step(task, ExchangeEvent::Reported);
    assert_eq!(sent(action), SORRY);
    assert_eq!(
        asked(&b),
        vec![
            "system|p".to_string(),
            "user|ana: hi".to_string(),
            format!("assistant|{SORRY}"),
            "user|eva: now".to_string()
        ]
    );
}

#[test]
fn whatever_goes_wrong_is_reported() {
    let mut b = bot();
    let (task, _) = b.exchange_start(3, "ana", "hi");
    let (_, action) = b.exchange_step(task, ExchangeEvent::Status(Err("no route".to_string())));
    assert_eq!(reported(action), "NVIDIA request failed: no route");
    for (event, report) in [
        (ExchangeEvent::Answer(Err("bad".to_string())), "Invalid NVIDIA response: bad"),
        (choices(&[]), "NVIDIA returned no response"),
    ] {
        let (task, _) = b.exchange_start(3, "ana", "hi");
        let (task, _) = b.exchange_step(task, ExchangeEvent::Status(Ok(299)));
        let (_, action) = b.exchange_step(task, event);
        assert_eq!(reported(action), report);
    }
    assert_eq!(asked(&b).len(), 2);
}

#[test]
fn nothing_is_sent_after_a_failure() {
    let mut b = bot();
    let long = vec!["word"; 1000].join(" ");
    for works in [true, false] {
        let (task, _) = b.exchange_start(3, "ana", "hi");
        let (task, _) = b.exchange_step(task, ExchangeEvent::Status(Ok(200)));
        let (task, action) = b.exchange_step(task, choices(&[&long]));
        assert_eq!(sent(action).len(), 1899);
        let (task, action) = b.exchange_step(task, ExchangeEvent::Sent(works));
        if works {
            assert_eq!(sent(action).len(), 1899);
            assert!(matches!(task, ExchangeTask::Delivering(_)));
        } else {
            assert!(matches!((task, action), (ExchangeTask::Finished, ExchangeAction::Finish)));
        }
    }
}
