//! Questions to the chat completion service and what its replies mean.

use crate::config::{BotConfig, Temperature};
use crate::memory::{history_of, message_views, ChatMessage, ChatMessageView, Memory};
use crate::text::{concat, decimal, has_prefix, text_of};
use vstd::prelude::*;

verus! {

/// Where the completion service is reached.
pub const NVIDIA_URL: &'static str = "https://integrate.api.nvidia.com/v1/chat/completions";

/// A question to the completion service.
#[derive(Debug)]
pub struct ChatRequest {
    pub model: String,
    pub messages: Vec<ChatMessage>,
    pub temperature: Temperature,
    pub max_tokens: u32,
}

/// What a user said, with the user's name before it.
pub open spec fn spoken(username: Seq<char>, prompt: Seq<char>) -> Seq<char> {
    username + ": "@ + prompt
}

/// Puts the user's name before what the user said.
pub fn spoken_line(username: &str, prompt: &str) -> (r: String)
    ensures
        r@ == spoken(username@, prompt@),
{
    concat(concat(username, ": ").as_str(), prompt)
}

/// A message of the given role.
pub open spec fn said(role: Seq<char>, content: Seq<char>) -> ChatMessageView {
    ChatMessageView { role: role, content: content }
}

/// The conversation that the model is asked to continue: what it is told about
/// its role, what is remembered, and what the user said.
pub open spec fn conversation(
    system_prompt: Seq<char>,
    history: Seq<ChatMessageView>,
    username: Seq<char>,
    prompt: Seq<char>,
) -> Seq<ChatMessageView> {
    (seq![said("system"@, system_prompt)] + history).push(said("user"@, spoken(username, prompt)))
}

/// The question that the bot asks when a user has said something in a channel.
pub fn ask_nvidia(
    config: &BotConfig,
    memory: &Memory,
    channel_id: u64,
    username: &str,
    prompt: &str,
) -> (r: ChatRequest)
    ensures
        r.model == config.model,
        message_views(r.messages@) == conversation(
            config.system_prompt@,
            history_of(memory@, channel_id),
            username@,
            prompt@,
        ),
        r.temperature == config.temperature,
        r.max_tokens == config.max_tokens,
{
    let mut messages: Vec<ChatMessage> = Vec::new();
    messages.push(
        ChatMessage { role: "system".to_owned(), content: config.system_prompt.clone() },
    );
    let ghost first = messages@;
    let mut history = memory.history(channel_id);
    let ghost past = history@;
    messages.append(&mut history);
    let ghost so_far = messages@;
    messages.push(
        ChatMessage { role: "user".to_owned(), content: spoken_line(username, prompt) },
    );
    proof {
        assert(message_views(so_far) == message_views(first) + message_views(past));
        assert(message_views(first) == seq![said("system"@, config.system_prompt@)]);
        assert(message_views(messages@) == message_views(so_far).push(messages@.last()@));
    }
    ChatRequest {
        model: config.model.clone(),
        messages,
        temperature: config.temperature,
        max_tokens: config.max_tokens,
    }
}

/// How `StatusCode` of the HTTP client writes itself: the number and what it
/// stands for, such as `404 Not Found`.
pub uninterp spec fn status_text(code: int) -> Seq<char>;

/// The `Display` of `reqwest::StatusCode`: a text that depends on the code alone and
/// begins with it, in decimal notation, and a space.
#[verifier::external_body]
fn write_status(code: u16) -> (r: String)
    requires
        100 <= code <= 999,
    ensures
        r@ == status_text(code as int),
        has_prefix(r@, decimal(code as nat).push(' ')),
{
    reqwest::StatusCode::from_u16(code).unwrap().to_string()
}

/// `StatusCode::is_success` of `reqwest`: the codes from 200 to 299.
#[verifier::external_body]
fn status_is_success(code: u16) -> (r: bool)
    requires
        100 <= code <= 999,
    ensures
        r == (200 <= code <= 299),
{
    reqwest::StatusCode::from_u16(code).unwrap().is_success()
}

/// What to do once a question was sent.
#[derive(Debug)]
pub enum Sent {
    /// It could not be sent: give up with this report.
    Failed(String),
    /// The service refused it with this status: read the body as text.
    Refused(u16),
    /// The service accepted it: read the body as an answer.
    Accepted,
}

/// What to do once a question was sent, with the status that came back or the
/// reason why none did.
pub fn after_send(sent: Result<u16, String>) -> (r: Sent)
    requires
        sent matches Ok(code) ==> 100 <= code <= 999,
    ensures
        match sent {
            Err(why) => r matches Sent::Failed(e) && e@ == "NVIDIA request failed: "@ + why@,
            Ok(code) => if 200 <= code <= 299 {
                r is Accepted
            } else {
                r == Sent::Refused(code)
            },
        },
{
    match sent {
        Err(why) => Sent::Failed(concat("NVIDIA request failed: ", why.as_str())),
        Ok(code) => if status_is_success(code) {
            Sent::Accepted
        } else {
            Sent::Refused(code)
        },
    }
}

/// What is reported when the service refuses a question.
pub open spec fn refusal(status: Seq<char>, body: Option<Seq<char>>) -> Seq<char> {
    "NVIDIA API returned "@ + status + ": "@ + match body {
        Some(text) => text,
        None => "unknown error"@,
    }
}

/// The report of a refusal, from the text of the status and the body if it could
/// be read.
pub fn report_refusal(status: &str, body: Option<String>) -> (r: String)
    ensures
        r@ == refusal(status@, text_of(body)),
{
    let text: String = match body {
        Some(text) => text,
        None => "unknown error".to_owned(),
    };
    concat(concat(concat("NVIDIA API returned ", status).as_str(), ": ").as_str(), text.as_str())
}

/// The report of a refusal with the given status. The code stands in it.
pub fn after_refusal(code: u16, body: Option<String>) -> (r: String)
    requires
        100 <= code <= 999,
    ensures
        r@ == refusal(status_text(code as int), text_of(body)),
        has_prefix(r@, "NVIDIA API returned "@ + decimal(code as nat).push(' ')),
{
    let status = write_status(code);
    let report = report_refusal(status.as_str(), body);
    proof {
        let head = decimal(code as nat).push(' ');
        let start = "NVIDIA API returned "@;
        assert(status@.take(head.len() as int) == head);
        assert forall|i: int| 0 <= i < head.len() implies status@[i] == #[trigger] head[i] by {
            assert(status@[i] == status@.take(head.len() as int)[i]);
        }
        assert(report@.take((start + head).len() as int) == start + head);
    }
    report
}

/// The outcome of an accepted question: the first answer that the service
/// offers, or a report if it offers none or the body was not understood.
pub fn after_answer(answer: Result<Vec<ChatMessage>, String>) -> (r: Result<String, String>)
    ensures
        match answer {
            Err(why) => r matches Err(e) && e@ == "Invalid NVIDIA response: "@ + why@,
            Ok(choices) => if choices@.len() > 0 {
                r matches Ok(text) && text@ == choices@[0].content@
            } else {
                r matches Err(e) && e@ == "NVIDIA returned no response"@
            },
        },
{
    match answer {
        Err(why) => Err(concat("Invalid NVIDIA response: ", why.as_str())),
        Ok(choices) => if choices.len() > 0 {
            Ok(choices[0].content.clone())
        } else {
            Err("NVIDIA returned no response".to_owned())
        },
    }
}

/// The conversation begins with the role, ends with the user's line, and holds
/// between them all that is remembered, in order.
pub proof fn conversation_holds_everything(
    system_prompt: Seq<char>,
    history: Seq<ChatMessageView>,
    username: Seq<char>,
    prompt: Seq<char>,
)
    ensures
        ({
            let asked = conversation(system_prompt, history, username, prompt);
            &&& asked.len() == history.len() + 2
            &&& asked[0].role == "system"@ && asked[0].content == system_prompt
            &&& asked.subrange(1, asked.len() - 1) == history
            &&& asked.last().role == "user"@ && asked.last().content == username + ": "@ + prompt
        }),
{
}

/// A refusal is reported with its status and its body, or that the error is unknown.
pub proof fn refusal_tells_status_and_body(status: Seq<char>, body: Seq<char>)
    ensures
        refusal(status, Some(body)) == "NVIDIA API returned "@ + status + ": "@ + body,
        refusal(status, None) == "NVIDIA API returned "@ + status + ": unknown error"@,
{
    reveal_strlit(": ");
    reveal_strlit("unknown error");
    reveal_strlit(": unknown error");
    assert(": "@ + "unknown error"@ == ": unknown error"@);
    assert("NVIDIA API returned "@ + status + ": "@ + "unknown error"@ == "NVIDIA API returned "@
        + status + (": "@ + "unknown error"@));
}

} // verus!
