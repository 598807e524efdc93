//! An exchange with the model, step by step: a question is asked, the reply is
//! read by what its status says, and the answer is remembered and sent.

use crate::bot::{
    answer_text, exchange_adds_two, memory_after_exchange, Bot, BotView, Delivery, MESSAGE_LIMIT,
};
use crate::completion::{
    after_answer, after_refusal, after_send, conversation, refusal, spoken, status_text,
    ChatRequest, Sent,
};
use crate::memory::{history_of, message_views, ChatMessage, ChatMessageView};
use crate::split::chunks;
use crate::text::{decimal, has_prefix, text_of};
use vstd::prelude::*;

verus! {

/// What a user said in a channel.
#[derive(Debug)]
pub struct Question {
    pub channel_id: u64,
    pub username: String,
    pub prompt: String,
}

/// Where an exchange stands.
#[derive(Debug)]
pub enum ExchangeTask {
    /// It has sent the question to the completion service.
    Asking(Question),
    /// It has asked for the body of a refusal with this status.
    ReadingRefusal(Question, u16),
    /// It has asked for the answers that the service offers.
    ReadingAnswer(Question),
    /// It has reported why there is no answer.
    Reporting(Question, String),
    /// It has sent a message; these are still to be sent.
    Delivering(Delivery),
    /// It is over.
    Finished,
}

/// What an exchange asks for.
#[derive(Debug)]
pub enum ExchangeAction {
    /// Send the question to the completion service.
    Ask(ChatRequest),
    /// Read the body of the reply as text.
    ReadText,
    /// Read the body of the reply as answers.
    ReadAnswer,
    /// Report this to whoever runs the bot.
    Report(String),
    /// Send this message to the channel.
    Send(String),
    /// Nothing more.
    Finish,
}

/// What an exchange is told.
#[derive(Debug)]
pub enum ExchangeEvent {
    /// The status of the reply, or why there is none.
    Status(Result<u16, String>),
    /// The body of the reply, if it could be read.
    Text(Option<String>),
    /// The answers in the reply, or why they were not understood.
    Answer(Result<Vec<ChatMessage>, String>),
    /// The report was made.
    Reported,
    /// Whether the message was sent.
    Sent(bool),
}

impl ExchangeTask {
    /// The event is an answer to what was asked for at this point.
    pub open spec fn awaits(self, event: ExchangeEvent) -> bool {
        match self {
            ExchangeTask::Asking(_) => event matches ExchangeEvent::Status(sent) && (sent matches Ok(
                code,
            ) ==> 100 <= code <= 999),
            ExchangeTask::ReadingRefusal(_, code) => 100 <= code <= 999 && event is Text,
            ExchangeTask::ReadingAnswer(_) => event is Answer,
            ExchangeTask::Reporting(_, _) => event is Reported,
            ExchangeTask::Delivering(_) => event is Sent,
            ExchangeTask::Finished => false,
        }
    }

    /// How many kinds of steps there are to come at most.
    pub open spec fn stages_left(self) -> nat {
        match self {
            ExchangeTask::Asking(_) => 4,
            ExchangeTask::ReadingRefusal(_, _) => 3,
            ExchangeTask::ReadingAnswer(_) => 3,
            ExchangeTask::Reporting(_, _) => 2,
            ExchangeTask::Delivering(_) => 1,
            ExchangeTask::Finished => 0,
        }
    }

    /// How many messages are still to be sent.
    pub open spec fn messages_left(self) -> nat {
        match self {
            ExchangeTask::Delivering(delivery) => delivery@.len(),
            _ => 0,
        }
    }
}

/// The exchange reports why there is no answer.
pub open spec fn reports(
    question: Question,
    report: Seq<char>,
    r: (ExchangeTask, ExchangeAction),
) -> bool {
    &&& r.0 matches ExchangeTask::Reporting(q, why)
    &&& q == question
    &&& why@ == report
    &&& r.1 matches ExchangeAction::Report(text)
    &&& text@ == report
}

fn report(question: Question, text: String) -> (r: (ExchangeTask, ExchangeAction))
    ensures
        reports(question, text@, r),
{
    (ExchangeTask::Reporting(question, text.clone()), ExchangeAction::Report(text))
}

/// The exchange sends the first of the messages and keeps the others, or is over
/// if there are none.
pub open spec fn delivers(messages: Seq<Seq<char>>, r: (ExchangeTask, ExchangeAction)) -> bool {
    if messages.len() > 0 {
        &&& r.0 matches ExchangeTask::Delivering(delivery)
        &&& delivery@ == messages.skip(1)
        &&& r.1 matches ExchangeAction::Send(text)
        &&& text@ == messages[0]
    } else {
        r.0 is Finished && r.1 is Finish
    }
}

fn deliver(delivery: Delivery) -> (r: (ExchangeTask, ExchangeAction))
    ensures
        delivers(delivery@, r),
{
    let mut rest = delivery;
    match rest.next_message() {
        Some(text) => (ExchangeTask::Delivering(rest), ExchangeAction::Send(text)),
        None => (ExchangeTask::Finished, ExchangeAction::Finish),
    }
}

/// A step of an exchange: a status tells how the body is read, whatever goes wrong
/// is reported and apologised for, and the messages of the answer are sent one
/// after the other until one cannot be sent.
pub open spec fn exchange_goes_on(
    task: ExchangeTask,
    event: ExchangeEvent,
    r: (ExchangeTask, ExchangeAction),
) -> bool {
    match task {
        ExchangeTask::Asking(question) => match event->Status_0 {
            Err(why) => reports(question, "NVIDIA request failed: "@ + why@, r),
            Ok(code) => if 200 <= code <= 299 {
                r.0 == ExchangeTask::ReadingAnswer(question) && r.1 is ReadAnswer
            } else {
                r.0 == ExchangeTask::ReadingRefusal(question, code) && r.1 is ReadText
            },
        },
        ExchangeTask::ReadingRefusal(question, code) => reports(
            question,
            refusal(status_text(code as int), text_of(event->Text_0)),
            r,
        ),
        ExchangeTask::ReadingAnswer(question) => match event->Answer_0 {
            Err(why) => reports(question, "Invalid NVIDIA response: "@ + why@, r),
            Ok(choices) => if choices@.len() > 0 {
                delivers(chunks(choices@[0].content@, MESSAGE_LIMIT as nat), r)
            } else {
                reports(question, "NVIDIA returned no response"@, r)
            },
        },
        ExchangeTask::Reporting(_, why) => delivers(
            chunks(answer_text(Err(why)), MESSAGE_LIMIT as nat),
            r,
        ),
        ExchangeTask::Delivering(delivery) => if event->Sent_0 {
            delivers(delivery@, r)
        } else {
            r.0 is Finished && r.1 is Finish
        },
        ExchangeTask::Finished => true,
    }
}

/// The question that a step settles and what it is answered with: the first answer
/// that the service offers, or, after a report, an apology.
pub open spec fn settled(task: ExchangeTask, event: ExchangeEvent) -> Option<
    (Question, Seq<char>),
> {
    match (task, event) {
        (ExchangeTask::ReadingAnswer(question), ExchangeEvent::Answer(Ok(choices))) => if choices@.len()
            > 0 {
            Some((question, choices@[0].content@))
        } else {
            None
        },
        (ExchangeTask::Reporting(question, why), _) => Some((question, answer_text(Err(why)))),
        _ => None,
    }
}

/// The memory after a step of an exchange: a question is remembered with its
/// answer, at the step that settles it.
pub open spec fn memory_after_step(
    task: ExchangeTask,
    event: ExchangeEvent,
    memory: Map<u64, Seq<ChatMessageView>>,
    size: nat,
) -> Map<u64, Seq<ChatMessageView>> {
    match settled(task, event) {
        Some((question, answer)) => memory_after_exchange(
            memory,
            question.channel_id,
            spoken(question.username@, question.prompt@),
            answer,
            size,
        ),
        None => memory,
    }
}

impl<Track> Bot<Track> {
    /// The first step of an exchange: the model is asked what the user said, with
    /// what is remembered of the channel so far. Nothing is remembered yet.
    pub fn exchange_start(&self, channel_id: u64, username: &str, prompt: &str) -> (r: (
        ExchangeTask,
        ExchangeAction,
    ))
        ensures
            r.0 matches ExchangeTask::Asking(question) && {
                &&& question.channel_id == channel_id
                &&& question.username@ == username@
                &&& question.prompt@ == prompt@
            },
            r.1 matches ExchangeAction::Ask(request) && {
                &&& request.model == self@.config.model
                &&& message_views(request.messages@) == conversation(
                    self@.config.system_prompt@,
                    history_of(self@.memory, channel_id),
                    username@,
                    prompt@,
                )
                &&& request.temperature == self@.config.temperature
                &&& request.max_tokens == self@.config.max_tokens
            },
    {
        let question = Question {
            channel_id,
            username: username.to_owned(),
            prompt: prompt.to_owned(),
        };
        let request = self.ask_nvidia(channel_id, username, prompt);
        (ExchangeTask::Asking(question), ExchangeAction::Ask(request))
    }

    /// A step of an exchange, with the answer to what it asked for. The report of a
    /// refusal names its code. An exchange comes to an end.
    pub fn exchange_step(&mut self, task: ExchangeTask, event: ExchangeEvent) -> (r: (
        ExchangeTask,
        ExchangeAction,
    ))
        requires
            task.awaits(event),
        ensures
            exchange_goes_on(task, event, r),
            task matches ExchangeTask::ReadingRefusal(_, code) ==> (r.1 matches ExchangeAction::Report(
                text,
            ) && has_prefix(text@, "NVIDIA API returned "@ + decimal(code as nat).push(' '))),
            final(self)@ == (BotView {
                memory: memory_after_step(
                    task,
                    event,
                    old(self)@.memory,
                    old(self)@.config.memory_size as nat,
                ),
                ..old(self)@
            }),
            match (task, event) {
                (ExchangeTask::ReadingAnswer(question), ExchangeEvent::Answer(Ok(choices))) => if choices@.len()
                    > 0 {
                    let all = history_of(old(self)@.memory, question.channel_id).push(
                        ChatMessageView {
                            role: "user"@,
                            content: question.username@ + ": "@ + question.prompt@,
                        },
                    ).push(
                        ChatMessageView { role: "assistant"@, content: choices@[0].content@ },
                    );
                    let size = old(self)@.config.memory_size;
                    history_of(final(self)@.memory, question.channel_id) == if all.len() > size {
                        all.skip(all.len() - size)
                    } else {
                        all
                    }
                } else {
                    final(self)@.memory == old(self)@.memory
                },
                (ExchangeTask::Reporting(question, _), _) => {
                    let all = history_of(old(self)@.memory, question.channel_id).push(
                        ChatMessageView {
                            role: "user"@,
                            content: question.username@ + ": "@ + question.prompt@,
                        },
                    ).push(
                        ChatMessageView {
                            role: "assistant"@,
                            content: "Sorry, I couldn't reach the AI service right now."@,
                        },
                    );
                    let size = old(self)@.config.memory_size;
                    history_of(final(self)@.memory, question.channel_id) == if all.len() > size {
                        all.skip(all.len() - size)
                    } else {
                        all
                    }
                },
                _ => final(self)@.memory == old(self)@.memory,
            },
            old(self).wf() ==> final(self).wf(),
            r.0.stages_left() < task.stages_left() || (r.0.stages_left() == task.stages_left()
                && r.0.messages_left() < task.messages_left()),
    {
        match (task, event) {
            (ExchangeTask::Asking(question), ExchangeEvent::Status(sent)) => match after_send(sent) {
                Sent::Failed(why) => report(question, why),
                Sent::Refused(code) => (
                    ExchangeTask::ReadingRefusal(question, code),
                    ExchangeAction::ReadText,
                ),
                Sent::Accepted => (
                    ExchangeTask::ReadingAnswer(question),
                    ExchangeAction::ReadAnswer,
                ),
            },
            (ExchangeTask::ReadingRefusal(question, code), ExchangeEvent::Text(body)) => report(
                question,
                after_refusal(code, body),
            ),
            (ExchangeTask::ReadingAnswer(question), ExchangeEvent::Answer(answer)) => {
                match after_answer(answer) {
                    Ok(text) => deliver(
                        self.answer(
                            question.channel_id,
                            question.username.as_str(),
                            question.prompt.as_str(),
                            Ok(text),
                        ),
                    ),
                    Err(why) => report(question, why),
                }
            },
            (ExchangeTask::Reporting(question, why), ExchangeEvent::Reported) => deliver(
                self.answer(
                    question.channel_id,
                    question.username.as_str(),
                    question.prompt.as_str(),
                    Err(why),
                ),
            ),
            (ExchangeTask::Delivering(delivery), ExchangeEvent::Sent(sent)) => {
                let mut rest = delivery;
                if !sent {
                    rest.give_up();
                }
                deliver(rest)
            },
            _ => {
                proof {
                    assert(false);
                }
                (ExchangeTask::Finished, ExchangeAction::Finish)
            },
        }
    }
}

/// The event is an answer to what was asked for.
pub open spec fn answers(action: ExchangeAction, event: ExchangeEvent) -> bool {
    match action {
        ExchangeAction::Ask(_) => event matches ExchangeEvent::Status(sent) && (sent matches Ok(
            code,
        ) ==> 100 <= code <= 999),
        ExchangeAction::ReadText => event is Text,
        ExchangeAction::ReadAnswer => event is Answer,
        ExchangeAction::Report(_) => event is Reported,
        ExchangeAction::Send(_) => event is Sent,
        ExchangeAction::Finish => false,
    }
}

/// Whoever answers what an exchange asks for at a step may take the next.
pub proof fn step_awaits_its_answer(
    task: ExchangeTask,
    event: ExchangeEvent,
    r: (ExchangeTask, ExchangeAction),
    next: ExchangeEvent,
)
    requires
        task.awaits(event),
        exchange_goes_on(task, event, r),
    ensures
        answers(r.1, next) <==> r.0.awaits(next),
        r.0 is Finished <==> r.1 is Finish,
{
}

/// The memory is left alone until the question is settled, which is the step that
/// begins to send the answer, and from then on; so it is changed once.
pub proof fn remembers_once(
    task: ExchangeTask,
    event: ExchangeEvent,
    r: (ExchangeTask, ExchangeAction),
    memory: Map<u64, Seq<ChatMessageView>>,
    size: nat,
)
    requires
        task.awaits(event),
        exchange_goes_on(task, event, r),
    ensures
        settled(task, event) is Some <==> !(task is Delivering) && (r.0 is Delivering
            || r.0 is Finished),
        settled(task, event) is None ==> memory_after_step(task, event, memory, size) == memory,
        task is Delivering ==> r.0 is Delivering || r.0 is Finished,
{
}

/// As long as messages are sent, they go out in order; the first that cannot be
/// sent is the last that is tried.
pub proof fn delivery_stops_at_a_failure(
    delivery: Delivery,
    sent: bool,
    r: (ExchangeTask, ExchangeAction),
)
    requires
        exchange_goes_on(ExchangeTask::Delivering(delivery), ExchangeEvent::Sent(sent), r),
    ensures
        !sent || delivery@.len() == 0 ==> r.0 is Finished && r.1 is Finish,
        sent && delivery@.len() > 0 ==> (r.1 matches ExchangeAction::Send(text) && text@
            == delivery@[0]) && r.0.messages_left() == delivery@.len() - 1,
        sent && delivery@.len() > 0 ==> (r.0 matches ExchangeTask::Delivering(rest) && rest@
            == delivery@.skip(1)),
{
}

/// An exchange that is settled is remembered once and as a whole: behind what the
/// channel's history was come the user's line and the answer, and of all that the
/// last messages are kept. A step that settles nothing leaves the memory alone.
pub proof fn settling_adds_question_and_answer(
    question: Question,
    why: String,
    choices: Vec<ChatMessage>,
    event: ExchangeEvent,
    memory: Map<u64, Seq<ChatMessageView>>,
    size: nat,
)
    requires
        choices@.len() > 0,
    ensures
        ({
            let line = ChatMessageView {
                role: "user"@,
                content: question.username@ + ": "@ + question.prompt@,
            };
            let answer = ChatMessageView { role: "assistant"@, content: choices@[0].content@ };
            let sorry = ChatMessageView {
                role: "assistant"@,
                content: "Sorry, I couldn't reach the AI service right now."@,
            };
            let before = history_of(memory, question.channel_id);
            let answered = history_of(
                memory_after_step(
                    ExchangeTask::ReadingAnswer(question),
                    ExchangeEvent::Answer(Ok(choices)),
                    memory,
                    size,
                ),
                question.channel_id,
            );
            let missed = history_of(
                memory_after_step(ExchangeTask::Reporting(question, why), event, memory, size),
                question.channel_id,
            );
            &&& answered.len() == missed.len()
            &&& answered.len() == if before.len() + 2 > size {
                size
            } else {
                before.len() + 2
            }
            &&& answered.is_suffix_of(before.push(line).push(answer))
            &&& missed.is_suffix_of(before.push(line).push(sorry))
        }),
        forall|other: u64|
            #![trigger history_of(memory, other)]
            other != question.channel_id ==> {
                &&& history_of(
                    memory_after_step(
                        ExchangeTask::ReadingAnswer(question),
                        ExchangeEvent::Answer(Ok(choices)),
                        memory,
                        size,
                    ),
                    other,
                ) == history_of(memory, other)
                &&& history_of(
                    memory_after_step(ExchangeTask::Reporting(question, why), event, memory, size),
                    other,
                ) == history_of(memory, other)
            },
        memory_after_step(ExchangeTask::Asking(question), event, memory, size) == memory,
        forall|code: u16|
            #[trigger] memory_after_step(
                ExchangeTask::ReadingRefusal(question, code),
                event,
                memory,
                size,
            ) == memory,
        forall|delivery: Delivery|
            #[trigger] memory_after_step(
                ExchangeTask::Delivering(delivery),
                event,
                memory,
                size,
            ) == memory,
{
    let line = spoken(question.username@, question.prompt@);
    exchange_adds_two(memory, question.channel_id, line, choices@[0].content@, size);
    exchange_adds_two(memory, question.channel_id, line, answer_text(Err(why)), size);
}

/// What a reply is read as, and what is reported where there is none, depends on the
/// status alone: from 200 to 299 it holds answers, any other is a refusal.
pub proof fn status_decides_how_to_read(
    question: Question,
    sent: Result<u16, String>,
    r: (ExchangeTask, ExchangeAction),
)
    requires
        exchange_goes_on(ExchangeTask::Asking(question), ExchangeEvent::Status(sent), r),
    ensures
        r.1 is ReadAnswer <==> sent is Ok && 200 <= sent->Ok_0 < 300,
        r.1 is ReadText <==> sent is Ok && !(200 <= sent->Ok_0 < 300),
        r.1 is ReadAnswer ==> r.0 == ExchangeTask::ReadingAnswer(question),
        r.1 is ReadText ==> r.0 == ExchangeTask::ReadingRefusal(question, sent->Ok_0),
        sent matches Err(why) ==> (r.1 matches ExchangeAction::Report(text) && text@
            == "NVIDIA request failed: "@ + why@) && (r.0 matches ExchangeTask::Reporting(q, _) && q
            == question),
{
}

/// A refusal is reported with its status and its body.
pub proof fn refusal_is_reported(
    question: Question,
    code: u16,
    body: Option<String>,
    r: (ExchangeTask, ExchangeAction),
)
    requires
        exchange_goes_on(ExchangeTask::ReadingRefusal(question, code), ExchangeEvent::Text(body), r),
    ensures
        r.0 matches ExchangeTask::Reporting(q, _) && q == question,
        r.1 matches ExchangeAction::Report(text) && text@ == "NVIDIA API returned "@ + status_text(
            code as int,
        ) + ": "@ + match body {
            Some(b) => b@,
            None => "unknown error"@,
        },
{
}

/// The first answer that is offered goes out, from its first message on; without
/// one that is reported.
pub proof fn first_answer_goes_out(
    question: Question,
    answer: Result<Vec<ChatMessage>, String>,
    r: (ExchangeTask, ExchangeAction),
)
    requires
        exchange_goes_on(ExchangeTask::ReadingAnswer(question), ExchangeEvent::Answer(answer), r),
    ensures
        match answer {
            Ok(choices) => if choices@.len() > 0 {
                let messages = chunks(choices@[0].content@, 1900);
                if messages.len() > 0 {
                    &&& r.1 matches ExchangeAction::Send(text)
                    &&& text@ == messages[0]
                    &&& r.0 matches ExchangeTask::Delivering(rest)
                    &&& rest@ == messages.skip(1)
                } else {
                    r.0 is Finished && r.1 is Finish
                }
            } else {
                &&& r.0 matches ExchangeTask::Reporting(q, _)
                &&& q == question
                &&& r.1 matches ExchangeAction::Report(text)
                &&& text@ == "NVIDIA returned no response"@
            },
            Err(why) => {
                &&& r.0 matches ExchangeTask::Reporting(q, _)
                &&& q == question
                &&& r.1 matches ExchangeAction::Report(text)
                &&& text@ == "Invalid NVIDIA response: "@ + why@
            },
        },
{
}

/// After a report the bot apologises, in one message.
pub proof fn apology_follows_report(
    question: Question,
    why: String,
    r: (ExchangeTask, ExchangeAction),
)
    requires
        exchange_goes_on(ExchangeTask::Reporting(question, why), ExchangeEvent::Reported, r),
    ensures
        r.1 matches ExchangeAction::Send(text) && text@
            == "Sorry, I couldn't reach the AI service right now."@,
        r.0 matches ExchangeTask::Delivering(rest) && rest@.len() == 0,
{
    reveal_strlit("Sorry, I couldn't reach the AI service right now.");
}

} // verus!
