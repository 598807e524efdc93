//! The bot: its settings, what it remembers, who is in bed and what is playing.

use crate::completion::{ask_nvidia, conversation, said, spoken, spoken_line, ChatRequest};
use crate::config::BotConfig;
use crate::ids::{ChannelId, GuildId, UserId};
use crate::memory::{
    bounded, history_of, message_views, remembered, ChatMessage, ChatMessageView, Memory,
};
use crate::message::VoiceCommand;
use crate::schedule::SleepSchedule;
use crate::scheduler::{
    proceeds, scheduler_step, sleeping_after, SchedulerAction, SchedulerEvent, SchedulerStep,
    SleepingUsers,
};
use crate::split::{chunks, split_message};
use crate::text::texts;
use crate::voice::{
    begins, goes_on, names_ascii_sound, sounds_after, sounds_after_start, voice_start, voice_step,
    CurrentSounds, VoiceAction, VoiceEvent, VoiceTask,
};
use vstd::prelude::*;

verus! {

/// The longest message that is sent at once.
pub const MESSAGE_LIMIT: usize = 1900;

/// The bot. A track is what the voice driver hands out for a sound that it plays.
pub struct Bot<Track> {
    config: BotConfig,
    memory: Memory,
    sleeping_users: SleepingUsers,
    current_sounds: CurrentSounds<Track>,
}

/// What the bot knows.
#[verifier::ext_equal]
pub struct BotView<Track> {
    pub config: BotConfig,
    pub memory: Map<u64, Seq<ChatMessageView>>,
    pub sleeping_users: Set<(GuildId, UserId)>,
    pub current_sounds: Map<u64, Track>,
}

impl<Track> View for Bot<Track> {
    type V = BotView<Track>;

    closed spec fn view(&self) -> BotView<Track> {
        BotView {
            config: self.config,
            memory: self.memory@,
            sleeping_users: self.sleeping_users@,
            current_sounds: self.current_sounds@,
        }
    }
}

/// What the bot says when there is no answer.
pub open spec fn answer_text(answer: Result<String, String>) -> Seq<char> {
    match answer {
        Ok(text) => text@,
        Err(_) => "Sorry, I couldn't reach the AI service right now."@,
    }
}

/// A memory after one more message in a channel.
pub open spec fn memory_after(
    memory: Map<u64, Seq<ChatMessageView>>,
    channel_id: u64,
    message: ChatMessageView,
    size: nat,
) -> Map<u64, Seq<ChatMessageView>> {
    memory.insert(channel_id, remembered(history_of(memory, channel_id), message, size))
}

/// A memory after a user has said something and the bot has answered.
pub open spec fn memory_after_exchange(
    memory: Map<u64, Seq<ChatMessageView>>,
    channel_id: u64,
    question: Seq<char>,
    answer: Seq<char>,
    size: nat,
) -> Map<u64, Seq<ChatMessageView>> {
    memory_after(
        memory_after(memory, channel_id, said("user"@, question), size),
        channel_id,
        said("assistant"@, answer),
        size,
    )
}

/// The member who is to be disconnected when a user is seen in a channel of a
/// server: the user, if in bed there.
pub open spec fn to_disconnect(
    sleeping_users: Set<(GuildId, UserId)>,
    guild_id: Option<GuildId>,
    channel_id: Option<ChannelId>,
    user_id: UserId,
) -> Option<(GuildId, UserId)> {
    match (guild_id, channel_id) {
        (Some(guild), Some(_)) => if sleeping_users.contains((guild, user_id)) {
            Some((guild, user_id))
        } else {
            None
        },
        _ => None,
    }
}

impl<Track> Bot<Track> {
    /// No channel's memory is longer than the settings allow, and nobody is in
    /// bed twice.
    pub closed spec fn wf(self) -> bool {
        bounded(self.memory@, self.config.memory_size as nat) && self.sleeping_users.wf()
    }

    /// No channel's memory is longer than the settings allow.
    pub proof fn memory_is_bounded(self)
        requires
            self.wf(),
        ensures
            bounded(self@.memory, self@.config.memory_size as nat),
    {
    }

    /// A bot that remembers nothing, has sent nobody to bed and plays nothing.
    pub fn new(config: BotConfig) -> (r: Self)
        ensures
            r.wf(),
            r@.config == config,
            r@.memory == Map::<u64, Seq<ChatMessageView>>::empty(),
            r@.sleeping_users == Set::<(GuildId, UserId)>::empty(),
            r@.current_sounds == Map::<u64, Track>::empty(),
    {
        Bot {
            config,
            memory: Memory::new(),
            sleeping_users: SleepingUsers::new(),
            current_sounds: CurrentSounds::new(),
        }
    }

    /// The settings.
    pub fn config(&self) -> (r: &BotConfig)
        ensures
            *r == self@.config,
    {
        &self.config
    }

    /// Forgets what was said in a channel.
    pub fn clear_memory(&mut self, channel_id: u64)
        ensures
            final(self)@ == (BotView { memory: old(self)@.memory.remove(channel_id), ..old(self)@ }),
            old(self).wf() ==> final(self).wf(),
    {
        self.memory.clear_channel(channel_id);
    }

    /// Forgets what was said anywhere.
    pub fn clear_all_memory(&mut self)
        ensures
            final(self)@ == (BotView {
                memory: Map::<u64, Seq<ChatMessageView>>::empty(),
                ..old(self)@
            }),
            old(self).wf() ==> final(self).wf(),
    {
        self.memory.clear();
    }

    /// Remembers a message of a channel, and no more of the channel than the
    /// settings allow.
    pub fn remember(&mut self, channel_id: u64, message: ChatMessage)
        ensures
            final(self)@ == (BotView {
                memory: memory_after(
                    old(self)@.memory,
                    channel_id,
                    message@,
                    old(self)@.config.memory_size as nat,
                ),
                ..old(self)@
            }),
            old(self).wf() ==> final(self).wf(),
    {
        self.memory.remember(channel_id, message, self.config.memory_size);
    }

    /// The question to the model when a user has said something in a channel.
    pub fn ask_nvidia(&self, channel_id: u64, username: &str, prompt: &str) -> (r: ChatRequest)
        ensures
            r.model == self@.config.model,
            message_views(r.messages@) == conversation(
                self@.config.system_prompt@,
                history_of(self@.memory, channel_id),
                username@,
                prompt@,
            ),
            r.temperature == self@.config.temperature,
            r.max_tokens == self@.config.max_tokens,
    {
        ask_nvidia(&self.config, &self.memory, channel_id, username, prompt)
    }

    /// Goes on with the answer of the model: remembers what the user said and
    /// what the bot answers, and hands out the answer to be sent.
    pub fn answer(
        &mut self,
        channel_id: u64,
        username: &str,
        prompt: &str,
        answer: Result<String, String>,
    ) -> (r: Delivery)
        ensures
            final(self)@ == (BotView {
                memory: memory_after_exchange(
                    old(self)@.memory,
                    channel_id,
                    spoken(username@, prompt@),
                    answer_text(answer),
                    old(self)@.config.memory_size as nat,
                ),
                ..old(self)@
            }),
            old(self).wf() ==> final(self).wf(),
            r@ == chunks(answer_text(answer), MESSAGE_LIMIT as nat),
            answer matches Ok(text) ==> r@ == chunks(text@, 1900) && (text@.len() <= 1900 ==> r@
                == seq![text@]),
            answer is Err ==> r@ == seq!["Sorry, I couldn't reach the AI service right now."@],
            ({
                let all = history_of(old(self)@.memory, channel_id).push(
                    ChatMessageView { role: "user"@, content: username@ + ": "@ + prompt@ },
                ).push(
                    ChatMessageView {
                        role: "assistant"@,
                        content: match answer {
                            Ok(text) => text@,
                            Err(_) => "Sorry, I couldn't reach the AI service right now."@,
                        },
                    },
                );
                let size = old(self)@.config.memory_size;
                history_of(final(self)@.memory, channel_id) == if all.len() > size {
                    all.skip(all.len() - size)
                } else {
                    all
                }
            }),
    {
        let text: String = match answer {
            Ok(text) => text,
            Err(_) => "Sorry, I couldn't reach the AI service right now.".to_owned(),
        };
        proof {
            exchange_adds_two(
                self@.memory,
                channel_id,
                spoken(username@, prompt@),
                text@,
                self@.config.memory_size as nat,
            );
            reveal_strlit("Sorry, I couldn't reach the AI service right now.");
        }
        self.remember(
            channel_id,
            ChatMessage { role: "user".to_owned(), content: spoken_line(username, prompt) },
        );
        self.remember(
            channel_id,
            ChatMessage { role: "assistant".to_owned(), content: text.clone() },
        );
        Delivery::new(split_message(text.as_str(), MESSAGE_LIMIT))
    }

    /// The member to disconnect when the voice state of a user has changed: one
    /// who is in bed is not to be in a voice channel.
    pub fn voice_state_update(
        &self,
        guild_id: Option<GuildId>,
        channel_id: Option<ChannelId>,
        user_id: UserId,
    ) -> (r: Option<(GuildId, UserId)>)
        ensures
            r == to_disconnect(self@.sleeping_users, guild_id, channel_id, user_id),
    {
        match (guild_id, channel_id) {
            (Some(guild), Some(_)) => if self.sleeping_users.contains(guild, user_id) {
                Some((guild, user_id))
            } else {
                None
            },
            _ => None,
        }
    }

    /// The first step of a voice command.
    pub fn voice_start(
        &mut self,
        command: VoiceCommand,
        author_id: UserId,
        guild_id: Option<GuildId>,
    ) -> (r: (VoiceTask, VoiceAction<Track>))
        ensures
            begins(command, author_id, guild_id, old(self)@.current_sounds, r),
            final(self)@ == (BotView {
                current_sounds: sounds_after_start(
                    command,
                    guild_id,
                    old(self)@.current_sounds,
                ),
                ..old(self)@
            }),
            old(self).wf() ==> final(self).wf(),
    {
        voice_start(command, author_id, guild_id, &mut self.current_sounds)
    }

    /// A step of a voice command, with the answer to what it asked for.
    pub fn voice_step(&mut self, task: VoiceTask, event: VoiceEvent<Track>) -> (r: (
        VoiceTask,
        VoiceAction<Track>,
    ))
        requires
            task.awaits(event),
        ensures
            goes_on(task, event, old(self)@.current_sounds, r),
            names_ascii_sound(task, event, r),
            r.0.steps_left() < task.steps_left(),
            final(self)@ == (BotView {
                current_sounds: sounds_after(task, event, old(self)@.current_sounds),
                ..old(self)@
            }),
            old(self).wf() ==> final(self).wf(),
    {
        voice_step(task, event, &mut self.current_sounds)
    }

    /// A step of the scheduler of bedtimes.
    pub fn scheduler_step(
        &mut self,
        schedule: &SleepSchedule,
        step: SchedulerStep,
        event: SchedulerEvent,
    ) -> (r: (SchedulerStep, SchedulerAction))
        requires
            step.awaits(event),
        ensures
            proceeds(*schedule, step, event, r),
            final(self)@ == (BotView {
                sleeping_users: sleeping_after(*schedule, step, old(self)@.sleeping_users),
                ..old(self)@
            }),
            old(self).wf() ==> final(self).wf(),
    {
        scheduler_step(schedule, &mut self.sleeping_users, step, event)
    }
}

/// The messages that are still to be sent, one after the other.
#[derive(Debug)]
pub struct Delivery {
    messages: Vec<String>,
    next: usize,
}

impl View for Delivery {
    type V = Seq<Seq<char>>;

    closed spec fn view(&self) -> Seq<Seq<char>> {
        texts(self.messages@).skip(self.next as int)
    }
}

impl Delivery {
    #[verifier::type_invariant]
    spec fn in_range(self) -> bool {
        self.next <= self.messages@.len()
    }

    fn new(messages: Vec<String>) -> (r: Self)
        ensures
            r@ == texts(messages@),
    {
        assert(texts(messages@).skip(0) == texts(messages@));
        Delivery { messages, next: 0 }
    }

    /// The next message to send, if there is one.
    pub fn next_message(&mut self) -> (r: Option<String>)
        ensures
            match r {
                Some(text) => old(self)@.len() > 0 && text@ == old(self)@[0] && final(self)@
                    == old(self)@.skip(1),
                None => old(self)@.len() == 0 && final(self)@ == old(self)@,
            },
    {
        proof {
            use_type_invariant(&*self);
        }
        if self.next < self.messages.len() {
            let text = self.messages[self.next].clone();
            let next: usize = self.next + 1;
            self.next = next;
            assert(texts(self.messages@).skip(next - 1).skip(1) == texts(self.messages@).skip(
                next as int,
            ));
            Some(text)
        } else {
            None
        }
    }

    /// Takes note that a message could not be sent: nothing more is.
    pub fn give_up(&mut self)
        ensures
            final(self)@ == Seq::<Seq<char>>::empty(),
    {
        let end: usize = self.messages.len();
        self.next = end;
        assert(self@ =~= Seq::<Seq<char>>::empty());
    }
}

/// After an exchange the channel's memory ends with what the user said and what
/// the bot answered, if it may hold both.
pub proof fn exchange_is_remembered(
    memory: Map<u64, Seq<ChatMessageView>>,
    channel_id: u64,
    question: Seq<char>,
    answer: Seq<char>,
    size: nat,
)
    requires
        size >= 2,
    ensures
        ({
            let h = history_of(
                memory_after_exchange(memory, channel_id, question, answer, size),
                channel_id,
            );
            &&& 2 <= h.len() <= size
            &&& h[h.len() - 2] == said("user"@, question)
            &&& h[h.len() - 1] == said("assistant"@, answer)
        }),
{
    let first = remembered(history_of(memory, channel_id), said("user"@, question), size);
    assert(first.last() == said("user"@, question));
    let second = remembered(first, said("assistant"@, answer), size);
    assert(second[second.len() - 2] == first.last());
}

/// An exchange leaves the memory of every other channel as it is.
pub proof fn exchange_stays_in_channel(
    memory: Map<u64, Seq<ChatMessageView>>,
    channel_id: u64,
    question: Seq<char>,
    answer: Seq<char>,
    size: nat,
    other: u64,
)
    requires
        other != channel_id,
    ensures
        history_of(
            memory_after_exchange(memory, channel_id, question, answer, size),
            other,
        ) == history_of(memory, other),
{
}

/// After its memory is cleared a channel is asked about as if nothing had been
/// said in it, and other channels as before.
pub proof fn cleared_channel_is_forgotten(
    memory: Map<u64, Seq<ChatMessageView>>,
    channel_id: u64,
    other: u64,
)
    ensures
        history_of(memory.remove(channel_id), channel_id) == Seq::<ChatMessageView>::empty(),
        other != channel_id ==> history_of(memory.remove(channel_id), other) == history_of(
            memory,
            other,
        ),
{
}

/// From the bedtime on a user who is seen in a voice channel of the server is to
/// be disconnected.
pub proof fn sleeper_is_disconnected(
    schedule: SleepSchedule,
    sleeping_users: Set<(GuildId, UserId)>,
    channel_id: ChannelId,
)
    ensures
        to_disconnect(
            sleeping_after(schedule, SchedulerStep::Waiting, sleeping_users),
            Some(schedule.guild_id),
            Some(channel_id),
            schedule.user_id,
        ) == Some((schedule.guild_id, schedule.user_id)),
{
}

/// The next question in a channel repeats the exchange before it, between what
/// the model is told about its role and what the user says now, if the memory may
/// hold both messages.
pub proof fn next_question_repeats_exchange(
    memory: Map<u64, Seq<ChatMessageView>>,
    channel_id: u64,
    question: Seq<char>,
    answer: Seq<char>,
    size: nat,
    system_prompt: Seq<char>,
    username: Seq<char>,
    prompt: Seq<char>,
)
    requires
        size >= 2,
    ensures
        ({
            let asked = conversation(
                system_prompt,
                history_of(
                    memory_after_exchange(memory, channel_id, question, answer, size),
                    channel_id,
                ),
                username,
                prompt,
            );
            &&& 4 <= asked.len() <= size + 2
            &&& asked[0] == said("system"@, system_prompt)
            &&& asked[asked.len() - 3] == said("user"@, question)
            &&& asked[asked.len() - 2] == said("assistant"@, answer)
            &&& asked[asked.len() - 1] == said("user"@, spoken(username, prompt))
        }),
{
    exchange_is_remembered(memory, channel_id, question, answer, size);
}

/// Before anything is said, and after all memory is cleared, the model is told
/// its role and what the user says, and nothing else.
pub proof fn first_question_has_no_history(
    channel_id: u64,
    system_prompt: Seq<char>,
    username: Seq<char>,
    prompt: Seq<char>,
)
    ensures
        conversation(
            system_prompt,
            history_of(Map::<u64, Seq<ChatMessageView>>::empty(), channel_id),
            username,
            prompt,
        ) == seq![said("system"@, system_prompt), said("user"@, spoken(username, prompt))],
{
}

/// After an exchange the channel's history is what it was, then the user's line and
/// the answer: all of it, or the last messages, as many as may be remembered. Of
/// other channels the same is remembered as before.
pub proof fn exchange_adds_two(
    memory: Map<u64, Seq<ChatMessageView>>,
    channel_id: u64,
    question: Seq<char>,
    answer: Seq<char>,
    size: nat,
)
    ensures
        ({
            let all = history_of(memory, channel_id).push(
                ChatMessageView { role: "user"@, content: question },
            ).push(ChatMessageView { role: "assistant"@, content: answer });
            let after = memory_after_exchange(memory, channel_id, question, answer, size);
            &&& history_of(after, channel_id) == if all.len() > size {
                all.skip(all.len() - size)
            } else {
                all
            }
            &&& forall|other: u64|
                other != channel_id ==> (#[trigger] after.contains_key(other)
                    <==> memory.contains_key(other)) && after[other] == memory[other]
        }),
{
    let history = history_of(memory, channel_id);
    let user = said("user"@, question);
    let first = remembered(history, user, size);
    let all = history.push(user).push(said("assistant"@, answer));
    let second = remembered(first, said("assistant"@, answer), size);
    if history.len() + 1 > size {
        assert(first == history.push(user).skip(history.len() + 1 - size));
        assert(first.push(said("assistant"@, answer)) == all.skip(history.len() + 1 - size));
        assert(second == all.skip(all.len() - size));
    } else {
        assert(first.push(said("assistant"@, answer)) == all);
    }
}

/// What the bot says is the answer, whole, or that it could not get one.
pub proof fn answer_is_said_or_missed(answer: Result<String, String>)
    ensures
        answer matches Ok(text) ==> answer_text(answer) == text@,
        answer is Err ==> answer_text(answer)
            == "Sorry, I couldn't reach the AI service right now."@,
{
}

/// A user is to be disconnected where, and only where, the user is in a channel of a
/// server in which the user is in bed.
pub proof fn only_sleepers_in_channels_are_disconnected(
    sleeping_users: Set<(GuildId, UserId)>,
    guild_id: Option<GuildId>,
    channel_id: Option<ChannelId>,
    user_id: UserId,
    member: (GuildId, UserId),
)
    ensures
        to_disconnect(sleeping_users, guild_id, channel_id, user_id) == Some(member) <==> guild_id
            == Some(member.0) && channel_id is Some && member.1 == user_id
            && sleeping_users.contains(member),
{
    assert(member == (member.0, member.1));
}

/// A message that is remembered comes last in its channel; of the messages before it
/// the last are kept, as many as there is room for, and other channels stay as they
/// are.
pub proof fn message_is_added_last(
    memory: Map<u64, Seq<ChatMessageView>>,
    channel_id: u64,
    message: ChatMessageView,
    size: nat,
)
    ensures
        ({
            let all = history_of(memory, channel_id).push(message);
            let after = memory_after(memory, channel_id, message, size);
            &&& history_of(after, channel_id) == if all.len() > size {
                all.skip(all.len() - size)
            } else {
                all
            }
            &&& forall|other: u64|
                other != channel_id ==> (#[trigger] after.contains_key(other)
                    <==> memory.contains_key(other)) && after[other] == memory[other]
        }),
{
}

} // verus!
