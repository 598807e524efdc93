//! What was said in each channel, as far as it is remembered.

use std::collections::{HashMap, VecDeque};
use vstd::prelude::*;

verus! {

broadcast use vstd::std_specs::hash::group_hash_axioms;

/// A message of a conversation with the model.
#[derive(Debug)]
pub struct ChatMessage {
    pub role: String,
    pub content: String,
}

/// A message of a conversation, as text.
pub struct ChatMessageView {
    pub role: Seq<char>,
    pub content: Seq<char>,
}

impl View for ChatMessage {
    type V = ChatMessageView;

    open spec fn view(&self) -> ChatMessageView {
        ChatMessageView { role: self.role@, content: self.content@ }
    }
}

impl Clone for ChatMessage {
    fn clone(&self) -> (r: Self)
        ensures
            r == *self,
    {
        ChatMessage { role: self.role.clone(), content: self.content.clone() }
    }
}

/// Messages as texts.
pub open spec fn message_views(messages: Seq<ChatMessage>) -> Seq<ChatMessageView> {
    messages.map_values(|m: ChatMessage| m@)
}

/// A history after one more message: of the messages, the last `size`.
pub open spec fn remembered(
    history: Seq<ChatMessageView>,
    message: ChatMessageView,
    size: nat,
) -> Seq<ChatMessageView> {
    let all = history.push(message);
    if all.len() > size {
        all.skip(all.len() - size)
    } else {
        all
    }
}

/// The histories of the channels.
#[derive(Debug)]
pub struct Memory {
    channels: HashMap<u64, VecDeque<ChatMessage>>,
}

impl View for Memory {
    type V = Map<u64, Seq<ChatMessageView>>;

    closed spec fn view(&self) -> Map<u64, Seq<ChatMessageView>> {
        self.channels@.map_values(|h: VecDeque<ChatMessage>| message_views(h@))
    }
}

/// What is remembered of a channel: nothing of one that was never spoken in.
pub open spec fn history_of(
    memory: Map<u64, Seq<ChatMessageView>>,
    channel_id: u64,
) -> Seq<ChatMessageView> {
    if memory.contains_key(channel_id) {
        memory[channel_id]
    } else {
        Seq::empty()
    }
}

impl Memory {
    /// No channel is known.
    pub fn new() -> (r: Self)
        ensures
            r@ == Map::<u64, Seq<ChatMessageView>>::empty(),
    {
        let r = Memory { channels: HashMap::new() };
        assert(r@ =~= Map::<u64, Seq<ChatMessageView>>::empty());
        r
    }

    /// The messages remembered of a channel, the oldest first.
    pub fn history(&self, channel_id: u64) -> (r: Vec<ChatMessage>)
        ensures
            message_views(r@) == history_of(self@, channel_id),
    {
        let mut r: Vec<ChatMessage> = Vec::new();
        match self.channels.get(&channel_id) {
            Some(history) => {
                let mut i: usize = 0;
                while i < history.len()
                    invariant
                        i <= history.len(),
                        r@ == history@.take(i as int),
                    decreases history.len() - i,
                {
                    r.push(history[i].clone());
                    i += 1;
                    assert(history@.take(i as int) == history@.take(i - 1).push(history@[i - 1]));
                }
                assert(history@.take(history@.len() as int) == history@);
                assert(self@[channel_id] == message_views(history@));
            },
            None => {},
        }
        r
    }

    /// Adds a message to the history of a channel and forgets the oldest ones
    /// beyond the given number.
    pub fn remember(&mut self, channel_id: u64, message: ChatMessage, size: usize)
        ensures
            final(self)@ == old(self)@.insert(
                channel_id,
                remembered(history_of(old(self)@, channel_id), message@, size as nat),
            ),
            ({
                let before = if old(self)@.contains_key(channel_id) {
                    old(self)@[channel_id]
                } else {
                    Seq::empty()
                };
                let all = before.push(
                    ChatMessageView { role: message.role@, content: message.content@ },
                );
                &&& final(self)@.contains_key(channel_id)
                &&& final(self)@[channel_id] == if all.len() > size {
                    all.skip(all.len() - size)
                } else {
                    all
                }
            }),
    {
        let mut history: VecDeque<ChatMessage> = match self.channels.remove(&channel_id) {
            Some(history) => history,
            None => VecDeque::new(),
        };
        let ghost before = history@;
        assert(message_views(before) == history_of(old(self)@, channel_id));
        history.push_back(message);
        let ghost all = before.push(message);
        assert(all.skip(0) == all);
        while history.len() > size
            invariant
                history@.len() <= all.len(),
                history@ == all.skip(all.len() - history@.len()),
                history@.len() >= size || history@ == all,
            decreases history@.len(),
        {
            let _ = history.pop_front();
            assert(history@ == all.skip(all.len() - history@.len()));
        }
        proof {
            assert(message_views(all) == message_views(before).push(message@));
            assert(message_views(history@) == remembered(
                message_views(before),
                message@,
                size as nat,
            ));
        }
        self.channels.insert(channel_id, history);
        assert(self@ =~= old(self)@.insert(channel_id, message_views(history@)));
    }

    /// Forgets a channel.
    pub fn clear_channel(&mut self, channel_id: u64)
        ensures
            final(self)@ == old(self)@.remove(channel_id),
    {
        self.channels.remove(&channel_id);
        assert(self@ =~= old(self)@.remove(channel_id));
    }

    /// Forgets every channel.
    pub fn clear(&mut self)
        ensures
            final(self)@ == Map::<u64, Seq<ChatMessageView>>::empty(),
    {
        self.channels.clear();
        assert(self@ =~= Map::<u64, Seq<ChatMessageView>>::empty());
    }
}

/// A memory in which no channel holds more messages than the given number.
pub open spec fn bounded(memory: Map<u64, Seq<ChatMessageView>>, size: nat) -> bool {
    forall|c: u64| #[trigger] memory.contains_key(c) ==> memory[c].len() <= size
}

/// Remembering a message leaves at most the set number of messages of the
/// channel: the newest ones, in the order in which they were said, the new one
/// last.
pub proof fn remembers_the_newest(
    history: Seq<ChatMessageView>,
    message: ChatMessageView,
    size: nat,
)
    ensures
        remembered(history, message, size).len() <= size,
        remembered(history, message, size).is_suffix_of(history.push(message)),
        remembered(history, message, size).len() == size || remembered(history, message, size)
            == history.push(message),
        size > 0 ==> remembered(history, message, size).last() == message,
{
}

/// Remembering keeps the memory within its bound and touches no other channel.
pub proof fn remembering_keeps_the_bound(
    memory: Map<u64, Seq<ChatMessageView>>,
    channel_id: u64,
    message: ChatMessageView,
    size: nat,
)
    requires
        bounded(memory, size),
    ensures
        ({
            let after = memory.insert(
                channel_id,
                remembered(history_of(memory, channel_id), message, size),
            );
            &&& bounded(after, size)
            &&& forall|other: u64|
                other != channel_id ==> #[trigger] history_of(after, other) == history_of(
                    memory,
                    other,
                )
        }),
{
}

/// A history after several more messages, said one after the other.
pub open spec fn remembered_all(
    history: Seq<ChatMessageView>,
    messages: Seq<ChatMessageView>,
    size: nat,
) -> Seq<ChatMessageView>
    decreases messages.len(),
{
    if messages.len() == 0 {
        history
    } else {
        remembered(
            remembered_all(history, messages.drop_last(), size),
            messages.last(),
            size,
        )
    }
}

/// However many messages are said in a channel, what is remembered are the last
/// ones, as many as the set number allows, in the order in which they were said.
pub proof fn remembers_the_last(messages: Seq<ChatMessageView>, size: nat)
    ensures
        remembered_all(Seq::empty(), messages, size) == if messages.len() > size {
            messages.skip(messages.len() - size)
        } else {
            messages
        },
    decreases messages.len(),
{
    if messages.len() > 0 {
        let front = messages.drop_last();
        remembers_the_last(front, size);
        assert(front.push(messages.last()) == messages);
        let before = remembered_all(Seq::empty(), front, size);
        let all = before.push(messages.last());
        if front.len() > size {
            assert(all.skip(1) == messages.skip(messages.len() - size));
        } else {
            assert(all == messages);
        }
    }
}

/// What is read of a channel is what was put there last; a channel of which nothing
/// is known has said nothing, and no channel tells of another.
pub proof fn history_is_what_was_kept(
    memory: Map<u64, Seq<ChatMessageView>>,
    channel_id: u64,
    kept: Seq<ChatMessageView>,
    other: u64,
)
    ensures
        history_of(memory.insert(channel_id, kept), channel_id) == kept,
        other != channel_id ==> history_of(memory.insert(channel_id, kept), other) == history_of(
            memory,
            other,
        ),
        history_of(memory.remove(channel_id), channel_id).len() == 0,
        other != channel_id ==> history_of(memory.remove(channel_id), other) == history_of(
            memory,
            other,
        ),
        history_of(Map::empty(), channel_id).len() == 0,
{
}

/// Messages are taken as their texts, one by one, role and content.
pub proof fn messages_are_their_texts(messages: Seq<ChatMessage>)
    ensures
        message_views(messages).len() == messages.len(),
        forall|i: int|
            0 <= i < messages.len() ==> (#[trigger] message_views(messages)[i]).role
                == messages[i].role@ && message_views(messages)[i].content == messages[i].content@,
{
}

} // verus!
