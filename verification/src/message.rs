//! What a message in a channel asks of the bot: a voice command, an answer, or
//! nothing.

use crate::ids::{ChannelId, GuildId, UserId};
use crate::text::{
    all_white_space, ascii_lowered, concat, decimal, decimal_is_injective, decimal_text, has_prefix,
    is_ascii_text, is_white_space, leading_space, lemma_decimal_digits, lowercase,
    lowered_from_start, occurs_in, replace_text, replaced, replacing_apart, replacing_behind,
    replacing_between_space, replacing_nothing, replacing_prefix, same_text, starts_with,
    strip_prefix, text_of, trim, trimmed, trimming_is_exact, trimming_space_around,
};
use vstd::prelude::*;

verus! {

/// A user whom a message mentions.
#[derive(Debug)]
pub struct MentionedUser {
    pub id: UserId,
    pub name: String,
    pub global_name: Option<String>,
}

/// A message in a channel.
#[derive(Debug)]
pub struct IncomingMessage {
    pub author_id: UserId,
    pub author_name: String,
    pub author_is_bot: bool,
    pub guild_id: Option<GuildId>,
    pub channel_id: ChannelId,
    pub content: String,
    pub mentions: Vec<MentionedUser>,
    pub mention_channels: Vec<ChannelId>,
}

/// What a voice command asks for.
#[derive(Debug)]
pub enum VoiceCommand {
    /// Join the voice channel of the author.
    JoinAuthor,
    /// Join the voice channel of a user.
    JoinUser(UserId),
    /// Join a voice channel.
    JoinChannel(ChannelId),
    /// Leave voice.
    Leave,
    /// Play the sound of this name.
    PlaySound(String),
    /// Stop the sound that is playing.
    StopSound,
}

/// What a voice command asks for, with the name of a sound as text.
pub enum VoiceCommandView {
    JoinAuthor,
    JoinUser(UserId),
    JoinChannel(ChannelId),
    Leave,
    PlaySound(Seq<char>),
    StopSound,
}

impl View for VoiceCommand {
    type V = VoiceCommandView;

    open spec fn view(&self) -> VoiceCommandView {
        match *self {
            VoiceCommand::JoinAuthor => VoiceCommandView::JoinAuthor,
            VoiceCommand::JoinUser(user_id) => VoiceCommandView::JoinUser(user_id),
            VoiceCommand::JoinChannel(channel_id) => VoiceCommandView::JoinChannel(channel_id),
            VoiceCommand::Leave => VoiceCommandView::Leave,
            VoiceCommand::PlaySound(sound) => VoiceCommandView::PlaySound(sound@),
            VoiceCommand::StopSound => VoiceCommandView::StopSound,
        }
    }
}

/// A command or none, with the name of a sound as text.
pub open spec fn command_view(command: Option<VoiceCommand>) -> Option<VoiceCommandView> {
    match command {
        Some(c) => Some(c@),
        None => None,
    }
}

// ---- mentions ----
/// How a user is mentioned in the text of a message.
pub open spec fn mention(user_id: UserId) -> Seq<char> {
    "<@"@ + decimal(user_id.0 as nat) + ">"@
}

/// The older way to mention a user.
pub open spec fn nick_mention(user_id: UserId) -> Seq<char> {
    "<@!"@ + decimal(user_id.0 as nat) + ">"@
}

/// A text in which every mention of a user is replaced.
pub open spec fn without_mentions(
    content: Seq<char>,
    user_id: UserId,
    with: Seq<char>,
) -> Seq<char> {
    replaced(replaced(content, mention(user_id), with), nick_mention(user_id), with)
}

/// Replaces every mention of a user.
pub fn replace_mentions(content: &str, user_id: UserId, with: &str) -> (r: String)
    ensures
        r@ == without_mentions(content@, user_id, with@),
{
    let number = decimal_text(user_id.0);
    let plain = concat(concat("<@", number.as_str()).as_str(), ">");
    let nick = concat(concat("<@!", number.as_str()).as_str(), ">");
    let once = replace_text(content, plain.as_str(), with);
    replace_text(once.as_str(), nick.as_str(), with)
}

/// The name by which a user is shown.
pub open spec fn shown_name(user: MentionedUser) -> Seq<char> {
    match user.global_name {
        Some(name) => name@,
        None => user.name@,
    }
}

/// A text in which the mentions of the given users, but not of the bot, are
/// replaced by their names, one user after the other.
pub open spec fn with_names(
    content: Seq<char>,
    users: Seq<MentionedUser>,
    bot_id: UserId,
) -> Seq<char>
    decreases users.len(),
{
    if users.len() == 0 {
        content
    } else {
        let before = with_names(content, users.drop_last(), bot_id);
        if users.last().id == bot_id {
            before
        } else {
            without_mentions(before, users.last().id, shown_name(users.last()))
        }
    }
}

/// What a text says to the bot: the text without the mentions of the bot, with the
/// names of the others, and without white space around it.
pub open spec fn prompt_in(
    content: Seq<char>,
    users: Seq<MentionedUser>,
    bot_id: UserId,
) -> Seq<char> {
    trimmed(with_names(without_mentions(content, bot_id, ""@), users, bot_id))
}

/// What a message says to the bot.
pub open spec fn prompt_of(msg: IncomingMessage, bot_id: UserId) -> Seq<char> {
    prompt_in(msg.content@, msg.mentions@, bot_id)
}

/// What a message says to the bot.
pub fn build_prompt(msg: &IncomingMessage, bot_id: UserId) -> (r: String)
    ensures
        r@ == prompt_of(*msg, bot_id),
{
    let mut content = replace_mentions(msg.content.as_str(), bot_id, "");
    let ghost start = content@;
    let mut i: usize = 0;
    assert(msg.mentions@.take(0) == Seq::<MentionedUser>::empty());
    while i < msg.mentions.len()
        invariant
            i <= msg.mentions.len(),
            content@ == with_names(start, msg.mentions@.take(i as int), bot_id),
        decreases msg.mentions.len() - i,
    {
        assert(msg.mentions@.take(i + 1).drop_last() == msg.mentions@.take(i as int));
        assert(msg.mentions@.take(i + 1).last() == msg.mentions@[i as int]);
        let user = &msg.mentions[i];
        if user.id != bot_id {
            let name: &str = match &user.global_name {
                Some(name) => name.as_str(),
                None => user.name.as_str(),
            };
            content = replace_mentions(content.as_str(), user.id, name);
        }
        i += 1;
    }
    assert(msg.mentions@.take(msg.mentions@.len() as int) == msg.mentions@);
    trim(content.as_str())
}

/// The message mentions the user.
pub open spec fn mentions_user(msg: IncomingMessage, user_id: UserId) -> bool {
    exists|i: int| 0 <= i < msg.mentions@.len() && (#[trigger] msg.mentions@[i]).id == user_id
}

fn is_mentioned(msg: &IncomingMessage, user_id: UserId) -> (r: bool)
    ensures
        r == mentions_user(*msg, user_id),
{
    let mut i: usize = 0;
    while i < msg.mentions.len()
        invariant
            i <= msg.mentions.len(),
            forall|j: int| 0 <= j < i ==> (#[trigger] msg.mentions@[j]).id != user_id,
        decreases msg.mentions.len() - i,
    {
        if msg.mentions[i].id == user_id {
            return true;
        }
        i += 1;
    }
    false
}

// ---- voice commands ----
/// The first of the mentioned users who is not the bot.
pub open spec fn first_other(users: Seq<MentionedUser>, bot_id: UserId) -> Option<UserId>
    decreases users.len(),
{
    if users.len() == 0 {
        None
    } else if users[0].id != bot_id {
        Some(users[0].id)
    } else {
        first_other(users.skip(1), bot_id)
    }
}

fn find_other(users: &Vec<MentionedUser>, bot_id: UserId) -> (r: Option<UserId>)
    ensures
        r == first_other(users@, bot_id),
{
    let mut i: usize = 0;
    assert(users@.skip(0) == users@);
    while i < users.len()
        invariant
            i <= users.len(),
            first_other(users@, bot_id) == first_other(users@.skip(i as int), bot_id),
        decreases users.len() - i,
    {
        assert(users@.skip(i as int)[0] == users@[i as int]);
        assert(users@.skip(i as int).skip(1) == users@.skip(i + 1));
        if users[i].id != bot_id {
            return Some(users[i].id);
        }
        i += 1;
    }
    None
}

/// What a message says to the bot as a command: its text without the mentions of
/// the bot and without white space around it.
pub open spec fn command_of(content: Seq<char>, bot_id: UserId) -> Seq<char> {
    trimmed(without_mentions(content, bot_id, ""@))
}

/// The name of the sound that a command asks for.
pub open spec fn sound_asked_for(command: Seq<char>) -> Option<Seq<char>> {
    if has_prefix(command, "sound "@) {
        Some(trimmed(command.skip("sound "@.len() as int)))
    } else if has_prefix(command, "play "@) {
        Some(trimmed(command.skip("play "@.len() as int)))
    } else {
        None
    }
}

/// What trimming leaves of a text behind its first `n` characters.
proof fn lemma_trimmed_behind(s: Seq<char>, n: int)
    requires
        0 <= n <= s.len(),
    ensures
        exists|from: int, to: int|
            {
                &&& n <= from <= to <= s.len()
                &&& trimmed(s.skip(n)) == #[trigger] s.subrange(from, to)
                &&& forall|i: int|
                    n <= i < s.len() && !(from <= i < to) ==> is_white_space(#[trigger] s[i])
                &&& from < to ==> !is_white_space(s[from]) && !is_white_space(s[to - 1])
            },
{
    let rest = s.skip(n);
    trimming_is_exact(rest);
    let from = n + leading_space(rest);
    let to = from + trimmed(rest).len();
    assert(trimmed(rest) == s.subrange(from, to));
    assert forall|i: int| n <= i < s.len() && !(from <= i < to) implies is_white_space(
        #[trigger] s[i],
    ) by {
        assert(s[i] == rest[i - n]);
    }
    assert(from < to ==> s[from] == rest[from - n] && s[to - 1] == rest[to - 1 - n]);
}

/// The name of the sound that a command asks for.
pub fn sound_request(command: &str) -> (r: Option<String>)
    ensures
        text_of(r) == sound_asked_for(command@),
        r is Some <==> has_prefix(command@, "sound "@) || has_prefix(command@, "play "@),
        has_prefix(command@, "sound "@) ==> (r matches Some(name) && exists|from: int, to: int|
            {
                &&& 6 <= from <= to <= command@.len()
                &&& name@ == #[trigger] command@.subrange(from, to)
                &&& forall|i: int|
                    6 <= i < command@.len() && !(from <= i < to) ==> is_white_space(
                        #[trigger] command@[i],
                    )
                &&& from < to ==> !is_white_space(command@[from]) && !is_white_space(
                    command@[to - 1],
                )
            }),
        !has_prefix(command@, "sound "@) && has_prefix(command@, "play "@) ==> (r matches Some(name) && exists|from: int, to: int|
            {
                &&& 5 <= from <= to <= command@.len()
                &&& name@ == #[trigger] command@.subrange(from, to)
                &&& forall|i: int|
                    5 <= i < command@.len() && !(from <= i < to) ==> is_white_space(
                        #[trigger] command@[i],
                    )
                &&& from < to ==> !is_white_space(command@[from]) && !is_white_space(
                    command@[to - 1],
                )
            }),
{
    proof {
        reveal_strlit("sound ");
        reveal_strlit("play ");
        if has_prefix(command@, "sound "@) {
            lemma_trimmed_behind(command@, 6);
        } else if has_prefix(command@, "play "@) {
            lemma_trimmed_behind(command@, 5);
        }
    }
    match strip_prefix(command, "sound ") {
        Some(sound) => Some(trim(sound.as_str())),
        None => match strip_prefix(command, "play ") {
            Some(sound) => Some(trim(sound.as_str())),
            None => None,
        },
    }
}

/// The command to join that a message gives by what it mentions: a user, or else a
/// channel.
pub open spec fn join_command(
    mentions: Seq<MentionedUser>,
    channels: Seq<ChannelId>,
    bot_id: UserId,
) -> Option<VoiceCommandView> {
    match first_other(mentions, bot_id) {
        Some(user_id) => Some(VoiceCommandView::JoinUser(user_id)),
        None => if channels.len() > 0 {
            Some(VoiceCommandView::JoinChannel(channels[0]))
        } else {
            None
        },
    }
}

/// The voice command in a message, from its text in lower case, the name of the
/// sound that it asks for in lower case, and the users and channels that it
/// mentions.
pub open spec fn command_in(
    lower: Seq<char>,
    sound: Option<Seq<char>>,
    mentions: Seq<MentionedUser>,
    channels: Seq<ChannelId>,
    bot_id: UserId,
) -> Option<VoiceCommandView> {
    if lower == "join"@ || lower == "come"@ || lower == "komm"@ {
        Some(VoiceCommandView::JoinAuthor)
    } else if lower == "leave"@ || lower == "disconnect"@ || lower == "go away"@ {
        Some(VoiceCommandView::Leave)
    } else if lower == "stop"@ {
        Some(VoiceCommandView::StopSound)
    } else if sound matches Some(name) && name.len() > 0 {
        Some(VoiceCommandView::PlaySound(sound->0))
    } else if has_prefix(lower, "join "@) || has_prefix(lower, "come "@) || has_prefix(
        lower,
        "komm "@,
    ) {
        join_command(mentions, channels, bot_id)
    } else {
        None
    }
}

/// Finds the voice command in a message.
pub fn find_command(
    lower: &str,
    sound: Option<String>,
    mentions: &Vec<MentionedUser>,
    channels: &Vec<ChannelId>,
    bot_id: UserId,
) -> (r: Option<VoiceCommand>)
    ensures
        command_view(r) == command_in(
            lower@,
            text_of(sound),
            mentions@,
            channels@,
            bot_id,
        ),
        r matches Some(VoiceCommand::JoinAuthor) <==> lower@ == "join"@ || lower@ == "come"@
            || lower@ == "komm"@,
        r matches Some(VoiceCommand::Leave) <==> lower@ == "leave"@ || lower@ == "disconnect"@
            || lower@ == "go away"@,
        r matches Some(VoiceCommand::StopSound) <==> lower@ == "stop"@,
        r matches Some(VoiceCommand::PlaySound(name)) ==> (sound matches Some(s) && s@ == name@
            && name@.len() > 0),
        r matches Some(VoiceCommand::JoinUser(user_id)) ==> user_id != bot_id && exists|i: int|
            0 <= i < mentions@.len() && (#[trigger] mentions@[i]).id == user_id && forall|j: int|
                0 <= j < i ==> (#[trigger] mentions@[j]).id == bot_id,
        r matches Some(VoiceCommand::JoinChannel(channel)) ==> channels@.len() > 0 && channel
            == channels@[0] && forall|j: int|
            0 <= j < mentions@.len() ==> (#[trigger] mentions@[j]).id == bot_id,
{
    proof {
        lemma_first_other(mentions@, bot_id);
        lemma_no_other(mentions@, bot_id);
        lemma_keywords_differ();
    }
    if same_text(lower, "join") || same_text(lower, "come") || same_text(lower, "komm") {
        return Some(VoiceCommand::JoinAuthor);
    }
    if same_text(lower, "leave") || same_text(lower, "disconnect") || same_text(lower, "go away") {
        return Some(VoiceCommand::Leave);
    }
    if same_text(lower, "stop") {
        return Some(VoiceCommand::StopSound);
    }
    if let Some(name) = sound {
        if !name.as_str().is_empty() {
            return Some(VoiceCommand::PlaySound(name));
        }
    }
    if starts_with(lower, "join ") || starts_with(lower, "come ") || starts_with(lower, "komm ") {
        if let Some(user_id) = find_other(mentions, bot_id) {
            return Some(VoiceCommand::JoinUser(user_id));
        }
        if channels.len() > 0 {
            return Some(VoiceCommand::JoinChannel(channels[0]));
        }
    }
    None
}

/// The voice command in a message.
pub open spec fn voice_command_of(msg: IncomingMessage, bot_id: UserId) -> Option<
    VoiceCommandView,
> {
    let command = command_of(msg.content@, bot_id);
    command_in(
        lowercase(command),
        match sound_asked_for(command) {
            Some(sound) => Some(lowercase(sound)),
            None => None,
        },
        msg.mentions@,
        msg.mention_channels@,
        bot_id,
    )
}

/// The voice command in a message of ASCII characters.
pub open spec fn ascii_command_of(msg: IncomingMessage, bot_id: UserId) -> Option<
    VoiceCommandView,
> {
    let command = command_of(msg.content@, bot_id);
    command_in(
        ascii_lowered(command),
        match sound_asked_for(command) {
            Some(sound) => Some(ascii_lowered(sound)),
            None => None,
        },
        msg.mentions@,
        msg.mention_channels@,
        bot_id,
    )
}

/// A text begins with the given one, whatever the case of its ASCII letters.
pub open spec fn begins_with(s: Seq<char>, beginning: Seq<char>) -> bool {
    s.len() >= beginning.len() && ascii_lowered(s.take(beginning.len() as int)) == beginning
}

/// Whatever characters follow: a message that begins with `sound` or `play` and
/// names a sound asks for it, and one that begins with `join`, `come` or `komm` and a
/// space asks to join what it mentions.
pub open spec fn obeys_first_word(
    msg: IncomingMessage,
    bot_id: UserId,
    found: Option<VoiceCommandView>,
) -> bool {
    let command = command_of(msg.content@, bot_id);
    &&& sound_asked_for(command) matches Some(sound) ==> sound.len() > 0 ==> found == Some(
        VoiceCommandView::PlaySound(lowercase(sound)),
    )
    &&& begins_with(command, "join "@) || begins_with(command, "come "@) || begins_with(
        command,
        "komm "@,
    ) ==> found == join_command(msg.mentions@, msg.mention_channels@, bot_id)
}

/// A beginning in lower case ASCII letters stands in the lower case text too.
proof fn lemma_lowered_beginning(s: Seq<char>, lower: Seq<char>, beginning: Seq<char>)
    requires
        lowered_from_start(s, lower),
        begins_with(s, beginning),
        is_ascii_text(beginning),
    ensures
        has_prefix(lower, beginning),
{
    let start = s.take(beginning.len() as int);
    assert forall|i: int| 0 <= i < start.len() implies (#[trigger] start[i] as u32) < 0x80 by {
        assert(ascii_lowered(start)[i] == beginning[i]);
    }
}

/// The first word of a command decides, whatever becomes of the characters behind
/// it in lower case.
proof fn lemma_first_word(command: Seq<char>, lower: Seq<char>)
    requires
        lowered_from_start(command, lower),
    ensures
        sound_asked_for(command) is Some ==> {
            &&& lower != "join"@ && lower != "come"@ && lower != "komm"@
            &&& lower != "leave"@ && lower != "disconnect"@ && lower != "go away"@
            &&& lower != "stop"@
        },
        begins_with(command, "join "@) || begins_with(command, "come "@) || begins_with(
            command,
            "komm "@,
        ) ==> {
            &&& lower != "join"@ && lower != "come"@ && lower != "komm"@
            &&& lower != "leave"@ && lower != "disconnect"@ && lower != "go away"@
            &&& lower != "stop"@
            &&& sound_asked_for(command) is None
            &&& has_prefix(lower, "join "@) || has_prefix(lower, "come "@) || has_prefix(
                lower,
                "komm "@,
            )
        },
{
    reveal_strlit("join");
    reveal_strlit("come");
    reveal_strlit("komm");
    reveal_strlit("leave");
    reveal_strlit("disconnect");
    reveal_strlit("go away");
    reveal_strlit("stop");
    reveal_strlit("sound ");
    reveal_strlit("play ");
    reveal_strlit("join ");
    reveal_strlit("come ");
    reveal_strlit("komm ");
    if has_prefix(command, "sound "@) {
        assert(ascii_lowered("sound "@) == "sound "@);
        lemma_lowered_beginning(command, lower, "sound "@);
        assert(lower.take(6)[0] == 's' && lower.take(6)[1] == 'o');
    } else if has_prefix(command, "play "@) {
        assert(ascii_lowered("play "@) == "play "@);
        lemma_lowered_beginning(command, lower, "play "@);
        assert(lower.take(5)[0] == 'p');
    }
    if begins_with(command, "join "@) {
        lemma_lowered_beginning(command, lower, "join "@);
        assert(ascii_lowered(command.take(5))[0] == 'j');
        assert(lower.take(5)[0] == 'j' && lower.take(5)[4] == ' ');
    } else if begins_with(command, "come "@) {
        lemma_lowered_beginning(command, lower, "come "@);
        assert(ascii_lowered(command.take(5))[0] == 'c');
        assert(lower.take(5)[0] == 'c' && lower.take(5)[4] == ' ');
    } else if begins_with(command, "komm "@) {
        lemma_lowered_beginning(command, lower, "komm "@);
        assert(ascii_lowered(command.take(5))[0] == 'k');
        assert(lower.take(5)[0] == 'k' && lower.take(5)[4] == ' ');
    }
    if has_prefix(command, "sound "@) {
        assert(command.take(6)[0] == 's');
    } else if has_prefix(command, "play "@) {
        assert(command.take(5)[0] == 'p');
    }
}

/// The voice command in a message. In ASCII characters it does not matter whether
/// the words `join`, `come`, `komm`, `leave`, `disconnect`, `go away` and `stop` are
/// in upper or lower case.
pub fn parse_voice_command(msg: &IncomingMessage, bot_id: UserId) -> (r: Option<VoiceCommand>)
    ensures
        command_view(r) == voice_command_of(*msg, bot_id),
        is_ascii_text(command_of(msg.content@, bot_id)) ==> command_view(r) == ascii_command_of(
            *msg,
            bot_id,
        ),
        obeys_first_word(*msg, bot_id, command_view(r)),
{
    let content = replace_mentions(msg.content.as_str(), bot_id, "");
    let command = trim(content.as_str());
    let lower = command.as_str().to_lowercase();
    let sound: Option<String> = match sound_request(command.as_str()) {
        Some(sound) => {
            proof {
                if is_ascii_text(command@) {
                    lemma_ascii_sound(command@);
                }
            }
            Some(sound.as_str().to_lowercase())
        },
        None => None,
    };
    proof {
        lemma_first_word(command@, lower@);
    }
    find_command(lower.as_str(), sound, &msg.mentions, &msg.mention_channels, bot_id)
}

/// The name of a sound in an ASCII command is ASCII too.
proof fn lemma_ascii_sound(command: Seq<char>)
    requires
        is_ascii_text(command),
    ensures
        sound_asked_for(command) matches Some(sound) ==> is_ascii_text(sound),
{
    if sound_asked_for(command) is Some {
        let n = if has_prefix(command, "sound "@) {
            "sound "@.len() as int
        } else {
            "play "@.len() as int
        };
        let rest = command.skip(n);
        let sound = trimmed(rest);
        trimming_is_exact(rest);
        assert forall|i: int| 0 <= i < sound.len() implies (#[trigger] sound[i] as u32) < 0x80 by {
            assert(sound[i] == command[n + leading_space(rest) + i]);
        }
    }
}

// ---- what to do ----
/// What the bot does about a message.
#[derive(Debug)]
pub enum MessageAction {
    /// Nothing: the message is not for the bot.
    Ignore,
    /// Follow a voice command.
    Voice(VoiceCommand),
    /// Answer with this text.
    Reply(String),
    /// Ask the model about this.
    Ask(String),
}

/// The voice command that the bot follows, if any.
pub open spec fn followed(action: MessageAction) -> Option<VoiceCommandView> {
    match action {
        MessageAction::Voice(command) => Some(command@),
        _ => None,
    }
}

/// The message is for the bot: a person wrote it, and it mentions the bot.
pub open spec fn concerns_bot(msg: IncomingMessage, bot_id: UserId) -> bool {
    !msg.author_is_bot && mentions_user(msg, bot_id)
}

/// Tells whether a message is for the bot.
pub fn is_for_bot(msg: &IncomingMessage, bot_id: UserId) -> (r: bool)
    ensures
        r == concerns_bot(*msg, bot_id),
{
    !msg.author_is_bot && is_mentioned(msg, bot_id)
}

/// What the bot does about a message in which it has found the given command.
pub fn respond(msg: &IncomingMessage, bot_id: UserId, command: Option<VoiceCommand>) -> (r:
    MessageAction)
    ensures
        r is Ignore <==> !concerns_bot(*msg, bot_id),
        concerns_bot(*msg, bot_id) ==> match command {
            Some(c) => r == MessageAction::Voice(c),
            None => if prompt_of(*msg, bot_id).len() == 0 {
                r matches MessageAction::Reply(text) && text@
                    == "Hey! What would you like to talk about?"@
            } else {
                r matches MessageAction::Ask(prompt) && prompt@ == prompt_of(*msg, bot_id)
            },
        },
{
    if !is_for_bot(msg, bot_id) {
        return MessageAction::Ignore;
    }
    if let Some(c) = command {
        return MessageAction::Voice(c);
    }
    let prompt = build_prompt(msg, bot_id);
    if prompt.as_str().is_empty() {
        MessageAction::Reply("Hey! What would you like to talk about?".to_owned())
    } else {
        MessageAction::Ask(prompt)
    }
}

/// What the bot does about a message: it ignores other bots and whatever does not
/// mention it, follows a voice command if there is one, asks what to talk about
/// if nothing is said, and asks the model otherwise.
pub fn message(msg: &IncomingMessage, bot_id: UserId) -> (r: MessageAction)
    ensures
        r is Ignore <==> !concerns_bot(*msg, bot_id),
        concerns_bot(*msg, bot_id) ==> match voice_command_of(*msg, bot_id) {
            Some(c) => r matches MessageAction::Voice(command) && command@ == c,
            None => if prompt_of(*msg, bot_id).len() == 0 {
                r matches MessageAction::Reply(text) && text@
                    == "Hey! What would you like to talk about?"@
            } else {
                r matches MessageAction::Ask(prompt) && prompt@ == prompt_of(*msg, bot_id)
            },
        },
        concerns_bot(*msg, bot_id) && is_ascii_text(command_of(msg.content@, bot_id)) ==> (
        match ascii_command_of(*msg, bot_id) {
            Some(c) => r matches MessageAction::Voice(command) && command@ == c,
            None => !(r is Voice),
        }),
        concerns_bot(*msg, bot_id) ==> obeys_first_word(*msg, bot_id, followed(r)),
{
    let command = parse_voice_command(msg, bot_id);
    respond(msg, bot_id, command)
}

/// A command to join a user is never about the bot itself, and the user is one
/// whom the message mentions; no user before that one is another than the bot.
pub proof fn joins_first_other(
    lower: Seq<char>,
    sound: Option<Seq<char>>,
    mentions: Seq<MentionedUser>,
    channels: Seq<ChannelId>,
    bot_id: UserId,
    user_id: UserId,
)
    requires
        command_in(lower, sound, mentions, channels, bot_id) == Some(
            VoiceCommandView::JoinUser(user_id),
        ),
    ensures
        user_id != bot_id,
        exists|i: int|
            0 <= i < mentions.len() && (#[trigger] mentions[i]).id == user_id && (forall|j: int|
                0 <= j < i ==> (#[trigger] mentions[j]).id == bot_id),
{
    lemma_first_other(mentions, bot_id);
}

proof fn lemma_first_other(users: Seq<MentionedUser>, bot_id: UserId)
    ensures
        first_other(users, bot_id) matches Some(user_id) ==> user_id != bot_id && exists|i: int|
            0 <= i < users.len() && (#[trigger] users[i]).id == user_id && (forall|j: int|
                0 <= j < i ==> (#[trigger] users[j]).id == bot_id),
    decreases users.len(),
{
    if users.len() > 0 {
        if users[0].id != bot_id {
            assert(users[0].id == first_other(users, bot_id)->0);
        } else {
            let rest = users.skip(1);
            lemma_first_other(rest, bot_id);
            if first_other(users, bot_id) is Some {
                let user_id = first_other(users, bot_id)->0;
                let k = choose|k: int|
                    0 <= k < rest.len() && (#[trigger] rest[k]).id == user_id && (forall|j: int|
                        0 <= j < k ==> (#[trigger] rest[j]).id == bot_id);
                assert(users[k + 1] == rest[k]);
                assert forall|j: int| 0 <= j < k + 1 implies (#[trigger] users[j]).id == bot_id by {
                    if j > 0 {
                        assert(users[j] == rest[j - 1]);
                    }
                }
            }
        }
    }
}

/// A command to play a sound names one, and a command to join a channel comes
/// only where no other user is mentioned.
pub proof fn commands_are_complete(
    lower: Seq<char>,
    sound: Option<Seq<char>>,
    mentions: Seq<MentionedUser>,
    channels: Seq<ChannelId>,
    bot_id: UserId,
)
    ensures
        command_in(lower, sound, mentions, channels, bot_id) matches Some(
            VoiceCommandView::PlaySound(name),
        ) ==> name.len() > 0 && sound == Some(name),
        command_in(lower, sound, mentions, channels, bot_id) matches Some(
            VoiceCommandView::JoinChannel(channel),
        ) ==> first_other(mentions, bot_id) is None && channels.len() > 0 && channel == channels[0],
{
}

/// A mention stands for one user only.
pub proof fn mention_is_unique(a: UserId, b: UserId)
    requires
        mention(a) == mention(b) || nick_mention(a) == nick_mention(b),
    ensures
        a == b,
{
    reveal_strlit("<@");
    reveal_strlit("<@!");
    reveal_strlit(">");
    let da = decimal(a.0 as nat);
    let db = decimal(b.0 as nat);
    if mention(a) == mention(b) {
        assert(mention(a).subrange(2, mention(a).len() - 1) == da);
        assert(mention(b).subrange(2, mention(b).len() - 1) == db);
    } else {
        assert(nick_mention(a).subrange(3, nick_mention(a).len() - 1) == da);
        assert(nick_mention(b).subrange(3, nick_mention(b).len() - 1) == db);
    }
    decimal_is_injective(a.0 as nat, b.0 as nat);
}

/// What a message says to the bot has no white space around it.
pub proof fn prompt_is_trimmed(msg: IncomingMessage, bot_id: UserId)
    ensures
        prompt_of(msg, bot_id).len() > 0 ==> !is_white_space(prompt_of(msg, bot_id)[0])
            && !is_white_space(prompt_of(msg, bot_id).last()),
{
    trimming_is_exact(with_names(without_mentions(msg.content@, bot_id, ""@), msg.mentions@, bot_id));
}

/// A message that mentions nobody in its text says to the bot what stands in it.
pub proof fn plain_text_is_kept(msg: IncomingMessage, bot_id: UserId)
    requires
        !occurs_in(mention(bot_id), msg.content@),
        !occurs_in(nick_mention(bot_id), msg.content@),
        forall|i: int|
            0 <= i < msg.mentions@.len() ==> !occurs_in(
                mention((#[trigger] msg.mentions@[i]).id),
                msg.content@,
            ) && !occurs_in(nick_mention(msg.mentions@[i].id), msg.content@),
    ensures
        prompt_of(msg, bot_id) == trimmed(msg.content@),
{
    replacing_nothing(msg.content@, mention(bot_id), ""@);
    replacing_nothing(msg.content@, nick_mention(bot_id), ""@);
    lemma_with_names_of_plain_text(msg.content@, msg.mentions@, bot_id);
}

proof fn lemma_with_names_of_plain_text(
    content: Seq<char>,
    users: Seq<MentionedUser>,
    bot_id: UserId,
)
    requires
        forall|i: int|
            0 <= i < users.len() ==> !occurs_in(mention((#[trigger] users[i]).id), content)
                && !occurs_in(nick_mention(users[i].id), content),
    ensures
        with_names(content, users, bot_id) == content,
    decreases users.len(),
{
    if users.len() > 0 {
        let front = users.drop_last();
        assert forall|i: int| 0 <= i < front.len() implies !occurs_in(
            mention((#[trigger] front[i]).id),
            content,
        ) && !occurs_in(nick_mention(front[i].id), content) by {
            assert(front[i] == users[i]);
        }
        lemma_with_names_of_plain_text(content, front, bot_id);
        let last = users[users.len() - 1];
        replacing_nothing(content, mention(last.id), shown_name(last));
        replacing_nothing(content, nick_mention(last.id), shown_name(last));
    }
}

/// The characters behind the first of a mention are neither `<` nor white space.
proof fn lemma_mention_shape(user_id: UserId)
    ensures
        mention(user_id).len() >= 4,
        mention(user_id)[0] == '<',
        mention(user_id)[2] != '!',
        forall|i: int|
            0 < i < mention(user_id).len() ==> (#[trigger] mention(user_id)[i]) != '<'
                && !is_white_space(mention(user_id)[i]),
        nick_mention(user_id).len() >= 5,
        nick_mention(user_id)[0] == '<',
        nick_mention(user_id)[2] == '!',
        forall|i: int|
            0 < i < nick_mention(user_id).len() ==> (#[trigger] nick_mention(user_id)[i]) != '<'
                && !is_white_space(nick_mention(user_id)[i]),
{
    reveal_strlit("<@");
    reveal_strlit("<@!");
    reveal_strlit(">");
    lemma_decimal_digits(user_id.0 as nat);
    let digits = decimal(user_id.0 as nat);
    let plain = mention(user_id);
    let nick = nick_mention(user_id);
    assert(plain[2] == digits[0]);
    assert forall|i: int| 0 < i < plain.len() implies (#[trigger] plain[i]) != '<'
        && !is_white_space(plain[i]) by {
        if 2 <= i < plain.len() - 1 {
            assert(plain[i] == digits[i - 2]);
        }
    }
    assert forall|i: int| 0 < i < nick.len() implies (#[trigger] nick[i]) != '<'
        && !is_white_space(nick[i]) by {
        if 3 <= i < nick.len() - 1 {
            assert(nick[i] == digits[i - 3]);
        }
    }
}

/// A mention of the bot in front of a text or behind it, in either form, goes
/// without a trace.
pub proof fn outer_mention_is_dropped(content: Seq<char>, bot_id: UserId)
    ensures
        without_mentions(mention(bot_id) + content, bot_id, ""@) == without_mentions(
            content,
            bot_id,
            ""@,
        ),
        without_mentions(nick_mention(bot_id) + content, bot_id, ""@) == without_mentions(
            content,
            bot_id,
            ""@,
        ),
        without_mentions(content + mention(bot_id), bot_id, ""@) == without_mentions(
            content,
            bot_id,
            ""@,
        ),
        without_mentions(content + nick_mention(bot_id), bot_id, ""@) == without_mentions(
            content,
            bot_id,
            ""@,
        ),
{
    reveal_strlit("");
    lemma_mention_shape(bot_id);
    let plain = mention(bot_id);
    let nick = nick_mention(bot_id);
    let none = Seq::<char>::empty();
    let once = replaced(content, plain, ""@);
    assert(""@ == none);
    // in front
    replacing_prefix(plain, content, ""@);
    assert(none + once == once);
    let s = nick + content;
    assert forall|i: int| 0 <= i < nick.len() implies !has_prefix(
        #[trigger] (nick + content).skip(i),
        plain,
    ) by {
        if has_prefix(s.skip(i), plain) {
            assert(s.skip(i).take(plain.len() as int)[0] == s[i]);
            assert(s.skip(i).take(plain.len() as int)[2] == s[i + 2]);
        }
    }
    replacing_behind(nick, content, plain, ""@);
    replacing_prefix(nick, once, ""@);
    assert(none + replaced(once, nick, ""@) == replaced(once, nick, ""@));
    // behind
    replacing_apart(content, plain, plain, ""@);
    assert(plain + none == plain);
    replacing_prefix(plain, none, ""@);
    assert(once + (none + none) == once);
    replacing_apart(content, nick, plain, ""@);
    assert(nick + none == nick);
    assert(replaced(nick, plain, ""@) == nick) by {
        assert forall|i: int| 0 <= i < nick.len() implies !has_prefix(
            #[trigger] (nick + none).skip(i),
            plain,
        ) by {
            if has_prefix(nick.skip(i), plain) {
                assert(nick.skip(i).take(plain.len() as int)[0] == nick[i]);
                assert(nick.skip(i).take(plain.len() as int)[2] == nick[i + 2]);
            }
        }
        replacing_behind(nick, none, plain, ""@);
    }
    replacing_apart(once, nick, nick, ""@);
    replacing_prefix(nick, none, ""@);
    assert(replaced(once, nick, ""@) + (none + none) == replaced(once, nick, ""@));
}

/// White space around a text stays around it when mentions are replaced.
proof fn lemma_space_around(content: Seq<char>, space: Seq<char>, user_id: UserId, with: Seq<char>)
    requires
        all_white_space(space),
    ensures
        without_mentions(space + content, user_id, with) == space + without_mentions(
            content,
            user_id,
            with,
        ),
        without_mentions(content + space, user_id, with) == without_mentions(
            content,
            user_id,
            with,
        ) + space,
{
    lemma_mention_shape(user_id);
    let plain = mention(user_id);
    let nick = nick_mention(user_id);
    let once = replaced(content, plain, with);
    replacing_between_space(content, space, plain, with);
    replacing_between_space(once, space, nick, with);
}

proof fn lemma_names_with_space_around(
    content: Seq<char>,
    space: Seq<char>,
    users: Seq<MentionedUser>,
    bot_id: UserId,
)
    requires
        all_white_space(space),
    ensures
        with_names(space + content, users, bot_id) == space + with_names(content, users, bot_id),
        with_names(content + space, users, bot_id) == with_names(content, users, bot_id) + space,
    decreases users.len(),
{
    if users.len() > 0 {
        lemma_names_with_space_around(content, space, users.drop_last(), bot_id);
        lemma_space_around(
            with_names(content, users.drop_last(), bot_id),
            space,
            users.last().id,
            shown_name(users.last()),
        );
    }
}

/// White space in front of a message or behind it makes no difference to what the
/// message says.
pub proof fn outer_space_is_dropped(
    content: Seq<char>,
    space: Seq<char>,
    users: Seq<MentionedUser>,
    bot_id: UserId,
)
    requires
        all_white_space(space),
    ensures
        command_of(space + content, bot_id) == command_of(content, bot_id),
        command_of(content + space, bot_id) == command_of(content, bot_id),
        prompt_in(space + content, users, bot_id) == prompt_in(content, users, bot_id),
        prompt_in(content + space, users, bot_id) == prompt_in(content, users, bot_id),
{
    let plain = without_mentions(content, bot_id, ""@);
    lemma_space_around(content, space, bot_id, ""@);
    lemma_names_with_space_around(plain, space, users, bot_id);
    trimming_space_around(plain, space);
    trimming_space_around(with_names(plain, users, bot_id), space);
}

/// Where the bot is mentioned, in front of a text or behind it, makes no
/// difference to what the message says to the bot, as a command and otherwise. The
/// mention is in either form and may have white space on both sides.
pub proof fn place_of_mention_does_not_matter(
    msg: IncomingMessage,
    other: IncomingMessage,
    bot_id: UserId,
    called: Seq<char>,
    before: Seq<char>,
    after: Seq<char>,
)
    requires
        called == mention(bot_id) || called == nick_mention(bot_id),
        all_white_space(before),
        all_white_space(after),
        other.mentions@ == msg.mentions@,
        other.mention_channels@ == msg.mention_channels@,
        other.content@ == before + called + after + msg.content@ || other.content@ == msg.content@
            + before + called + after,
    ensures
        command_of(other.content@, bot_id) == command_of(msg.content@, bot_id),
        prompt_of(other, bot_id) == prompt_of(msg, bot_id),
        voice_command_of(other, bot_id) == voice_command_of(msg, bot_id),
{
    let content = msg.content@;
    let users = msg.mentions@;
    if other.content@ == before + called + after + content {
        assert(other.content@ == before + (called + (after + content)));
        outer_space_is_dropped(called + (after + content), before, users, bot_id);
        outer_mention_is_dropped(after + content, bot_id);
        outer_space_is_dropped(content, after, users, bot_id);
    } else {
        assert(other.content@ == ((content + before) + called) + after);
        outer_space_is_dropped((content + before) + called, after, users, bot_id);
        outer_mention_is_dropped(content + before, bot_id);
        outer_space_is_dropped(content, before, users, bot_id);
    }
}

proof fn lemma_no_other(users: Seq<MentionedUser>, bot_id: UserId)
    ensures
        first_other(users, bot_id) is None <==> forall|j: int|
            0 <= j < users.len() ==> (#[trigger] users[j]).id == bot_id,
    decreases users.len(),
{
    if users.len() > 0 {
        let rest = users.skip(1);
        lemma_no_other(rest, bot_id);
        if users[0].id == bot_id {
            if first_other(users, bot_id) is None {
                assert forall|j: int| 0 <= j < users.len() implies (#[trigger] users[j]).id
                    == bot_id by {
                    if j > 0 {
                        assert(users[j] == rest[j - 1]);
                    }
                }
            }
            if forall|j: int| 0 <= j < users.len() ==> (#[trigger] users[j]).id == bot_id {
                assert forall|j: int| 0 <= j < rest.len() implies (#[trigger] rest[j]).id
                    == bot_id by {
                    assert(rest[j] == users[j + 1]);
                }
            }
        }
    }
}

proof fn lemma_keywords_differ()
    ensures
        "join"@ != "leave"@ && "join"@ != "disconnect"@ && "join"@ != "go away"@ && "join"@
            != "stop"@,
        "come"@ != "leave"@ && "come"@ != "disconnect"@ && "come"@ != "go away"@ && "come"@
            != "stop"@,
        "komm"@ != "leave"@ && "komm"@ != "disconnect"@ && "komm"@ != "go away"@ && "komm"@
            != "stop"@,
        "leave"@ != "stop"@ && "disconnect"@ != "stop"@ && "go away"@ != "stop"@,
{
    reveal_strlit("join");
    reveal_strlit("come");
    reveal_strlit("komm");
    reveal_strlit("leave");
    reveal_strlit("disconnect");
    reveal_strlit("go away");
    reveal_strlit("stop");
    assert("join"@[0] == 'j' && "come"@[0] == 'c' && "komm"@[0] == 'k' && "leave"@[0] == 'l');
    assert("disconnect"@[0] == 'd' && "go away"@[0] == 'g' && "stop"@[0] == 's');
}

/// The name behind `sound` or `play` is all of it, however many words, whatever
/// white space stands around it.
pub proof fn sound_is_all_that_follows(
    before: Seq<char>,
    name: Seq<char>,
    after: Seq<char>,
)
    requires
        all_white_space(before),
        all_white_space(after),
        name.len() > 0 ==> !is_white_space(name[0]) && !is_white_space(name[name.len() - 1]),
    ensures
        sound_asked_for("sound "@ + before + name + after) == Some(name),
        sound_asked_for("play "@ + before + name + after) == Some(name),
{
    reveal_strlit("sound ");
    reveal_strlit("play ");
    let named = before + name + after;
    assert(named == before + (name + after));
    trimming_space_around(name + after, before);
    trimming_space_around(name, after);
    trimming_is_exact(name);
    assert(trimmed(name) == name) by {
        let from = leading_space(name) as int;
        let to = from + trimmed(name).len();
        if name.len() > 0 {
            if from > 0 {
                assert(is_white_space(name[0]));
            }
            if to < name.len() {
                assert(is_white_space(name[name.len() - 1]));
            }
        }
        assert(name.subrange(0, name.len() as int) == name);
    }
    let sound = "sound "@ + before + name + after;
    assert(sound.take(6) == "sound "@);
    assert(sound.skip(6) == named);
    let play = "play "@ + before + name + after;
    assert(play.take(5) == "play "@);
    assert(play.skip(5) == named);
    assert(!has_prefix(play, "sound "@)) by {
        if has_prefix(play, "sound "@) {
            assert(play.take(6)[0] == 'p');
        }
    }
}

/// Only `sound` and `play`, as they are written, ask for a sound.
pub proof fn other_words_ask_for_no_sound(command: Seq<char>)
    ensures
        sound_asked_for(command) is Some <==> has_prefix(command, "sound "@) || has_prefix(
            command,
            "play "@,
        ),
{
}

/// Which command a text is: the words for joining the author, leaving and stopping
/// are whole texts; a sound is played where one is named in another text; and
/// otherwise a text that begins with a word for joining joins what is mentioned.
pub proof fn commands_are_told_apart(
    lower: Seq<char>,
    sound: Option<Seq<char>>,
    mentions: Seq<MentionedUser>,
    channels: Seq<ChannelId>,
    bot_id: UserId,
)
    ensures
        ({
            let found = command_in(lower, sound, mentions, channels, bot_id);
            let called = lower == "join"@ || lower == "come"@ || lower == "komm"@;
            let sent_off = lower == "leave"@ || lower == "disconnect"@ || lower == "go away"@;
            let stopped = lower == "stop"@;
            let plays = !called && !sent_off && !stopped && sound is Some && sound->0.len() > 0;
            let joins = !called && !sent_off && !stopped && !plays && (has_prefix(lower, "join "@)
                || has_prefix(lower, "come "@) || has_prefix(lower, "komm "@));
            &&& found == Some(VoiceCommandView::JoinAuthor) <==> called
            &&& found == Some(VoiceCommandView::Leave) <==> sent_off
            &&& found == Some(VoiceCommandView::StopSound) <==> stopped
            &&& plays ==> found == Some(VoiceCommandView::PlaySound(sound->0))
            &&& (found matches Some(VoiceCommandView::PlaySound(_))) ==> plays
            &&& joins && (exists|i: int|
                0 <= i < mentions.len() && (#[trigger] mentions[i]).id != bot_id) ==> (
            found matches Some(VoiceCommandView::JoinUser(_)))
            &&& joins && (forall|i: int|
                0 <= i < mentions.len() ==> (#[trigger] mentions[i]).id == bot_id) ==> found
                == if channels.len() > 0 {
                Some(VoiceCommandView::JoinChannel(channels[0]))
            } else {
                None
            }
            &&& found is Some ==> called || sent_off || stopped || plays || joins
        }),
{
    lemma_keywords_differ();
    lemma_first_other(mentions, bot_id);
    lemma_no_other(mentions, bot_id);
}

/// How users are written in the text of a message.
pub proof fn mentions_hold_the_number(user_id: UserId)
    ensures
        mention(user_id) == "<@"@ + decimal(user_id.0 as nat) + ">"@,
        nick_mention(user_id) == "<@!"@ + decimal(user_id.0 as nat) + ">"@,
{
}

/// The command in a text is all of the text but the mentions of the bot, in both
/// forms, and the white space around it.
pub proof fn command_is_the_text(content: Seq<char>, bot_id: UserId)
    ensures
        command_of(content, bot_id) == trimmed(
            replaced(
                replaced(content, "<@"@ + decimal(bot_id.0 as nat) + ">"@, ""@),
                "<@!"@ + decimal(bot_id.0 as nat) + ">"@,
                ""@,
            ),
        ),
{
}

/// A text in which the bot is not mentioned is a command as it stands.
pub proof fn plain_command_is_kept(content: Seq<char>, bot_id: UserId)
    requires
        !occurs_in("<@"@ + decimal(bot_id.0 as nat) + ">"@, content),
        !occurs_in("<@!"@ + decimal(bot_id.0 as nat) + ">"@, content),
    ensures
        command_of(content, bot_id) == trimmed(content),
{
    replacing_nothing(content, "<@"@ + decimal(bot_id.0 as nat) + ">"@, ""@);
    replacing_nothing(content, "<@!"@ + decimal(bot_id.0 as nat) + ">"@, ""@);
}

/// The voice command in a message is found in its text in lower case; the name of a
/// sound is what follows `sound` or `play`, without white space around it, in lower
/// case.
pub proof fn voice_command_is_read_in_lower_case(msg: IncomingMessage, bot_id: UserId)
    ensures
        ({
            let command = command_of(msg.content@, bot_id);
            let found = voice_command_of(msg, bot_id);
            &&& found == command_in(
                lowercase(command),
                if has_prefix(command, "sound "@) {
                    Some(lowercase(trimmed(command.skip(6))))
                } else if has_prefix(command, "play "@) {
                    Some(lowercase(trimmed(command.skip(5))))
                } else {
                    None
                },
                msg.mentions@,
                msg.mention_channels@,
                bot_id,
            )
            &&& ascii_command_of(msg, bot_id) == command_in(
                ascii_lowered(command),
                if has_prefix(command, "sound "@) {
                    Some(ascii_lowered(trimmed(command.skip(6))))
                } else if has_prefix(command, "play "@) {
                    Some(ascii_lowered(trimmed(command.skip(5))))
                } else {
                    None
                },
                msg.mentions@,
                msg.mention_channels@,
                bot_id,
            )
        }),
{
    reveal_strlit("sound ");
    reveal_strlit("play ");
}

/// Naming one more user replaces that user's mentions, in both forms, by the name
/// that the user goes by in public, or else the user's name; the bot is not named.
pub proof fn one_more_user_is_named(
    content: Seq<char>,
    users: Seq<MentionedUser>,
    user: MentionedUser,
    bot_id: UserId,
)
    ensures
        with_names(content, Seq::empty(), bot_id) == content,
        user.id == bot_id ==> with_names(content, users.push(user), bot_id) == with_names(
            content,
            users,
            bot_id,
        ),
        user.id != bot_id ==> ({
            let name = if user.global_name is Some {
                user.global_name->0@
            } else {
                user.name@
            };
            with_names(content, users.push(user), bot_id) == replaced(
                replaced(
                    with_names(content, users, bot_id),
                    "<@"@ + decimal(user.id.0 as nat) + ">"@,
                    name,
                ),
                "<@!"@ + decimal(user.id.0 as nat) + ">"@,
                name,
            )
        }),
{
    assert(users.push(user).drop_last() == users);
    assert(users.push(user).last() == user);
}

/// What a message says to the bot is all of its text, but for the mentions of the
/// bot, with the names of the users that it lists, and the white space around it.
pub proof fn prompt_is_the_text(msg: IncomingMessage, bot_id: UserId)
    ensures
        prompt_of(msg, bot_id) == trimmed(
            with_names(
                replaced(
                    replaced(msg.content@, "<@"@ + decimal(bot_id.0 as nat) + ">"@, ""@),
                    "<@!"@ + decimal(bot_id.0 as nat) + ">"@,
                    ""@,
                ),
                msg.mentions@,
                bot_id,
            ),
        ),
{
}

/// A message is for the bot where a person wrote it and the bot is among the users
/// that it mentions, in any place.
pub proof fn any_mention_calls_the_bot(msg: IncomingMessage, bot_id: UserId)
    ensures
        concerns_bot(msg, bot_id) <==> !msg.author_is_bot && msg.mentions@.map_values(
            |user: MentionedUser| user.id,
        ).contains(bot_id),
{
    let ids = msg.mentions@.map_values(|user: MentionedUser| user.id);
    if mentions_user(msg, bot_id) {
        let i = choose|i: int|
            0 <= i < msg.mentions@.len() && (#[trigger] msg.mentions@[i]).id == bot_id;
        assert(ids[i] == bot_id);
    }
    if ids.contains(bot_id) {
        let i = choose|i: int| 0 <= i < ids.len() && ids[i] == bot_id;
        assert(msg.mentions@[i].id == bot_id);
    }
}

/// A command is seen as what it is.
pub proof fn commands_are_seen_as_they_are(sound: String, user_id: UserId, channel_id: ChannelId)
    ensures
        command_view(None) is None,
        command_view(Some(VoiceCommand::JoinAuthor)) == Some(VoiceCommandView::JoinAuthor),
        command_view(Some(VoiceCommand::JoinUser(user_id))) == Some(
            VoiceCommandView::JoinUser(user_id),
        ),
        command_view(Some(VoiceCommand::JoinChannel(channel_id))) == Some(
            VoiceCommandView::JoinChannel(channel_id),
        ),
        command_view(Some(VoiceCommand::Leave)) == Some(VoiceCommandView::Leave),
        command_view(Some(VoiceCommand::PlaySound(sound))) == Some(
            VoiceCommandView::PlaySound(sound@),
        ),
        command_view(Some(VoiceCommand::StopSound)) == Some(VoiceCommandView::StopSound),
{
}

} // verus!
