//! Voice commands, step by step: each step asks for one thing to be done and
//! goes on with what came of it.

use crate::ids::{ChannelId, GuildId, UserId};
use crate::message::VoiceCommand;
use crate::text::{
    ascii_lowered, case_differs_at_most, concat, contains_char, contains_text, decimal,
    decimal_text, eq_ignore_ascii_case, has_prefix, is_ascii_text, lowercase, occurs_in,
    same_ignoring_ascii_case, trim, trimmed,
};
use std::collections::HashMap;
use vstd::prelude::*;

verus! {

broadcast use vstd::std_specs::hash::group_hash_axioms;

/// The sound that is playing in each server. A track is what the voice driver
/// hands out for a sound that it plays.
pub struct CurrentSounds<Track> {
    tracks: HashMap<u64, Track>,
}

impl<Track> View for CurrentSounds<Track> {
    type V = Map<u64, Track>;

    closed spec fn view(&self) -> Map<u64, Track> {
        self.tracks@
    }
}

impl<Track> CurrentSounds<Track> {
    /// Nothing is playing.
    pub fn new() -> (r: Self)
        ensures
            r@ == Map::<u64, Track>::empty(),
    {
        CurrentSounds { tracks: HashMap::new() }
    }

    /// Takes out the track of a server, if one is playing there.
    pub fn take(&mut self, guild_id: GuildId) -> (r: Option<Track>)
        ensures
            final(self)@ == old(self)@.remove(guild_id.0),
            match r {
                Some(track) => old(self)@.contains_key(guild_id.0) && track
                    == old(self)@[guild_id.0],
                None => !old(self)@.contains_key(guild_id.0),
            },
    {
        let r = self.tracks.remove(&guild_id.0);
        assert(self@ =~= old(self)@.remove(guild_id.0));
        r
    }

    /// Puts in the track that is playing in a server now.
    pub fn put(&mut self, guild_id: GuildId, track: Track)
        ensures
            final(self)@ == old(self)@.insert(guild_id.0, track),
    {
        self.tracks.insert(guild_id.0, track);
    }
}

/// An entry of the folder of sounds: whether it is a file, and its name without
/// the extension, if that can be read.
#[derive(Debug)]
pub struct SoundFile {
    pub is_file: bool,
    pub stem: Option<String>,
}

/// The name of a sound as it is looked for.
pub open spec fn requested_name(sound: Seq<char>) -> Seq<char> {
    lowercase(trimmed(sound))
}

/// A name that can be looked for: not empty, and without anything that could
/// lead out of the folder of sounds.
pub open spec fn is_valid_name(name: Seq<char>) -> bool {
    &&& name.len() > 0
    &&& !name.contains('/')
    &&& !name.contains('\\')
    &&& !occurs_in(".."@, name)
}

/// Tells whether a name can be looked for.
pub fn valid_name(name: &str) -> (r: bool)
    ensures
        r == is_valid_name(name@),
{
    !name.is_empty() && !contains_char(name, '/') && !contains_char(name, '\\') && !contains_text(
        name,
        "..",
    )
}

/// The entry is a file of the given name, whatever the case of its letters.
pub open spec fn is_sound(file: SoundFile, name: Seq<char>) -> bool {
    file.is_file && match file.stem {
        Some(stem) => same_ignoring_ascii_case(stem@, name),
        None => false,
    }
}

/// The number of the first entry that is a file of the given name.
pub open spec fn first_sound(files: Seq<SoundFile>, name: Seq<char>) -> Option<int>
    decreases files.len(),
{
    if files.len() == 0 {
        None
    } else if first_sound(files.drop_last(), name) is Some {
        first_sound(files.drop_last(), name)
    } else if is_sound(files.last(), name) {
        Some(files.len() - 1)
    } else {
        None
    }
}

/// Finds the first entry that is a file of the given name.
pub fn find_sound(files: &Vec<SoundFile>, name: &str) -> (r: Option<usize>)
    ensures
        match r {
            Some(i) => first_sound(files@, name@) == Some(i as int),
            None => first_sound(files@, name@) is None,
        },
        r matches Some(i) ==> i < files@.len() && files@[i as int].is_file && (
        files@[i as int].stem matches Some(stem) && stem@.len() == name@.len() && forall|k: int|
            0 <= k < name@.len() ==> {
                ||| #[trigger] stem@[k] == name@[k]
                ||| 'A' <= stem@[k] <= 'Z' && name@[k] as u32 == stem@[k] as u32 + 32
                ||| 'A' <= name@[k] <= 'Z' && stem@[k] as u32 == name@[k] as u32 + 32
            }),
        forall|j: int|
            0 <= j < (match r {
                Some(i) => i as int,
                None => files@.len() as int,
            }) && (#[trigger] files@[j]).is_file ==> (files@[j].stem matches Some(stem)
                ==> stem@.len() != name@.len() || exists|k: int|
                {
                    &&& 0 <= k < name@.len()
                    &&& #[trigger] stem@[k] != name@[k]
                    &&& !('A' <= stem@[k] <= 'Z' && name@[k] as u32 == stem@[k] as u32 + 32)
                    &&& !('A' <= name@[k] <= 'Z' && stem@[k] as u32 == name@[k] as u32 + 32)
                }),
{
    let mut i: usize = 0;
    assert(files@.take(0) == Seq::<SoundFile>::empty());
    while i < files.len()
        invariant
            i <= files.len(),
            first_sound(files@.take(i as int), name@) is None,
        decreases files.len() - i,
    {
        assert(files@.take(i + 1).drop_last() == files@.take(i as int));
        assert(files@.take(i + 1).last() == files@[i as int]);
        let matches_name: bool = files[i].is_file && match &files[i].stem {
            Some(stem) => eq_ignore_ascii_case(stem.as_str(), name),
            None => false,
        };
        if matches_name {
            proof {
                lemma_first_sound(files@, name@, i as int);
                first_sound_has_the_name(files@, name@);
            }
            return Some(i);
        }
        i += 1;
    }
    proof {
        assert(files@.take(files@.len() as int) == files@);
        first_sound_has_the_name(files@, name@);
    }
    None
}

/// The first sound of a beginning of the list is the first of the list.
proof fn lemma_first_sound(files: Seq<SoundFile>, name: Seq<char>, i: int)
    requires
        0 <= i < files.len(),
        first_sound(files.take(i + 1), name) == Some(i),
    ensures
        first_sound(files, name) == Some(i),
    decreases files.len(),
{
    if i + 1 == files.len() {
        assert(files.take(i + 1) == files);
    } else {
        assert(files.drop_last().take(i + 1) == files.take(i + 1));
        lemma_first_sound(files.drop_last(), name, i);
    }
}

/// The sound that is found is a file of the given name, and no entry before it
/// is; where none is found, no entry is.
pub proof fn first_sound_is_first(files: Seq<SoundFile>, name: Seq<char>)
    ensures
        match first_sound(files, name) {
            Some(i) => 0 <= i < files.len() && is_sound(files[i], name) && forall|j: int|
                0 <= j < i ==> !is_sound(#[trigger] files[j], name),
            None => forall|j: int| 0 <= j < files.len() ==> !is_sound(#[trigger] files[j], name),
        },
    decreases files.len(),
{
    if files.len() > 0 {
        let front = files.drop_last();
        first_sound_is_first(front, name);
        assert(forall|j: int| 0 <= j < front.len() ==> front[j] == files[j]);
        assert forall|j: int| 0 <= j < front.len() && !is_sound(
            front[j],
            name,
        ) implies !is_sound(#[trigger] files[j], name) by {
            assert(front[j] == files[j]);
        }
    }
}

/// Where a voice command stands.
#[derive(Debug)]
pub enum VoiceTask {
    /// It has asked where a user is.
    LookingUp(GuildId),
    /// It has asked to join a channel.
    Joining(ChannelId),
    /// It has asked to leave voice.
    Leaving,
    /// It has asked whether there is a folder of sounds; with the sound to play.
    CheckingFolder(GuildId, String),
    /// It has asked for the entries of the folder; with the name to look for.
    Listing(GuildId, String),
    /// It has asked whether the bot is in voice; with the name and the number of
    /// the entry to play.
    FindingCall(GuildId, String, usize),
    /// It has asked to stop the sound before.
    StoppingPrevious(GuildId, String, usize),
    /// It has asked to play the sound.
    Starting(GuildId, String),
    /// It has asked to stop the sound.
    Stopping,
    /// It is over.
    Finished,
}

/// What a voice command asks for.
pub enum VoiceAction<Track> {
    /// Nothing more.
    Finish,
    /// Say this in the channel of the command. Nothing follows.
    Say(String),
    /// Look up the voice channel of a user.
    LookUp(GuildId, UserId),
    /// Join a voice channel.
    Join(GuildId, ChannelId),
    /// Leave voice.
    Leave(GuildId),
    /// See whether there is a folder of sounds.
    CheckFolder,
    /// List the folder of sounds.
    ListSounds,
    /// See whether the bot is in voice.
    FindCall(GuildId),
    /// Stop a track.
    Stop(Track),
    /// Play the entry of this number.
    Play(GuildId, usize),
}

/// What a voice command is told.
pub enum VoiceEvent<Track> {
    /// The voice channel of the user, if any; nothing if it could not be looked
    /// up.
    Located(Option<Option<ChannelId>>),
    /// Whether the channel was joined.
    Joined(bool),
    /// Whether the bot left voice.
    Left(bool),
    /// Whether there is a folder of sounds.
    Folder(bool),
    /// The entries of the folder; nothing if it could not be read.
    Sounds(Option<Vec<SoundFile>>),
    /// Whether the bot is in voice.
    Call(bool),
    /// Whether the track was stopped.
    Stopped(bool),
    /// The track of the sound that plays now.
    Started(Track),
}

impl VoiceTask {
    /// The event is an answer to what was asked for at this point.
    pub open spec fn awaits<Track>(self, event: VoiceEvent<Track>) -> bool {
        match self {
            VoiceTask::LookingUp(_) => event is Located,
            VoiceTask::Joining(_) => event is Joined,
            VoiceTask::Leaving => event is Left,
            VoiceTask::CheckingFolder(_, _) => event is Folder,
            VoiceTask::Listing(_, _) => event is Sounds,
            VoiceTask::FindingCall(_, _, _) => event is Call,
            VoiceTask::StoppingPrevious(_, _, _) => event is Stopped,
            VoiceTask::Starting(_, _) => event is Started,
            VoiceTask::Stopping => event is Stopped,
            VoiceTask::Finished => false,
        }
    }

    /// How many steps there are to come at most.
    pub open spec fn steps_left(self) -> nat {
        match self {
            VoiceTask::LookingUp(_) => 2,
            VoiceTask::Joining(_) => 1,
            VoiceTask::Leaving => 1,
            VoiceTask::CheckingFolder(_, _) => 5,
            VoiceTask::Listing(_, _) => 4,
            VoiceTask::FindingCall(_, _, _) => 3,
            VoiceTask::StoppingPrevious(_, _, _) => 2,
            VoiceTask::Starting(_, _) => 1,
            VoiceTask::Stopping => 1,
            VoiceTask::Finished => 0,
        }
    }
}

/// The command ends by saying `text`.
pub open spec fn says<Track>(r: (VoiceTask, VoiceAction<Track>), text: Seq<char>) -> bool {
    &&& r.0 is Finished
    &&& r.1 matches VoiceAction::Say(t)
    &&& t@ == text
}

fn say<Track>(text: String) -> (r: (VoiceTask, VoiceAction<Track>))
    ensures
        says(r, text@),
{
    (VoiceTask::Finished, VoiceAction::Say(text))
}

/// The first step of a voice command.
pub open spec fn begins<Track>(
    command: VoiceCommand,
    author_id: UserId,
    guild_id: Option<GuildId>,
    playing: Map<u64, Track>,
    r: (VoiceTask, VoiceAction<Track>),
) -> bool {
    match guild_id {
        None => match command {
            VoiceCommand::Leave => r.0 is Finished && r.1 is Finish,
            VoiceCommand::StopSound => r.0 is Finished && r.1 is Finish,
            _ => says(r, "This only works in a server."@),
        },
        Some(guild) => match command {
            VoiceCommand::JoinAuthor => r.0 == VoiceTask::LookingUp(guild) && r.1
                == VoiceAction::<Track>::LookUp(guild, author_id),
            VoiceCommand::JoinUser(user) => r.0 == VoiceTask::LookingUp(guild) && r.1
                == VoiceAction::<Track>::LookUp(guild, user),
            VoiceCommand::JoinChannel(channel) => r.0 == VoiceTask::Joining(channel) && r.1
                == VoiceAction::<Track>::Join(guild, channel),
            VoiceCommand::Leave => r.0 is Leaving && r.1 == VoiceAction::<Track>::Leave(guild),
            VoiceCommand::PlaySound(sound) => r.0 == VoiceTask::CheckingFolder(guild, sound)
                && r.1 is CheckFolder,
            VoiceCommand::StopSound => if playing.contains_key(guild.0) {
                r.0 is Stopping && r.1 == VoiceAction::Stop(playing[guild.0])
            } else {
                says(r, "Nothing is playing."@)
            },
        },
    }
}

/// The tracks that are playing after the first step of a voice command.
pub open spec fn sounds_after_start<Track>(
    command: VoiceCommand,
    guild_id: Option<GuildId>,
    playing: Map<u64, Track>,
) -> Map<u64, Track> {
    match (guild_id, command) {
        (Some(guild), VoiceCommand::StopSound) => playing.remove(guild.0),
        _ => playing,
    }
}

/// The first step of a voice command. Outside a server a command to join or to
/// play is refused, and one to leave or to stop does nothing.
pub fn voice_start<Track>(
    command: VoiceCommand,
    author_id: UserId,
    guild_id: Option<GuildId>,
    sounds: &mut CurrentSounds<Track>,
) -> (r: (VoiceTask, VoiceAction<Track>))
    ensures
        begins(command, author_id, guild_id, old(sounds)@, r),
        final(sounds)@ == sounds_after_start(command, guild_id, old(sounds)@),
{
    let guild = match guild_id {
        Some(guild) => guild,
        None => {
            return match command {
                VoiceCommand::Leave | VoiceCommand::StopSound => (
                    VoiceTask::Finished,
                    VoiceAction::Finish,
                ),
                _ => say("This only works in a server.".to_owned()),
            };
        },
    };
    match command {
        VoiceCommand::JoinAuthor => (
            VoiceTask::LookingUp(guild),
            VoiceAction::LookUp(guild, author_id),
        ),
        VoiceCommand::JoinUser(user) => (
            VoiceTask::LookingUp(guild),
            VoiceAction::LookUp(guild, user),
        ),
        VoiceCommand::JoinChannel(channel) => (
            VoiceTask::Joining(channel),
            VoiceAction::Join(guild, channel),
        ),
        VoiceCommand::Leave => (VoiceTask::Leaving, VoiceAction::Leave(guild)),
        VoiceCommand::PlaySound(sound) => (
            VoiceTask::CheckingFolder(guild, sound),
            VoiceAction::CheckFolder,
        ),
        VoiceCommand::StopSound => match sounds.take(guild) {
            Some(track) => (VoiceTask::Stopping, VoiceAction::Stop(track)),
            None => say("Nothing is playing.".to_owned()),
        },
    }
}

/// What is said when the bot joins a channel.
pub open spec fn joining_text(channel: ChannelId) -> Seq<char> {
    "I'm joining <#"@ + decimal(channel.0 as nat) + ">."@
}

/// What is said about a sound that is not there.
pub open spec fn missing_text(name: Seq<char>) -> Seq<char> {
    "I don't have a sound called `"@ + name + "`."@
}

/// What is said about a sound that plays.
pub open spec fn playing_text(name: Seq<char>) -> Seq<char> {
    "Playing `"@ + name + "`."@
}

/// Goes on with a located user: joins the channel, or says that there is none.
pub open spec fn after_located<Track>(
    guild: GuildId,
    located: Option<Option<ChannelId>>,
    r: (VoiceTask, VoiceAction<Track>),
) -> bool {
    match located {
        Some(Some(channel)) => r.0 == VoiceTask::Joining(channel) && r.1
            == VoiceAction::<Track>::Join(guild, channel),
        _ => says(r, "That user isn't in a voice channel."@),
    }
}

/// Goes on with a name to look for: lists the sounds, or refuses the name.
pub open spec fn after_named<Track>(
    guild: GuildId,
    name: Seq<char>,
    r: (VoiceTask, VoiceAction<Track>),
) -> bool {
    if is_valid_name(name) {
        &&& r.1 is ListSounds
        &&& r.0 matches VoiceTask::Listing(g, n)
        &&& g == guild
        &&& n@ == name
    } else {
        says(r, "Invalid sound name."@)
    }
}

/// Goes on with a name to look for.
pub fn look_for<Track>(guild: GuildId, name: String) -> (r: (VoiceTask, VoiceAction<Track>))
    ensures
        after_named(guild, name@, r),
{
    if valid_name(name.as_str()) {
        (VoiceTask::Listing(guild, name), VoiceAction::ListSounds)
    } else {
        say("Invalid sound name.".to_owned())
    }
}

/// Goes on with the entries of the folder: looks whether the bot is in voice, or
/// says that there is no such sound.
pub open spec fn after_listed<Track>(
    guild: GuildId,
    name: String,
    files: Option<Vec<SoundFile>>,
    r: (VoiceTask, VoiceAction<Track>),
) -> bool {
    match files {
        None => says(r, "I couldn't read my sounds."@),
        Some(entries) => match first_sound(entries@, name@) {
            Some(i) => {
                &&& r.0 == VoiceTask::FindingCall(guild, name, i as usize)
                &&& 0 <= i < entries@.len()
                &&& r.1 == VoiceAction::<Track>::FindCall(guild)
            },
            None => says(r, missing_text(name@)),
        },
    }
}

/// Goes on with whether the bot is in voice: stops the sound before, if there is
/// one, and plays the sound.
pub open spec fn after_call<Track>(
    guild: GuildId,
    name: String,
    file: usize,
    in_voice: bool,
    playing: Map<u64, Track>,
    r: (VoiceTask, VoiceAction<Track>),
) -> bool {
    if !in_voice {
        says(r, "I'm not in a voice channel."@)
    } else if playing.contains_key(guild.0) {
        r.0 == VoiceTask::StoppingPrevious(guild, name, file) && r.1 == VoiceAction::Stop(
            playing[guild.0],
        )
    } else {
        r.0 == VoiceTask::Starting(guild, name) && r.1 == VoiceAction::<Track>::Play(guild, file)
    }
}

/// The tracks that are playing after a step.
pub open spec fn sounds_after<Track>(
    task: VoiceTask,
    event: VoiceEvent<Track>,
    playing: Map<u64, Track>,
) -> Map<u64, Track> {
    match (task, event) {
        (VoiceTask::FindingCall(guild, _, _), VoiceEvent::Call(true)) => playing.remove(guild.0),
        (VoiceTask::Starting(guild, _), VoiceEvent::Started(track)) => playing.insert(
            guild.0,
            track,
        ),
        _ => playing,
    }
}

/// A step of a voice command.
pub open spec fn goes_on<Track>(
    task: VoiceTask,
    event: VoiceEvent<Track>,
    playing: Map<u64, Track>,
    r: (VoiceTask, VoiceAction<Track>),
) -> bool {
    match task {
        VoiceTask::LookingUp(guild) => after_located(guild, event->Located_0, r),
        VoiceTask::Joining(channel) => says(
            r,
            if event->Joined_0 {
                joining_text(channel)
            } else {
                "I couldn't join that voice channel."@
            },
        ),
        VoiceTask::Leaving => says(
            r,
            if event->Left_0 {
                "I'm leaving voice."@
            } else {
                "I'm not currently in a voice channel."@
            },
        ),
        VoiceTask::CheckingFolder(guild, sound) => if event->Folder_0 {
            after_named(guild, requested_name(sound@), r)
        } else {
            says(r, "My sounds folder doesn't exist."@)
        },
        VoiceTask::Listing(guild, name) => after_listed(guild, name, event->Sounds_0, r),
        VoiceTask::FindingCall(guild, name, file) => after_call(
            guild,
            name,
            file,
            event->Call_0,
            playing,
            r,
        ),
        VoiceTask::StoppingPrevious(guild, name, file) => r.0 == VoiceTask::Starting(
            guild,
            name,
        ) && r.1 == VoiceAction::<Track>::Play(guild, file),
        VoiceTask::Starting(_, name) => says(r, playing_text(name@)),
        VoiceTask::Stopping => says(
            r,
            if event->Stopped_0 {
                "Stopped."@
            } else {
                "I couldn't stop the sound."@
            },
        ),
        VoiceTask::Finished => true,
    }
}

/// A command to play a sound whose name is in ASCII characters goes on, once there
/// is a folder, with the name in lower case, letter by letter.
pub open spec fn names_ascii_sound<Track>(
    task: VoiceTask,
    event: VoiceEvent<Track>,
    r: (VoiceTask, VoiceAction<Track>),
) -> bool {
    match (task, event) {
        (VoiceTask::CheckingFolder(guild, sound), VoiceEvent::Folder(true)) => is_ascii_text(
            trimmed(sound@),
        ) ==> after_named(guild, ascii_lowered(trimmed(sound@)), r),
        _ => true,
    }
}

/// A step of a voice command, with the answer to what it asked for. A command
/// says at most one thing, as the last that it does, and comes to an end.
pub fn voice_step<Track>(
    task: VoiceTask,
    event: VoiceEvent<Track>,
    sounds: &mut CurrentSounds<Track>,
) -> (r: (VoiceTask, VoiceAction<Track>))
    requires
        task.awaits(event),
    ensures
        final(sounds)@ == sounds_after(task, event, old(sounds)@),
        r.0.steps_left() < task.steps_left(),
        r.1 is Say ==> r.0 is Finished,
        goes_on(task, event, old(sounds)@, r),
        names_ascii_sound(task, event, r),
{
    match (task, event) {
        (VoiceTask::LookingUp(guild), VoiceEvent::Located(located)) => match located {
            Some(Some(channel)) => (
                VoiceTask::Joining(channel),
                VoiceAction::Join(guild, channel),
            ),
            _ => say("That user isn't in a voice channel.".to_owned()),
        },
        (VoiceTask::Joining(channel), VoiceEvent::Joined(joined)) => if joined {
            let number = decimal_text(channel.0);
            say(concat(concat("I'm joining <#", number.as_str()).as_str(), ">."))
        } else {
            say("I couldn't join that voice channel.".to_owned())
        },
        (VoiceTask::Leaving, VoiceEvent::Left(left)) => if left {
            say("I'm leaving voice.".to_owned())
        } else {
            say("I'm not currently in a voice channel.".to_owned())
        },
        (VoiceTask::CheckingFolder(guild, sound), VoiceEvent::Folder(found)) => if found {
            look_for(guild, trim(sound.as_str()).as_str().to_lowercase())
        } else {
            say("My sounds folder doesn't exist.".to_owned())
        },
        (VoiceTask::Listing(guild, name), VoiceEvent::Sounds(files)) => match files {
            None => say("I couldn't read my sounds.".to_owned()),
            Some(entries) => {
                proof {
                    first_sound_is_first(entries@, name@);
                }
                match find_sound(&entries, name.as_str()) {
                    Some(i) => (
                        VoiceTask::FindingCall(guild, name, i),
                        VoiceAction::FindCall(guild),
                    ),
                    None => say(
                        concat(
                            concat("I don't have a sound called `", name.as_str()).as_str(),
                            "`.",
                        ),
                    ),
                }
            },
        },
        (VoiceTask::FindingCall(guild, name, file), VoiceEvent::Call(in_voice)) => if in_voice {
            match sounds.take(guild) {
                Some(track) => (
                    VoiceTask::StoppingPrevious(guild, name, file),
                    VoiceAction::Stop(track),
                ),
                None => (VoiceTask::Starting(guild, name), VoiceAction::Play(guild, file)),
            }
        } else {
            say("I'm not in a voice channel.".to_owned())
        },
        (VoiceTask::StoppingPrevious(guild, name, file), VoiceEvent::Stopped(_)) => (
            VoiceTask::Starting(guild, name),
            VoiceAction::Play(guild, file),
        ),
        (VoiceTask::Starting(guild, name), VoiceEvent::Started(track)) => {
            sounds.put(guild, track);
            say(concat(concat("Playing `", name.as_str()).as_str(), "`."))
        },
        (VoiceTask::Stopping, VoiceEvent::Stopped(stopped)) => if stopped {
            say("Stopped.".to_owned())
        } else {
            say("I couldn't stop the sound.".to_owned())
        },
        _ => {
            proof {
                assert(false);
            }
            (VoiceTask::Finished, VoiceAction::Finish)
        },
    }
}

/// The sound that gives way to a new one is stopped, and is no longer the one
/// that plays in its server.
pub proof fn displaced_track_is_stopped<Track>(
    guild: GuildId,
    name: String,
    file: usize,
    playing: Map<u64, Track>,
    r: (VoiceTask, VoiceAction<Track>),
)
    requires
        playing.contains_key(guild.0),
        after_call(guild, name, file, true, playing, r),
    ensures
        r.1 == VoiceAction::Stop(playing[guild.0]),
        !sounds_after(
            VoiceTask::FindingCall(guild, name, file),
            VoiceEvent::Call(true),
            playing,
        ).contains_key(guild.0),
{
}

/// The server in which a voice command changes what is playing, if it does.
pub open spec fn affected_guild(task: VoiceTask) -> Option<GuildId> {
    match task {
        VoiceTask::FindingCall(guild, _, _) => Some(guild),
        VoiceTask::Starting(guild, _) => Some(guild),
        _ => None,
    }
}

/// A voice command leaves what is playing in other servers as it is.
pub proof fn other_servers_play_on<Track>(
    task: VoiceTask,
    event: VoiceEvent<Track>,
    playing: Map<u64, Track>,
    other: GuildId,
)
    requires
        affected_guild(task) != Some(other),
    ensures
        sounds_after(task, event, playing).contains_key(other.0) == playing.contains_key(other.0),
        playing.contains_key(other.0) ==> sounds_after(task, event, playing)[other.0]
            == playing[other.0],
{
}

/// The first step of a voice command leaves what is playing in other servers as
/// it is.
pub proof fn other_servers_play_on_at_first<Track>(
    command: VoiceCommand,
    guild_id: Option<GuildId>,
    playing: Map<u64, Track>,
    other: GuildId,
)
    requires
        guild_id != Some(other),
    ensures
        sounds_after_start(command, guild_id, playing).contains_key(other.0)
            == playing.contains_key(other.0),
        playing.contains_key(other.0) ==> sounds_after_start(command, guild_id, playing)[other.0]
            == playing[other.0],
{
}

/// The event is an answer to what was asked for.
pub open spec fn answers<Track>(action: VoiceAction<Track>, event: VoiceEvent<Track>) -> bool {
    match action {
        VoiceAction::Finish => false,
        VoiceAction::Say(_) => false,
        VoiceAction::LookUp(_, _) => event is Located,
        VoiceAction::Join(_, _) => event is Joined,
        VoiceAction::Leave(_) => event is Left,
        VoiceAction::CheckFolder => event is Folder,
        VoiceAction::ListSounds => event is Sounds,
        VoiceAction::FindCall(_) => event is Call,
        VoiceAction::Stop(_) => event is Stopped,
        VoiceAction::Play(_, _) => event is Started,
    }
}

/// Whoever answers what a voice command asks for at first may take its next step.
pub proof fn first_step_awaits_its_answer<Track>(
    command: VoiceCommand,
    author_id: UserId,
    guild_id: Option<GuildId>,
    playing: Map<u64, Track>,
    r: (VoiceTask, VoiceAction<Track>),
    event: VoiceEvent<Track>,
)
    requires
        begins(command, author_id, guild_id, playing, r),
    ensures
        answers(r.1, event) <==> r.0.awaits(event),
{
}

/// Whoever answers what a voice command asks for at a step may take the next, and
/// a step that asks for nothing says how the command ended.
pub proof fn step_awaits_its_answer<Track>(
    task: VoiceTask,
    event: VoiceEvent<Track>,
    playing: Map<u64, Track>,
    r: (VoiceTask, VoiceAction<Track>),
    next: VoiceEvent<Track>,
)
    requires
        task.awaits(event),
        goes_on(task, event, playing, r),
    ensures
        answers(r.1, next) <==> r.0.awaits(next),
        r.0 is Finished <==> r.1 is Say,
        !(r.1 is Finish),
{
}

/// Once a sound is found and the bot is in voice, that sound is played, after
/// the one before it, if any, is stopped, whether or not that succeeds.
pub proof fn plays_what_was_found<Track>(
    guild: GuildId,
    name: String,
    entries: Vec<SoundFile>,
    first: (VoiceTask, VoiceAction<Track>),
    playing: Map<u64, Track>,
    second: (VoiceTask, VoiceAction<Track>),
    stopped: bool,
    playing_later: Map<u64, Track>,
    third: (VoiceTask, VoiceAction<Track>),
)
    requires
        first_sound(entries@, name@) is Some,
        after_listed(guild, name, Some(entries), first),
        goes_on(first.0, VoiceEvent::Call(true), playing, second),
        if playing.contains_key(guild.0) {
            goes_on(second.0, VoiceEvent::Stopped(stopped), playing_later, third)
        } else {
            third == second
        },
    ensures
        playing.contains_key(guild.0) ==> second.1 == VoiceAction::Stop(playing[guild.0]),
        third.0 == VoiceTask::Starting(guild, name),
        ({
            let i = first_sound(entries@, name@)->0;
            &&& 0 <= i < entries@.len()
            &&& is_sound(entries@[i], name@)
            &&& third.1 == VoiceAction::<Track>::Play(guild, i as usize)
        }),
{
    first_sound_is_first(entries@, name@);
}

/// The sound that is found for a name is a file whose whole stem is the name, but
/// for the case of ASCII letters; it is the first such file, and where none is
/// found there is none.
pub proof fn first_sound_has_the_name(files: Seq<SoundFile>, name: Seq<char>)
    ensures
        first_sound(files, name) matches Some(i) ==> 0 <= i < files.len() && files[i].is_file && (
        files[i].stem matches Some(stem) && stem@.len() == name.len() && forall|k: int|
            0 <= k < name.len() ==> {
                ||| #[trigger] stem@[k] == name[k]
                ||| 'A' <= stem@[k] <= 'Z' && name[k] as u32 == stem@[k] as u32 + 32
                ||| 'A' <= name[k] <= 'Z' && stem@[k] as u32 == name[k] as u32 + 32
            }),
        forall|j: int|
            0 <= j < (match first_sound(files, name) {
                Some(i) => i,
                None => files.len() as int,
            }) && (#[trigger] files[j]).is_file ==> (files[j].stem matches Some(stem)
                ==> stem@.len() != name.len() || exists|k: int|
                {
                    &&& 0 <= k < name.len()
                    &&& #[trigger] stem@[k] != name[k]
                    &&& !('A' <= stem@[k] <= 'Z' && name[k] as u32 == stem@[k] as u32 + 32)
                    &&& !('A' <= name[k] <= 'Z' && stem@[k] as u32 == name[k] as u32 + 32)
                }),
{
    first_sound_is_first(files, name);
    if first_sound(files, name) is Some {
        let i = first_sound(files, name)->0;
        case_differs_at_most(files[i].stem->0@, name);
    }
    assert forall|j: int|
        0 <= j < (match first_sound(files, name) {
            Some(i) => i,
            None => files.len() as int,
        }) && (#[trigger] files[j]).is_file implies (files[j].stem matches Some(stem) ==> stem@.len()
        != name.len() || exists|k: int|
        {
            &&& 0 <= k < name.len()
            &&& #[trigger] stem@[k] != name[k]
            &&& !('A' <= stem@[k] <= 'Z' && name[k] as u32 == stem@[k] as u32 + 32)
            &&& !('A' <= name[k] <= 'Z' && stem@[k] as u32 == name[k] as u32 + 32)
        }) by {
        if files[j].stem is Some {
            case_differs_at_most(files[j].stem->0@, name);
            assert(!is_sound(files[j], name));
        }
    }
}

/// A name can be looked for where it is not empty, holds no slash of either kind and
/// has no two dots in a row.
pub proof fn valid_names_stay_in_the_folder(name: Seq<char>)
    ensures
        is_valid_name(name) <==> {
            &&& name.len() > 0
            &&& forall|i: int| 0 <= i < name.len() ==> #[trigger] name[i] != '/' && name[i] != '\\'
            &&& forall|i: int| 0 <= i < name.len() - 1 && #[trigger] name[i] == '.' ==> name[i + 1] != '.'
        },
{
    reveal_strlit("..");
    if is_valid_name(name) {
        assert forall|i: int| 0 <= i < name.len() - 1 && #[trigger] name[i] == '.' implies name[i
            + 1] != '.' by {
            if name[i + 1] == '.' {
                assert(name.skip(i).take(2) == ".."@);
                assert(has_prefix(name.skip(i), ".."@));
            }
        }
    }
    if occurs_in(".."@, name) {
        let i = choose|i: int| 0 <= i <= name.len() && #[trigger] has_prefix(name.skip(i), ".."@);
        assert(name.skip(i).take(2)[0] == name[i] && name.skip(i).take(2)[1] == name[i + 1]);
    }
    if name.contains('/') {
        let i = choose|i: int| 0 <= i < name.len() && name[i] == '/';
        assert(name[i] == '/');
    }
    if name.contains('\\') {
        let i = choose|i: int| 0 <= i < name.len() && name[i] == '\\';
        assert(name[i] == '\\');
    }
}

/// Outside a server a command to join or to play is refused, and one to leave or to
/// stop does nothing.
pub proof fn outside_a_server<Track>(
    command: VoiceCommand,
    author_id: UserId,
    playing: Map<u64, Track>,
    r: (VoiceTask, VoiceAction<Track>),
)
    requires
        begins(command, author_id, None, playing, r),
    ensures
        r.0 is Finished,
        command is Leave || command is StopSound ==> r.1 is Finish,
        !(command is Leave || command is StopSound) ==> (r.1 matches VoiceAction::Say(text) && text@
            == "This only works in a server."@),
{
}

/// A command to join the author or a user looks for that user, joins the channel in
/// which the user is, and says so, or says that there is none.
pub proof fn joining_a_user<Track>(
    command: VoiceCommand,
    author_id: UserId,
    guild: GuildId,
    located: Option<Option<ChannelId>>,
    playing: Map<u64, Track>,
    first: (VoiceTask, VoiceAction<Track>),
    second: (VoiceTask, VoiceAction<Track>),
)
    requires
        command is JoinAuthor || command is JoinUser,
        begins(command, author_id, Some(guild), playing, first),
        goes_on(first.0, VoiceEvent::Located(located), playing, second),
    ensures
        first.1 == VoiceAction::<Track>::LookUp(
            guild,
            if command is JoinUser {
                command->JoinUser_0
            } else {
                author_id
            },
        ),
        match located {
            Some(Some(channel)) => second.0 == VoiceTask::Joining(channel) && second.1
                == VoiceAction::<Track>::Join(guild, channel),
            _ => second.0 is Finished && (second.1 matches VoiceAction::Say(text) && text@
                == "That user isn't in a voice channel."@),
        },
{
}

/// A command to join a channel joins it; whoever asked is told whether the channel
/// was joined.
pub proof fn joining_a_channel<Track>(
    author_id: UserId,
    guild: GuildId,
    channel: ChannelId,
    joined: bool,
    playing: Map<u64, Track>,
    first: (VoiceTask, VoiceAction<Track>),
    second: (VoiceTask, VoiceAction<Track>),
)
    requires
        begins(VoiceCommand::JoinChannel(channel), author_id, Some(guild), playing, first),
        goes_on(VoiceTask::Joining(channel), VoiceEvent::Joined(joined), playing, second),
    ensures
        first.0 == VoiceTask::Joining(channel),
        first.1 == VoiceAction::<Track>::Join(guild, channel),
        second.0 is Finished,
        second.1 matches VoiceAction::Say(text) && text@ == if joined {
            "I'm joining <#"@ + decimal(channel.0 as nat) + ">."@
        } else {
            "I couldn't join that voice channel."@
        },
{
}

/// A command to leave leaves voice in its server; whoever asked is told whether the
/// bot was there.
pub proof fn leaving_voice<Track>(
    author_id: UserId,
    guild: GuildId,
    left: bool,
    playing: Map<u64, Track>,
    first: (VoiceTask, VoiceAction<Track>),
    second: (VoiceTask, VoiceAction<Track>),
)
    requires
        begins(VoiceCommand::Leave, author_id, Some(guild), playing, first),
        goes_on(first.0, VoiceEvent::Left(left), playing, second),
    ensures
        first.1 == VoiceAction::<Track>::Leave(guild),
        second.0 is Finished,
        second.1 matches VoiceAction::Say(text) && text@ == if left {
            "I'm leaving voice."@
        } else {
            "I'm not currently in a voice channel."@
        },
{
}

/// A command to stop stops the track of its server and no other, which then plays
/// nothing; whoever asked is told whether there was one and whether it was stopped.
pub proof fn stopping_a_sound<Track>(
    author_id: UserId,
    guild: GuildId,
    stopped: bool,
    playing: Map<u64, Track>,
    later: Map<u64, Track>,
    first: (VoiceTask, VoiceAction<Track>),
    second: (VoiceTask, VoiceAction<Track>),
)
    requires
        begins(VoiceCommand::StopSound, author_id, Some(guild), playing, first),
        playing.contains_key(guild.0) ==> goes_on(
            first.0,
            VoiceEvent::Stopped(stopped),
            later,
            second,
        ),
    ensures
        sounds_after_start(VoiceCommand::StopSound, Some(guild), playing) == playing.remove(guild.0),
        playing.contains_key(guild.0) ==> {
            &&& first.1 == VoiceAction::Stop(playing[guild.0])
            &&& second.0 is Finished
            &&& second.1 matches VoiceAction::Say(text)
            &&& text@ == if stopped {
                "Stopped."@
            } else {
                "I couldn't stop the sound."@
            }
        },
        !playing.contains_key(guild.0) ==> first.0 is Finished && (
        first.1 matches VoiceAction::Say(text) && text@ == "Nothing is playing."@),
{
}

/// A command to play a sound looks for the folder, then lists it for the whole name,
/// without white space around it and in lower case, unless no such name can be
/// looked for.
pub proof fn looking_for_a_sound<Track>(
    author_id: UserId,
    guild: GuildId,
    sound: String,
    found: bool,
    playing: Map<u64, Track>,
    first: (VoiceTask, VoiceAction<Track>),
    second: (VoiceTask, VoiceAction<Track>),
)
    requires
        begins(VoiceCommand::PlaySound(sound), author_id, Some(guild), playing, first),
        goes_on(first.0, VoiceEvent::Folder(found), playing, second),
    ensures
        first.1 is CheckFolder,
        !found ==> second.0 is Finished && (second.1 matches VoiceAction::Say(text) && text@
            == "My sounds folder doesn't exist."@),
        found && is_valid_name(lowercase(trimmed(sound@))) ==> second.1 is ListSounds && (
        second.0 matches VoiceTask::Listing(g, name) && g == guild && name@ == lowercase(
            trimmed(sound@),
        )),
        found && !is_valid_name(lowercase(trimmed(sound@))) ==> second.0 is Finished && (
        second.1 matches VoiceAction::Say(text) && text@ == "Invalid sound name."@),
{
}

/// With the entries of the folder a command to play says what is missing, or asks
/// for the bot's place in voice; then it plays the entry, in its server, where the
/// bot is in voice and nothing plays, and stops what plays first.
pub proof fn playing_a_sound<Track>(
    guild: GuildId,
    name: String,
    files: Option<Vec<SoundFile>>,
    file: usize,
    in_voice: bool,
    stopped: bool,
    track: Track,
    playing: Map<u64, Track>,
    listed: (VoiceTask, VoiceAction<Track>),
    called: (VoiceTask, VoiceAction<Track>),
    halted: (VoiceTask, VoiceAction<Track>),
    started: (VoiceTask, VoiceAction<Track>),
)
    requires
        goes_on(VoiceTask::Listing(guild, name), VoiceEvent::Sounds(files), playing, listed),
        goes_on(
            VoiceTask::FindingCall(guild, name, file),
            VoiceEvent::Call(in_voice),
            playing,
            called,
        ),
        goes_on(
            VoiceTask::StoppingPrevious(guild, name, file),
            VoiceEvent::Stopped(stopped),
            playing,
            halted,
        ),
        goes_on(VoiceTask::Starting(guild, name), VoiceEvent::Started(track), playing, started),
    ensures
        match files {
            None => listed.0 is Finished && (listed.1 matches VoiceAction::Say(text) && text@
                == "I couldn't read my sounds."@),
            Some(entries) => match first_sound(entries@, name@) {
                Some(i) => listed.0 == VoiceTask::FindingCall(guild, name, i as usize) && listed.1
                    == VoiceAction::<Track>::FindCall(guild),
                None => listed.0 is Finished && (listed.1 matches VoiceAction::Say(text) && text@
                    == "I don't have a sound called `"@ + name@ + "`."@),
            },
        },
        !in_voice ==> called.0 is Finished && (called.1 matches VoiceAction::Say(text) && text@
            == "I'm not in a voice channel."@),
        in_voice && playing.contains_key(guild.0) ==> called.0 == VoiceTask::StoppingPrevious(
            guild,
            name,
            file,
        ) && called.1 == VoiceAction::Stop(playing[guild.0]),
        in_voice && !playing.contains_key(guild.0) ==> called == halted,
        halted.0 == VoiceTask::Starting(guild, name),
        halted.1 == VoiceAction::<Track>::Play(guild, file),
        started.0 is Finished,
        started.1 matches VoiceAction::Say(text) && text@ == "Playing `"@ + name@ + "`."@,
{
}

/// What plays in a server is the track that was started there last; it is let go
/// when a command to stop begins or the bot is found in voice for the next sound,
/// and at no other step.
pub proof fn last_started_track_plays<Track>(
    task: VoiceTask,
    event: VoiceEvent<Track>,
    command: VoiceCommand,
    guild_id: Option<GuildId>,
    playing: Map<u64, Track>,
)
    ensures
        sounds_after(task, event, playing) == match (task, event) {
            (VoiceTask::Starting(guild, _), VoiceEvent::Started(track)) => playing.insert(
                guild.0,
                track,
            ),
            (VoiceTask::FindingCall(guild, _, _), VoiceEvent::Call(in_voice)) => if in_voice {
                playing.remove(guild.0)
            } else {
                playing
            },
            _ => playing,
        },
        !(command is StopSound) || guild_id is None ==> sounds_after_start(
            command,
            guild_id,
            playing,
        ) == playing,
{
}

} // verus!
