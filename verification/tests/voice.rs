use dbot::ids::{ChannelId, GuildId, UserId};
use dbot::message::VoiceCommand;
use dbot::voice::{
    find_sound, look_for, valid_name, voice_start, voice_step, CurrentSounds, SoundFile,
    VoiceAction, VoiceEvent, VoiceTask,
};

const GUILD: GuildId = GuildId(1);
const AUTHOR: UserId = UserId(7);

fn spoken(r: (VoiceTask, VoiceAction<u32>)) -> String {
    assert!(matches!(r.0, VoiceTask::Finished));
    match r.1 {
        VoiceAction::Say(text) => text,
        _ => panic!("nothing said"),
    }
}

fn file(is_file: bool, stem: Option<&str>) -> SoundFile {
    SoundFile { is_file, stem: stem.map(|s| s.to_string()) }
}

fn folder() -> Vec<SoundFile> {
    vec![
        file(false, Some("boing")),
        file(true, None),
        file(true, Some("other")),
        file(true, Some("BOING")),
        file(true, Some("boing")),
    ]
}

/// Plays "boing" up to the point where the voice channel was looked for.
fn play_until_call(sounds: &mut CurrentSounds<u32>) -> VoiceTask {
    let play = VoiceCommand::PlaySound(" Boing ".to_string());
    let (task, action) = voice_start(play, AUTHOR, Some(GUILD), sounds);
    assert!(matches!(action, VoiceAction::CheckFolder));
    let (task, action) = voice_step(task, VoiceEvent::Folder(true), sounds);
    assert!(matches!(action, VoiceAction::ListSounds));
    let (task, action) = voice_step(task, VoiceEvent::Sounds(Some(folder())), sounds);
    assert!(matches!(action, VoiceAction::FindCall(GUILD)));
    task
}

#[test]
fn outside_a_server_nothing_is_done() {
    let mut s = CurrentSounds::<u32>::new();
    for c in [
        VoiceCommand::JoinAuthor,
        VoiceCommand::JoinUser(UserId(3)),
        VoiceCommand::JoinChannel(ChannelId(3)),
        VoiceCommand::PlaySound("x".to_string()),
    ] {
        assert_eq!(
            spoken(voice_start(c, AUTHOR, None, &mut s)),
            "This only works in a server."
        );
    }
    for c in [VoiceCommand::Leave, VoiceCommand::StopSound] {
        let r = voice_start(c, AUTHOR, None, &mut s);
        assert!(matches!(r, (VoiceTask::Finished, VoiceAction::Finish)));
    }
}

#[test]
fn joins_the_channel_of_a_user() {
    let mut s = CurrentSounds::<u32>::new();
    let (task, action) = voice_start(VoiceCommand::JoinAuthor, AUTHOR, Some(GUILD), &mut s);
    assert!(matches!(action, VoiceAction::LookUp(GUILD, AUTHOR)));
    let (task, action) = voice_step(task, VoiceEvent::Located(Some(Some(ChannelId(33)))), &mut s);
    assert!(matches!(action, VoiceAction::Join(GUILD, ChannelId(33))));
    let r = voice_step(task, VoiceEvent::Joined(true), &mut s);
    assert_eq!(spoken(r), "I'm joining <#33>.");
    let (task, action) =
        voice_start(VoiceCommand::JoinUser(UserId(9)), AUTHOR, Some(GUILD), &mut s);
    assert!(matches!(action, VoiceAction::LookUp(GUILD, UserId(9))));
    let r = voice_step(task, VoiceEvent::Located(Some(None)), &mut s);
    assert_eq!(spoken(r), "That user isn't in a voice channel.");
    let r = voice_step(VoiceTask::LookingUp(GUILD), VoiceEvent::Located(None), &mut s);
    assert_eq!(spoken(r), "That user isn't in a voice channel.");
}

#[test]
fn joins_a_channel() {
    let mut s = CurrentSounds::<u32>::new();
    let join = VoiceCommand::JoinChannel(ChannelId(5));
    let (task, action) = voice_start(join, AUTHOR, Some(GUILD), &mut s);
    assert!(matches!(action, VoiceAction::Join(GUILD, ChannelId(5))));
    let r = voice_step(task, VoiceEvent::Joined(false), &mut s);
    assert_eq!(spoken(r), "I couldn't join that voice channel.");
}

#[test]
fn leaves_voice() {
    let mut s = CurrentSounds::<u32>::new();
    let (task, action) = voice_start(VoiceCommand::Leave, AUTHOR, Some(GUILD), &mut s);
    assert!(matches!(action, VoiceAction::Leave(GUILD)));
    assert_eq!(spoken(voice_step(task, VoiceEvent::Left(true), &mut s)), "I'm leaving voice.");
    assert_eq!(
        spoken(voice_step(VoiceTask::Leaving, VoiceEvent::Left(false), &mut s)),
        "I'm not currently in a voice channel."
    );
}

#[test]
fn plays_a_sound_and_stops_it() {
    let mut s = CurrentSounds::<u32>::new();
    let task = play_until_call(&mut s);
    let (task, action) = voice_step(task, VoiceEvent::Call(true), &mut s);
    assert!(matches!(action, VoiceAction::Play(GUILD, 3)));
    assert_eq!(spoken(voice_step(task, VoiceEvent::Started(11), &mut s)), "Playing `boing`.");

    // the sound before gives way
    let task = play_until_call(&mut s);
    let (task, action) = voice_step(task, VoiceEvent::Call(true), &mut s);
    assert!(matches!(action, VoiceAction::Stop(11)));
    let (task, action) = voice_step(task, VoiceEvent::Stopped(false), &mut s);
    assert!(matches!(action, VoiceAction::Play(GUILD, 3)));
    assert_eq!(spoken(voice_step(task, VoiceEvent::Started(12), &mut s)), "Playing `boing`.");

    // another server plays on
    s.put(GuildId(2), 99);
    let (task, action) = voice_start(VoiceCommand::StopSound, AUTHOR, Some(GUILD), &mut s);
    assert!(matches!(action, VoiceAction::Stop(12)));
    assert_eq!(spoken(voice_step(task, VoiceEvent::Stopped(true), &mut s)), "Stopped.");
    let r = voice_start(VoiceCommand::StopSound, AUTHOR, Some(GUILD), &mut s);
    assert_eq!(spoken(r), "Nothing is playing.");
    assert_eq!(s.take(GuildId(2)), Some(99));
    assert_eq!(
        spoken(voice_step(VoiceTask::Stopping, VoiceEvent::Stopped(false), &mut s)),
        "I couldn't stop the sound."
    );
}

#[test]
fn says_why_a_sound_is_not_played() {
    let mut s = CurrentSounds::<u32>::new();
    let check = |name: &str| VoiceTask::CheckingFolder(GUILD, name.to_string());
    assert_eq!(
        spoken(voice_step(check("x"), VoiceEvent::Folder(false), &mut s)),
        "My sounds folder doesn't exist."
    );
    for name in ["  ", "a/b", "a\\b", "a..b"] {
        assert_eq!(
            spoken(voice_step(check(name), VoiceEvent::Folder(true), &mut s)),
            "Invalid sound name."
        );
    }
    let list = VoiceTask::Listing(GUILD, "x".to_string());
    assert_eq!(
        spoken(voice_step(list, VoiceEvent::Sounds(None), &mut s)),
        "I couldn't read my sounds."
    );
    let list = VoiceTask::Listing(GUILD, "x".to_string());
    assert_eq!(
        spoken(voice_step(list, VoiceEvent::Sounds(Some(folder())), &mut s)),
        "I don't have a sound called `x`."
    );
    s.put(GUILD, 4);
    let task = play_until_call(&mut s);
    assert_eq!(
        spoken(voice_step(task, VoiceEvent::Call(false), &mut s)),
        "I'm not in a voice channel."
    );
    // the sound that plays was not touched
    assert_eq!(s.take(GUILD), Some(4));
}

#[test]
fn sounds_are_found_by_name() {
    assert_eq!(find_sound(&folder(), "boing"), Some(3));
    assert_eq!(find_sound(&folder(), "OTHER"), Some(2));
    assert_eq!(find_sound(&folder(), "nothing"), None);
    assert!(valid_name("a.b c"));
    assert!(!valid_name(""));
    assert!(!valid_name("../x"));
    let (task, action) = look_for::<u32>(GUILD, "boing".to_string());
    assert!(matches!(task, VoiceTask::Listing(GUILD, _)));
    assert!(matches!(action, VoiceAction::ListSounds));
    assert_eq!(spoken(look_for(GUILD, "/".to_string())), "Invalid sound name.");
}

#[test]
fn plays_the_sound_that_was_found() {
    let mut s = CurrentSounds::<u32>::new();
    s.put(GUILD, 5);
    s.put(GuildId(2), 6);
    let task = play_until_call(&mut s);
    let (task, action) = voice_step(task, VoiceEvent::Call(true), &mut s);
    assert!(matches!(action, VoiceAction::Stop(5)));
    let (task, action) = voice_step(task, VoiceEvent::Stopped(false), &mut s);
    assert!(matches!(action, VoiceAction::Play(GUILD, 3)));
    assert_eq!(spoken(voice_step(task, VoiceEvent::Started(8), &mut s)), "Playing `boing`.");
    assert_eq!(s.take(GUILD), Some(8));
    assert_eq!(s.take(GuildId(2)), Some(6));
}
