//! The bot without voice commands, as a program of its own runs it.

use crate::config::{BotConfig, DEFAULT_SYSTEM_PROMPT, DEFAULT_TEMPERATURE_BITS};
use crate::ids::UserId;
use crate::message::{
    command_of, concerns_bot, is_for_bot, replace_mentions, IncomingMessage, MessageAction,
};
use crate::text::trim;
use vstd::prelude::*;

verus! {

/// The model that the program asks.
pub const PROGRAM_MODEL: &'static str = "openai/gpt-oss-120b";

/// The settings of the program: the defaults, with a larger model.
pub fn program_config(discord_token: String, nvidia_api_key: String) -> (r: BotConfig)
    ensures
        r.discord_token == discord_token,
        r.nvidia_api_key == nvidia_api_key,
        r.model@ == PROGRAM_MODEL@,
        r.memory_size == 30,
        r.max_tokens == 1000,
        r.temperature.bits == DEFAULT_TEMPERATURE_BITS,
        r.system_prompt@ == DEFAULT_SYSTEM_PROMPT@,
        r.sleep_schedule is None,
        r.model@ == "openai/gpt-oss-120b"@,
{
    BotConfig::new(discord_token, nvidia_api_key).model(PROGRAM_MODEL.to_owned())
}

/// What the program does about a message: it ignores other bots and whatever does
/// not mention it, asks what to talk about if nothing is said, and asks the model
/// otherwise. The mentions of others stay as they are.
pub fn program_message(msg: &IncomingMessage, bot_id: UserId) -> (r: MessageAction)
    ensures
        r is Ignore <==> !concerns_bot(*msg, bot_id),
        concerns_bot(*msg, bot_id) ==> if command_of(msg.content@, bot_id).len() == 0 {
            r matches MessageAction::Reply(text) && text@
                == "Hey! What would you like to talk about? 🤖"@
        } else {
            r matches MessageAction::Ask(prompt) && prompt@ == command_of(msg.content@, bot_id)
        },
{
    if !is_for_bot(msg, bot_id) {
        return MessageAction::Ignore;
    }
    let content = replace_mentions(msg.content.as_str(), bot_id, "");
    let prompt = trim(content.as_str());
    if prompt.as_str().is_empty() {
        MessageAction::Reply("Hey! What would you like to talk about? 🤖".to_owned())
    } else {
        MessageAction::Ask(prompt)
    }
}

} // verus!
