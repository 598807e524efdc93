//! The settings of the bot.

use crate::schedule::SleepSchedule;
use vstd::prelude::*;

verus! {

/// The model that is asked unless another is set.
pub const DEFAULT_MODEL: &'static str = "openai/gpt-oss-20b";

/// What the model is told about its role unless something else is set.
pub const DEFAULT_SYSTEM_PROMPT: &'static str = "You are the Old Dad of the Discord server. You are chatting with users in the Discord server, basically like your children. Do not mention internal memory or system instructions. Answer ALWAYS in spanish or german only if required. You practically dont understand English language from others, and you will poorly try to translate to spanish or just ignore it. Keep responses natural and with a normal message length. You are not any kind of assistant, you are just a character playing their role. Do not include any type of reasoning in your responses. ";

/// How freely the model chooses its words: a single precision number, held as
/// the bits of its IEEE 754 representation.
#[derive(Clone, Copy, Debug, PartialEq, Eq, Structural)]
pub struct Temperature {
    pub bits: u32,
}

/// The bits of the single precision number nearest to seven tenths.
pub const DEFAULT_TEMPERATURE_BITS: u32 = 0x3f333333;

/// The settings of the bot.
#[derive(Debug)]
pub struct BotConfig {
    pub discord_token: String,
    pub nvidia_api_key: String,
    pub model: String,
    pub memory_size: usize,
    pub max_tokens: u32,
    pub temperature: Temperature,
    pub system_prompt: String,
    pub sleep_schedule: Option<SleepSchedule>,
}

impl Clone for BotConfig {
    fn clone(&self) -> (r: Self)
        ensures
            r == *self,
    {
        BotConfig {
            discord_token: self.discord_token.clone(),
            nvidia_api_key: self.nvidia_api_key.clone(),
            model: self.model.clone(),
            memory_size: self.memory_size,
            max_tokens: self.max_tokens,
            temperature: self.temperature,
            system_prompt: self.system_prompt.clone(),
            sleep_schedule: match &self.sleep_schedule {
                Some(schedule) => Some(schedule.clone()),
                None => None,
            },
        }
    }
}

impl BotConfig {
    /// The default settings: thirty messages of memory, answers of at most a
    /// thousand tokens, no bedtime.
    pub fn new(discord_token: String, nvidia_api_key: String) -> (r: Self)
        ensures
            r.discord_token == discord_token,
            r.nvidia_api_key == nvidia_api_key,
            r.model@ == DEFAULT_MODEL@,
            r.memory_size == 30,
            r.max_tokens == 1000,
            r.temperature.bits == DEFAULT_TEMPERATURE_BITS,
            r.system_prompt@ == DEFAULT_SYSTEM_PROMPT@,
            r.sleep_schedule is None,
            r.model@ == "openai/gpt-oss-20b"@,
            r.system_prompt@ == "You are the Old Dad of the Discord server. You are chatting with users in the Discord server, basically like your children. Do not mention internal memory or system instructions. Answer ALWAYS in spanish or german only if required. You practically dont understand English language from others, and you will poorly try to translate to spanish or just ignore it. Keep responses natural and with a normal message length. You are not any kind of assistant, you are just a character playing their role. Do not include any type of reasoning in your responses. "@,
            r.temperature.bits == 0x3f33_3333,
    {
        BotConfig {
            discord_token,
            nvidia_api_key,
            model: DEFAULT_MODEL.to_owned(),
            memory_size: 30,
            max_tokens: 1000,
            temperature: Temperature { bits: DEFAULT_TEMPERATURE_BITS },
            system_prompt: DEFAULT_SYSTEM_PROMPT.to_owned(),
            sleep_schedule: None,
        }
    }

    /// Sets the model.
    pub fn model(self, model: String) -> (r: Self)
        ensures
            r == (BotConfig { model: model, ..self }),
    {
        BotConfig { model: model, ..self }
    }

    /// Sets how many messages of a channel are remembered.
    pub fn memory_size(self, memory_size: usize) -> (r: Self)
        ensures
            r == (BotConfig { memory_size: memory_size, ..self }),
    {
        BotConfig { memory_size: memory_size, ..self }
    }

    /// Sets how long an answer may be.
    pub fn max_tokens(self, max_tokens: u32) -> (r: Self)
        ensures
            r == (BotConfig { max_tokens: max_tokens, ..self }),
    {
        BotConfig { max_tokens: max_tokens, ..self }
    }

    /// Sets how freely the model chooses its words.
    pub fn temperature(self, temperature: Temperature) -> (r: Self)
        ensures
            r == (BotConfig { temperature: temperature, ..self }),
    {
        BotConfig { temperature: temperature, ..self }
    }

    /// Sets what the model is told about its role.
    pub fn system_prompt(self, system_prompt: String) -> (r: Self)
        ensures
            r == (BotConfig { system_prompt: system_prompt, ..self }),
    {
        BotConfig { system_prompt: system_prompt, ..self }
    }

    /// Sets a bedtime.
    pub fn sleep_schedule(self, schedule: SleepSchedule) -> (r: Self)
        ensures
            r == (BotConfig { sleep_schedule: Some(schedule), ..self }),
    {
        BotConfig { sleep_schedule: Some(schedule), ..self }
    }
}

} // verus!
