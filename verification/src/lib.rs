//! The decision making of a Discord chat bot.
//!
//! The bot answers messages that mention it with the help of a chat
//! completion service, keeps a short memory of each channel, follows a few
//! voice commands and sends a user to bed at a set hour. Everything that is
//! decided or computed stands here; talking to Discord, to the completion
//! service and to the clock is left to the program around this library.

pub mod bot;
pub mod completion;
pub mod config;
pub mod exchange;
pub mod ids;
pub mod memory;
pub mod message;
pub mod program;
pub mod schedule;
pub mod scheduler;
pub mod split;
pub mod text;
pub mod voice;
pub mod zone;

pub use bot::Bot;
pub use config::BotConfig;
pub use schedule::SleepSchedule;
