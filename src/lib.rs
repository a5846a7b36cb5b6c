//! A moderation chat bot's command core: a duration grammar, a command
//! grammar with its authorization gates, and the decisions that turn a
//! parsed command into platform actions.

pub mod text;
pub mod time;
pub mod command;
pub mod execute;
pub mod casefile;
pub mod idset;
pub mod message;
