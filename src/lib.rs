//! Zero-copy parser for IRCv3 lines of the Twitch chat protocol.
//!
//! A line is tokenized into byte [`Span`]s of the caller's buffer; tag keys
//! and commands are resolved to closed enumerations while scanning.

pub mod command;
pub mod escape;
pub mod message;
pub mod privmsg;
pub mod scan;
pub mod span;
pub mod tag;
pub mod tags;
pub mod text;

pub use command::Command;
pub use escape::{escape, unescape};
pub use message::{IrcMessage, Prefix};
pub use privmsg::{Badge, Privmsg, Reply, User};
pub use span::Span;
pub use tag::Tag;
pub use tags::{RawTag, Whitelist};
