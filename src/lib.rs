//! A whitelist-based URL filter that talks to its host application over a
//! length-prefixed message channel.

pub mod codec;
pub mod config;
pub mod decision;
pub mod dispatch;
pub mod message;
