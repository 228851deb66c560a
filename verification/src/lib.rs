//! A chat fan-out hub: who is present, what was said, and what each
//! connection does about it.

pub mod clock;
pub mod broadcast;
pub mod chat;
pub mod client;
pub mod danger;
pub mod handle;
pub mod laws;
pub mod page;
pub mod presence;
pub mod session;
pub mod sinks;
pub mod wire;
