//! What the operations are for: how their results relate to what goes in, to each
//! other, and to what the other side makes of them.

pub mod accounts;
pub mod bitrate;
pub mod cli;
pub mod explorer;
pub mod guard;
pub mod hosting;
pub mod input;
pub mod link;
pub mod listing;
pub mod login;
pub mod message;
pub mod screen;
pub mod state;
pub mod terminal;
pub mod text;
pub mod transfer;
pub mod tunnel;
pub mod video;
pub mod wire;
