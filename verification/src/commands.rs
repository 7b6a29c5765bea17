//! The commands that users send the bot.

use vstd::prelude::*;

verus! {

/// The commands anyone may send.
pub enum Command {
    /// Start a conversation.
    Start,
    /// Choose the language model.
    Select,
    /// Make a QR code of `data` with the given version and style name.
    Qr { data: String, version: i16, style: String },
    /// Send `msg` to the chat `to`.
    Whisper { to: i64, msg: String },
    /// Ask for help.
    Help,
}

/// The commands meant for the administrator.
pub enum AdminCommand {
    /// Send `msg` to the chat `to`.
    Whisper { to: i64, msg: String },
}

} // verus!
