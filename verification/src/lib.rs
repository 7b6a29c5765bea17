//! Styled QR code rendering, command handling and user bookkeeping for a
//! chat bot that forwards prompts to a local language model.

pub mod commands;
pub mod canvas;
pub mod symbol;
pub mod shapes;
pub mod qr;
pub mod text;
pub mod api;
pub mod users;
pub mod handler;
