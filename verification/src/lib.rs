//! The logic of a chat between a UEFI machine and whoever sits at the other end
//! of its serial line.
//!
//! The machine at which the chat runs is `LOCAL`; the other end of the line is
//! `REMOTE`. Nothing here touches a device: [`chat`] and [`serial_impl`] say
//! what is to be done with the devices and are told how it went.

pub mod actions;
pub mod backend;
pub mod chat;
pub mod conversation;
pub mod echo;
pub mod firmware;
pub mod handles;
pub mod helpers;
pub mod numbers;
pub mod serial_impl;
pub mod session_laws;
pub mod terminal;
pub mod utf8_stream;
