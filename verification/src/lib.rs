//! Verified core of a serverless peer-to-peer file transfer: the codes that
//! two peers exchange by hand, the framing of file chunks, the receiver's
//! progress bookkeeping, and the screens the user walks through.

pub mod codec;
pub mod commands;
pub mod header;
pub mod receiver;
pub mod sender;
pub mod signaling;
pub mod ui;
