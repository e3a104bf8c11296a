//! A small file-transfer tool: command-line parsing, file description,
//! key derivation and authenticated encryption, and the sender / receiver
//! handshake state machines. The network and disk work is done by the
//! caller; the library decides what each step leads to.
pub mod cli;
pub mod crypto;
pub mod errors;
pub mod files;
pub mod frame;
pub mod receiver;
pub mod sender;

pub use cli::{parse_args, CliArgs, SocketAddress};
pub use crypto::{decrypt_payload, derive_encryption_key, encrypt_payload, generate_hash};
pub use errors::{AddrParseError, DiskError, NetworkError, ParseError, WarpError};
pub use files::get_file_data;

use vstd::prelude::*;

verus! {

/// What is told of a file before its contents: its name, size and type.
#[derive(Debug)]
pub struct FileData {
    pub name: String,
    pub file_size: u64,
    pub file_type: String,
}

/// A file to send: its path and what is told of it.
#[derive(Debug)]
pub struct Files(pub String, pub FileData);

/// The file being sent: what is told of it and how many of its bytes went out.
#[derive(Debug)]
pub struct TransferContext {
    pub meta: FileData,
    pub bytes_tranferred: u64,
}

/// Settings of a transfer.
#[derive(Debug)]
pub struct Config {
    worker_threads: usize,
}

/// A transfer in the state `State`.
pub struct WarpApp<State> {
    pub role: State,
    pub config: Option<Config>,
}

} // verus!
