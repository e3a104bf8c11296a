//! The receiving side of a transfer: accept a sender, hand it a salt, derive the key,
//! then read what it sends. Each step takes what the network gave and returns the next
//! state.
use crate::cli::SocketAddress;
use crate::crypto::{argon2id_key, derive_encryption_key, fill_random};
use crate::errors::NetworkError;
use crate::frame::{header_size, read_size_header};
use crate::WarpApp;
use vstd::prelude::*;
use vstd::utf8::encode_utf8;

verus! {

/// Before listening: where to listen and the transfer password.
pub struct ReceiverInitial {
    pub target_peer: SocketAddress,
    pub password: String,
}

/// A sender connected; the salt is to be sent to it.
pub struct ReceiverHandshaking {
    pub target_peer: SocketAddress,
    pub salt: [u8; 16],
    pub password: String,
}

/// Keyed and reading what the sender sends.
pub struct ReceiverStreaming {
    pub target_peer: SocketAddress,
    pub key: [u8; 32],
    pub nonce: [u8; 24],
}

impl WarpApp<ReceiverInitial> {
    /// Goes on from listening on `target_peer` and accepting a sender: a failure is a
    /// network error; otherwise the receiver keeps the sender's address and its
    /// password and draws a random salt to send.
    pub fn connect(self, accepted: Result<SocketAddress, std::io::Error>) -> (r: Result<
        WarpApp<ReceiverHandshaking>,
        NetworkError,
    >)
        ensures
            accepted matches Err(e) ==> (r matches Err(NetworkError::ReceiverError(x)) && x == e),
            accepted matches Ok(peer) ==> (r matches Ok(app) && app.role.target_peer == peer
                && app.role.password@ == self.role.password@ && app.config == self.config),
    {
        let mut salt = [0u8; 16];
        if accepted.is_ok() {
            fill_random(&mut salt);
        }
        self.connect_with(accepted, salt)
    }

    /// Goes on from accepting a sender with the `salt` already drawn: a failure is a
    /// network error; otherwise the receiver keeps the sender's address, its password
    /// and the salt.
    pub fn connect_with(self, accepted: Result<SocketAddress, std::io::Error>, salt: [u8; 16]) -> (r:
        Result<WarpApp<ReceiverHandshaking>, NetworkError>)
        ensures
            accepted matches Err(e) ==> (r matches Err(NetworkError::ReceiverError(x)) && x == e),
            accepted matches Ok(peer) ==> (r matches Ok(app) && app.role.target_peer == peer
                && app.role.password@ == self.role.password@ && app.role.salt == salt
                && app.config == self.config),
    {
        match accepted {
            Err(e) => Err(NetworkError::ReceiverError(e)),
            Ok(peer) => Ok(
                WarpApp {
                    role: ReceiverHandshaking { target_peer: peer, password: self.role.password, salt },
                    config: self.config,
                },
            ),
        }
    }
}

impl WarpApp<ReceiverHandshaking> {
    /// Goes on from sending the salt: a failure is a network error; otherwise the key
    /// is derived from the password and the salt, and the nonce starts at zero.
    pub fn handshake(self, salt_sent: Result<(), std::io::Error>) -> (r: Result<
        WarpApp<ReceiverStreaming>,
        NetworkError,
    >)
        requires
            salt_sent is Ok ==> encode_utf8(self.role.password@).len() <= 0xffff_ffff,
        ensures
            salt_sent matches Err(e) ==> (r matches Err(NetworkError::ReceiverError(x)) && x == e),
            salt_sent is Ok ==> (r matches Ok(app) && app.role.key@ == argon2id_key(
                encode_utf8(self.role.password@),
                self.role.salt@,
            ) && app.role.nonce@ == Seq::new(24, |i: int| 0u8)
                && app.role.target_peer == self.role.target_peer && app.config == self.config),
    {
        match salt_sent {
            Err(e) => Err(NetworkError::ReceiverError(e)),
            Ok(()) => {
                let key = derive_encryption_key(self.role.password, &self.role.salt);
                let app = WarpApp {
                    role: ReceiverStreaming {
                        key,
                        target_peer: self.role.target_peer,
                        nonce: [0u8; 24],
                    },
                    config: self.config,
                };
                assert(app.role.nonce@ =~= Seq::new(24, |i: int| 0u8));
                Ok(app)
            },
        }
    }
}

impl WarpApp<ReceiverStreaming> {
    /// Goes on from reading the 64-byte size header: a failed read is a network error;
    /// otherwise the size it announces in its first eight bytes. The state does not
    /// change.
    pub fn receiver_header(&mut self, read: Result<[u8; 64], std::io::Error>) -> (r: Result<
        u64,
        NetworkError,
    >)
        ensures
            read matches Err(e) ==> (r matches Err(NetworkError::ReceiverError(x)) && x == e),
            read matches Ok(h) ==> r == Ok::<u64, NetworkError>(header_size(h@) as u64),
            read matches Ok(h) ==> header_size(h@) <= u64::MAX,
            *final(self) == *old(self),
    {
        match read {
            Err(e) => Err(NetworkError::ReceiverError(e)),
            Ok(h) => Ok(read_size_header(&h)),
        }
    }
}

} // verus!
