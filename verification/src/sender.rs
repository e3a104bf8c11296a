//! The sending side of a transfer: connect, handshake, then stream the queued files.
//! Each step takes what the network gave and returns the next state.
use crate::cli::SocketAddress;
use crate::crypto::{argon2id_key, derive_encryption_key, fill_random, generate_hash, is_ascii_alphanumeric};
use crate::errors::NetworkError;
use crate::frame::{
    le_value, lemma_nonce_successor_value, lemma_successor_carry, nonce_successor, pow256,
    size_header, size_header_bytes,
};
use crate::{Files, TransferContext, WarpApp};
use std::collections::VecDeque;
use vstd::prelude::*;
use vstd::utf8::{encode_utf8, is_ascii_chars, is_ascii_chars_encode_utf8};

verus! {

/// Before connecting: whom to send to and what.
pub struct SenderInitial {
    pub target_peer: SocketAddress,
    pub files: VecDeque<Files>,
}

/// Connected, waiting for the receiver's salt.
pub struct SenderHandshaking {
    pub files: VecDeque<Files>,
    pub salt: [u8; 16],
}

/// Keyed and sending the queued files.
pub struct SenderStreaming {
    pub nonce: [u8; 24],
    pub file_queue: VecDeque<Files>,
    pub key: [u8; 32],
    pub active_file: Option<TransferContext>,
}

/// A transfer password as `generate_hash` makes them: seven ASCII letters or digits.
pub open spec fn is_transfer_password(p: Seq<char>) -> bool {
    p.len() == 7 && forall|i: int| 0 <= i < 7 ==> #[trigger] is_ascii_alphanumeric(p[i])
}

impl WarpApp<SenderInitial> {
    /// Goes on from an attempt to connect to `target_peer`: a failed attempt is a
    /// network error; otherwise the sender waits for the salt, with its files and an
    /// all-zero salt.
    pub fn connect(self, connected: Result<(), std::io::Error>) -> (r: Result<
        WarpApp<SenderHandshaking>,
        NetworkError,
    >)
        ensures
            connected matches Err(e) ==> (r matches Err(NetworkError::ReceiverError(x)) && x == e),
            connected is Ok ==> (r matches Ok(app) && app.role.files@ == self.role.files@
                && app.role.salt@ == Seq::new(16, |i: int| 0u8) && app.config == self.config),
    {
        match connected {
            Err(e) => Err(NetworkError::ReceiverError(e)),
            Ok(()) => {
                let app = WarpApp {
                    role: SenderHandshaking { files: self.role.files, salt: [0u8; 16] },
                    config: self.config,
                };
                assert(app.role.salt@ =~= Seq::new(16, |i: int| 0u8));
                Ok(app)
            },
        }
    }
}

impl WarpApp<SenderHandshaking> {
    /// Goes on from reading the receiver's salt: makes a fresh transfer password,
    /// derives the key from it and the salt, and draws a random nonce. The queue of files
    /// is kept and no file is active yet.
    pub fn handshake(self, salt_read: Result<[u8; 16], std::io::Error>) -> (r: Result<
        WarpApp<SenderStreaming>,
        NetworkError,
    >)
        ensures
            salt_read matches Err(e) ==> (r matches Err(NetworkError::ReceiverError(x)) && x == e),
            salt_read matches Ok(salt) ==> (r matches Ok(app) && app.role.file_queue@
                == self.role.files@ && app.role.active_file is None && app.config == self.config
                && exists|p: Seq<char>|
                is_transfer_password(p) && #[trigger] argon2id_key(encode_utf8(p), salt@)
                    == app.role.key@),
    {
        let password = generate_hash();
        let ghost p = password@;
        let mut nonce = [0u8; 24];
        if salt_read.is_ok() {
            fill_random(&mut nonce);
        }
        proof {
            assert forall|i: int| 0 <= i < p.len() implies '\0' <= #[trigger] p[i] <= '\u{7f}' by {
                assert(is_ascii_alphanumeric(p[i]));
            }
            assert(is_ascii_chars(p));
            is_ascii_chars_encode_utf8(p);
            assert(is_transfer_password(p));
        }
        self.handshake_with(salt_read, password, nonce)
    }

    /// Goes on from reading the receiver's salt with the transfer `password` and the
    /// `nonce` already drawn: a failed read is a network error; otherwise the key is
    /// derived from the password and the salt, the nonce is the one given, the queue of
    /// files is kept and no file is active yet.
    pub fn handshake_with(
        self,
        salt_read: Result<[u8; 16], std::io::Error>,
        password: String,
        nonce: [u8; 24],
    ) -> (r: Result<WarpApp<SenderStreaming>, NetworkError>)
        requires
            salt_read is Ok ==> encode_utf8(password@).len() <= 0xffff_ffff,
        ensures
            salt_read matches Err(e) ==> (r matches Err(NetworkError::ReceiverError(x)) && x == e),
            salt_read matches Ok(salt) ==> (r matches Ok(app) && app.role.key@ == argon2id_key(
                encode_utf8(password@),
                salt@,
            ) && app.role.nonce == nonce && app.role.file_queue@ == self.role.files@
                && app.role.active_file is None && app.config == self.config),
    {
        match salt_read {
            Err(e) => Err(NetworkError::ReceiverError(e)),
            Ok(salt) => {
                let key = derive_encryption_key(password, &salt);
                Ok(
                    WarpApp {
                        role: SenderStreaming {
                            nonce,
                            file_queue: self.role.files,
                            key,
                            active_file: None,
                        },
                        config: self.config,
                    },
                )
            },
        }
    }
}

impl WarpApp<SenderStreaming> {
    pub fn start_transfer(&self) {
    }

    /// Takes the next file from the front of the queue, if any; nothing else changes.
    pub fn next_file(&mut self) -> (f: Option<Files>)
        ensures
            old(self).role.file_queue@.len() == 0 ==> (f is None && final(self).role.file_queue@
                == old(self).role.file_queue@),
            old(self).role.file_queue@.len() > 0 ==> (f == Some(old(self).role.file_queue@[0])
                && final(self).role.file_queue@ == old(self).role.file_queue@.drop_first()),
            final(self).role.nonce == old(self).role.nonce,
            final(self).role.key@ == old(self).role.key@,
            final(self).role.active_file == old(self).role.active_file,
            final(self).config == old(self).config,
    {
        let f = self.role.file_queue.pop_front();
        proof {
            if old(self).role.file_queue@.len() > 0 {
                assert(self.role.file_queue@ =~= old(self).role.file_queue@.drop_first());
            }
        }
        f
    }

    /// Goes on from an attempt to open `file`, taken from the queue, whose metadata
    /// serialised to `metadata`: a failed attempt is a network error and changes
    /// nothing; otherwise the file becomes the active one unless one already is, and
    /// the frame to send is returned: the 64-byte size header, then the metadata.
    pub fn send_header(
        &mut self,
        file: Files,
        opened: Result<(), std::io::Error>,
        metadata: &[u8],
    ) -> (r: Result<Vec<u8>, NetworkError>)
        requires
            metadata@.len() + 64 <= usize::MAX,
        ensures
            opened matches Err(e) ==> (r matches Err(NetworkError::ReceiverError(x)) && x == e
                && final(self).role.active_file == old(self).role.active_file),
            opened is Ok ==> (r matches Ok(frame) && frame@ == size_header_bytes(metadata@.len())
                + metadata@),
            opened is Ok ==> final(self).role.active_file == (if old(self).role.active_file is None {
                Some(TransferContext { meta: file.1, bytes_tranferred: 0 })
            } else {
                old(self).role.active_file
            }),
            final(self).role.file_queue@ == old(self).role.file_queue@,
            final(self).role.nonce == old(self).role.nonce,
            final(self).role.key@ == old(self).role.key@,
            final(self).config == old(self).config,
    {
        match opened {
            Err(e) => Err(NetworkError::ReceiverError(e)),
            Ok(()) => {
                if self.role.active_file.is_none() {
                    self.role.active_file = Some(TransferContext { meta: file.1, bytes_tranferred: 0 });
                }
                let header = size_header(metadata.len() as u64);
                let mut frame: Vec<u8> = Vec::new();
                frame.extend_from_slice(&header);
                frame.extend_from_slice(metadata);
                assert(frame@ =~= size_header_bytes(metadata@.len()) + metadata@);
                Ok(frame)
            },
        }
    }

    /// Steps the nonce: adds one to it read as a little-endian counter, the carry
    /// running from the first byte towards the last and dropped past it.
    pub fn increment_nonce(&mut self)
        ensures
            final(self).role.nonce@ == nonce_successor(old(self).role.nonce@),
            le_value(final(self).role.nonce@) == (le_value(old(self).role.nonce@) + 1) % pow256(24),
            final(self).role.file_queue@ == old(self).role.file_queue@,
            final(self).role.key@ == old(self).role.key@,
            final(self).role.active_file == old(self).role.active_file,
            final(self).config == old(self).config,
    {
        let ghost start = self.role.nonce@;
        let mut i: usize = 0;
        let mut carry = true;
        while carry && i < 24
            invariant
                i <= 24,
                start.len() == 24,
                self.role.nonce@.len() == 24,
                self.role.file_queue@ == old(self).role.file_queue@,
                self.role.key@ == old(self).role.key@,
                self.role.active_file == old(self).role.active_file,
                self.config == old(self).config,
                start == old(self).role.nonce@,
                carry ==> forall|j: int| 0 <= j < i ==> start[j] == 255,
                carry ==> forall|j: int| 0 <= j < i ==> self.role.nonce@[j] == 0,
                carry ==> forall|j: int| i <= j < 24 ==> self.role.nonce@[j] == start[j],
                !carry ==> self.role.nonce@ == nonce_successor(start),
            decreases 24 - i + (if carry { 1int } else { 0int }),
        {
            let byte = self.role.nonce[i];
            if byte < 255 {
                self.role.nonce[i] = byte + 1;
                proof {
                    lemma_successor_carry(start, i as int);
                    let rest = start.skip(i as int);
                    assert(rest[0] == byte);
                    assert(self.role.nonce@ =~= Seq::new(i as nat, |j: int| 0u8) + (seq![
                        (rest[0] + 1) as u8,
                    ] + rest.drop_first()));
                }
                carry = false;
            } else {
                self.role.nonce[i] = 0;
                i = i + 1;
            }
        }
        proof {
            lemma_nonce_successor_value(start);
            if carry {
                lemma_successor_carry(start, 24);
                assert(start.skip(24) =~= Seq::<u8>::empty());
                assert(self.role.nonce@ =~= Seq::new(24, |j: int| 0u8) + start.skip(24));
            }
        }
    }
}

} // verus!
