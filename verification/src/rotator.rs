//! The session-key rotator: derives rotating symmetric keys from a root key
//! and a counter, rotates them by compare-and-exchange, and encrypts and
//! decrypts documents under the current session key.

use vstd::prelude::*;
use vstd::utf8::encode_utf8;

use crate::crypto::{aead_decrypt, aead_encrypt, aead_sealed, random_nonce, sha3_256,
    sha3_256_of, AEAD_PLAINTEXT_LIMIT};
use crate::document::{enc_document, encode_document, decode_document, CollaborativeDocument,
    DocumentView};
use crate::errors::FileverseError;
use crate::wire::{push_raw, push_u64, u64_le};
use vstd::string::StringExecFns;

verus! {

/// The material hashed into a session key: a domain tag, the root key, the
/// rotation counter and the contract/file binding.
pub open spec fn session_key_payload(root: Seq<u8>, counter: u64, contract: Seq<char>,
    file_id: u64) -> Seq<u8> {
    encode_utf8("FILEVERSE-SESSION-KEY"@) + root + u64_le(counter) + encode_utf8(contract)
        + u64_le(file_id)
}

/// The session key derived for a counter value.
pub open spec fn spec_session_key(root: Seq<u8>, counter: u64, contract: Seq<char>,
    file_id: u64) -> Seq<u8> {
    sha3_256_of(session_key_payload(root, counter, contract, file_id))
}

/// Derives the session key for a counter value from the root key and the
/// contract/file binding.
pub fn derive_session_key(fileverse_key: &[u8; 32], counter: u64, contract_address: &str,
    file_id: u64) -> (r: [u8; 32])
    ensures
        r@ == spec_session_key(fileverse_key@, counter, contract_address@, file_id),
{
    let mut payload: Vec<u8> = Vec::new();
    push_raw(&mut payload, "FILEVERSE-SESSION-KEY".as_bytes());
    push_raw(&mut payload, fileverse_key);
    push_u64(&mut payload, counter);
    push_raw(&mut payload, contract_address.as_bytes());
    push_u64(&mut payload, file_id);
    proof {
        assert(payload@ =~= session_key_payload(fileverse_key@, counter, contract_address@,
            file_id));
    }
    sha3_256(payload.as_slice())
}

/// Owns the current session key; supersedes it on each rotation and records
/// each rotation event for subscribers.
pub struct FileverseAeadRotator {
    rotation_counter: u64,
    current_session_key: [u8; 32],
    rotation_interval: u64,
    fileverse_key: [u8; 32],
    contract_address: String,
    file_id: u64,
    rotation_events: Vec<(u64, u64)>,
}

impl FileverseAeadRotator {
    pub closed spec fn spec_counter(&self) -> u64 {
        self.rotation_counter
    }

    pub closed spec fn spec_key(&self) -> Seq<u8> {
        self.current_session_key@
    }

    pub closed spec fn spec_interval(&self) -> u64 {
        self.rotation_interval
    }

    pub closed spec fn spec_root(&self) -> Seq<u8> {
        self.fileverse_key@
    }

    pub closed spec fn spec_contract(&self) -> Seq<char> {
        self.contract_address@
    }

    pub closed spec fn spec_file_id(&self) -> u64 {
        self.file_id
    }

    pub closed spec fn spec_events(&self) -> Seq<(u64, u64)> {
        self.rotation_events@
    }

    /// The root key and binding never change after construction.
    pub open spec fn same_binding(&self, other: &Self) -> bool {
        &&& self.spec_root() == other.spec_root()
        &&& self.spec_contract() == other.spec_contract()
        &&& self.spec_file_id() == other.spec_file_id()
        &&& self.spec_interval() == other.spec_interval()
    }

    /// Builds a rotator whose first session key is derived for counter zero.
    pub fn new(fileverse_key: [u8; 32], rotation_interval: u64, contract_address: &str,
        file_id: u64) -> (r: Self)
        ensures
            r.spec_counter() == 0,
            r.spec_key() == spec_session_key(fileverse_key@, 0, contract_address@, file_id),
            r.spec_interval() == rotation_interval,
            r.spec_root() == fileverse_key@,
            r.spec_contract() == contract_address@,
            r.spec_file_id() == file_id,
            r.spec_events() == Seq::<(u64, u64)>::empty(),
    {
        let current_session_key = derive_session_key(&fileverse_key, 0, contract_address,
            file_id);
        FileverseAeadRotator {
            rotation_counter: 0,
            current_session_key,
            rotation_interval,
            fileverse_key,
            contract_address: String::from_str(contract_address),
            file_id,
            rotation_events: Vec::new(),
        }
    }

    /// Rotates the session key by compare-and-exchange on the counter value
    /// the caller observed: below the rotation interval nothing happens; at
    /// or above it, the caller holding the live counter wins, resets the
    /// counter, installs the key for the next counter value and records the
    /// event, while every other caller is told it lost the race.
    pub fn rotate(&mut self, observed: u64, now_ms: u64) -> (r: Result<(), FileverseError>)
        requires
            observed < u64::MAX,
        ensures
            final(self).same_binding(old(self)),
            observed < old(self).spec_interval() ==> {
                &&& r == Ok::<(), FileverseError>(())
                &&& *final(self) == *old(self)
            },
            observed >= old(self).spec_interval() && observed != old(self).spec_counter()
                ==> {
                &&& r == Err::<(), FileverseError>(FileverseError::DualRotationAttack)
                &&& *final(self) == *old(self)
            },
            observed >= old(self).spec_interval() && observed == old(self).spec_counter()
                ==> {
                &&& r == Ok::<(), FileverseError>(())
                &&& final(self).spec_counter() == 0
                &&& final(self).spec_key() == spec_session_key(old(self).spec_root(),
                    (observed + 1) as u64, old(self).spec_contract(),
                    old(self).spec_file_id())
                &&& final(self).spec_events() == old(self).spec_events().push(
                    ((observed + 1) as u64, now_ms))
            },
    {
        if observed < self.rotation_interval {
            return Ok(());
        }
        if observed != self.rotation_counter {
            return Err(FileverseError::DualRotationAttack);
        }
        self.rotation_counter = 0;
        let new_counter = observed + 1;
        let new_key = derive_session_key(&self.fileverse_key, new_counter,
            self.contract_address.as_str(), self.file_id);
        self.current_session_key = new_key;
        self.rotation_events.push((new_counter, now_ms));
        Ok(())
    }

    /// The counter value a caller must observe before asking for a rotation.
    pub fn rotation_counter(&self) -> (r: u64)
        ensures
            r == self.spec_counter(),
    {
        self.rotation_counter
    }

    /// Hands out the rotation events recorded since the last drain and
    /// clears the log.
    pub fn subscribe_rotations(&mut self) -> (r: Vec<(u64, u64)>)
        ensures
            r@ == old(self).spec_events(),
            final(self).spec_events() == Seq::<(u64, u64)>::empty(),
            final(self).same_binding(old(self)),
            final(self).spec_counter() == old(self).spec_counter(),
            final(self).spec_key() == old(self).spec_key(),
    {
        let mut drained: Vec<(u64, u64)> = Vec::new();
        core::mem::swap(&mut drained, &mut self.rotation_events);
        drained
    }

    /// Encrypts a document under the current session key, with a fresh
    /// random nonce prepended to the ciphertext.
    ///
    /// With `decrypt_document`'s contract this pins the round trip: the
    /// ciphertext seals exactly the canonical encoding of the document, so
    /// decrypting it under the same session key returns the document.
    pub fn encrypt_document(&self, document: &CollaborativeDocument)
        -> (r: Result<Vec<u8>, FileverseError>)
        ensures
            r matches Ok(c) ==> {
                &&& c@.len() == enc_document(document@).len() + 28
                &&& c@.subrange(12, c@.len() as int) == aead_sealed(self.spec_key(),
                    c@.subrange(0, 12), enc_document(document@))
            },
            r matches Err(e) ==> e matches FileverseError::DecryptionError(_),
            enc_document(document@).len() < AEAD_PLAINTEXT_LIMIT ==> r is Ok,
    {
        let plain = encode_document(document);
        let nonce = random_nonce();
        let sealed = match aead_encrypt(&self.current_session_key, &nonce,
            plain.as_slice()) {
            Ok(c) => c,
            Err(_) => {
                return Err(FileverseError::DecryptionError(String::from_str(
                    "sealing failed")));
            },
        };
        let mut result: Vec<u8> = Vec::new();
        push_raw(&mut result, &nonce);
        push_raw(&mut result, sealed.as_slice());
        proof {
            assert(result@.subrange(0, 12) =~= nonce@);
            assert(result@.subrange(12, result@.len() as int) =~= sealed@);
        }
        Ok(result)
    }

    /// Decrypts a document with the current session key, failing closed on
    /// any integrity failure.
    ///
    /// Succeeds exactly on inputs whose ciphertext part is a sealing, under
    /// the current key and the carried nonce, of the canonical encoding of a
    /// document, and then returns that document.
    pub fn decrypt_document(&self, encrypted: &[u8])
        -> (r: Result<CollaborativeDocument, FileverseError>)
        ensures
            r matches Ok(doc) ==> {
                &&& encrypted@.len() >= 12
                &&& encrypted@.subrange(12, encrypted@.len() as int) == aead_sealed(
                    self.spec_key(), encrypted@.subrange(0, 12), enc_document(doc@))
            },
            r matches Err(e) ==> e matches FileverseError::DecryptionError(_),
            forall|d: DocumentView|
                #![trigger enc_document(d)]
                d.wf() && enc_document(d).len() < AEAD_PLAINTEXT_LIMIT
                    && encrypted@.len() >= 12
                    && encrypted@.subrange(12, encrypted@.len() as int) == aead_sealed(
                        self.spec_key(), encrypted@.subrange(0, 12), enc_document(d))
                ==> (r matches Ok(doc) && doc@ == d),
    {
        if encrypted.len() < 12 {
            return Err(FileverseError::DecryptionError(String::from_str(
                "ciphertext too short")));
        }
        let nonce_bytes = crate::wire::copy_range(encrypted, 0, 12);
        let nonce = crate::wire::vec_to_array12(&nonce_bytes);
        let cipher = crate::wire::copy_range(encrypted, 12, encrypted.len());
        let plain = match aead_decrypt(&self.current_session_key, &nonce,
            cipher.as_slice()) {
            Ok(p) => p,
            Err(_) => {
                return Err(FileverseError::DecryptionError(String::from_str(
                    "integrity check failed")));
            },
        };
        match decode_document(plain.as_slice()) {
            Some(doc) => Ok(doc),
            None => Err(FileverseError::DecryptionError(String::from_str(
                "malformed plaintext"))),
        }
    }
}

} // verus!
