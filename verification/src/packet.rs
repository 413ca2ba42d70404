//! The pair that travels over the wire: a ciphertext and, in the clear, the
//! nonce it was made under.

use vstd::prelude::*;
use crate::constants::{pre_shared_secret_spec, BLOCK_SIZE, NONCE_SIZE};
use crate::crypto::{decrypt, decrypt_spec, encrypt, encrypt_spec};
use crate::error::CryptoError;
use crate::sbox::standard_table;

verus! {

/// A ciphertext with the nonce needed to rebuild its keys. The nonce is not
/// secret; without it the receiver cannot decrypt.
#[derive(Debug)]
pub struct EncryptedPacket {
    pub nonce: Vec<u8>,
    pub encrypted_payload: Vec<u8>,
}

impl EncryptedPacket {
    /// The nonce has the fixed size and the payload is whole blocks.
    pub open spec fn well_formed(&self) -> bool {
        &&& self.nonce@.len() == NONCE_SIZE
        &&& self.encrypted_payload@.len() % (BLOCK_SIZE as nat) == 0
    }

    /// Encrypts `data` under a fresh nonce and pairs the two.
    pub fn seal(data: &[u8]) -> (packet: EncryptedPacket)
        ensures
            packet.well_formed(),
            packet.encrypted_payload@ == encrypt_spec(
                standard_table(),
                pre_shared_secret_spec(),
                data@,
                packet.nonce@,
            ),
            decrypt_spec(
                standard_table(),
                pre_shared_secret_spec(),
                packet.encrypted_payload@,
                packet.nonce@,
            ) == Ok::<Seq<u8>, CryptoError>(data@),
    {
        let (encrypted_payload, nonce) = encrypt(data);
        EncryptedPacket { nonce, encrypted_payload }
    }

    /// Decrypts the payload under the packet's own nonce. A packet that is
    /// not well formed is rejected with the error that names its fault.
    pub fn open(&self) -> (result: Result<Vec<u8>, CryptoError>)
        ensures
            match result {
                Ok(payload) => decrypt_spec(
                    standard_table(),
                    pre_shared_secret_spec(),
                    self.encrypted_payload@,
                    self.nonce@,
                ) == Ok::<Seq<u8>, CryptoError>(payload@),
                Err(e) => decrypt_spec(
                    standard_table(),
                    pre_shared_secret_spec(),
                    self.encrypted_payload@,
                    self.nonce@,
                ) == Err::<Seq<u8>, CryptoError>(e),
            },
            !self.well_formed() ==> result.is_err(),
    {
        decrypt(self.encrypted_payload.as_slice(), self.nonce.as_slice())
    }
}

} // verus!
