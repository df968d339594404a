//! Fixed-key length-doubling PRG and root-seed sampling.
//!
//! One 16-byte seed expands into two independent 16-byte outputs: each is an
//! AES-128 encryption of the seed under a distinct fixed public key, XORed
//! with the seed (Davies-Meyer-style feed-forward). Root seeds are drawn from
//! a cryptographically secure source and masked down to 127 bits.
use vstd::prelude::*;

use aes::Aes128;
use aes::cipher::{BlockEncrypt, KeyInit};
use aes::cipher::generic_array::GenericArray;
use rand::Rng;
use rand::SeedableRng;
use rand_chacha::ChaCha8Rng;

use crate::codec::Block;
use crate::codec::block_xor;
use crate::codec::is_seed;
use crate::codec::mask_msb;
use crate::errors::DpfError;

verus! {

/// What AES-128 encryption returns: a function of the key and the block
/// alone, left without a definition of its own.
pub uninterp spec fn aes_enc(key: Seq<u8>, block: Seq<u8>) -> Seq<u8>;

/// The first fixed PRG key: sixteen zero bytes.
pub open spec fn fixed_key0() -> Seq<u8> {
    Seq::new(16, |i: int| 0u8)
}

/// The second fixed PRG key: sixteen one bytes.
pub open spec fn fixed_key1() -> Seq<u8> {
    Seq::new(16, |i: int| 1u8)
}

/// Left half of the PRG output for a seed.
pub open spec fn prg_left(s: Seq<u8>) -> Seq<u8> {
    block_xor(aes_enc(fixed_key0(), s), s)
}

/// Right half of the PRG output for a seed.
pub open spec fn prg_right(s: Seq<u8>) -> Seq<u8> {
    block_xor(aes_enc(fixed_key1(), s), s)
}

/// Relies on `aes::Aes128` (`KeyInit::new` then `BlockEncrypt::encrypt_block`):
/// AES-128 encryption of one 16-byte block, a deterministic function of the
/// key and the block alone.
#[verifier::external_body]
pub(crate) fn aes128_encrypt(key: &Block, block: &Block) -> (r: Block)
    ensures
        r@ == aes_enc(key@, block@),
{
    let cipher = Aes128::new(&GenericArray::from(*key));
    let mut out = GenericArray::from(*block);
    cipher.encrypt_block(&mut out);
    out.into()
}

/// Relies on `rand_chacha::ChaCha8Rng::from_rng` seeded from
/// `rand::rngs::OsRng`, and `rand::Rng::gen`: draws 16 bytes from a
/// cryptographically secure source, or reports that the entropy source
/// failed. Nothing is promised of the bytes themselves.
#[verifier::external_body]
pub(crate) fn random_block() -> (r: Result<Block, DpfError>)
    ensures
        r matches Err(e) ==> e == DpfError::EntropyFailure,
{
    match ChaCha8Rng::from_rng(rand::rngs::OsRng) {
        Ok(mut rng) => {
            let b: Block = rng.gen();
            Ok(b)
        },
        Err(_) => Err(DpfError::EntropyFailure),
    }
}

/// Sample a fresh root seed: 16 random bytes with the top bit cleared. An
/// entropy failure is surfaced, never papered over with a non-random seed.
pub fn gen_key() -> (r: Result<Block, DpfError>)
    ensures
        r matches Ok(b) ==> is_seed(b@),
        r matches Err(e) ==> e == DpfError::EntropyFailure,
{
    match random_block() {
        Ok(mut b) => {
            mask_msb(&mut b);
            Ok(b)
        },
        Err(e) => Err(e),
    }
}

} // verus!
