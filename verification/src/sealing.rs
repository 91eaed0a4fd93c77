//! Encryption of private bundles: the archive is sealed with ChaCha20-Poly1305 under a
//! fresh 256-bit key, and that key is wrapped for a badge holder with ECIES over
//! Ristretto255.
//!
//! Formats:
//! - a sealed bundle is a fresh 12-byte nonce followed by the ChaCha20-Poly1305
//!   ciphertext (with its 16-byte tag) of the archive under the bundle key;
//! - a wrapped key is the 32-byte compressed ephemeral point `r·G` followed by the
//!   ChaCha20-Poly1305 ciphertext of the bundle key under `SHA-256(r·P ‖ r·G)` with the
//!   all-zero nonce, where `P` is the holder's public key.

use vstd::prelude::*;
use chacha20poly1305::{ChaCha20Poly1305, Key, KeyInit, Nonce};
use chacha20poly1305::aead::Aead;
use curve25519_dalek::ristretto::{CompressedRistretto, RistrettoPoint};
use curve25519_dalek::scalar::Scalar;
use rand_core::{OsRng, RngCore};
use crate::bundle::{sha256_digest, sha256_spec};

verus! {

#[verifier::external_type_specification]
#[verifier::external_body]
pub struct ExAeadError(chacha20poly1305::aead::Error);

#[verifier::external_type_specification]
#[verifier::external_body]
pub struct ExRandError(rand_core::Error);

/// The length from which ChaCha20-Poly1305 refuses a message: `u32::MAX` blocks of 64 bytes.
pub const MAX_MESSAGE: u64 = 274_877_906_880;

/// The ChaCha20-Poly1305 ciphertext, tag appended, of `plaintext` under `key` and `nonce`.
pub uninterp spec fn chacha20poly1305_seal(key: Seq<u8>, nonce: Seq<u8>, plaintext: Seq<u8>) -> Seq<u8>;

/// Fills `buf` with bytes from the operating system's random source.
///
/// Calls `RngCore::try_fill_bytes` on `rand_core::OsRng`. The bytes are random: the
/// contract claims only that the length is kept.
#[verifier::external_body]
fn fill_random(buf: &mut Vec<u8>) -> (res: Result<(), rand_core::Error>)
    ensures
        final(buf)@.len() == old(buf)@.len(),
{
    OsRng.try_fill_bytes(buf.as_mut_slice())
}

/// Seals `plaintext` under `key` and `nonce`.
///
/// Calls `ChaCha20Poly1305::new` on the key and `Aead::encrypt`, which returns the
/// ciphertext followed by the 16-byte Poly1305 tag, so the result is 16 bytes longer than
/// the plaintext. The crate refuses a plaintext of `MAX_MESSAGE` bytes or more (64-byte
/// blocks numbering `u32::MAX` or more) and nothing else.
#[verifier::external_body]
fn seal(key: &[u8], nonce: &[u8], plaintext: &[u8]) -> (res: Result<Vec<u8>, chacha20poly1305::aead::Error>)
    requires
        key@.len() == 32,
        nonce@.len() == 12,
    ensures
        res matches Ok(c) ==> c@ == chacha20poly1305_seal(key@, nonce@, plaintext@)
            && c@.len() == plaintext@.len() + 16,
        res is Ok <==> plaintext@.len() < MAX_MESSAGE,
{
    ChaCha20Poly1305::new(Key::from_slice(key)).encrypt(Nonce::from_slice(nonce), plaintext)
}

/// The canonical 32-byte encoding of the scalar that `wide` (64 bytes) reduces to
/// modulo the group order.
pub uninterp spec fn scalar_from_wide_spec(wide: Seq<u8>) -> Seq<u8>;

/// The compressed encoding of the scalar (32 bytes, reduced modulo the group order)
/// times the Ristretto255 base point.
pub uninterp spec fn ristretto_base_spec(scalar: Seq<u8>) -> Seq<u8>;

/// Whether 32 bytes are the compressed encoding of a Ristretto255 point.
pub uninterp spec fn ristretto_decodes_spec(point: Seq<u8>) -> bool;

/// The compressed encoding of the point that `point` encodes times the scalar
/// (32 bytes, reduced modulo the group order).
pub uninterp spec fn ristretto_dh_spec(point: Seq<u8>, scalar: Seq<u8>) -> Seq<u8>;

/// The scalar that 64 bytes reduce to, as its canonical 32 bytes.
///
/// Calls `Scalar::from_bytes_mod_order_wide` and takes the scalar's bytes.
#[verifier::external_body]
fn scalar_from_wide(wide: &[u8]) -> (res: Vec<u8>)
    requires
        wide@.len() == 64,
    ensures
        res@ == scalar_from_wide_spec(wide@),
        res@.len() == 32,
{
    let w: [u8; 64] = wide.try_into().unwrap();
    Scalar::from_bytes_mod_order_wide(&w).to_bytes().to_vec()
}

/// The scalar times the base point, compressed.
///
/// Calls `RistrettoPoint::mul_base` on the scalar that the bytes encode (reduced
/// modulo the group order) and compresses the product to 32 bytes.
#[verifier::external_body]
fn ristretto_base(scalar: &[u8]) -> (res: Vec<u8>)
    requires
        scalar@.len() == 32,
    ensures
        res@ == ristretto_base_spec(scalar@),
        res@.len() == 32,
{
    let s: [u8; 32] = scalar.try_into().unwrap();
    RistrettoPoint::mul_base(&Scalar::from_bytes_mod_order(s)).compress().to_bytes().to_vec()
}

/// Whether the bytes encode a point.
///
/// Calls `CompressedRistretto::decompress` and tells whether it gave a point.
#[verifier::external_body]
fn ristretto_decodes(point: &[u8]) -> (res: bool)
    requires
        point@.len() == 32,
    ensures
        res == ristretto_decodes_spec(point@),
{
    let raw: [u8; 32] = point.try_into().unwrap();
    CompressedRistretto(raw).decompress().is_some()
}

/// The encoded point times the scalar, compressed; `None` when the bytes encode no point.
///
/// Calls `CompressedRistretto::decompress`, multiplies the point by the scalar that the
/// bytes encode (reduced modulo the group order), and compresses the product.
#[verifier::external_body]
fn ristretto_dh(point: &[u8], scalar: &[u8]) -> (res: Option<Vec<u8>>)
    requires
        point@.len() == 32,
        scalar@.len() == 32,
    ensures
        res is Some <==> ristretto_decodes_spec(point@),
        res matches Some(v) ==> v@ == ristretto_dh_spec(point@, scalar@) && v@.len() == 32,
{
    let raw: [u8; 32] = point.try_into().unwrap();
    let s: [u8; 32] = scalar.try_into().unwrap();
    match CompressedRistretto(raw).decompress() {
        Some(p) => Some((p * Scalar::from_bytes_mod_order(s)).compress().to_bytes().to_vec()),
        None => None,
    }
}

/// Twelve zero bytes: the nonce of a key wrapping, whose key is used once.
pub open spec fn zero_nonce() -> Seq<u8> {
    Seq::new(12, |i: int| 0u8)
}

/// `sealed` is a sealed bundle of `plaintext` under `key`: some 12-byte nonce followed
/// by the sealing of `plaintext` under `key` and that nonce.
pub open spec fn is_sealed_bundle(sealed: Seq<u8>, key: Seq<u8>, plaintext: Seq<u8>) -> bool {
    exists|nonce: Seq<u8>| nonce.len() == 12
        && sealed == nonce + #[trigger] chacha20poly1305_seal(key, nonce, plaintext)
}

/// `wrapped` is `key` wrapped for the holder of the public key `holder`: for some 64
/// random bytes reducing to the ephemeral scalar `r`, the point `r·G`, followed by the
/// sealing of `key` under `SHA-256(r·P ‖ r·G)` (`P` the holder's point) with the zero
/// nonce.
pub open spec fn is_wrapped_key(wrapped: Seq<u8>, key: Seq<u8>, holder: Seq<u8>) -> bool {
    exists|wide: Seq<u8>| wide.len() == 64 && wrapped == wrapping(#[trigger] scalar_from_wide_spec(wide), key, holder)
}

/// The wrapping of `key` for `holder` under the ephemeral scalar `r`.
pub open spec fn wrapping(r: Seq<u8>, key: Seq<u8>, holder: Seq<u8>) -> Seq<u8> {
    ristretto_base_spec(r) + chacha20poly1305_seal(
        sha256_spec(ristretto_dh_spec(holder, r) + ristretto_base_spec(r)), zero_nonce(), key)
}

/// Why a bundle could not be sealed.
pub enum SealError {
    /// The operating system's random source failed.
    Random,
    /// The cipher refused the input.
    Cipher,
    /// The holder's public key does not encode a Ristretto255 point.
    BadPublicKey,
}

/// A fresh bundle key: 32 random bytes.
pub fn fresh_key() -> (res: Result<Vec<u8>, SealError>)
    ensures
        res matches Ok(k) ==> k@.len() == 32,
        res matches Err(e) ==> e is Random,
{
    let mut k: Vec<u8> = vec![0u8; 32];
    match fill_random(&mut k) {
        Ok(()) => Ok(k),
        Err(_) => Err(SealError::Random),
    }
}

/// Seals `plaintext` under `key` with a fresh random nonce, the nonce first.
pub fn seal_bundle(key: &Vec<u8>, plaintext: &[u8]) -> (res: Result<Vec<u8>, SealError>)
    requires
        key@.len() == 32,
    ensures
        res matches Ok(s) ==> is_sealed_bundle(s@, key@, plaintext@)
            && s@.len() == plaintext@.len() + 28,
        res matches Err(e) ==> e is Random || (e is Cipher && plaintext@.len() >= MAX_MESSAGE),
{
    let mut nonce: Vec<u8> = vec![0u8; 12];
    match fill_random(&mut nonce) {
        Ok(()) => {},
        Err(_) => { return Err(SealError::Random); },
    }
    match seal(key.as_slice(), nonce.as_slice(), plaintext) {
        Ok(c) => {
            let ghost n = nonce@;
            let mut out = nonce;
            let mut c = c;
            out.append(&mut c);
            assert(out@ == n + chacha20poly1305_seal(key@, n, plaintext@));
            Ok(out)
        },
        Err(_) => Err(SealError::Cipher),
    }
}

/// Wraps `key` for the holder of the Ristretto255 public key `holder` (32 bytes): a
/// fresh ephemeral scalar `r`, the shared point `r·P`, and the key sealed under
/// `SHA-256(r·P ‖ r·G)`, behind `r·G`. A `holder` that encodes no point is refused before
/// anything random is drawn.
pub fn wrap_key(holder: &Vec<u8>, key: &Vec<u8>) -> (res: Result<Vec<u8>, SealError>)
    requires
        holder@.len() == 32,
    ensures
        res matches Err(SealError::BadPublicKey) <==> !ristretto_decodes_spec(holder@),
        res matches Ok(w) ==> is_wrapped_key(w@, key@, holder@) && w@.len() == key@.len() + 48,
        res matches Err(e) ==> e is BadPublicKey || e is Random || (e is Cipher && key@.len() >= MAX_MESSAGE),
{
    if !ristretto_decodes(holder.as_slice()) {
        return Err(SealError::BadPublicKey);
    }
    let mut wide: Vec<u8> = vec![0u8; 64];
    match fill_random(&mut wide) {
        Ok(()) => {},
        Err(_) => { return Err(SealError::Random); },
    }
    let r = scalar_from_wide(wide.as_slice());
    let eph = ristretto_base(r.as_slice());
    let mut ikm = match ristretto_dh(holder.as_slice(), r.as_slice()) {
        Some(v) => v,
        None => { return Err(SealError::BadPublicKey); },
    };
    let mut eph_copy = vstd::slice::slice_to_vec(eph.as_slice());
    let ghost shared = ikm@;
    ikm.append(&mut eph_copy);
    assert(ikm@ == shared + eph@);
    let k = sha256_digest(ikm.as_slice());
    let wk = vstd::slice::slice_to_vec(vstd::array::array_as_slice(&k));
    proof { assert(wk@.len() == 32); }
    let nonce: Vec<u8> = vec![0u8; 12];
    assert(nonce@ =~= zero_nonce());
    match seal(wk.as_slice(), nonce.as_slice(), key.as_slice()) {
        Ok(c) => {
            let mut out = eph;
            let mut c = c;
            out.append(&mut c);
            assert(out@ == wrapping(r@, key@, holder@));
            assert(is_wrapped_key(out@, key@, holder@));
            Ok(out)
        },
        Err(_) => Err(SealError::Cipher),
    }
}

} // verus!
