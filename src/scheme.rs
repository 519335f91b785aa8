//! The threshold encryption scheme and its serialization, as seen by the
//! library: opaque key, share and ciphertext values, and the calls that make
//! and consume them.

use vstd::prelude::*;
use std::collections::BTreeMap;
use blsttc::{Ciphertext, DecryptionShare, PublicKey, PublicKeySet, PublicKeyShare};

verus! {

/// Length in bytes of the compressed encoding of a public key.
pub const PK_SIZE: usize = 48;

#[verifier::external_type_specification]
#[verifier::external_body]
pub struct ExPublicKey(blsttc::PublicKey);

#[verifier::external_type_specification]
#[verifier::external_body]
pub struct ExPublicKeySet(blsttc::PublicKeySet);

#[verifier::external_type_specification]
#[verifier::external_body]
pub struct ExPublicKeyShare(blsttc::PublicKeyShare);

#[verifier::external_type_specification]
#[verifier::external_body]
pub struct ExCiphertext(blsttc::Ciphertext);

#[verifier::external_type_specification]
#[verifier::external_body]
pub struct ExDecryptionShare(blsttc::DecryptionShare);

#[verifier::external_type_specification]
#[verifier::external_body]
pub struct ExSchemeError(blsttc::Error);

#[verifier::external_type_specification]
#[verifier::external_body]
pub struct ExCodecErrorKind(bincode::ErrorKind);

#[verifier::external_type_specification]
#[verifier::external_body]
pub struct ExThreadRng(rand::rngs::ThreadRng);

/// Whether `b` is the compressed encoding of a valid public key.
pub uninterp spec fn public_key_decodes(b: Seq<u8>) -> bool;

/// Whether `b` starts with the serialized form of a decryption share.
pub uninterp spec fn share_decodes(b: Seq<u8>) -> bool;

/// Whether `b` starts with the serialized form of a public key set.
pub uninterp spec fn key_set_decodes(b: Seq<u8>) -> bool;

/// Whether `b` starts with the serialized form of a ciphertext.
pub uninterp spec fn ciphertext_decodes(b: Seq<u8>) -> bool;

/// What a public key set holds: the compressed encodings of the coefficients
/// of its commitment polynomial, lowest degree first. A set with `t + 1`
/// coefficients needs `t + 1` shares to decrypt.
pub uninterp spec fn key_set_coefficients(k: PublicKeySet) -> Seq<Seq<u8>>;

/// The little-endian 64-bit integer in the eight bytes of `b` from `at` on.
pub open spec fn le_u64_at(b: Seq<u8>, at: int) -> int
    recommends
        0 <= at && at + 8 <= b.len(),
{
    (b[at] as int) + 0x100 * (b[at + 1] as int) + 0x1_0000 * (b[at + 2] as int) + 0x100_0000 * (
    b[at + 3] as int) + 0x1_0000_0000 * (b[at + 4] as int) + 0x100_0000_0000 * (b[at + 5] as int)
        + 0x1_0000_0000_0000 * (b[at + 6] as int) + 0x100_0000_0000_0000 * (b[at + 7] as int)
}

/// In the serialized form of a key set, the number of coefficients that
/// follow: the length of the coefficient vector, written first.
pub open spec fn coefficient_count(b: Seq<u8>) -> int {
    le_u64_at(b, 0)
}

/// Length in bytes of a compressed point of the first group.
pub const G1_SIZE: usize = 48;

/// Bytes that a serialized ciphertext adds to its payload: the first point
/// (48 bytes), the payload's 64-bit length (8) and the second point (96).
pub const CIPHERTEXT_OVERHEAD: usize = 152;

/// In the serialized form of a ciphertext, the payload length: written after
/// the first point.
pub open spec fn payload_length(b: Seq<u8>) -> int {
    le_u64_at(b, G1_SIZE as int)
}

/// What a ciphertext holds besides its two points: the message bytes, each
/// masked with a pseudorandom byte.
pub uninterp spec fn ciphertext_payload(ct: Ciphertext) -> Seq<u8>;

/// What a ciphertext holds, as bytes: its serialized form (first point,
/// payload length, payload, second point).
pub uninterp spec fn ciphertext_encoding(ct: Ciphertext) -> Seq<u8>;

/// Whether the ciphertext serialized as `b` passes the scheme's validity
/// check, which guards against altered ciphertexts.
pub uninterp spec fn ciphertext_valid(b: Seq<u8>) -> bool;

/// What a public key holds: the compressed encoding of its point.
pub uninterp spec fn public_key_point(pk: PublicKey) -> Seq<u8>;

/// Byte `i` of the pseudorandom mask that encryption under the public key
/// encoded as `key` xors into the message, when the ciphertext's first point
/// is encoded as `nonce`. Key and nonce fix the mask: it is derived from the
/// shared point that both determine.
pub uninterp spec fn mask_byte(key: Seq<u8>, nonce: Seq<u8>, i: nat) -> u8;

/// `message` xor-ed byte for byte with the mask for `key` and `nonce`.
pub open spec fn masked(message: Seq<u8>, key: Seq<u8>, nonce: Seq<u8>) -> Seq<u8> {
    Seq::new(message.len(), |i: int| message[i] ^ mask_byte(key, nonce, i as nat))
}

/// What a public key share holds: the compressed encoding of its point.
pub uninterp spec fn key_share_point(k: PublicKeyShare) -> Seq<u8>;

/// The compressed encoding of participant `i`'s public key share for a key
/// set whose coefficients are encoded as `coeffs`: the commitment polynomial
/// evaluated at `i + 1`.
pub uninterp spec fn key_share_of(coeffs: Seq<Seq<u8>>, i: nat) -> Seq<u8>;

/// Whether a decryption share with point `share` is the one that the holder
/// of the public key share `key_share` computes for the ciphertext serialized
/// as `ct`.
pub uninterp spec fn share_matches(key_share: Seq<u8>, share: Seq<u8>, ct: Seq<u8>) -> bool;

/// What a decryption share holds: the compressed encoding of its point.
pub uninterp spec fn share_point(s: DecryptionShare) -> Seq<u8>;

/// The plaintext that threshold decryption recovers from a key set with
/// `count` coefficients, the points of the shares of participants `0, 1, ...`
/// in that order, and a ciphertext payload.
pub uninterp spec fn combined_plaintext(count: nat, points: Seq<Seq<u8>>, payload: Seq<u8>) -> Seq<u8>;

/// The participant indices `0 .. n`.
pub open spec fn indices(n: nat) -> Set<usize> {
    Set::new(|i: usize| (i as nat) < n)
}

/// The points of the shares held for participants `0 .. n`, in that order.
pub open spec fn share_points(m: Map<usize, DecryptionShare>, n: nat) -> Seq<Seq<u8>> {
    Seq::new(n, |i: int| share_point(m[i as usize]))
}

/// Relies on blsttc::PublicKey::from_bytes: it succeeds exactly on the
/// canonical compressed encodings of valid keys, a property of the bytes alone.
#[verifier::external_body]
pub(crate) fn public_key_from_bytes(b: &[u8]) -> (r: Result<PublicKey, blsttc::Error>)
    requires
        b@.len() == PK_SIZE,
    ensures
        r is Ok <==> public_key_decodes(b@),
        r is Ok ==> public_key_point(r->Ok_0) == b@,
{
    let mut raw = [0u8; blsttc::PK_SIZE];
    raw.copy_from_slice(b);
    PublicKey::from_bytes(raw)
}

/// Relies on rand::thread_rng, which hands out the thread's
/// cryptographically secure generator; nothing is known of what it draws.
pub assume_specification[ rand::thread_rng ]() -> rand::rngs::ThreadRng;

/// Relies on blsttc::PublicKey::encrypt_with_rng: it draws from `rng` and
/// always returns a ciphertext whose payload is the message xor-ed with the
/// mask that the key and the ciphertext's first point fix, and whose second
/// point is built so that the ciphertext passes the validity check.
#[verifier::external_body]
pub(crate) fn encrypt_with_rng(pk: &PublicKey, rng: &mut rand::rngs::ThreadRng, msg: &[u8]) -> (r: Ciphertext)
    ensures
        ciphertext_payload(r).len() == msg@.len(),
        forall|i: int|
            0 <= i < msg@.len() ==> #[trigger] ciphertext_payload(r)[i] == msg@[i] ^ mask_byte(
                public_key_point(*pk),
                ciphertext_encoding(r).take(G1_SIZE as int),
                i as nat,
            ),
        ciphertext_valid(ciphertext_encoding(r)),
{
    pk.encrypt_with_rng(rng, msg)
}

/// Relies on bincode::serialize for a ciphertext: with no size limit set,
/// writing its two fixed-size points and its byte vector into a `Vec` cannot
/// fail, and deserializing what was written reads the same points back.
#[verifier::external_body]
pub(crate) fn serialize_ciphertext(ct: &Ciphertext) -> (r: Result<Vec<u8>, Box<bincode::ErrorKind>>)
    ensures
        r is Ok,
        r is Ok ==> ciphertext_decodes(r->Ok_0@),
        r is Ok ==> r->Ok_0@.len() == CIPHERTEXT_OVERHEAD + ciphertext_payload(*ct).len(),
        r is Ok ==> payload_length(r->Ok_0@) == ciphertext_payload(*ct).len(),
        r is Ok ==> r->Ok_0@ == ciphertext_encoding(*ct),
        r is Ok ==> r->Ok_0@.subrange(G1_SIZE + 8, G1_SIZE + 8 + ciphertext_payload(*ct).len())
            == ciphertext_payload(*ct),
{
    bincode::serialize(ct)
}

/// Relies on bincode::deserialize for a decryption share: whether it
/// succeeds depends on the bytes alone; the point is read from the first 48
/// bytes, which must be its canonical compressed encoding.
#[verifier::external_body]
pub(crate) fn deserialize_share(b: &[u8]) -> (r: Result<DecryptionShare, Box<bincode::ErrorKind>>)
    ensures
        r is Ok <==> share_decodes(b@),
        r is Ok ==> b@.len() >= G1_SIZE && share_point(r->Ok_0) == b@.take(G1_SIZE as int),
{
    bincode::deserialize(b)
}

/// Relies on bincode::deserialize for a public key set: whether it succeeds
/// depends on the bytes alone. The coefficient vector is written as a
/// little-endian 64-bit length followed by the points, so a set that decodes
/// has as many coefficients as the first eight bytes say, each read from the
/// canonical compressed encoding that follows.
#[verifier::external_body]
pub(crate) fn deserialize_key_set(b: &[u8]) -> (r: Result<PublicKeySet, Box<bincode::ErrorKind>>)
    ensures
        r is Ok <==> key_set_decodes(b@),
        r is Ok ==> b@.len() >= 8 && key_set_coefficients(r->Ok_0).len() == coefficient_count(b@),
        r is Ok ==> forall|j: int|
            0 <= j < coefficient_count(b@) ==> #[trigger] key_set_coefficients(r->Ok_0)[j]
                == b@.subrange(8 + G1_SIZE * j, 8 + G1_SIZE * j + G1_SIZE),
{
    bincode::deserialize(b)
}

/// Relies on bincode::deserialize for a ciphertext: whether it succeeds
/// depends on the bytes alone. It reads the first point, the payload as a
/// 64-bit length and that many bytes, then the second point; points are read
/// from their canonical compressed encodings, and trailing bytes are ignored.
#[verifier::external_body]
pub(crate) fn deserialize_ciphertext(b: &[u8]) -> (r: Result<Ciphertext, Box<bincode::ErrorKind>>)
    ensures
        r is Ok <==> ciphertext_decodes(b@),
        r is Ok ==> b@.len() >= CIPHERTEXT_OVERHEAD + payload_length(b@),
        r is Ok ==> ciphertext_payload(r->Ok_0) == b@.subrange(
            G1_SIZE + 8,
            G1_SIZE + 8 + payload_length(b@),
        ),
        r is Ok ==> ciphertext_encoding(r->Ok_0) == b@.take(CIPHERTEXT_OVERHEAD + payload_length(b@)),
{
    bincode::deserialize(b)
}

/// Relies on blsttc::PublicKeySet::decrypt: the plaintext is the payload
/// xor-ed with as many pseudorandom bytes. It interpolates over the first
/// `t + 1` shares, keyed by participant index, where `t + 1` is the number of
/// coefficients, and fails only when there are fewer shares than that (the
/// indices of a map are distinct, so no duplicate entry arises). What it
/// recovers depends on the coefficient count, the share points in index
/// order and the payload alone. The degree is
/// computed as the coefficient count minus one, so the set must not be empty.
#[verifier::external_body]
pub(crate) fn combine_and_decrypt(
    key_set: &PublicKeySet,
    shares: &BTreeMap<usize, DecryptionShare>,
    ct: &Ciphertext,
) -> (r: Result<Vec<u8>, blsttc::Error>)
    requires
        key_set_coefficients(*key_set).len() >= 1,
    ensures
        r is Ok <==> shares@.dom().len() >= key_set_coefficients(*key_set).len(),
        r is Ok ==> r->Ok_0@.len() == ciphertext_payload(*ct).len(),
        r is Ok && shares@.dom() == indices(shares@.dom().len()) ==> r->Ok_0@ == combined_plaintext(
            key_set_coefficients(*key_set).len(),
            share_points(shares@, shares@.dom().len()),
            ciphertext_payload(*ct),
        ),
{
    key_set.decrypt(shares, ct)
}

/// Relies on blsttc::Ciphertext::verify: a pairing check on the ciphertext's
/// parts, a property of its contents alone.
#[verifier::external_body]
pub(crate) fn verify_ciphertext(ct: &Ciphertext) -> (r: bool)
    ensures
        r == ciphertext_valid(ciphertext_encoding(*ct)),
{
    ct.verify()
}

/// Relies on blsttc::PublicKeySet::public_key_share: participant `i`'s public
/// key share, the commitment evaluated at `i + 1`.
#[verifier::external_body]
pub(crate) fn public_key_share(key_set: &PublicKeySet, i: usize) -> (r: PublicKeyShare)
    ensures
        key_share_point(r) == key_share_of(key_set_coefficients(*key_set), i as nat),
{
    key_set.public_key_share(i)
}

/// Relies on blsttc::PublicKeyShare::verify_decryption_share: a pairing check
/// of the share against the key share and the ciphertext's contents.
#[verifier::external_body]
pub(crate) fn verify_decryption_share(
    key_share: &PublicKeyShare,
    share: &DecryptionShare,
    ct: &Ciphertext,
) -> (r: bool)
    ensures
        r == share_matches(key_share_point(*key_share), share_point(*share), ciphertext_encoding(*ct)),
{
    key_share.verify_decryption_share(share, ct)
}

} // verus!
