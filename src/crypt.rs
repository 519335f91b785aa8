//! The two entry points: encrypt a message under a public key, and combine
//! decryption shares to recover a message. Every serialized payload they take
//! or give is byte-reversed.

use vstd::prelude::*;
use std::collections::BTreeMap;
use blsttc::DecryptionShare;
use crate::bytes::{reverse_bytes, reversed};
use crate::slices::{length_prefixed_slices, split_slices};
use crate::scheme::{
    PK_SIZE, public_key_decodes, share_decodes, key_set_decodes, ciphertext_decodes,
    coefficient_count, indices, share_point, share_points, combined_plaintext, ciphertext_valid,
    ciphertext_encoding, ciphertext_payload, key_set_coefficients, key_share_of, share_matches,
    public_key_share, verify_decryption_share, verify_ciphertext, G1_SIZE, le_u64_at, masked, payload_length, CIPHERTEXT_OVERHEAD,
    public_key_from_bytes, encrypt_with_rng, serialize_ciphertext, deserialize_share,
    deserialize_key_set, deserialize_ciphertext, combine_and_decrypt,
};

verus! {

/// Why encryption or decryption produced no result.
#[derive(Debug, Clone, Copy, PartialEq, Eq, Structural)]
pub enum CryptError {
    /// The public-key buffer holds fewer than `PK_SIZE` bytes.
    ShortPublicKey,
    /// The first `PK_SIZE` bytes are not a valid public key.
    InvalidPublicKey,
    /// The share at this position of the shares buffer does not decode.
    MalformedShare { index: usize },
    /// The public key set does not decode.
    MalformedKeySet,
    /// The ciphertext does not decode.
    MalformedCiphertext,
    /// The share at this position does not match its participant's public
    /// key share for the ciphertext.
    InvalidShare { index: usize },
    /// The shares could not be combined into a plaintext (too few of them,
    /// or inconsistent ones).
    DecryptionFailed,
}

/// Whether a byte string of the shares buffer is, once reversed, exactly
/// one serialized share: a compressed point and nothing more.
pub open spec fn share_well_formed(s: Seq<u8>) -> bool {
    s.len() == G1_SIZE && share_decodes(reversed(s))
}

/// Whether every byte string is a well-formed reversed share.
pub open spec fn all_shares_decode(slices: Seq<Seq<u8>>) -> bool {
    forall|i: int| 0 <= i < slices.len() ==> #[trigger] share_well_formed(slices[i])
}

/// Whether `index` is the first position whose byte string is not a
/// well-formed reversed share.
pub open spec fn first_bad_share(slices: Seq<Seq<u8>>, index: int) -> bool {
    &&& 0 <= index < slices.len()
    &&& !share_well_formed(slices[index])
    &&& forall|j: int| 0 <= j < index ==> #[trigger] share_well_formed(slices[j])
}

/// The share points that the byte strings carry, in order.
pub open spec fn wire_share_points(slices: Seq<Seq<u8>>) -> Seq<Seq<u8>> {
    Seq::new(slices.len(), |i: int| reversed(slices[i]))
}

/// Decodes a length-prefixed buffer of byte-reversed serialized decryption
/// shares into a map from position (counted from 0) to share.
pub fn decode_shares(encoded: Vec<u8>) -> (r: Result<BTreeMap<usize, DecryptionShare>, CryptError>)
    ensures
        r is Ok <==> all_shares_decode(length_prefixed_slices(encoded@)),
        r is Ok ==> r->Ok_0@.dom() == indices(length_prefixed_slices(encoded@).len()),
        r is Ok ==> r->Ok_0@.dom().len() == length_prefixed_slices(encoded@).len(),
        r is Ok ==> share_points(r->Ok_0@, length_prefixed_slices(encoded@).len())
            == wire_share_points(length_prefixed_slices(encoded@)),
        r is Err ==> (r->Err_0 matches CryptError::MalformedShare { index }
            && first_bad_share(length_prefixed_slices(encoded@), index as int)),
{
    let ghost whole = encoded@;
    let parts = split_slices(encoded);
    let mut shares: BTreeMap<usize, DecryptionShare> = BTreeMap::new();
    let mut i: usize = 0;
    while i < parts.len()
        invariant
            whole == encoded@,
            parts@.len() == length_prefixed_slices(whole).len(),
            forall|k: int| 0 <= k < parts@.len() ==> #[trigger] parts@[k]@ == length_prefixed_slices(whole)[k],
            i <= parts@.len(),
            shares@.dom() == indices(i as nat),
            shares@.dom().finite(),
            shares@.dom().len() == i,
            forall|j: int| 0 <= j < i ==> #[trigger] share_well_formed(length_prefixed_slices(whole)[j]),
            forall|j: int| 0 <= j < i ==> share_point(#[trigger] shares@[j as usize])
                == reversed(length_prefixed_slices(whole)[j]),
        decreases parts@.len() - i,
    {
        let part = parts[i].clone();
        assert(part@ == length_prefixed_slices(whole)[i as int]);
        let raw = reverse_bytes(part);
        if raw.len() != G1_SIZE {
            assert(!share_well_formed(length_prefixed_slices(whole)[i as int]));
            return Err(CryptError::MalformedShare { index: i });
        }
        match deserialize_share(raw.as_slice()) {
            Ok(share) => {
                assert(!shares@.dom().contains(i));
                assert(raw@.take(G1_SIZE as int) =~= raw@);
                shares.insert(i, share);
                assert(shares@.dom() =~= indices((i + 1) as nat));
                assert(share_well_formed(length_prefixed_slices(whole)[i as int]));
            },
            Err(_) => {
                assert(!share_well_formed(length_prefixed_slices(whole)[i as int]));
                return Err(CryptError::MalformedShare { index: i });
            },
        }
        i = i + 1;
    }
    assert(share_points(shares@, parts@.len() as nat) =~= wire_share_points(length_prefixed_slices(whole)));
    Ok(shares)
}

/// The payload that the serialized ciphertext `c` carries.
pub open spec fn wire_payload(c: Seq<u8>) -> Seq<u8> {
    c.subrange(G1_SIZE + 8, G1_SIZE + 8 + payload_length(c))
}

/// Whether the reversed key-set buffer is exactly one serialized key set with
/// at least one coefficient.
pub open spec fn key_set_usable(key_set: Seq<u8>) -> bool {
    let raw = reversed(key_set);
    &&& key_set_decodes(raw)
    &&& coefficient_count(raw) >= 1
    &&& raw.len() == 8 + G1_SIZE * coefficient_count(raw)
}

/// Whether the reversed ciphertext buffer is exactly one serialized
/// ciphertext, and that ciphertext passes the validity check.
pub open spec fn ciphertext_usable(ciphertext: Seq<u8>) -> bool {
    let raw = reversed(ciphertext);
    &&& ciphertext_decodes(raw)
    &&& raw.len() == CIPHERTEXT_OVERHEAD + payload_length(raw)
    &&& ciphertext_valid(raw)
}

/// Whether all three buffers are usable: the shares, the key set and the
/// ciphertext.
pub open spec fn parts_decode(key_set: Seq<u8>, shares: Seq<u8>, ciphertext: Seq<u8>) -> bool {
    &&& all_shares_decode(length_prefixed_slices(shares))
    &&& key_set_usable(key_set)
    &&& ciphertext_usable(ciphertext)
}

/// The coefficient encodings that the serialized key set `raw` carries.
pub open spec fn wire_coefficients(raw: Seq<u8>) -> Seq<Seq<u8>> {
    Seq::new(
        coefficient_count(raw) as nat,
        |j: int| raw.subrange(8 + G1_SIZE * j, 8 + G1_SIZE * j + G1_SIZE),
    )
}

/// Whether the share at position `i` of the shares buffer matches
/// participant `i`'s public key share for the ciphertext.
pub open spec fn share_verifies(key_set: Seq<u8>, shares: Seq<u8>, ciphertext: Seq<u8>, i: int) -> bool {
    share_matches(
        key_share_of(wire_coefficients(reversed(key_set)), i as nat),
        reversed(length_prefixed_slices(shares)[i]),
        reversed(ciphertext),
    )
}

/// Whether every share matches its participant's public key share.
pub open spec fn all_shares_verify(key_set: Seq<u8>, shares: Seq<u8>, ciphertext: Seq<u8>) -> bool {
    forall|i: int|
        0 <= i < length_prefixed_slices(shares).len() ==> #[trigger] share_verifies(
            key_set,
            shares,
            ciphertext,
            i,
        )
}

/// Whether `index` is the first position whose share does not match.
pub open spec fn first_invalid_share(key_set: Seq<u8>, shares: Seq<u8>, ciphertext: Seq<u8>, index: int) -> bool {
    &&& 0 <= index < length_prefixed_slices(shares).len()
    &&& !share_verifies(key_set, shares, ciphertext, index)
    &&& forall|j: int| 0 <= j < index ==> #[trigger] share_verifies(key_set, shares, ciphertext, j)
}

/// The little-endian 64-bit integer at `at` in `b`.
fn read_le_u64(b: &Vec<u8>, at: usize) -> (r: u64)
    requires
        at + 8 <= b@.len(),
    ensures
        r as int == le_u64_at(b@, at as int),
{
    let _len: usize = b.len();
    b[at] as u64 + 0x100 * (b[at + 1] as u64) + 0x1_0000 * (b[at + 2] as u64) + 0x100_0000 * (
    b[at + 3] as u64) + 0x1_0000_0000 * (b[at + 4] as u64) + 0x100_0000_0000 * (b[at + 5] as u64)
        + 0x1_0000_0000_0000 * (b[at + 6] as u64) + 0x100_0000_0000_0000 * (b[at + 7] as u64)
}

/// Encrypts `message` under the public key held in the first `PK_SIZE`
/// bytes of `public_key`, drawing fresh randomness from the thread's secure
/// generator, and returns the serialized ciphertext byte-reversed.
///
/// Bytes of `public_key` past the first `PK_SIZE` are ignored. The output
/// is a valid ciphertext whose payload is the whole message masked under
/// that key.
pub fn encrypt(public_key: Vec<u8>, message: Vec<u8>) -> (r: Result<Vec<u8>, CryptError>)
    ensures
        r == Err::<Vec<u8>, CryptError>(CryptError::ShortPublicKey) <==> public_key@.len() < PK_SIZE,
        r == Err::<Vec<u8>, CryptError>(CryptError::InvalidPublicKey) <==> public_key@.len() >= PK_SIZE
            && !public_key_decodes(public_key@.take(PK_SIZE as int)),
        r is Ok <==> public_key@.len() >= PK_SIZE && public_key_decodes(
            public_key@.take(PK_SIZE as int),
        ),
        r is Ok ==> ciphertext_decodes(reversed(r->Ok_0@)),
        r is Ok ==> ciphertext_usable(r->Ok_0@),
        r is Ok ==> r->Ok_0@.len() == message@.len() + CIPHERTEXT_OVERHEAD,
        r is Ok ==> payload_length(reversed(r->Ok_0@)) == message@.len(),
        r is Ok ==> wire_payload(reversed(r->Ok_0@)) == masked(
            message@,
            public_key@.take(PK_SIZE as int),
            reversed(r->Ok_0@).take(G1_SIZE as int),
        ),
        r is Err ==> (r->Err_0 is ShortPublicKey || r->Err_0 is InvalidPublicKey),
{
    if public_key.len() < PK_SIZE {
        return Err(CryptError::ShortPublicKey);
    }
    let mut head: Vec<u8> = Vec::with_capacity(PK_SIZE);
    let mut i: usize = 0;
    while i < PK_SIZE
        invariant
            PK_SIZE <= public_key@.len(),
            i <= PK_SIZE,
            head@ == public_key@.take(i as int),
        decreases PK_SIZE - i,
    {
        head.push(public_key[i]);
        i = i + 1;
        assert(head@ =~= public_key@.take(i as int));
    }
    let key = match public_key_from_bytes(head.as_slice()) {
        Ok(key) => key,
        Err(_) => {
            return Err(CryptError::InvalidPublicKey);
        },
    };
    let mut rng = rand::thread_rng();
    let ct = encrypt_with_rng(&key, &mut rng, message.as_slice());
    match serialize_ciphertext(&ct) {
        Ok(serialized) => {
            let ghost written = serialized@;
            let wire = reverse_bytes(serialized);
            proof {
                crate::bytes::lemma_reverse_involution(written);
                assert(ciphertext_payload(ct) =~= masked(
                    message@,
                    public_key@.take(PK_SIZE as int),
                    written.take(G1_SIZE as int),
                ));
            }
            Ok(wire)
        },
        Err(_) => {
            // serializing a ciphertext into memory does not fail
            proof {
                assert(false);
            }
            Err(CryptError::InvalidPublicKey)
        },
    }
}

/// Recovers a message from byte-reversed serialized parts: the public key
/// set, a length-prefixed buffer of byte-reversed decryption shares (the
/// share at position `i` is taken as participant `i`'s), and the ciphertext.
///
/// The shares are checked first, then the key set, then the ciphertext; the
/// first of them that is not usable is the error. Each part must be exactly
/// one serialized value: a key set must have a coefficient, and a ciphertext
/// must pass the scheme's validity check. Then each share is checked against
/// its participant's public key share, and the first that does not match is
/// the error. When all match, the shares are combined: that succeeds exactly when there are at least as many shares as
/// the key set has coefficients (its threshold plus one), and the recovered
/// plaintext is returned as it is.
#[verifier::loop_isolation(false)]
pub fn decrypt(key_set: Vec<u8>, shares: Vec<u8>, ciphertext: Vec<u8>) -> (r: Result<Vec<u8>, CryptError>)
    ensures
        (r matches Err(CryptError::MalformedShare { index })) <==> !all_shares_decode(
            length_prefixed_slices(shares@),
        ),
        r matches Err(CryptError::MalformedShare { index }) ==> first_bad_share(
            length_prefixed_slices(shares@),
            index as int,
        ),
        r == Err::<Vec<u8>, CryptError>(CryptError::MalformedKeySet) <==> all_shares_decode(
            length_prefixed_slices(shares@),
        ) && !key_set_usable(key_set@),
        r == Err::<Vec<u8>, CryptError>(CryptError::MalformedCiphertext) <==> all_shares_decode(
            length_prefixed_slices(shares@),
        ) && key_set_usable(key_set@) && !ciphertext_usable(ciphertext@),
        (r matches Err(CryptError::InvalidShare { index })) <==> parts_decode(
            key_set@,
            shares@,
            ciphertext@,
        ) && !all_shares_verify(key_set@, shares@, ciphertext@),
        r matches Err(CryptError::InvalidShare { index }) ==> first_invalid_share(
            key_set@,
            shares@,
            ciphertext@,
            index as int,
        ),
        r == Err::<Vec<u8>, CryptError>(CryptError::DecryptionFailed) <==> parts_decode(
            key_set@,
            shares@,
            ciphertext@,
        ) && all_shares_verify(key_set@, shares@, ciphertext@) && length_prefixed_slices(
            shares@,
        ).len() < coefficient_count(reversed(key_set@)),
        r is Ok <==> parts_decode(key_set@, shares@, ciphertext@) && all_shares_verify(
            key_set@,
            shares@,
            ciphertext@,
        ) && length_prefixed_slices(shares@).len() >= coefficient_count(reversed(key_set@)),
        r is Ok ==> r->Ok_0@ == combined_plaintext(
            coefficient_count(reversed(key_set@)) as nat,
            wire_share_points(length_prefixed_slices(shares@)),
            wire_payload(reversed(ciphertext@)),
        ),
        r is Ok ==> r->Ok_0@.len() == payload_length(reversed(ciphertext@)),
{
    let indexed = match decode_shares(shares) {
        Ok(m) => m,
        Err(e) => {
            return Err(e);
        },
    };
    let key_set_raw = reverse_bytes(key_set);
    let keys = match deserialize_key_set(key_set_raw.as_slice()) {
        Ok(keys) => keys,
        Err(_) => {
            return Err(CryptError::MalformedKeySet);
        },
    };
    let count = read_le_u64(&key_set_raw, 0);
    if count == 0 || (count as u128) * (G1_SIZE as u128) + 8 != key_set_raw.len() as u128 {
        return Err(CryptError::MalformedKeySet);
    }
    let ct_raw = reverse_bytes(ciphertext);
    let ct = match deserialize_ciphertext(ct_raw.as_slice()) {
        Ok(ct) => ct,
        Err(_) => {
            return Err(CryptError::MalformedCiphertext);
        },
    };
    let payload_len = read_le_u64(&ct_raw, G1_SIZE);
    if (payload_len as u128) + (CIPHERTEXT_OVERHEAD as u128) != ct_raw.len() as u128 {
        return Err(CryptError::MalformedCiphertext);
    }
    assert(ct_raw@.take(CIPHERTEXT_OVERHEAD + payload_length(ct_raw@)) =~= ct_raw@);
    if !verify_ciphertext(&ct) {
        return Err(CryptError::MalformedCiphertext);
    }
    assert(parts_decode(key_set@, shares@, ciphertext@));
    let ghost slices = length_prefixed_slices(shares@);
    let ghost coeffs = key_set_coefficients(keys);
    assert(coeffs =~= wire_coefficients(key_set_raw@));
    let n: usize = indexed.len();
    let mut i: usize = 0;
    while i < n
        invariant
            n == slices.len(),
            indexed@.dom() == indices(n as nat),
            share_points(indexed@, n as nat) == wire_share_points(slices),
            coeffs == key_set_coefficients(keys),
            coeffs == wire_coefficients(key_set_raw@),
            key_set_raw@ == reversed(key_set@),
            ct_raw@ == reversed(ciphertext@),
            ciphertext_encoding(ct) == ct_raw@,
            slices == length_prefixed_slices(shares@),
            i <= n,
            forall|j: int| 0 <= j < i ==> #[trigger] share_verifies(key_set@, shares@, ciphertext@, j),
        decreases n - i,
    {
        let key_share = public_key_share(&keys, i);
        let share = match indexed.get(&i) {
            Some(share) => share,
            None => {
                // every position below `n` holds a share
                proof {
                    assert(indexed@.dom().contains(i));
                    assert(false);
                }
                return Err(CryptError::DecryptionFailed);
            },
        };
        assert(share_point(*share) == share_points(indexed@, n as nat)[i as int]);
        if !verify_decryption_share(&key_share, share, &ct) {
            assert(!share_verifies(key_set@, shares@, ciphertext@, i as int));
            return Err(CryptError::InvalidShare { index: i });
        }
        i = i + 1;
    }
    match combine_and_decrypt(&keys, &indexed, &ct) {
        Ok(plain) => Ok(plain),
        Err(_) => Err(CryptError::DecryptionFailed),
    }
}

/// A ciphertext that `encrypt` made from a message decrypts, whenever the
/// shares combine, to a plaintext exactly as long as that message; in
/// particular an empty message comes back empty.
pub proof fn lemma_round_trip_length(message: Seq<u8>, wire: Seq<u8>, plain: Seq<u8>)
    requires
        payload_length(reversed(wire)) == message.len(),
        plain.len() == payload_length(reversed(wire)),
    ensures
        plain.len() == message.len(),
        message.len() == 0 ==> plain.len() == 0,
{
}

} // verus!
