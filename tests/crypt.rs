use blsttc::{Ciphertext, SecretKeySet};
use tau_crypt::scheme::CIPHERTEXT_OVERHEAD;
use tau_crypt::{decode_shares, decrypt, encrypt, reverse_bytes, CryptError, PK_SIZE};

fn key_material(threshold: usize) -> SecretKeySet {
    let mut rng = rand::thread_rng();
    SecretKeySet::random(threshold, &mut rng)
}

fn public_key_bytes(sks: &SecretKeySet) -> Vec<u8> {
    sks.public_keys().public_key().to_bytes().to_vec()
}

fn key_set_bytes(sks: &SecretKeySet) -> Vec<u8> {
    let mut b = bincode::serialize(&sks.public_keys()).unwrap();
    b.reverse();
    b
}

fn ciphertext_of(wire: &[u8]) -> Ciphertext {
    let mut b = wire.to_vec();
    b.reverse();
    bincode::deserialize(&b).unwrap()
}

fn push_slice(out: &mut Vec<u8>, body: &[u8]) {
    out.extend_from_slice(&(body.len() as u16).to_le_bytes());
    out.extend_from_slice(body);
}

fn share_buffer(sks: &SecretKeySet, participants: &[usize], wire_ct: &[u8]) -> Vec<u8> {
    let ct = ciphertext_of(wire_ct);
    let mut out = Vec::new();
    for &p in participants {
        let share = sks.secret_key_share(p).decrypt_share(&ct).unwrap();
        let mut b = bincode::serialize(&share).unwrap();
        b.reverse();
        push_slice(&mut out, &b);
    }
    out
}

#[test]
fn reverse_bytes_empty() {
    assert_eq!(reverse_bytes(vec![]), Vec::<u8>::new());
}

#[test]
fn reverse_bytes_single() {
    assert_eq!(reverse_bytes(vec![7]), vec![7]);
}

#[test]
fn reverse_bytes_many() {
    assert_eq!(reverse_bytes(vec![1, 2, 3, 4, 5]), vec![5, 4, 3, 2, 1]);
}

#[test]
fn reverse_bytes_twice_is_identity() {
    for v in [vec![], vec![9u8], vec![0u8, 1, 2, 250, 255, 3]] {
        assert_eq!(reverse_bytes(reverse_bytes(v.clone())), v);
    }
}

#[test]
fn pk_size_matches_scheme() {
    assert_eq!(PK_SIZE, blsttc::PK_SIZE);
}

#[test]
fn round_trip_with_threshold_shares() {
    let sks = key_material(2);
    let msg = b"threshold secret".to_vec();
    let ct = encrypt(public_key_bytes(&sks), msg.clone()).unwrap();
    let shares = share_buffer(&sks, &[0, 1, 2], &ct);
    assert_eq!(decrypt(key_set_bytes(&sks), shares, ct).unwrap(), msg);
}

#[test]
fn round_trip_with_more_than_threshold_shares() {
    let sks = key_material(1);
    let msg = vec![0u8, 1, 2, 3, 255];
    let ct = encrypt(public_key_bytes(&sks), msg.clone()).unwrap();
    let shares = share_buffer(&sks, &[0, 1, 2, 3], &ct);
    assert_eq!(decrypt(key_set_bytes(&sks), shares, ct).unwrap(), msg);
}

#[test]
fn ciphertext_is_byte_reversed_serialization() {
    let sks = key_material(0);
    let msg = b"abc".to_vec();
    let wire = encrypt(public_key_bytes(&sks), msg.clone()).unwrap();
    let ct = ciphertext_of(&wire);
    let mut plain = bincode::serialize(&ct).unwrap();
    plain.reverse();
    assert_eq!(plain, wire);
}

#[test]
fn encryption_is_randomized() {
    let sks = key_material(1);
    let pk = public_key_bytes(&sks);
    let msg = b"same message".to_vec();
    let a = encrypt(pk.clone(), msg.clone()).unwrap();
    let b = encrypt(pk, msg.clone()).unwrap();
    assert_ne!(a, b);
    let sa = share_buffer(&sks, &[0, 1], &a);
    let sb = share_buffer(&sks, &[0, 1], &b);
    assert_eq!(decrypt(key_set_bytes(&sks), sa, a).unwrap(), msg);
    assert_eq!(decrypt(key_set_bytes(&sks), sb, b).unwrap(), msg);
}

#[test]
fn too_few_shares_fail() {
    let sks = key_material(2);
    let ct = encrypt(public_key_bytes(&sks), b"hidden".to_vec()).unwrap();
    let shares = share_buffer(&sks, &[0, 1], &ct);
    assert_eq!(decrypt(key_set_bytes(&sks), shares, ct), Err(CryptError::DecryptionFailed));
}

#[test]
fn no_shares_fail() {
    let sks = key_material(0);
    let ct = encrypt(public_key_bytes(&sks), b"hidden".to_vec()).unwrap();
    assert_eq!(decrypt(key_set_bytes(&sks), vec![], ct), Err(CryptError::DecryptionFailed));
}

#[test]
fn shares_are_keyed_by_position() {
    let sks = key_material(1);
    let msg = b"order matters".to_vec();
    let ct = encrypt(public_key_bytes(&sks), msg.clone()).unwrap();
    let swapped = share_buffer(&sks, &[1, 0], &ct);
    let r = decrypt(key_set_bytes(&sks), swapped, ct);
    assert!(r != Ok(msg));
}

#[test]
fn short_public_key_is_rejected() {
    let sks = key_material(1);
    let mut pk = public_key_bytes(&sks);
    pk.truncate(PK_SIZE - 1);
    assert_eq!(encrypt(pk, b"m".to_vec()), Err(CryptError::ShortPublicKey));
    assert_eq!(encrypt(vec![], b"m".to_vec()), Err(CryptError::ShortPublicKey));
}

#[test]
fn invalid_public_key_is_rejected() {
    assert_eq!(encrypt(vec![0u8; PK_SIZE], b"m".to_vec()), Err(CryptError::InvalidPublicKey));
    assert_eq!(encrypt(vec![0xffu8; PK_SIZE], b"m".to_vec()), Err(CryptError::InvalidPublicKey));
}

#[test]
fn bytes_after_public_key_are_ignored() {
    let sks = key_material(0);
    let mut pk = public_key_bytes(&sks);
    pk.extend_from_slice(&[1, 2, 3]);
    let msg = b"longer key buffer".to_vec();
    let ct = encrypt(pk, msg.clone()).unwrap();
    let shares = share_buffer(&sks, &[0], &ct);
    assert_eq!(decrypt(key_set_bytes(&sks), shares, ct).unwrap(), msg);
}

#[test]
fn corrupted_key_set_is_rejected() {
    let sks = key_material(1);
    let ct = encrypt(public_key_bytes(&sks), b"x".to_vec()).unwrap();
    let shares = share_buffer(&sks, &[0, 1], &ct);
    let mut ks = key_set_bytes(&sks);
    ks.truncate(ks.len() / 2);
    assert_eq!(decrypt(ks, shares.clone(), ct.clone()), Err(CryptError::MalformedKeySet));
    assert_eq!(decrypt(vec![], shares, ct), Err(CryptError::MalformedKeySet));
}

#[test]
fn corrupted_ciphertext_is_rejected() {
    let sks = key_material(1);
    let ct = encrypt(public_key_bytes(&sks), b"x".to_vec()).unwrap();
    let shares = share_buffer(&sks, &[0, 1], &ct);
    let short = ct[ct.len() / 2..].to_vec();
    assert_eq!(decrypt(key_set_bytes(&sks), shares, short), Err(CryptError::MalformedCiphertext));
}

#[test]
fn corrupted_share_is_rejected() {
    let sks = key_material(1);
    let ct = encrypt(public_key_bytes(&sks), b"x".to_vec()).unwrap();
    let mut shares = share_buffer(&sks, &[0], &ct);
    push_slice(&mut shares, &[1, 2, 3]);
    assert_eq!(
        decrypt(key_set_bytes(&sks), shares, ct),
        Err(CryptError::MalformedShare { index: 1 })
    );
}

#[test]
fn share_error_comes_before_key_set_error() {
    let mut shares = Vec::new();
    push_slice(&mut shares, &[1, 2, 3]);
    assert_eq!(decrypt(vec![], shares, vec![]), Err(CryptError::MalformedShare { index: 0 }));
}

#[test]
fn empty_plaintext_round_trip() {
    let sks = key_material(1);
    let ct = encrypt(public_key_bytes(&sks), vec![]).unwrap();
    let shares = share_buffer(&sks, &[0, 1], &ct);
    assert_eq!(decrypt(key_set_bytes(&sks), shares, ct).unwrap(), Vec::<u8>::new());
}

#[test]
fn decode_shares_keys_by_position() {
    let sks = key_material(1);
    let ct = encrypt(public_key_bytes(&sks), b"k".to_vec()).unwrap();
    let shares = share_buffer(&sks, &[4, 7, 9], &ct);
    let m = decode_shares(shares).unwrap();
    assert_eq!(m.keys().copied().collect::<Vec<usize>>(), vec![0, 1, 2]);
    let ctv = ciphertext_of(&ct);
    assert_eq!(m[&1], sks.secret_key_share(7usize).decrypt_share(&ctv).unwrap());
}

#[test]
fn decode_shares_of_empty_buffer_is_empty() {
    assert!(decode_shares(vec![]).unwrap().is_empty());
}

#[test]
fn decode_shares_stops_at_truncated_entry() {
    let sks = key_material(1);
    let ct = encrypt(public_key_bytes(&sks), b"k".to_vec()).unwrap();
    let mut shares = share_buffer(&sks, &[0, 1], &ct);
    shares.extend_from_slice(&[200, 0, 1, 2]);
    assert_eq!(decode_shares(shares).unwrap().len(), 2);
}

#[test]
fn ciphertext_length_is_message_plus_overhead() {
    let sks = key_material(1);
    for msg in [vec![], vec![5u8], b"twenty bytes long...".to_vec()] {
        let wire = encrypt(public_key_bytes(&sks), msg.clone()).unwrap();
        assert_eq!(wire.len(), msg.len() + 152);
        assert_eq!(wire.len(), msg.len() + CIPHERTEXT_OVERHEAD);
    }
}

#[test]
fn key_set_without_coefficients_is_rejected() {
    let sks = key_material(0);
    let ct = encrypt(public_key_bytes(&sks), b"x".to_vec()).unwrap();
    let shares = share_buffer(&sks, &[0], &ct);
    assert_eq!(decrypt(vec![0u8; 8], shares, ct), Err(CryptError::MalformedKeySet));
}

#[test]
fn empty_message_encrypts_with_valid_key() {
    let sks = key_material(2);
    let wire = encrypt(public_key_bytes(&sks), vec![]).unwrap();
    assert_eq!(wire.len(), 152);
    assert!(bincode::deserialize::<Ciphertext>(&reverse_bytes(wire)).is_ok());
}

#[test]
fn exactly_threshold_shares_succeed() {
    let sks = key_material(3);
    let msg = b"four of them".to_vec();
    let ct = encrypt(public_key_bytes(&sks), msg.clone()).unwrap();
    let three = share_buffer(&sks, &[0, 1, 2], &ct);
    assert_eq!(decrypt(key_set_bytes(&sks), three, ct.clone()), Err(CryptError::DecryptionFailed));
    let four = share_buffer(&sks, &[0, 1, 2, 3], &ct);
    assert_eq!(decrypt(key_set_bytes(&sks), four, ct).unwrap(), msg);
}

#[test]
fn swapped_shares_are_rejected() {
    let sks = key_material(1);
    let ct = encrypt(public_key_bytes(&sks), b"order matters".to_vec()).unwrap();
    let swapped = share_buffer(&sks, &[1, 0], &ct);
    assert_eq!(
        decrypt(key_set_bytes(&sks), swapped, ct),
        Err(CryptError::InvalidShare { index: 0 })
    );
}

#[test]
fn share_of_other_key_set_is_rejected() {
    let sks = key_material(1);
    let other = key_material(1);
    let ct = encrypt(public_key_bytes(&sks), b"m".to_vec()).unwrap();
    let ctv = ciphertext_of(&ct);
    let mut shares = share_buffer(&sks, &[0], &ct);
    let foreign = other.secret_key_share(1usize).decrypt_share_no_verify(&ctv);
    let mut b = bincode::serialize(&foreign).unwrap();
    b.reverse();
    push_slice(&mut shares, &b);
    assert_eq!(
        decrypt(key_set_bytes(&sks), shares, ct),
        Err(CryptError::InvalidShare { index: 1 })
    );
}

#[test]
fn altered_ciphertext_payload_is_rejected() {
    let sks = key_material(1);
    let mut ct = encrypt(public_key_bytes(&sks), b"payload".to_vec()).unwrap();
    let shares = share_buffer(&sks, &[0, 1], &ct);
    // the payload sits between the second point and the length field once reversed
    let at = ct.len() - 48 - 8 - 1;
    ct[at] ^= 1;
    assert_eq!(decrypt(key_set_bytes(&sks), shares, ct), Err(CryptError::MalformedCiphertext));
}

#[test]
fn ciphertext_with_trailing_bytes_is_rejected() {
    let sks = key_material(0);
    let ct = encrypt(public_key_bytes(&sks), b"t".to_vec()).unwrap();
    let shares = share_buffer(&sks, &[0], &ct);
    let mut longer = vec![7u8];
    longer.extend_from_slice(&ct);
    assert_eq!(decrypt(key_set_bytes(&sks), shares, longer), Err(CryptError::MalformedCiphertext));
}

#[test]
fn key_set_with_lowered_count_is_rejected() {
    let sks = key_material(2);
    let ct = encrypt(public_key_bytes(&sks), b"k".to_vec()).unwrap();
    let shares = share_buffer(&sks, &[0], &ct);
    let mut raw = bincode::serialize(&sks.public_keys()).unwrap();
    raw[0] = 1;
    raw.reverse();
    assert_eq!(decrypt(raw, shares, ct), Err(CryptError::MalformedKeySet));
}

#[test]
fn share_with_extra_byte_is_rejected() {
    let sks = key_material(0);
    let ct = encrypt(public_key_bytes(&sks), b"s".to_vec()).unwrap();
    let ctv = ciphertext_of(&ct);
    let share = sks.secret_key_share(0usize).decrypt_share(&ctv).unwrap();
    let mut b = bincode::serialize(&share).unwrap();
    b.push(0);
    b.reverse();
    let mut shares = Vec::new();
    push_slice(&mut shares, &b);
    assert_eq!(
        decrypt(key_set_bytes(&sks), shares, ct),
        Err(CryptError::MalformedShare { index: 0 })
    );
}
