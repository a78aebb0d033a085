use secretstream::{Bytes, DryocStream, Error, Header, Key, SecretBytes, Tag};

#[test]
fn test_stream_push() {
    let message1 = b"Arbitrary data to encrypt";
    let message2 = b"split into";
    let message3 = b"three messages";

    // Generate a random secret key for this stream
    let key = Key::gen();

    // Initialize the push side
    let (mut push_stream, header) = DryocStream::init_push(&key);
    // Encrypt a series of messages
    let c1: Vec<u8> = push_stream
        .push(message1, None, Tag::MESSAGE)
        .expect("Encrypt failed");
    let c2: Vec<u8> = push_stream
        .push(message2, None, Tag::MESSAGE)
        .expect("Encrypt failed");
    let c3: Vec<u8> = push_stream
        .push(message3, None, Tag::FINAL)
        .expect("Encrypt failed");

    // Initialize the pull side using the header generated by the push side
    let mut pull_stream = DryocStream::init_pull(&key, &header);

    let (m1, tag1): (Vec<u8>, Tag) = pull_stream.pull(&c1, None).expect("decrypt failed");
    let (m2, tag2): (Vec<u8>, Tag) = pull_stream.pull(&c2, None).expect("decrypt failed");
    let (m3, tag3): (Vec<u8>, Tag) = pull_stream.pull(&c3, None).expect("decrypt failed");

    assert_eq!(message1, m1.as_slice());
    assert_eq!(message2, m2.as_slice());
    assert_eq!(message3, m3.as_slice());

    assert_eq!(tag1, Tag::MESSAGE);
    assert_eq!(tag2, Tag::MESSAGE);
    assert_eq!(tag3, Tag::FINAL);
}

#[test]
fn test_stream_pull() {
    let message1 = b"Arbitrary data to encrypt";
    let message2 = b"split into";
    let message3 = b"three messages";

    // Generate a random secret key for this stream
    let key = Key::gen();

    // Initialize the push side
    let (mut push_stream, header) = DryocStream::init_push(&key);
    // Encrypt a series of messages
    let c1: Vec<u8> = push_stream
        .push(message1, None, Tag::MESSAGE)
        .expect("Encrypt failed");
    let c2: Vec<u8> = push_stream
        .push(message2, None, Tag::MESSAGE)
        .expect("Encrypt failed");
    let c3: Vec<u8> = push_stream
        .push(message3, None, Tag::FINAL)
        .expect("Encrypt failed");

    // Initialize the pull side from the header's raw bytes, as a receiver
    // that got them over the wire would
    let header = Header::from_slice(header.as_slice()).expect("header");
    let mut pull_stream = DryocStream::init_pull(&key, &header);

    // Decrypt the encrypted messages
    let (m1, tag1): (Vec<u8>, Tag) = pull_stream.pull(&c1, None).expect("Decrypt failed");
    let (m2, tag2): (Vec<u8>, Tag) = pull_stream.pull(&c2, None).expect("Decrypt failed");
    let (m3, tag3): (Vec<u8>, Tag) = pull_stream.pull(&c3, None).expect("Decrypt failed");

    assert_eq!(message1, m1.as_slice());
    assert_eq!(message2, m2.as_slice());
    assert_eq!(message3, m3.as_slice());

    assert_eq!(tag1, Tag::MESSAGE);
    assert_eq!(tag2, Tag::MESSAGE);
    assert_eq!(tag3, Tag::FINAL);
}

#[test]
fn test_protected_memory() {
    let message1 = b"Arbitrary data to encrypt".to_vec();
    let message2 = b"split into".to_vec();
    let message3 = b"three messages".to_vec();

    // Generate a random secret key into hardened (wiped-on-release,
    // access-guarded) memory
    let mut key = SecretBytes::gen(32);

    // Initialize the push side
    let (mut push_stream, header) = DryocStream::init_push(&key);

    // Revoke access to the secret key while encrypting
    key.noaccess();

    // Encrypt a series of messages, placing some into hardened memory
    let c1: SecretBytes = push_stream
        .push(&message1, None, Tag::MESSAGE)
        .expect("Encrypt failed");
    let c2: SecretBytes = push_stream
        .push(&message2, None, Tag::MESSAGE)
        .expect("Encrypt failed");
    let c3: SecretBytes = push_stream
        .push(&message3, None, Tag::FINAL)
        .expect("Encrypt failed");

    // Allow reads again to initialize the pull side
    key.readonly();
    let mut pull_stream = DryocStream::init_pull(&key, &header);

    // Revoke access again while decrypting
    key.noaccess();

    // Decrypt the messages, putting everything into hardened memory
    let (m1, tag1): (SecretBytes, Tag) = pull_stream.pull(&c1, None).expect("Decrypt failed");
    let (m2, tag2): (SecretBytes, Tag) = pull_stream.pull(&c2, None).expect("Decrypt failed");
    let (m3, tag3): (SecretBytes, Tag) = pull_stream.pull(&c3, None).expect("Decrypt failed");

    assert_eq!(message1.as_slice(), m1.as_slice());
    assert_eq!(message2.as_slice(), m2.as_slice());
    assert_eq!(message3.as_slice(), m3.as_slice());

    assert_eq!(tag1, Tag::MESSAGE);
    assert_eq!(tag2, Tag::MESSAGE);
    assert_eq!(tag3, Tag::FINAL);
}

#[test]
fn test_push_to_vec_example() {
    // The worked example: three messages, tags MESSAGE, MESSAGE, FINAL;
    // each chunk is message length + 17 bytes; pull recovers everything.
    let message1 = b"Arbitrary data to encrypt".to_vec();
    let message2 = b"split into".to_vec();
    let message3 = b"three messages".to_vec();

    let key = Key::gen();
    let (mut push_stream, header) = DryocStream::init_push(&key);

    let c1 = push_stream
        .push_to_vec(&message1, None, Tag::MESSAGE)
        .expect("Encrypt failed");
    let c2 = push_stream
        .push_to_vec(&message2, None, Tag::MESSAGE)
        .expect("Encrypt failed");
    let c3 = push_stream
        .push_to_vec(&message3, None, Tag::FINAL)
        .expect("Encrypt failed");

    assert_eq!(c1.len(), message1.len() + 17);
    assert_eq!(c2.len(), message2.len() + 17);
    assert_eq!(c3.len(), message3.len() + 17);

    // the ciphertext body must not be the plaintext handed back unchanged
    assert_ne!(&c1[1..1 + message1.len()], message1.as_slice());

    let mut pull_stream = DryocStream::init_pull(&key, &header);
    let (m1, tag1) = pull_stream.pull_to_vec(&c1, None).expect("Decrypt failed");
    let (m2, tag2) = pull_stream.pull_to_vec(&c2, None).expect("Decrypt failed");
    let (m3, tag3) = pull_stream.pull_to_vec(&c3, None).expect("Decrypt failed");

    assert_eq!(message1, m1);
    assert_eq!(message2, m2);
    assert_eq!(message3, m3);
    assert_eq!(tag1, Tag::MESSAGE);
    assert_eq!(tag2, Tag::MESSAGE);
    assert_eq!(tag3, Tag::FINAL);
}

#[test]
fn test_round_trip_with_associated_data() {
    let message = b"payload".to_vec();
    let aad = b"routing label".to_vec();

    let key = Key::gen();
    let (mut push_stream, header) = DryocStream::init_push(&key);
    let c: Vec<u8> = push_stream
        .push(&message, Some(&aad), Tag::MESSAGE)
        .expect("Encrypt failed");

    // the same associated data must be resupplied on decryption
    let mut pull_stream = DryocStream::init_pull(&key, &header);
    let (m, tag): (Vec<u8>, Tag) = pull_stream.pull(&c, Some(&aad)).expect("Decrypt failed");
    assert_eq!(message, m);
    assert_eq!(tag, Tag::MESSAGE);

    // different associated data fails authentication
    let other = b"routing label?".to_vec();
    let mut pull_stream = DryocStream::init_pull(&key, &header);
    let r: Result<(Vec<u8>, Tag), Error> = pull_stream.pull(&c, Some(&other));
    assert_eq!(r.unwrap_err(), Error::AuthenticationFailed);

    // omitted associated data fails authentication too
    let mut pull_stream = DryocStream::init_pull(&key, &header);
    let r: Result<(Vec<u8>, Tag), Error> = pull_stream.pull(&c, None);
    assert_eq!(r.unwrap_err(), Error::AuthenticationFailed);
}

#[test]
fn test_tamper_detection() {
    // Flipping any single bit of a ciphertext chunk makes pull fail with
    // AuthenticationFailed and release no message; a failed pull leaves the
    // stream state unchanged, so the genuine chunk still decrypts afterward.
    let message = b"tamper with me".to_vec();
    let key = Key::gen();
    let (mut push_stream, header) = DryocStream::init_push(&key);
    let c: Vec<u8> = push_stream
        .push(&message, None, Tag::MESSAGE)
        .expect("Encrypt failed");

    let mut pull_stream = DryocStream::init_pull(&key, &header);
    for byte in 0..c.len() {
        for bit in 0..8 {
            let mut tampered = c.clone();
            tampered[byte] ^= 1u8 << bit;
            let r: Result<(Vec<u8>, Tag), Error> = pull_stream.pull(&tampered, None);
            assert_eq!(r.unwrap_err(), Error::AuthenticationFailed);
        }
    }
    let (m, tag): (Vec<u8>, Tag) = pull_stream.pull(&c, None).expect("Decrypt failed");
    assert_eq!(message, m);
    assert_eq!(tag, Tag::MESSAGE);
}

#[test]
fn test_order_sensitivity() {
    // Swapping the pull order of two chunks causes an authentication
    // failure on the swapped-in chunk.
    let message1 = b"first".to_vec();
    let message2 = b"second".to_vec();
    let key = Key::gen();
    let (mut push_stream, header) = DryocStream::init_push(&key);
    let c1: Vec<u8> = push_stream
        .push(&message1, None, Tag::MESSAGE)
        .expect("Encrypt failed");
    let c2: Vec<u8> = push_stream
        .push(&message2, None, Tag::MESSAGE)
        .expect("Encrypt failed");

    let mut pull_stream = DryocStream::init_pull(&key, &header);
    let r: Result<(Vec<u8>, Tag), Error> = pull_stream.pull(&c2, None);
    assert_eq!(r.unwrap_err(), Error::AuthenticationFailed);

    // a replayed chunk fails as well once the state has advanced
    let mut pull_stream = DryocStream::init_pull(&key, &header);
    let _ = pull_stream.pull::<Vec<u8>, Vec<u8>>(&c1, None).expect("Decrypt failed");
    let r: Result<(Vec<u8>, Tag), Error> = pull_stream.pull(&c1, None);
    assert_eq!(r.unwrap_err(), Error::AuthenticationFailed);
}

#[test]
fn test_header_uniqueness() {
    // Repeated init_push with the same key yields distinct headers.
    let key = Key::gen();
    let (_s1, h1) = DryocStream::init_push(&key);
    let (_s2, h2) = DryocStream::init_push(&key);
    let (_s3, h3) = DryocStream::init_push(&key);
    assert_ne!(h1.as_slice(), h2.as_slice());
    assert_ne!(h1.as_slice(), h3.as_slice());
    assert_ne!(h2.as_slice(), h3.as_slice());
    assert_eq!(h1.as_slice().len(), 24);
}

#[test]
fn test_manual_rekey() {
    // Rekeying both sides after message 1 keeps message 2 synchronized.
    let message1 = b"before the rekey".to_vec();
    let message2 = b"after the rekey".to_vec();
    let key = Key::gen();

    let (mut push_stream, header) = DryocStream::init_push(&key);
    let c1: Vec<u8> = push_stream
        .push(&message1, None, Tag::MESSAGE)
        .expect("Encrypt failed");
    push_stream.rekey();
    let c2: Vec<u8> = push_stream
        .push(&message2, None, Tag::MESSAGE)
        .expect("Encrypt failed");

    let mut pull_stream = DryocStream::init_pull(&key, &header);
    let (m1, _) = pull_stream
        .pull::<Vec<u8>, Vec<u8>>(&c1, None)
        .expect("Decrypt failed");
    pull_stream.rekey();
    let (m2, _) = pull_stream
        .pull::<Vec<u8>, Vec<u8>>(&c2, None)
        .expect("Decrypt failed");
    assert_eq!(message1, m1);
    assert_eq!(message2, m2);

    // Omitting the rekey on the pull side makes the next pull fail.
    let mut pull_stream = DryocStream::init_pull(&key, &header);
    let _ = pull_stream
        .pull::<Vec<u8>, Vec<u8>>(&c1, None)
        .expect("Decrypt failed");
    let r: Result<(Vec<u8>, Tag), Error> = pull_stream.pull(&c2, None);
    assert_eq!(r.unwrap_err(), Error::AuthenticationFailed);
}

#[test]
fn test_rekey_tag_advances_both_sides() {
    // A REKEY (or FINAL) tag triggers an immediate internal rekey on both
    // sides with no manual call, and the stream keeps working.
    let message1 = b"please rekey now".to_vec();
    let message2 = b"still in sync".to_vec();
    let key = Key::gen();

    let (mut push_stream, header) = DryocStream::init_push(&key);
    let c1: Vec<u8> = push_stream
        .push(&message1, None, Tag::REKEY)
        .expect("Encrypt failed");
    let c2: Vec<u8> = push_stream
        .push(&message2, None, Tag::MESSAGE)
        .expect("Encrypt failed");

    let mut pull_stream = DryocStream::init_pull(&key, &header);
    let (m1, tag1): (Vec<u8>, Tag) = pull_stream.pull(&c1, None).expect("Decrypt failed");
    let (m2, tag2): (Vec<u8>, Tag) = pull_stream.pull(&c2, None).expect("Decrypt failed");
    assert_eq!(message1, m1);
    assert_eq!(message2, m2);
    assert_eq!(tag1, Tag::REKEY);
    assert_eq!(tag2, Tag::MESSAGE);
}

#[test]
fn test_short_input_rejected() {
    // Anything shorter than the 17-byte overhead is rejected before any
    // cryptographic work, with InvalidInput.
    let key = Key::gen();
    let (_push_stream, header) = DryocStream::init_push(&key);
    let mut pull_stream = DryocStream::init_pull(&key, &header);
    let short = vec![0u8; 16];
    let r: Result<(Vec<u8>, Tag), Error> = pull_stream.pull(&short, None);
    assert_eq!(r.unwrap_err(), Error::InvalidInput);
    let empty: Vec<u8> = Vec::new();
    let r: Result<(Vec<u8>, Tag), Error> = pull_stream.pull(&empty, None);
    assert_eq!(r.unwrap_err(), Error::InvalidInput);
}

#[test]
fn test_size_mismatch() {
    match Key::from_slice(&[0u8; 31]) {
        Err(e) => assert_eq!(e, Error::SizeMismatch),
        Ok(_) => panic!("expected a size mismatch"),
    }
    match Header::from_slice(&[0u8; 25]) {
        Err(e) => assert_eq!(e, Error::SizeMismatch),
        Ok(_) => panic!("expected a size mismatch"),
    }
    assert!(Key::from_slice(&[7u8; 32]).is_ok());
    assert!(Header::from_slice(&[7u8; 24]).is_ok());
}

#[test]
fn test_same_key_header_reproduce_state() {
    // The same (key, header) pair deterministically reproduces the
    // identical decoding state.
    let message = b"deterministic".to_vec();
    let key = Key::gen();
    let (mut push_stream, header) = DryocStream::init_push(&key);
    let c: Vec<u8> = push_stream
        .push(&message, None, Tag::MESSAGE)
        .expect("Encrypt failed");

    let key2 = Key::from_slice(key.as_slice()).expect("key failed");
    let header2 = Header::from_slice(header.as_slice()).expect("header failed");

    let mut pull_a = DryocStream::init_pull(&key, &header);
    let mut pull_b = DryocStream::init_pull(&key2, &header2);
    let (ma, _): (Vec<u8>, Tag) = pull_a.pull(&c, None).expect("Decrypt failed");
    let (mb, _): (Vec<u8>, Tag) = pull_b.pull(&c, None).expect("Decrypt failed");
    assert_eq!(ma, mb);
    assert_eq!(ma, message);
}
