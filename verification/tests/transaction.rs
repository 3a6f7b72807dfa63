use base64::engine::general_purpose::STANDARD;
use base64::Engine;
use ed25519_dalek::{Signature, Verifier, VerifyingKey};
use mpp_test_sdk::keys::SigningKey;
use mpp_test_sdk::rpc::build_transfer_transaction;
use mpp_test_sdk::transaction::{encode_compact_u16, signed_transaction, transfer_message};

const PAYER_SEED: [u8; 32] = [
    0x9d, 0x61, 0xb1, 0x9d, 0xef, 0xfd, 0x5a, 0x60, 0xba, 0x84, 0x4a, 0xf4, 0x92, 0xec, 0x2c, 0xc4,
    0x44, 0x49, 0xc5, 0x69, 0x7b, 0x32, 0x69, 0x19, 0x70, 0x3b, 0xac, 0x03, 0x1c, 0xae, 0x7f, 0x60,
];

#[test]
fn compact_lengths() {
    assert_eq!(encode_compact_u16(0), vec![0]);
    assert_eq!(encode_compact_u16(0x7f), vec![0x7f]);
    assert_eq!(encode_compact_u16(0x80), vec![0x80, 0x01]);
    assert_eq!(encode_compact_u16(0x3fff), vec![0xff, 0x7f]);
    assert_eq!(encode_compact_u16(0x4000), vec![0x80, 0x80, 0x01]);
    assert_eq!(encode_compact_u16(0xffff), vec![0xff, 0xff, 0x03]);
    assert_eq!(encode_compact_u16(0x400000), vec![0x80, 0x80, 0x00]);
}

#[test]
fn compact_lengths_read_back() {
    for n in [0usize, 1, 127, 128, 300, 16383, 16384, 65535, 0x3fffff] {
        let bytes = encode_compact_u16(n);
        let mut value: usize = 0;
        for (i, b) in bytes.iter().enumerate() {
            let bits = if i + 1 < bytes.len() { *b & 0x7f } else { *b };
            value += (bits as usize) << (7 * i);
        }
        assert_eq!(value, n);
    }
}

#[test]
fn a_transfer_in_full() {
    let key = SigningKey::from_bytes(&PAYER_SEED);
    let from = key.verifying_key();
    let tx = build_transfer_transaction(&key, &from, &[9; 32], 1_000_000, &[3; 32]);
    assert_eq!(
        tx,
        "Aahaql5mFrJkBwA193SreBEnECdUF9UH1sjuj4xCK/rQE3iX5BkSmollnh3uXQKVq1nIX2t1Tp3o6gd0n/cq2wkBAAED11qYAYKxCrfVS/7TyWQHOg7hcvPapiMlrwIaaPcHURoJCQkJCQkJCQkJCQkJCQkJCQkJCQkJCQkJCQkJCQkJCQAAAAAAAAAAAAAAAAAAAAAAAAAAAAAAAAAAAAAAAAAAAwMDAwMDAwMDAwMDAwMDAwMDAwMDAwMDAwMDAwMDAwMBAgIAAQwCAAAAQEIPAAAAAAA="
    );
}

#[test]
fn where_everything_stands() {
    let key = SigningKey::from_bytes(&PAYER_SEED);
    let from = key.verifying_key();
    let lamports: u64 = 0x0102_0304_0506_0708;
    let text = build_transfer_transaction(&key, &from, &[9; 32], lamports, &[3; 32]);
    let tx = STANDARD.decode(text).unwrap();
    assert_eq!(tx.len(), 215);
    assert_eq!(tx[0], 1);
    assert_eq!(tx[65..69], [1, 0, 1, 3]);
    assert_eq!(tx[69..101], from);
    assert_eq!(tx[101..133], [9; 32]);
    assert_eq!(tx[133..165], [0; 32]);
    assert_eq!(tx[165..197], [3; 32]);
    assert_eq!(tx[197..207], [1, 2, 2, 0, 1, 12, 2, 0, 0, 0]);
    assert_eq!(tx[207..], [8, 7, 6, 5, 4, 3, 2, 1]);
}

#[test]
fn the_signature_is_that_of_the_message() {
    let key = SigningKey::from_bytes(&PAYER_SEED);
    let from = key.verifying_key();
    let text = build_transfer_transaction(&key, &from, &[9; 32], 42, &[3; 32]);
    let tx = STANDARD.decode(text).unwrap();
    let signature = Signature::from_slice(&tx[1..65]).unwrap();
    let verifying = VerifyingKey::from_bytes(&from).unwrap();
    assert!(verifying.verify(&tx[65..], &signature).is_ok());
}

#[test]
fn a_message_and_its_transaction() {
    let message = transfer_message(&[1; 32], &[2; 32], 5, &[3; 32]);
    assert_eq!(message.len(), 150);
    let tx = signed_transaction(&[4; 64], &message);
    assert_eq!(tx[..65], {
        let mut head = [4; 65];
        head[0] = 1;
        head
    });
    assert_eq!(tx[65..], message[..]);
}
