use mpp_test_sdk::keys::SigningKey;

fn unhex(s: &str) -> Vec<u8> {
    (0..s.len() / 2)
        .map(|i| u8::from_str_radix(&s[2 * i..2 * i + 2], 16).unwrap())
        .collect()
}

const SEED: &str = "9d61b19deffd5a60ba844af492ec2cc44449c5697b326919703bac031cae7f60";
const PUBLIC: &str = "d75a980182b10ab7d54bfed3c964073a0ee172f3daa62325af021a68f707511a";

#[test]
fn public_key_of_a_known_seed() {
    let key = SigningKey::from_secret_key(&unhex(SEED)).unwrap();
    assert_eq!(key.verifying_key().to_vec(), unhex(PUBLIC));
}

#[test]
fn signature_of_the_empty_message() {
    let key = SigningKey::from_secret_key(&unhex(SEED)).unwrap();
    assert_eq!(
        key.sign(b"").to_vec(),
        unhex(concat_signature().as_str())
    );
}

fn concat_signature() -> String {
    format!(
        "{}{}",
        "e5564300c360ac729086e2cc806e828a84877f1eb8e5d974d873e06522490155",
        "5fb8821590a33bacc61e39701cf9b46bd25bf5f0595bbe24655141438e7a100b"
    )
}

#[test]
fn a_keypair_is_the_seed_that_it_starts_with() {
    let mut keypair = unhex(SEED);
    keypair.extend(unhex(PUBLIC));
    let key = SigningKey::from_secret_key(&keypair).unwrap();
    assert_eq!(key.to_bytes().to_vec(), unhex(SEED));
}

#[test]
fn other_lengths_are_no_keys() {
    for n in [0, 31, 33, 63, 65] {
        assert!(SigningKey::from_secret_key(&vec![1; n]).is_none());
    }
}

#[test]
fn fresh_keys_differ() {
    assert_ne!(SigningKey::generate().to_bytes(), SigningKey::generate().to_bytes());
}

#[test]
fn a_key_keeps_its_seed() {
    assert_eq!(SigningKey::from_bytes(&[5; 32]).to_bytes(), [5; 32]);
}
