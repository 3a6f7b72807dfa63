use mpp_test_sdk::rpc::{base58_decode, base58_encode};

#[test]
fn encodes_known_texts() {
    assert_eq!(base58_encode(b"Hello World!"), "2NEpo7TZRRrLZSi2U");
    assert_eq!(base58_encode(&[0, 0, 0x28, 0x7f, 0xb4, 0xcd]), "11233QC4");
    assert_eq!(base58_encode(&[255]), "5Q");
    assert_eq!(base58_encode(&[0, 0, 1]), "112");
}

#[test]
fn encodes_nothing_as_nothing() {
    assert_eq!(base58_encode(&[]), "");
    assert_eq!(base58_decode(""), Ok(vec![]));
}

#[test]
fn decodes_known_texts() {
    assert_eq!(base58_decode("2NEpo7TZRRrLZSi2U"), Ok(b"Hello World!".to_vec()));
    assert_eq!(base58_decode("11233QC4"), Ok(vec![0, 0, 0x28, 0x7f, 0xb4, 0xcd]));
    assert_eq!(base58_decode("5Q"), Ok(vec![255]));
}

#[test]
fn decoding_gives_back_what_was_encoded() {
    let key: Vec<u8> = (0..32).map(|i: u8| i * 7).collect();
    assert_eq!(base58_decode(&base58_encode(&key)), Ok(key));
    assert_eq!(base58_decode(&base58_encode(&[9; 32])), Ok(vec![9; 32]));
}

#[test]
fn encoding_gives_back_what_was_decoded() {
    for text in ["1z", "cGfHiC6Kgg3FpFZvgwGcswsCRtp4aBP2fzuXRQPizuN", "11233QC4"] {
        assert_eq!(base58_encode(&base58_decode(text).unwrap()), text);
    }
}

#[test]
fn zeros_come_back_with_one_more() {
    assert_eq!(base58_encode(&[0, 0]), "11");
    assert_eq!(base58_decode("11"), Ok(vec![0, 0, 0]));
    assert_eq!(base58_decode(&base58_encode(&[0; 32])), Ok(vec![0; 33]));
}

#[test]
fn characters_outside_the_alphabet_are_refused() {
    for c in ["0", "O", "I", "l"] {
        assert_eq!(
            base58_decode(c),
            Err(format!("base58_decode: invalid character '{c}'"))
        );
    }
    assert_eq!(
        base58_decode("abc+0"),
        Err("base58_decode: invalid character '+'".to_string())
    );
    assert_eq!(
        base58_decode("ab\n"),
        Err("base58_decode: invalid character '\\n'".to_string())
    );
}

#[test]
fn a_character_is_judged_by_the_low_byte_of_its_code() {
    // U+0132 has the low byte of '2'.
    assert_eq!(base58_decode("\u{132}"), Ok(vec![1]));
    assert_eq!(
        base58_decode("\u{130}"),
        Err("base58_decode: invalid character '\u{130}'".to_string())
    );
}

#[test]
fn texts_are_letters_and_digits() {
    assert!(base58_encode(&[201; 32]).chars().all(|c| c.is_ascii_alphanumeric()));
}
