use mpp_test_sdk::header::{header_text, payment_receipt_header, payment_request_header};
use mpp_test_sdk::rpc::parse_header_params;

fn param(header: &str, key: &str) -> Option<String> {
    parse_header_params(header).get(key).cloned()
}

#[test]
fn parameters_of_a_payment_request() {
    let header = r#"solana; amount="0.001"; recipient="9WzD"; network="devnet""#;
    assert_eq!(param(header, "amount").as_deref(), Some("0.001"));
    assert_eq!(param(header, "recipient").as_deref(), Some("9WzD"));
    assert_eq!(param(header, "network").as_deref(), Some("devnet"));
    assert_eq!(parse_header_params(header).entries().len(), 3);
}

#[test]
fn the_first_part_is_no_parameter() {
    assert_eq!(parse_header_params("amount=1").entries().len(), 0);
    assert_eq!(parse_header_params("").entries().len(), 0);
    assert_eq!(param("amount=1;amount=2", "amount").as_deref(), Some("2"));
}

#[test]
fn white_space_is_left_out() {
    let header = "solana;\t Amount \u{a0}= \" 0.5 \" ;\u{2003}x=\u{85}y\u{3000}";
    assert_eq!(param(header, "amount").as_deref(), Some(" 0.5 "));
    assert_eq!(param(header, "x").as_deref(), Some("y"));
}

#[test]
fn keys_are_in_lower_case() {
    let header = "solana; AMOUNT=1; \u{c4}Z=2; \u{3a3}\u{3a3}=3";
    assert_eq!(param(header, "amount").as_deref(), Some("1"));
    assert_eq!(param(header, "AMOUNT"), None);
    assert_eq!(param(header, "\u{e4}z").as_deref(), Some("2"));
    assert_eq!(param(header, "\u{3c3}\u{3c2}").as_deref(), Some("3"));
}

#[test]
fn the_later_of_two_parameters_counts() {
    let header = "solana; amount=1; AMOUNT=2";
    assert_eq!(param(header, "amount").as_deref(), Some("2"));
    assert_eq!(parse_header_params(header).entries().len(), 1);
}

#[test]
fn parts_without_an_equals_sign_are_left_out() {
    assert_eq!(parse_header_params("solana; amount; ; x").entries().len(), 0);
}

#[test]
fn the_first_equals_sign_parts_key_and_value() {
    assert_eq!(param("s; k=a=b", "k").as_deref(), Some("a=b"));
    assert_eq!(param("s; =v", "").as_deref(), Some("v"));
    assert_eq!(param("s; k=", "k").as_deref(), Some(""));
}

#[test]
fn all_quotes_at_the_ends_are_left_out() {
    assert_eq!(param("s; k=\"\"a\"b\"\"", "k").as_deref(), Some("a\"b"));
    assert_eq!(param("s; k=\"\"", "k").as_deref(), Some(""));
    assert_eq!(param("s; k=a\"", "k").as_deref(), Some("a"));
}

#[test]
fn a_payment_request_as_it_is_written() {
    assert_eq!(
        payment_request_header("0.001", "9WzD", "devnet"),
        r#"solana; amount="0.001"; recipient="9WzD"; network="devnet""#
    );
}

#[test]
fn a_payment_request_reads_back() {
    let header = payment_request_header("0.25", "rec ipient", "testnet");
    assert_eq!(param(&header, "amount").as_deref(), Some("0.25"));
    assert_eq!(param(&header, "recipient").as_deref(), Some("rec ipient"));
    assert_eq!(param(&header, "network").as_deref(), Some("testnet"));
}

#[test]
fn a_payment_receipt_as_it_is_written() {
    assert_eq!(
        payment_receipt_header("5sig", "devnet", "0.001"),
        r#"solana; signature="5sig"; network="devnet"; amount="0.001""#
    );
}

#[test]
fn a_payment_receipt_reads_back() {
    let header = payment_receipt_header("5sig", "mainnet", "1.5");
    assert_eq!(param(&header, "signature").as_deref(), Some("5sig"));
    assert_eq!(param(&header, "network").as_deref(), Some("mainnet"));
    assert_eq!(param(&header, "amount").as_deref(), Some("1.5"));
}

#[test]
fn only_visible_bytes_are_a_header_text() {
    assert_eq!(header_text(b"solana; a=\t1~ ").as_deref(), Some("solana; a=\t1~ "));
    assert_eq!(header_text(b"").as_deref(), Some(""));
    assert_eq!(header_text(b"a\x7f"), None);
    assert_eq!(header_text(b"a\n"), None);
    assert_eq!(header_text("\u{e4}".as_bytes()), None);
}
