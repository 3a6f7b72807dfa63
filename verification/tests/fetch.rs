use mpp_test_sdk::client::SetupNext;
use mpp_test_sdk::fetch::{
    number_of_double, AmountReading, FetchAction, FetchEvent, FetchTurn,
};
use mpp_test_sdk::json::{Json, JsonNumber};
use mpp_test_sdk::rpc::parse_header_params;
use mpp_test_sdk::string_map::StringMap;
use mpp_test_sdk::{
    create_test_client, Error, FetchOptions, PaymentStep, PaymentStepType, SolanaNetwork,
    TestClient, TestClientConfig,
};

const URL: &str = "http://localhost:3001/api/data";
const SIGNATURE: &str = "5VERv8NMvzbJMEkV8xnrLkEaWRtSz9CosKDYjCJjBRnb";

fn mainnet_client(timeout_nanos: u128) -> TestClient {
    let config = TestClientConfig {
        network: Some(SolanaNetwork::Mainnet),
        secret_key: Some(vec![7; 32]),
        timeout_nanos: Some(timeout_nanos),
        ..TestClientConfig::default()
    };
    match create_test_client(config).unwrap().next {
        SetupNext::Ready(client) => client,
        _ => panic!("not ready"),
    }
}

fn next(turn: FetchTurn, event: FetchEvent) -> FetchTurn {
    assert!(turn.flow.accepts(&event));
    turn.flow.step(event)
}

fn response(status: u16, header: Option<&str>) -> FetchEvent {
    FetchEvent::Response {
        status,
        payment_request: header.map(|h| h.as_bytes().to_vec()),
        took_nanos: 10,
    }
}

fn reading(amount: f64, lamports: u64) -> FetchEvent {
    FetchEvent::Amount(Some(AmountReading {
        text: format!("{amount}"),
        bits: amount.to_bits(),
        lamports,
    }))
}

fn paid(signature: &str, took_nanos: u128) -> FetchEvent {
    FetchEvent::Paid { outcome: Ok(signature.to_string()), took_nanos }
}

fn fetch_error(turn: FetchTurn) -> Error {
    match turn.action {
        FetchAction::Fail(error) => error,
        _ => panic!("no failure"),
    }
}

fn payment_error(turn: FetchTurn) -> (String, u16) {
    match fetch_error(turn) {
        Error::Payment(e) => {
            assert_eq!(e.url, URL);
            (e.message, e.status)
        }
        other => panic!("{other:?}"),
    }
}

fn data_text<'a>(step: &'a PaymentStep, key: &str) -> &'a str {
    step.data.get(key).unwrap().as_str().unwrap()
}

fn data_number(step: &PaymentStep, key: &str) -> JsonNumber {
    match step.data.get(key).unwrap() {
        Json::Number(n) => *n,
        other => panic!("{other:?}"),
    }
}

const ASKED: &str = r#"solana; amount="0.001"; recipient="9WzDXwBbmkg8ZTbNMqUxvQRAyrZzDsGYdLVL9zYtAWWM"; network="devnet""#;

#[test]
fn a_request_is_announced_and_made() {
    let turn = mainnet_client(100).fetch(URL, None);
    assert_eq!(turn.steps.len(), 1);
    assert_eq!(turn.steps[0].step_type, PaymentStepType::Request);
    assert_eq!(turn.steps[0].message, format!("→ {URL}"));
    assert_eq!(data_text(&turn.steps[0], "url"), URL);
    assert!(matches!(turn.action, FetchAction::Send { within_nanos: 100 }));
    let request = turn.flow.request();
    assert_eq!(request.method, "GET");
    assert_eq!(request.url, URL);
    assert!(request.headers.entries().is_empty());
    assert!(request.body.is_none());
}

#[test]
fn a_request_is_made_with_its_options() {
    let mut headers = StringMap::new();
    headers.insert("x-api".to_string(), "1".to_string());
    let opts = FetchOptions {
        method: Some("POST".to_string()),
        headers,
        body: Some(vec![1, 2]),
    };
    let turn = mainnet_client(100).fetch(URL, Some(opts));
    let request = turn.flow.request();
    assert_eq!(request.method, "POST");
    assert_eq!(request.headers.get("x-api").map(|s| s.as_str()), Some("1"));
    assert_eq!(request.body, Some(vec![1, 2]));
}

#[test]
fn what_is_no_method_stands_for_get() {
    for (method, sent) in [
        ("PATCH", "PATCH"),
        ("brew-it!", "brew-it!"),
        ("M_1.#$%&'*+^`|~", "M_1.#$%&'*+^`|~"),
        ("", "GET"),
        ("PO ST", "GET"),
        ("P/T", "GET"),
        ("G\u{c4}T", "GET"),
        ("a(", "GET"),
    ] {
        let opts = FetchOptions { method: Some(method.to_string()), ..FetchOptions::default() };
        let turn = mainnet_client(100).fetch(URL, Some(opts));
        assert_eq!(turn.flow.request().method, sent);
    }
}

#[test]
fn an_answer_of_success_is_returned() {
    for status in [200, 204, 299] {
        let turn = next(mainnet_client(100).fetch(URL, None), response(status, None));
        assert!(matches!(turn.action, FetchAction::Return));
        assert_eq!(turn.steps.len(), 1);
        assert_eq!(turn.steps[0].step_type, PaymentStepType::Success);
        assert_eq!(turn.steps[0].message, format!("← {status} OK"));
        assert_eq!(data_number(&turn.steps[0], "status"), JsonNumber::PosInt(status as u64));
        assert!(!turn.flow.accepts(&response(200, None)));
    }
}

#[test]
fn any_other_answer_is_an_error() {
    for status in [100, 199, 300, 401, 403, 500] {
        let turn = next(mainnet_client(100).fetch(URL, None), response(status, Some(ASKED)));
        assert_eq!(turn.steps.len(), 1);
        assert_eq!(turn.steps[0].step_type, PaymentStepType::Error);
        assert_eq!(turn.steps[0].message, format!("← {status}"));
        assert_eq!(data_number(&turn.steps[0], "status"), JsonNumber::PosInt(status as u64));
        assert_eq!(
            payment_error(turn),
            (format!("Payment failed for {URL} (HTTP {status})"), status)
        );
    }
}

#[test]
fn payment_requests_that_cannot_be_made_out() {
    for (header, why) in [
        (None, "missing Payment-Request header"),
        (Some("solana; recipient=\u{e4}; amount=1"), "missing Payment-Request header"),
        (Some("solana; amount=1"), "Payment-Request missing recipient"),
        (Some("solana"), "Payment-Request missing recipient"),
        (Some("solana; recipient=abc"), "Payment-Request missing amount"),
    ] {
        let turn = next(mainnet_client(100).fetch(URL, None), response(402, header));
        assert!(turn.steps.is_empty());
        assert_eq!(
            payment_error(turn),
            (format!("Payment failed for {URL} (HTTP 402): {why}"), 402)
        );
    }
}

#[test]
fn an_amount_that_is_no_number() {
    let turn = mainnet_client(100).fetch(URL, None);
    let turn = next(turn, response(402, Some("solana; recipient=abc; amount=lots")));
    match &turn.action {
        FetchAction::ReadAmount { text } => assert_eq!(text, "lots"),
        _ => panic!("nothing to read"),
    }
    let turn = next(turn, FetchEvent::Amount(None));
    assert_eq!(
        payment_error(turn),
        (format!("Payment failed for {URL} (HTTP 402): invalid amount: lots"), 402)
    );
}

#[test]
fn a_request_is_paid_for_and_made_again() {
    let mut headers = StringMap::new();
    headers.insert("x-api".to_string(), "1".to_string());
    headers.insert("payment-receipt".to_string(), "old".to_string());
    let opts = FetchOptions {
        method: Some("PUT".to_string()),
        headers,
        body: Some(vec![3]),
    };
    let turn = mainnet_client(100).fetch(URL, Some(opts));
    let turn = next(turn, response(402, Some(ASKED)));
    assert!(turn.steps.is_empty());
    match &turn.action {
        FetchAction::ReadAmount { text } => assert_eq!(text, "0.001"),
        _ => panic!("nothing to read"),
    }

    let turn = next(turn, reading(0.001, 1_000_000));
    assert_eq!(turn.steps.len(), 1);
    assert_eq!(turn.steps[0].step_type, PaymentStepType::Payment);
    assert_eq!(turn.steps[0].message, "Paying 0.001 SOL → 9WzDXwBb...");
    assert_eq!(
        data_number(&turn.steps[0], "amount"),
        JsonNumber::Float(0x3f50_624d_d2f1_a9fc)
    );
    assert_eq!(
        data_text(&turn.steps[0], "recipient"),
        "9WzDXwBbmkg8ZTbNMqUxvQRAyrZzDsGYdLVL9zYtAWWM"
    );
    match &turn.action {
        FetchAction::Pay { recipient, lamports, within_nanos } => {
            assert_eq!(recipient, "9WzDXwBbmkg8ZTbNMqUxvQRAyrZzDsGYdLVL9zYtAWWM");
            assert_eq!(*lamports, 1_000_000);
            assert_eq!(*within_nanos, 90);
        }
        _ => panic!("nothing to pay"),
    }

    let turn = next(turn, paid(SIGNATURE, 20));
    assert_eq!(turn.steps.len(), 2);
    assert_eq!(turn.steps[0].step_type, PaymentStepType::Payment);
    assert_eq!(turn.steps[0].message, "Confirmed: 5VERv8NMvzbJMEkV...");
    assert_eq!(data_text(&turn.steps[0], "signature"), SIGNATURE);
    assert_eq!(
        data_number(&turn.steps[0], "amount"),
        JsonNumber::Float(0x3f50_624d_d2f1_a9fc)
    );
    assert_eq!(turn.steps[1].step_type, PaymentStepType::Retry);
    assert_eq!(turn.steps[1].message, "↑ Retrying with payment proof");
    assert_eq!(data_text(&turn.steps[1], "signature"), SIGNATURE);
    assert!(matches!(turn.action, FetchAction::Send { within_nanos: 70 }));
    let request = turn.flow.request();
    assert_eq!(request.method, "PUT");
    assert_eq!(request.url, URL);
    assert_eq!(request.body, Some(vec![3]));
    assert_eq!(request.headers.entries().len(), 2);
    assert_eq!(request.headers.get("x-api").map(|s| s.as_str()), Some("1"));
    assert_eq!(
        request.headers.get("payment-receipt").map(|s| s.as_str()),
        Some(
            r#"solana; signature="5VERv8NMvzbJMEkV8xnrLkEaWRtSz9CosKDYjCJjBRnb"; network="mainnet"; amount="0.001""#
        )
    );

    let turn = next(turn, response(200, None));
    assert!(matches!(turn.action, FetchAction::Return));
    assert_eq!(turn.steps.len(), 1);
    assert_eq!(turn.steps[0].step_type, PaymentStepType::Success);
    assert_eq!(turn.steps[0].message, "← 200");
    assert_eq!(data_number(&turn.steps[0], "status"), JsonNumber::PosInt(200));
    assert_eq!(data_text(&turn.steps[0], "signature"), SIGNATURE);
}

#[test]
fn a_second_answer_that_is_no_success_is_an_error() {
    for status in [199, 300, 402, 403, 500] {
        let turn = mainnet_client(100).fetch(URL, None);
        let turn = next(turn, response(402, Some(ASKED)));
        let turn = next(turn, reading(0.001, 1_000_000));
        let turn = next(turn, paid(SIGNATURE, 20));
        let turn = next(turn, response(status, Some(ASKED)));
        assert_eq!(turn.steps.len(), 1);
        assert_eq!(turn.steps[0].step_type, PaymentStepType::Error);
        assert_eq!(turn.steps[0].message, format!("← {status}"));
        assert_eq!(data_text(&turn.steps[0], "signature"), SIGNATURE);
        assert_eq!(
            payment_error(turn),
            (format!("Payment failed for {URL} (HTTP {status})"), status)
        );
    }
}

#[test]
fn the_receipt_can_be_read() {
    let turn = mainnet_client(100).fetch(URL, None);
    let turn = next(turn, response(402, Some(ASKED)));
    let turn = next(turn, reading(0.25, 250_000_000));
    let turn = next(turn, paid(SIGNATURE, 20));
    let params = parse_header_params(turn.flow.request().headers.get("payment-receipt").unwrap());
    assert_eq!(params.get("signature").map(|s| s.as_str()), Some(SIGNATURE));
    assert_eq!(params.get("network").map(|s| s.as_str()), Some("mainnet"));
    assert_eq!(params.get("amount").map(|s| s.as_str()), Some("0.25"));
}

#[test]
fn a_payment_that_fails() {
    let turn = mainnet_client(100).fetch(URL, None);
    let turn = next(turn, response(402, Some(ASKED)));
    let turn = next(turn, reading(0.001, 1_000_000));
    let outcome = Err("send_payment: down".to_string());
    let turn = next(turn, FetchEvent::Paid { outcome, took_nanos: 5 });
    match fetch_error(turn) {
        Error::Other(message) => assert_eq!(message, "mpp: payment failed: send_payment: down"),
        other => panic!("{other:?}"),
    }
}

#[test]
fn a_request_that_cannot_be_made() {
    let turn = mainnet_client(100).fetch(URL, None);
    let turn = next(turn, FetchEvent::RequestFailed("no route".to_string()));
    assert_eq!(fetch_error(turn).display(), "no route");
}

#[test]
fn each_part_can_time_out() {
    let start = || mainnet_client(5_000_000).fetch(URL, None);
    let timed_out = |turn: FetchTurn| match fetch_error(next(turn, FetchEvent::TimedOut)) {
        Error::Timeout(e) => {
            assert_eq!(e.timeout_ms, 5);
            assert!(e.message.starts_with(&format!("Request to {URL} timed out after 5ms.")));
        }
        other => panic!("{other:?}"),
    };
    timed_out(start());
    let paying = || next(next(start(), response(402, Some(ASKED))), reading(0.001, 1));
    timed_out(paying());
    timed_out(next(paying(), paid(SIGNATURE, 1)));
}

#[test]
fn all_parts_share_one_timeout() {
    let paying = || {
        let turn = mainnet_client(100).fetch(URL, None);
        let turn = next(turn, response(402, Some(ASKED)));
        next(turn, reading(0.001, 1))
    };
    let turn = next(paying(), paid(SIGNATURE, 90));
    assert!(matches!(turn.action, FetchAction::Send { within_nanos: 0 }));
    assert!(matches!(fetch_error(next(turn, response(200, None))), Error::Timeout(_)));
    let turn = next(paying(), paid(SIGNATURE, 91));
    assert!(turn.steps.is_empty());
    assert!(matches!(fetch_error(turn), Error::Timeout(_)));
    let turn = next(mainnet_client(9).fetch(URL, None), response(200, None));
    assert!(turn.steps.is_empty());
    assert!(matches!(fetch_error(turn), Error::Timeout(_)));
}

#[test]
fn events_that_are_not_waited_for() {
    let turn = mainnet_client(100).fetch(URL, None);
    assert!(!turn.flow.accepts(&FetchEvent::Amount(None)));
    assert!(!turn.flow.accepts(&paid(SIGNATURE, 1)));
    let turn = next(turn, response(402, Some(ASKED)));
    assert!(!turn.flow.accepts(&FetchEvent::TimedOut));
    assert!(!turn.flow.accepts(&response(200, None)));
    let turn = next(turn, reading(0.001, 1));
    // The sixteenth byte of this text is in the middle of a character.
    assert!(!turn.flow.accepts(&paid("aaaaaaaaaaaaaaa\u{e4}", 1)));
    assert!(turn.flow.accepts(&paid("aaaaaaaaaaaaaa\u{e4}", 1)));
    // A late one is not shown.
    assert!(turn.flow.accepts(&paid("aaaaaaaaaaaaaaa\u{e4}", 1000)));
    let turn = next(turn, paid("short", 1));
    assert_eq!(turn.steps[0].message, "Confirmed: short...");
}

#[test]
fn a_short_recipient_is_shown_in_full() {
    let turn = mainnet_client(100).fetch(URL, None);
    let turn = next(turn, response(402, Some("solana; recipient=abc; amount=1")));
    let turn = next(turn, reading(1.0, 1_000_000_000));
    assert_eq!(turn.steps[0].message, "Paying 1 SOL → abc...");
}

#[test]
fn numbers_of_doubles() {
    assert_eq!(number_of_double(1.5f64.to_bits()), JsonNumber::Float(0x3ff8_0000_0000_0000));
    assert_eq!(number_of_double(f64::MAX.to_bits()), JsonNumber::Float(f64::MAX.to_bits()));
    assert_eq!(number_of_double((-0.0f64).to_bits()), JsonNumber::Float(1 << 63));
    assert_eq!(number_of_double(f64::INFINITY.to_bits()), JsonNumber::PosInt(0));
    assert_eq!(number_of_double(f64::NEG_INFINITY.to_bits()), JsonNumber::PosInt(0));
    assert_eq!(number_of_double(f64::NAN.to_bits()), JsonNumber::PosInt(0));
}
