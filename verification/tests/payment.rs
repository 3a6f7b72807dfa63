use mpp_test_sdk::client::SetupNext;
use mpp_test_sdk::payment::{PaymentAction, PaymentEvent, PaymentFlow};
use mpp_test_sdk::rpc::{base58_encode, build_transfer_transaction};
use mpp_test_sdk::{create_test_client, SolanaNetwork, TestClient, TestClientConfig};

const TO: &str = "cGfHiC6Kgg3FpFZvgwGcswsCRtp4aBP2fzuXRQPizuN";
const BLOCKHASH: &str = "CktRuQ2mttgRGkXJtyksdKHjUdc2C4TgDzyB98oEzy8";

fn payer() -> TestClient {
    let config = TestClientConfig {
        network: Some(SolanaNetwork::Mainnet),
        secret_key: Some(vec![7; 32]),
        ..TestClientConfig::default()
    };
    match create_test_client(config).unwrap().next {
        SetupNext::Ready(client) => client,
        _ => panic!("not ready"),
    }
}

fn pay(flow: &mut PaymentFlow<'_>, event: PaymentEvent) -> PaymentAction {
    assert!(flow.accepts(&event));
    flow.step(event)
}

fn failure(action: PaymentAction) -> String {
    match action {
        PaymentAction::Fail(message) => message,
        _ => panic!("no failure"),
    }
}

#[test]
fn a_payment_from_start_to_end() {
    let client = payer();
    let mut flow = PaymentFlow::new(&client, TO, 42).unwrap_or_else(|e| panic!("{e}"));
    assert!(!flow.accepts(&PaymentEvent::Sent(Ok("s".to_string()))));
    match pay(&mut flow, PaymentEvent::Blockhash(Ok(BLOCKHASH.to_string()))) {
        PaymentAction::Send { tx_base64 } => assert_eq!(
            tx_base64,
            build_transfer_transaction(
                client.signing_key(),
                client.public_key(),
                &[9; 32],
                42,
                &[3; 32]
            )
        ),
        _ => panic!("nothing sent"),
    }
    match pay(&mut flow, PaymentEvent::Sent(Ok("sig".to_string()))) {
        PaymentAction::Confirm { signature } => assert_eq!(signature, "sig"),
        _ => panic!("not waited for"),
    }
    match pay(&mut flow, PaymentEvent::Confirmed(Ok(()))) {
        PaymentAction::Done { signature } => assert_eq!(signature, "sig"),
        _ => panic!("not done"),
    }
    assert!(!flow.accepts(&PaymentEvent::Confirmed(Ok(()))));
}

#[test]
fn recipients_that_are_no_keys() {
    let client = payer();
    let refused = |to: &str| PaymentFlow::new(&client, to, 1).err().unwrap();
    assert_eq!(
        refused("0x"),
        "send_payment: invalid recipient: base58_decode: invalid character '0'"
    );
    assert_eq!(refused("abc"), "send_payment: recipient must be 32 bytes, got 3");
    assert_eq!(refused(""), "send_payment: recipient must be 32 bytes, got 0");
}

#[test]
fn the_address_of_a_key_is_paid_and_that_of_zeros_is_not() {
    let client = payer();
    assert!(PaymentFlow::new(&client, &base58_encode(&[200; 32]), 1).is_ok());
    assert_eq!(
        PaymentFlow::new(&client, &base58_encode(&[0; 32]), 1).err().unwrap(),
        "send_payment: recipient must be 32 bytes, got 33"
    );
}

#[test]
fn block_hashes_that_are_none() {
    let client = payer();
    let start = || PaymentFlow::new(&client, TO, 1).unwrap_or_else(|e| panic!("{e}"));
    assert_eq!(
        failure(pay(&mut start(), PaymentEvent::Blockhash(Err("down".to_string())))),
        "send_payment: down"
    );
    assert_eq!(
        failure(pay(&mut start(), PaymentEvent::Blockhash(Ok("a b".to_string())))),
        "send_payment: invalid blockhash: base58_decode: invalid character ' '"
    );
    assert_eq!(
        failure(pay(&mut start(), PaymentEvent::Blockhash(Ok("abc".to_string())))),
        "send_payment: blockhash must be 32 bytes"
    );
}

#[test]
fn transfers_that_fail() {
    let client = payer();
    let start = || {
        let mut flow = PaymentFlow::new(&client, TO, 1).unwrap_or_else(|e| panic!("{e}"));
        pay(&mut flow, PaymentEvent::Blockhash(Ok(BLOCKHASH.to_string())));
        flow
    };
    assert_eq!(
        failure(pay(&mut start(), PaymentEvent::Sent(Err("no funds".to_string())))),
        "send_payment: sendTransaction: no funds"
    );
    let mut flow = start();
    pay(&mut flow, PaymentEvent::Sent(Ok("sig".to_string())));
    assert_eq!(
        failure(pay(&mut flow, PaymentEvent::Confirmed(Err("late".to_string())))),
        "send_payment: confirm: late"
    );
}
