use mpp_test_sdk::client::SetupNext;
use mpp_test_sdk::fetch::{AmountReading, FetchAction, FetchEvent};
use mpp_test_sdk::json::{Json, JsonNumber};
use mpp_test_sdk::keys::SigningKey;
use mpp_test_sdk::server::{
    assess_transaction, lacks_recipient, ChargeAction, ChargeEvent, ChargeFlow,
};
use mpp_test_sdk::{
    create_test_client, create_test_server, ChargeOptions, ChargeResult, MppServer, SolanaNetwork,
    TestClientConfig, TestServerConfig,
};

const KEY_ADDRESS: &str = "GmaDrppBC7P5ARKV8g3djiwP89vz1jLK23V2GBjuAEGB";
const RECEIPT: &str = r#"solana; signature="sig"; network="devnet"; amount="0.5""#;

fn server_at(address: &str) -> MppServer {
    create_test_server(TestServerConfig {
        recipient_address: Some(address.to_string()),
        ..TestServerConfig::default()
    })
    .unwrap_or_else(|e| panic!("{e}"))
}

fn begin(server: &MppServer, receipt: &str) -> ChargeFlow {
    let (flow, action) = server.charge(Some(receipt), &ChargeOptions { amount: "0.25" });
    match action {
        ChargeAction::ReadRequired { text } => assert_eq!(text, "0.25"),
        _ => panic!("nothing to read"),
    }
    flow
}

fn tell_charge(flow: &mut ChargeFlow, event: ChargeEvent) -> ChargeAction {
    assert!(flow.accepts(&event));
    flow.step(event)
}

fn required() -> ChargeEvent {
    ChargeEvent::Required(Some("0.25".to_string()))
}

fn denied(action: ChargeAction) -> String {
    match action {
        ChargeAction::Answer(ChargeResult::Denied(reason)) => reason,
        _ => panic!("not denied"),
    }
}

fn up_to_transaction(server: &MppServer) -> ChargeFlow {
    let mut flow = begin(server, RECEIPT);
    match tell_charge(&mut flow, required()) {
        ChargeAction::CompareClaim { claimed } => assert_eq!(claimed, "0.5"),
        _ => panic!("nothing to compare"),
    }
    match tell_charge(&mut flow, ChargeEvent::Claimed(Some(false))) {
        ChargeAction::GetTransaction { signature } => assert_eq!(signature, "sig"),
        _ => panic!("no transaction asked for"),
    }
    flow
}

fn json_object(members: Vec<(&str, Json)>) -> Json {
    Json::object(members.into_iter().map(|(k, v)| (k.to_string(), v)).collect())
}

fn transfer(keys: Vec<Json>, pre: Vec<Json>, post: Vec<Json>, err: Json) -> Json {
    json_object(vec![
        (
            "meta",
            json_object(vec![
                ("err", err),
                ("preBalances", Json::array(pre)),
                ("postBalances", Json::array(post)),
            ]),
        ),
        (
            "transaction",
            json_object(vec![(
                "message",
                json_object(vec![("accountKeys", Json::array(keys))]),
            )]),
        ),
    ])
}

fn good_transfer() -> Json {
    transfer(
        vec![
            json_object(vec![("pubkey", Json::text("payer"))]),
            json_object(vec![("pubkey", Json::text("shop"))]),
        ],
        vec![Json::whole(10), Json::whole(20)],
        vec![Json::whole(5), Json::whole(25)],
        Json::Null,
    )
}

#[test]
fn a_server_is_paid_to_the_address_of_its_key() {
    let server = create_test_server(TestServerConfig {
        secret_key: Some(vec![7; 32]),
        ..TestServerConfig::default()
    })
    .unwrap_or_else(|e| panic!("{e}"));
    assert_eq!(server.recipient_address, KEY_ADDRESS);
    assert_eq!(server.network, SolanaNetwork::Devnet);
    assert_eq!(server.rpc_url(), "https://api.devnet.solana.com");
}

#[test]
fn a_keypair_sets_up_the_server_of_its_seed() {
    let mut keypair = vec![7; 32];
    keypair.extend([1; 32]);
    let server = create_test_server(TestServerConfig {
        network: Some(SolanaNetwork::Mainnet),
        secret_key: Some(keypair),
        recipient_address: None,
        rpc_url: Some("http://node".to_string()),
    })
    .unwrap_or_else(|e| panic!("{e}"));
    assert_eq!(server.recipient_address, KEY_ADDRESS);
    assert_eq!(server.network, SolanaNetwork::Mainnet);
    assert_eq!(server.rpc_url(), "http://node");
}

#[test]
fn a_server_key_of_a_wrong_length_is_refused() {
    for n in [0usize, 31, 33, 63, 65] {
        let config =
            TestServerConfig { secret_key: Some(vec![1; n]), ..TestServerConfig::default() };
        assert_eq!(
            create_test_server(config).err().unwrap(),
            format!("create_test_server: secret_key must be 32 or 64 bytes, got {n}")
        );
    }
}

#[test]
fn a_named_recipient_is_kept_whatever_the_key() {
    let server = create_test_server(TestServerConfig {
        secret_key: Some(vec![1; 5]),
        recipient_address: Some("me".to_string()),
        ..TestServerConfig::default()
    })
    .unwrap_or_else(|e| panic!("{e}"));
    assert_eq!(server.recipient_address, "me");
}

#[test]
fn servers_without_a_key_get_fresh_ones() {
    let one = create_test_server(TestServerConfig::default()).unwrap_or_else(|e| panic!("{e}"));
    let two = create_test_server(TestServerConfig::default()).unwrap_or_else(|e| panic!("{e}"));
    assert_ne!(one.recipient_address, two.recipient_address);
}

#[test]
fn a_server_of_a_given_key() {
    let key = SigningKey::from_bytes(&[7; 32]);
    assert_eq!(TestServerConfig::default().with_key(key).recipient_address, KEY_ADDRESS);
}

#[test]
fn a_request_without_a_receipt_is_asked_to_pay() {
    let server = server_at("shop");
    for receipt in [None, Some("")] {
        let (flow, action) = server.charge(receipt, &ChargeOptions { amount: "lots" });
        let (header, body) = match action {
            ChargeAction::Answer(ChargeResult::NeedsPayment { payment_request_header, body }) => {
                (payment_request_header, body)
            }
            _ => panic!("not asked"),
        };
        assert_eq!(header, r#"solana; amount="lots"; recipient="shop"; network="devnet""#);
        assert_eq!(body.at("error").as_str(), Some("Payment Required"));
        let payment = body.at("payment");
        assert_eq!(payment.at("amount").as_str(), Some("lots"));
        assert_eq!(payment.at("currency").as_str(), Some("SOL"));
        assert_eq!(payment.at("network").as_str(), Some("devnet"));
        assert_eq!(payment.at("recipient").as_str(), Some("shop"));
        assert!(!flow.accepts(&required()));
    }
}

#[test]
fn a_charge_that_is_no_amount() {
    let (mut flow, _) =
        server_at("shop").charge(Some(RECEIPT), &ChargeOptions { amount: "a \"lot\"" });
    assert_eq!(
        denied(tell_charge(&mut flow, ChargeEvent::Required(None))),
        r#"server configuration error: invalid amount "a \"lot\"""#
    );
}

#[test]
fn a_receipt_without_a_signature() {
    let mut flow = begin(&server_at("shop"), "solana; amount=1");
    assert_eq!(
        denied(tell_charge(&mut flow, required())),
        "Payment-Receipt missing signature field"
    );
}

#[test]
fn receipts_that_claim_too_little() {
    let server = server_at("shop");
    let mut flow = begin(&server, "solana; signature=sig");
    assert_eq!(
        denied(tell_charge(&mut flow, required())),
        "Insufficient payment: claimed 0 SOL, required 0.25 SOL"
    );
    for (claimed, short) in [("0.1", Some(true)), ("some", None)] {
        let mut flow = begin(&server, &format!("solana; signature=sig; amount={claimed}"));
        tell_charge(&mut flow, required());
        assert_eq!(
            denied(tell_charge(&mut flow, ChargeEvent::Claimed(short))),
            format!("Insufficient payment: claimed {claimed} SOL, required 0.25 SOL")
        );
    }
}

#[test]
fn a_payment_is_authorized() {
    let mut flow = up_to_transaction(&server_at("shop"));
    match tell_charge(&mut flow, ChargeEvent::Transaction(Ok(Some(good_transfer())))) {
        ChargeAction::CompareReceived { pre, post } => {
            assert_eq!(pre, JsonNumber::PosInt(20));
            assert_eq!(post, JsonNumber::PosInt(25));
        }
        _ => panic!("nothing to compare"),
    }
    let event = ChargeEvent::Received { received: "0.25".to_string(), short: false };
    assert!(matches!(
        tell_charge(&mut flow, event),
        ChargeAction::Answer(ChargeResult::Authorized)
    ));
    assert!(!flow.accepts(&required()));
}

#[test]
fn a_payment_that_is_too_small() {
    let mut flow = up_to_transaction(&server_at("shop"));
    tell_charge(&mut flow, ChargeEvent::Transaction(Ok(Some(good_transfer()))));
    let event = ChargeEvent::Received { received: "0.1".to_string(), short: true };
    assert_eq!(
        denied(tell_charge(&mut flow, event)),
        "Payment too small: received 0.1 SOL, required 0.25 SOL"
    );
}

#[test]
fn transactions_that_are_not_there() {
    let mut flow = up_to_transaction(&server_at("shop"));
    let event = ChargeEvent::Transaction(Err("rpc: null result".to_string()));
    assert_eq!(
        denied(tell_charge(&mut flow, event)),
        "Payment verification failed: rpc: null result"
    );
    let mut flow = up_to_transaction(&server_at("shop"));
    assert_eq!(
        denied(tell_charge(&mut flow, ChargeEvent::Transaction(Ok(None)))),
        "Transaction not found on chain"
    );
}

#[test]
fn transactions_that_prove_nothing() {
    let none = Vec::new;
    let shop = || vec![Json::text("shop")];
    let balances = || vec![Json::whole(1)];
    for (tx, reason) in [
        (
            Json::text("tx"),
            "Payment verification failed: could not read transaction metadata",
        ),
        (
            transfer(shop(), balances(), balances(), Json::text("e")),
            "Transaction failed on chain",
        ),
        (
            json_object(vec![("meta", json_object(vec![]))]),
            "Payment verification failed: missing accountKeys",
        ),
        (
            transfer(none(), balances(), balances(), Json::Null),
            "Recipient shop... not found in transaction",
        ),
        (
            transfer(shop(), none(), balances(), Json::Null),
            "Payment verification failed: balance arrays too short",
        ),
        (
            transfer(shop(), balances(), none(), Json::Null),
            "Payment verification failed: balance arrays too short",
        ),
        (
            transfer(shop(), vec![Json::text("1")], balances(), Json::Null),
            "Payment verification failed: balance arrays too short",
        ),
    ] {
        let mut flow = up_to_transaction(&server_at("shop"));
        assert_eq!(
            denied(tell_charge(&mut flow, ChargeEvent::Transaction(Ok(Some(tx))))),
            reason
        );
    }
}

#[test]
fn the_first_key_of_the_recipient_counts() {
    let tx = transfer(
        vec![Json::Null, Json::text("shop"), json_object(vec![("pubkey", Json::text("shop"))])],
        vec![Json::whole(1), Json::whole(2), Json::whole(3)],
        vec![Json::whole(4), Json::whole(5), Json::whole(6)],
        Json::Null,
    );
    assert_eq!(
        assess_transaction(&tx, "shop"),
        Ok((JsonNumber::PosInt(2), JsonNumber::PosInt(5)))
    );
}

#[test]
fn keys_that_have_no_address() {
    let tx = transfer(
        vec![
            json_object(vec![("pubkey", Json::whole(1))]),
            json_object(vec![("key", Json::text("recipient-address"))]),
            Json::array(vec![Json::text("recipient-address")]),
        ],
        vec![],
        vec![],
        Json::Null,
    );
    assert!(lacks_recipient(&tx, "recipient-address"));
    assert_eq!(
        assess_transaction(&tx, "recipient-address"),
        Err("Recipient recipien... not found in transaction".to_string())
    );
}

#[test]
fn a_recipient_that_cannot_be_shown() {
    // The eighth byte of this address is in the middle of a character.
    let odd = "aaaaaaa\u{e4}";
    let flow = up_to_transaction(&server_at(odd));
    assert!(!flow.accepts(&ChargeEvent::Transaction(Ok(Some(good_transfer())))));
    let named = transfer(
        vec![Json::text(odd)],
        vec![Json::whole(1)],
        vec![Json::whole(2)],
        Json::Null,
    );
    assert!(flow.accepts(&ChargeEvent::Transaction(Ok(Some(named)))));
    assert!(flow.accepts(&ChargeEvent::Transaction(Ok(Some(Json::Null)))));
}

#[test]
fn a_client_and_a_server_understand_each_other() {
    let server = create_test_server(TestServerConfig {
        secret_key: Some(vec![7; 32]),
        ..TestServerConfig::default()
    })
    .unwrap_or_else(|e| panic!("{e}"));
    let client = match create_test_client(TestClientConfig {
        network: Some(SolanaNetwork::Mainnet),
        secret_key: Some(vec![8; 32]),
        ..TestClientConfig::default()
    })
    .unwrap()
    .next
    {
        SetupNext::Ready(client) => client,
        _ => panic!("not ready"),
    };

    let header = match server.charge(None, &ChargeOptions { amount: "0.5" }).1 {
        ChargeAction::Answer(ChargeResult::NeedsPayment { payment_request_header, .. }) => {
            payment_request_header
        }
        _ => panic!("not asked"),
    };
    let turn = client.fetch("http://shop", None).flow.step(FetchEvent::Response {
        status: 402,
        payment_request: Some(header.into_bytes()),
        took_nanos: 1,
    });
    match &turn.action {
        FetchAction::ReadAmount { text } => assert_eq!(text, "0.5"),
        _ => panic!("nothing to read"),
    }
    let turn = turn.flow.step(FetchEvent::Amount(Some(AmountReading {
        text: "0.5".to_string(),
        bits: 0.5f64.to_bits(),
        lamports: 500_000_000,
    })));
    match &turn.action {
        FetchAction::Pay { recipient, lamports, .. } => {
            assert_eq!(recipient, KEY_ADDRESS);
            assert_eq!(*lamports, 500_000_000);
        }
        _ => panic!("nothing to pay"),
    }
    let turn = turn
        .flow
        .step(FetchEvent::Paid { outcome: Ok("sig".to_string()), took_nanos: 1 });
    let receipt = turn.flow.request().headers.get("payment-receipt").unwrap();

    let mut flow = begin(&server, receipt);
    match tell_charge(&mut flow, required()) {
        ChargeAction::CompareClaim { claimed } => assert_eq!(claimed, "0.5"),
        _ => panic!("nothing to compare"),
    }
    match tell_charge(&mut flow, ChargeEvent::Claimed(Some(false))) {
        ChargeAction::GetTransaction { signature } => assert_eq!(signature, "sig"),
        _ => panic!("no transaction asked for"),
    }
}
