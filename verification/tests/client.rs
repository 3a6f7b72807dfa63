use mpp_test_sdk::airdrop::{AirdropAction, AirdropEvent};
use mpp_test_sdk::client::{timeout_err, SetupNext, SetupTurn};
use mpp_test_sdk::keys::SigningKey;
use mpp_test_sdk::rpc::base58_decode;
use mpp_test_sdk::{
    create_test_client, Error, PaymentStep, PaymentStepType, SolanaNetwork, TestClient,
    TestClientConfig,
};

const ADDRESS_OF_7: &str = "GmaDrppBC7P5ARKV8g3djiwP89vz1jLK23V2GBjuAEGB";

fn config_of(network: SolanaNetwork, secret_key: Option<Vec<u8>>) -> TestClientConfig {
    TestClientConfig { network: Some(network), secret_key, ..TestClientConfig::default() }
}

fn ready(turn: SetupTurn) -> TestClient {
    match turn.next {
        SetupNext::Ready(client) => client,
        _ => panic!("not ready"),
    }
}

fn refusal(config: TestClientConfig) -> Error {
    match create_test_client(config) {
        Err(error) => error,
        Ok(_) => panic!("not refused"),
    }
}

fn text_in(step: &PaymentStep, key: &str) -> String {
    step.data.get(key).unwrap().as_str().unwrap().to_string()
}

#[test]
fn names_of_the_networks() {
    assert_eq!(SolanaNetwork::Devnet.as_str(), "devnet");
    assert_eq!(SolanaNetwork::Testnet.as_str(), "testnet");
    assert_eq!(SolanaNetwork::Mainnet.as_str(), "mainnet");
}

#[test]
fn public_nodes_of_the_networks() {
    assert_eq!(SolanaNetwork::Devnet.default_rpc(), "https://api.devnet.solana.com");
    assert_eq!(SolanaNetwork::Testnet.default_rpc(), "https://api.testnet.solana.com");
    assert_eq!(SolanaNetwork::Mainnet.default_rpc(), "https://api.mainnet-beta.solana.com");
}

#[test]
fn all_but_the_main_network_have_a_faucet() {
    assert!(SolanaNetwork::Devnet.supports_airdrop());
    assert!(SolanaNetwork::Testnet.supports_airdrop());
    assert!(!SolanaNetwork::Mainnet.supports_airdrop());
}

#[test]
fn mainnet_needs_a_key() {
    match refusal(config_of(SolanaNetwork::Mainnet, None)) {
        Error::Network(e) => {
            assert_eq!(e.network, "mainnet");
            assert_eq!(
                e.message,
                "create_test_client: mainnet requires a pre-funded secret_key. Airdrop is not available on mainnet."
            );
        }
        other => panic!("{other:?}"),
    }
}

#[test]
fn keys_of_a_wrong_length_are_refused() {
    for n in [0usize, 31, 33, 65] {
        let error = refusal(config_of(SolanaNetwork::Devnet, Some(vec![7; n])));
        assert_eq!(
            error.display(),
            format!("create_test_client: secret_key must be 32 or 64 bytes, got {n}")
        );
        assert!(matches!(error, Error::Other(_)));
    }
}

#[test]
fn a_mainnet_client_is_ready_at_once() {
    let turn = create_test_client(config_of(SolanaNetwork::Mainnet, Some(vec![7; 32]))).unwrap();
    assert_eq!(turn.steps.len(), 2);
    assert_eq!(turn.steps[0].step_type, PaymentStepType::WalletCreated);
    assert_eq!(turn.steps[0].message, format!("Wallet {ADDRESS_OF_7}"));
    assert_eq!(text_in(&turn.steps[0], "address"), ADDRESS_OF_7);
    assert_eq!(text_in(&turn.steps[0], "network"), "mainnet");
    assert_eq!(turn.steps[1].step_type, PaymentStepType::Funded);
    assert_eq!(turn.steps[1].message, "Using pre-funded mainnet wallet");
    assert_eq!(text_in(&turn.steps[1], "network"), "mainnet");
    assert_eq!(turn.steps[1].data.entries().len(), 1);
    let client = ready(turn);
    assert_eq!(client.address, ADDRESS_OF_7);
    assert_eq!(client.network, SolanaNetwork::Mainnet);
    assert_eq!(client.method, "solana");
    assert_eq!(client.rpc_url(), "https://api.mainnet-beta.solana.com");
    assert_eq!(client.timeout_nanos, 30_000_000_000);
    assert_eq!(client.signing_key().to_bytes(), [7; 32]);
    assert_eq!(*client.public_key(), SigningKey::from_bytes(&[7; 32]).verifying_key());
}

#[test]
fn what_is_chosen_is_kept() {
    let config = TestClientConfig {
        network: Some(SolanaNetwork::Mainnet),
        secret_key: Some(vec![7; 32]),
        timeout_nanos: Some(5),
        rpc_url: Some("http://localhost:8899".to_string()),
    };
    let client = ready(create_test_client(config).unwrap());
    assert_eq!(client.timeout_nanos, 5);
    assert_eq!(client.rpc_url(), "http://localhost:8899");
}

#[test]
fn a_keypair_sets_up_the_client_of_its_seed() {
    let mut keypair = vec![7; 32];
    keypair.extend([1; 32]);
    let turn = create_test_client(config_of(SolanaNetwork::Mainnet, Some(keypair))).unwrap();
    assert_eq!(ready(turn).address, ADDRESS_OF_7);
}

#[test]
fn a_client_is_funded_from_the_faucet() {
    let turn = create_test_client(config_of(SolanaNetwork::Testnet, Some(vec![7; 32]))).unwrap();
    assert_eq!(turn.steps.len(), 1);
    let flow = match turn.next {
        SetupNext::Airdrop(flow, AirdropAction::Request { pubkey, lamports }) => {
            assert_eq!(pubkey, ADDRESS_OF_7);
            assert_eq!(lamports, 2_000_000_000);
            flow
        }
        _ => panic!("no airdrop"),
    };
    let event = AirdropEvent::Requested(Ok("sig".to_string()));
    assert!(flow.accepts(&event));
    let turn = flow.step(event);
    assert!(turn.steps.is_empty());
    let flow = match turn.next {
        SetupNext::Airdrop(flow, AirdropAction::Confirm { signature }) => {
            assert_eq!(signature, "sig");
            flow
        }
        _ => panic!("no confirmation"),
    };
    let turn = flow.step(AirdropEvent::Confirmed(Ok(())));
    assert_eq!(turn.steps.len(), 1);
    assert_eq!(turn.steps[0].step_type, PaymentStepType::Funded);
    assert_eq!(turn.steps[0].message, "Wallet funded via testnet airdrop (2 SOL)");
    assert_eq!(text_in(&turn.steps[0], "network"), "testnet");
    assert_eq!(turn.steps[0].data.get("amount").unwrap().as_u64(), Some(2));
    assert_eq!(ready(turn).network, SolanaNetwork::Testnet);
}

#[test]
fn the_faucet_is_asked_again_three_times() {
    let turn = create_test_client(config_of(SolanaNetwork::Devnet, Some(vec![7; 32]))).unwrap();
    let mut flow = match turn.next {
        SetupNext::Airdrop(flow, AirdropAction::Request { .. }) => flow,
        _ => panic!("no airdrop"),
    };
    for pause in [1, 2, 4] {
        let turn = flow.step(AirdropEvent::Requested(Err("limit".to_string())));
        flow = match turn.next {
            SetupNext::Airdrop(flow, AirdropAction::Wait { seconds }) => {
                assert_eq!(seconds, pause);
                flow
            }
            _ => panic!("no pause"),
        };
        let turn = flow.step(AirdropEvent::Waited);
        flow = match turn.next {
            SetupNext::Airdrop(flow, AirdropAction::Request { pubkey, .. }) => {
                assert_eq!(pubkey, ADDRESS_OF_7);
                flow
            }
            _ => panic!("no request"),
        };
    }
    let turn = flow.step(AirdropEvent::Requested(Ok("sig".to_string())));
    let flow = match turn.next {
        SetupNext::Airdrop(flow, AirdropAction::Confirm { .. }) => flow,
        _ => panic!("no confirmation"),
    };
    let turn = flow.step(AirdropEvent::Confirmed(Err("late".to_string())));
    assert!(turn.steps.is_empty());
    match turn.next {
        SetupNext::Failed(Error::Faucet(e)) => {
            assert_eq!(e.address, ADDRESS_OF_7);
            assert_eq!(
                e.message,
                format!(
                    "Failed to airdrop SOL to wallet {ADDRESS_OF_7}. The devnet/testnet faucet may be rate-limited. Wait 30s and retry, or pass a pre-funded secret_key to skip airdrop."
                )
            );
        }
        _ => panic!("no failure"),
    }
}

#[test]
fn nothing_needs_to_be_chosen_for_a_devnet_client() {
    let turn = create_test_client(TestClientConfig::default()).unwrap();
    assert_eq!(text_in(&turn.steps[0], "network"), "devnet");
    let address = text_in(&turn.steps[0], "address");
    match turn.next {
        SetupNext::Airdrop(_, AirdropAction::Request { pubkey, lamports }) => {
            assert_eq!(pubkey, address);
            assert_eq!(lamports, 2_000_000_000);
        }
        _ => panic!("no airdrop"),
    }
}

#[test]
fn an_address_decodes_to_the_public_key() {
    let turn = create_test_client(config_of(SolanaNetwork::Mainnet, Some(vec![7; 32]))).unwrap();
    let client = ready(turn);
    assert_eq!(base58_decode(&client.address), Ok(client.public_key().to_vec()));
}

#[test]
fn a_client_of_a_given_key() {
    let turn = config_of(SolanaNetwork::Mainnet, None).with_key(SigningKey::from_bytes(&[7; 32]));
    assert_eq!(ready(turn).address, ADDRESS_OF_7);
}

#[test]
fn the_error_of_a_timeout() {
    match timeout_err("http://x", 1_999_999_999) {
        Error::Timeout(e) => {
            assert_eq!(
                e.message,
                "Request to http://x timed out after 1999ms. Increase the timeout option or check your Solana RPC connection."
            );
            assert_eq!(e.url, "http://x");
            assert_eq!(e.timeout_ms, 1999);
        }
        other => panic!("{other:?}"),
    }
}

#[test]
fn a_very_long_timeout_is_cut_to_64_bits() {
    match timeout_err("u", u128::MAX) {
        Error::Timeout(e) => {
            let millis: u128 = u128::MAX / 1_000_000;
            assert_eq!(e.timeout_ms, millis as u64);
            assert!(e.message.contains(&format!("{millis}ms")));
        }
        other => panic!("{other:?}"),
    }
}
