use std::sync::Arc;

use mpp_test_sdk::airdrop::AirdropAction;
use mpp_test_sdk::client::SetupNext;
use mpp_test_sdk::fetch::FetchAction;
use mpp_test_sdk::keys::SigningKey;
use mpp_test_sdk::shared::{SharedFetch, SharedSlot, SharedTurn};
use mpp_test_sdk::{
    mpp_fetch, reset_mpp_fetch, Error, FetchOptions, SolanaNetwork, TestClient, TestClientConfig,
};

const SHOP: &str = "http://shop";

fn client_of(seed: u8) -> TestClient {
    let config =
        TestClientConfig { network: Some(SolanaNetwork::Mainnet), ..TestClientConfig::default() };
    match config.with_key(SigningKey::from_bytes(&[seed; 32])).next {
        SetupNext::Ready(client) => client,
        _ => panic!("not ready"),
    }
}

fn pending(slot: &SharedSlot<Arc<TestClient>>) -> SharedFetch {
    let opts = FetchOptions { method: Some("PUT".to_string()), ..FetchOptions::default() };
    match mpp_fetch(slot, SHOP, Some(opts)) {
        SharedTurn::Create(pending, setup) => {
            assert_eq!(setup.steps.len(), 1);
            assert!(matches!(
                setup.next,
                SetupNext::Airdrop(_, AirdropAction::Request { lamports: 2_000_000_000, .. })
            ));
            pending
        }
        SharedTurn::Fetch(..) => panic!("nothing to create"),
    }
}

fn served_by(slot: &SharedSlot<Arc<TestClient>>) -> String {
    match mpp_fetch(slot, SHOP, None) {
        SharedTurn::Fetch(client, turn) => {
            assert!(matches!(turn.action, FetchAction::Send { .. }));
            assert_eq!(turn.flow.request().url, SHOP);
            assert_eq!(turn.flow.request().method, "GET");
            client.address.clone()
        }
        SharedTurn::Create(..) => panic!("no client"),
    }
}

#[test]
fn one_wallet_for_all_requests() {
    let mut slot = SharedSlot::new();
    let first = pending(&slot);
    let late = pending(&slot);
    let (client, turn) =
        first.created(&mut slot, Ok(client_of(1))).unwrap_or_else(|e| panic!("{e:?}"));
    assert_eq!(client.address, client_of(1).address);
    assert_eq!(turn.flow.request().method, "PUT");
    assert_eq!(served_by(&slot), client_of(1).address);
    assert_eq!(served_by(&slot), client_of(1).address);
    let (client, _) =
        late.created(&mut slot, Ok(client_of(2))).unwrap_or_else(|e| panic!("{e:?}"));
    assert_eq!(client.address, client_of(1).address);
}

#[test]
fn a_new_wallet_after_a_reset() {
    let mut slot = SharedSlot::new();
    let first = pending(&slot);
    assert!(first.created(&mut slot, Ok(client_of(1))).is_ok());
    reset_mpp_fetch(&mut slot);
    let second = pending(&slot);
    assert!(second.created(&mut slot, Ok(client_of(2))).is_ok());
    assert_eq!(served_by(&slot), client_of(2).address);
}

#[test]
fn a_client_that_cannot_be_made_is_tried_again() {
    let mut slot = SharedSlot::new();
    let first = pending(&slot);
    match first.created(&mut slot, Err(Error::Other("dry".to_string()))) {
        Err(error) => assert_eq!(error.display(), "dry"),
        Ok(_) => panic!("no error"),
    }
    assert!(slot.get().is_none());
    let second = pending(&slot);
    assert!(second.created(&mut slot, Ok(client_of(3))).is_ok());
    assert_eq!(served_by(&slot), client_of(3).address);
}
