//! Client and server sides of the Machine Payments Protocol: HTTP 402 payments settled on Solana.
//!
//! A client makes a request with [`TestClient::fetch`]. Where the answer is 402, the request pays
//! what the answer asks for and is made again with a receipt. A server asks for payments and judges
//! receipts with [`MppServer::charge`].
//!
//! Nothing in this crate waits or talks to the network. What takes several steps is a flow: it
//! names the next action, and takes the event that the action led to.
#[allow(unused_imports)]
use vstd::prelude::*;

pub mod airdrop;
pub mod base58;
pub mod client;
pub mod errors;
pub mod fetch;
pub mod header;
pub mod json;
pub mod keys;
pub mod payment;
pub mod rpc;
pub mod server;
pub mod shared;
pub mod string_map;
pub mod text;
pub mod transaction;

pub use client::{
    create_test_client, FetchOptions, PaymentStep, PaymentStepType, SolanaNetwork, TestClient,
    TestClientConfig,
};
pub use errors::{Error, MppFaucetError, MppNetworkError, MppPaymentError, MppTimeoutError};
pub use rpc::LAMPORTS_PER_SOL;
pub use server::{create_test_server, ChargeOptions, ChargeResult, MppServer, TestServerConfig};
pub use shared::{mpp_fetch, reset_mpp_fetch};

verus! {

} // verus!
