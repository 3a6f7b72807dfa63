//! The paying side: its wallet, its configuration, and how it is set up.
use vstd::prelude::*;
use vstd::string::*;

pub use crate::fetch::FetchOptions;

use crate::airdrop::{AirdropAction, AirdropActionView, AirdropEvent, AirdropFlow, AirdropView};
use crate::base58::{
    base58_bytes, base58_encode, base58_text, decoding_undoes_encoding, zeros_only,
};
use crate::errors::{Error, ErrorView, MppNetworkError, MppTimeoutError};
use crate::header::plain_value;
use crate::json::{Json, JsonNumber, JsonView};
use crate::keys::{ed25519_public_key, seed_in, SigningKey};
use crate::rpc::RpcClient;
use crate::string_map::StringMap;
use crate::text::{decimal, decimal_of, joined};

verus! {

// ---------------------------------------------------------------------------------------------
// Networks
// ---------------------------------------------------------------------------------------------
/// The Solana networks.
#[derive(Debug, Clone, Copy, PartialEq, Eq, Structural)]
pub enum SolanaNetwork {
    Devnet,
    Testnet,
    Mainnet,
}

impl SolanaNetwork {
    /// The network's name.
    pub open spec fn name(self) -> Seq<char> {
        match self {
            SolanaNetwork::Devnet => "devnet"@,
            SolanaNetwork::Testnet => "testnet"@,
            SolanaNetwork::Mainnet => "mainnet"@,
        }
    }

    /// The address of the network's public node.
    pub open spec fn public_node(self) -> Seq<char> {
        match self {
            SolanaNetwork::Devnet => "https://api.devnet.solana.com"@,
            SolanaNetwork::Testnet => "https://api.testnet.solana.com"@,
            SolanaNetwork::Mainnet => "https://api.mainnet-beta.solana.com"@,
        }
    }

    /// The network's name.
    pub fn as_str(&self) -> (r: &'static str)
        ensures
            r@ == self.name(),
    {
        match self {
            SolanaNetwork::Devnet => "devnet",
            SolanaNetwork::Testnet => "testnet",
            SolanaNetwork::Mainnet => "mainnet",
        }
    }

    /// The address of the network's public node.
    pub fn default_rpc(&self) -> (r: &'static str)
        ensures
            r@ == self.public_node(),
    {
        match self {
            SolanaNetwork::Devnet => "https://api.devnet.solana.com",
            SolanaNetwork::Testnet => "https://api.testnet.solana.com",
            SolanaNetwork::Mainnet => "https://api.mainnet-beta.solana.com",
        }
    }

    /// Whether the network has a faucet: all but the main one do.
    pub fn supports_airdrop(&self) -> (r: bool)
        ensures
            r == (*self != SolanaNetwork::Mainnet),
    {
        match self {
            SolanaNetwork::Devnet => true,
            SolanaNetwork::Testnet => true,
            SolanaNetwork::Mainnet => false,
        }
    }
}

// ---------------------------------------------------------------------------------------------
// Lifecycle events
// ---------------------------------------------------------------------------------------------
/// The kinds of lifecycle events.
#[derive(Debug, Clone, Copy, PartialEq, Eq, Structural)]
pub enum PaymentStepType {
    WalletCreated,
    Funded,
    Request,
    Payment,
    Retry,
    Success,
    Error,
}

/// A lifecycle event that the caller is told of.
#[derive(Debug)]
pub struct PaymentStep {
    pub step_type: PaymentStepType,
    pub message: String,
    pub data: StringMap<Json>,
}

/// A lifecycle event, with texts as sequences of characters.
pub struct StepView {
    pub step_type: PaymentStepType,
    pub message: Seq<char>,
    pub data: Map<Seq<char>, JsonView>,
}

impl View for PaymentStep {
    type V = StepView;

    open spec fn view(&self) -> StepView {
        StepView { step_type: self.step_type, message: self.message@, data: self.data@ }
    }
}

/// Some lifecycle events, with texts as sequences of characters.
pub open spec fn step_views(steps: Seq<PaymentStep>) -> Seq<StepView> {
    Seq::new(steps.len(), |i: int| steps[i]@)
}

/// The data of a lifecycle event with one entry.
pub(crate) fn data_of_1(key: &str, value: Json) -> (r: StringMap<Json>)
    ensures
        r@ == Map::<Seq<char>, JsonView>::empty().insert(key@, value@),
{
    let mut data = StringMap::new();
    data.insert(key.to_owned(), value);
    data
}

/// The data of a lifecycle event with two entries.
pub(crate) fn data_of_2(key: &str, value: Json, key2: &str, value2: Json) -> (r: StringMap<Json>)
    ensures
        r@ == Map::<Seq<char>, JsonView>::empty().insert(key@, value@).insert(key2@, value2@),
{
    let mut data = data_of_1(key, value);
    data.insert(key2.to_owned(), value2);
    data
}

// ---------------------------------------------------------------------------------------------
// Configuration
// ---------------------------------------------------------------------------------------------
/// How a client is to be set up. What is left out has a default.
pub struct TestClientConfig {
    pub network: Option<SolanaNetwork>,
    /// 32-byte seed or 64-byte keypair bytes. Optional on devnet/testnet.
    pub secret_key: Option<Vec<u8>>,
    /// How long a request may take in all, in nanoseconds.
    pub timeout_nanos: Option<u128>,
    pub rpc_url: Option<String>,
}

impl Default for TestClientConfig {
    fn default() -> (r: Self)
        ensures
            r.network is None,
            r.secret_key is None,
            r.timeout_nanos is None,
            r.rpc_url is None,
    {
        TestClientConfig { network: None, secret_key: None, timeout_nanos: None, rpc_url: None }
    }
}

/// The timeout that a client has by default: 30 seconds.
pub const DEFAULT_TIMEOUT_NANOS: u128 = 30_000_000_000;

impl TestClientConfig {
    /// The network, which is devnet by default.
    pub open spec fn chosen_network(self) -> SolanaNetwork {
        match self.network {
            Some(network) => network,
            None => SolanaNetwork::Devnet,
        }
    }

    /// The timeout.
    pub open spec fn chosen_timeout(self) -> u128 {
        match self.timeout_nanos {
            Some(nanos) => nanos,
            None => DEFAULT_TIMEOUT_NANOS,
        }
    }

    /// The node's address, which is that of the network's public node by default.
    pub open spec fn chosen_rpc(self) -> Seq<char> {
        match self.rpc_url {
            Some(url) => url@,
            None => self.chosen_network().public_node(),
        }
    }

    /// Why a client cannot be set up like this: the main network and no secret key, or a secret key
    /// of the wrong length.
    pub open spec fn refusal(self) -> Option<ErrorView> {
        if self.chosen_network() == SolanaNetwork::Mainnet && self.secret_key is None {
            Some(
                ErrorView::Network {
                    message:
                        "create_test_client: mainnet requires a pre-funded secret_key. Airdrop is not available on mainnet."@,
                    network: "mainnet"@,
                },
            )
        } else {
            match self.secret_key {
                Some(key) => if seed_in(key@) is None {
                    Some(
                        ErrorView::Other(
                            "create_test_client: secret_key must be 32 or 64 bytes, got "@
                                + decimal(key@.len()),
                        ),
                    )
                } else {
                    None
                },
                None => None,
            }
        }
    }

    /// The client that is set up like this with the key that has this seed.
    pub open spec fn client(self, seed: Seq<u8>) -> ClientView {
        ClientView {
            address: base58_text(ed25519_public_key(seed)),
            network: self.chosen_network(),
            method: "solana"@,
            rpc_url: self.chosen_rpc(),
            seed,
            public_key: ed25519_public_key(seed),
            timeout_nanos: self.chosen_timeout(),
        }
    }
}

// ---------------------------------------------------------------------------------------------
// The client
// ---------------------------------------------------------------------------------------------
/// The keys of a wallet.
pub struct Wallet {
    signing_key: SigningKey,
    pub_key_bytes: [u8; 32],
}

/// The keys of a wallet, as bytes.
pub struct WalletView {
    pub seed: Seq<u8>,
    pub public_key: Seq<u8>,
}

impl View for Wallet {
    type V = WalletView;

    closed spec fn view(&self) -> WalletView {
        WalletView { seed: self.signing_key@, public_key: self.pub_key_bytes@ }
    }
}

/// A client with its wallet.
pub struct TestClient {
    pub address: String,
    pub network: SolanaNetwork,
    pub method: String,
    pub rpc: RpcClient,
    pub wallet: Wallet,
    /// How long a request may take in all, in nanoseconds.
    pub timeout_nanos: u128,
}

/// A client, with texts as sequences of characters.
pub struct ClientView {
    pub address: Seq<char>,
    pub network: SolanaNetwork,
    pub method: Seq<char>,
    pub rpc_url: Seq<char>,
    pub seed: Seq<u8>,
    pub public_key: Seq<u8>,
    pub timeout_nanos: u128,
}

impl View for TestClient {
    type V = ClientView;

    open spec fn view(&self) -> ClientView {
        ClientView {
            address: self.address@,
            network: self.network,
            method: self.method@,
            rpc_url: self.rpc@,
            seed: self.wallet@.seed,
            public_key: self.wallet@.public_key,
            timeout_nanos: self.timeout_nanos,
        }
    }
}

/// The error of a request that took longer than the timeout. Its number of milliseconds is that of
/// the message, kept to 64 bits.
pub open spec fn timeout_error(url: Seq<char>, timeout_nanos: u128) -> ErrorView {
    let millis = timeout_nanos / 1_000_000;
    ErrorView::Timeout {
        message: "Request to "@ + url + " timed out after "@ + decimal(millis as nat)
            + "ms. Increase the timeout option or check your Solana RPC connection."@,
        url,
        timeout_ms: (millis % 0x1_0000_0000_0000_0000) as u64,
    }
}

/// The error of a request that took longer than the timeout.
pub fn timeout_err(url: &str, timeout_nanos: u128) -> (r: Error)
    ensures
        r@ == timeout_error(url@, timeout_nanos),
{
    let millis: u128 = timeout_nanos / 1_000_000;
    let mut message = joined("Request to ", url);
    message.append(" timed out after ");
    message.append(decimal_of(millis).as_str());
    message.append("ms. Increase the timeout option or check your Solana RPC connection.");
    Error::from(
        MppTimeoutError {
            message,
            url: url.to_owned(),
            timeout_ms: (millis % 0x1_0000_0000_0000_0000) as u64,
        },
    )
}

impl TestClient {
    /// The address of the node that the client uses.
    pub fn rpc_url(&self) -> (r: &str)
        ensures
            r@ == self@.rpc_url,
    {
        self.rpc.endpoint()
    }

    /// The wallet's secret key.
    pub fn signing_key(&self) -> (r: &SigningKey)
        ensures
            r@ == self@.seed,
    {
        &self.wallet.signing_key
    }

    /// The wallet's public key.
    pub fn public_key(&self) -> (r: &[u8; 32])
        ensures
            r@ == self@.public_key,
    {
        &self.wallet.pub_key_bytes
    }
}

// ---------------------------------------------------------------------------------------------
// Setting up
// ---------------------------------------------------------------------------------------------
impl ClientView {
    /// The client is told of its wallet.
    pub open spec fn wallet_created(self) -> StepView {
        StepView {
            step_type: PaymentStepType::WalletCreated,
            message: "Wallet "@ + self.address,
            data: Map::<Seq<char>, JsonView>::empty().insert(
                "address"@,
                JsonView::String(self.address),
            ).insert("network"@, JsonView::String(self.network.name())),
        }
    }

    /// The client is told where its funds come from.
    pub open spec fn funded(self) -> StepView {
        if self.network == SolanaNetwork::Mainnet {
            StepView {
                step_type: PaymentStepType::Funded,
                message: "Using pre-funded mainnet wallet"@,
                data: Map::<Seq<char>, JsonView>::empty().insert(
                    "network"@,
                    JsonView::String(self.network.name()),
                ),
            }
        } else {
            StepView {
                step_type: PaymentStepType::Funded,
                message: "Wallet funded via "@ + self.network.name() + " airdrop (2 SOL)"@,
                data: Map::<Seq<char>, JsonView>::empty().insert(
                    "network"@,
                    JsonView::String(self.network.name()),
                ).insert("amount"@, JsonView::Number(JsonNumber::PosInt(2))),
            }
        }
    }

    /// How the setting up of this client begins: on a network with a faucet, with an airdrop;
    /// otherwise it is done.
    pub open spec fn setup(self) -> SetupTurnView {
        if self.network == SolanaNetwork::Mainnet {
            SetupTurnView {
                steps: seq![self.wallet_created(), self.funded()],
                next: SetupNextView::Ready(self),
            }
        } else {
            let airdrop = AirdropView::start(self.address);
            SetupTurnView {
                steps: seq![self.wallet_created()],
                next: SetupNextView::Airdrop(self, airdrop, airdrop.request()),
            }
        }
    }

    /// How the setting up of this client goes on when its airdrop is told of an event.
    pub open spec fn setup_after(self, airdrop: AirdropView, event: AirdropEvent) -> SetupTurnView {
        let (after, action) = airdrop.next(event);
        match action {
            AirdropActionView::Done => SetupTurnView {
                steps: seq![self.funded()],
                next: SetupNextView::Ready(self),
            },
            AirdropActionView::Fail(error) => SetupTurnView {
                steps: Seq::empty(),
                next: SetupNextView::Failed(error),
            },
            _ => SetupTurnView {
                steps: Seq::empty(),
                next: SetupNextView::Airdrop(self, after, action),
            },
        }
    }
}

/// A client whose wallet is being funded.
pub struct SetupFlow {
    client: TestClient,
    airdrop: AirdropFlow,
}

impl SetupFlow {
    /// The client.
    pub closed spec fn client(self) -> ClientView {
        self.client@
    }

    /// The airdrop.
    pub closed spec fn airdrop(self) -> AirdropView {
        self.airdrop@
    }
}

/// How the setting up goes on.
pub enum SetupNext {
    /// Do what the airdrop asks, and hand back the event.
    Airdrop(SetupFlow, AirdropAction),
    /// The client is ready.
    Ready(TestClient),
    /// The client cannot be set up.
    Failed(Error),
}

/// How the setting up goes on, with texts as sequences of characters.
pub enum SetupNextView {
    Airdrop(ClientView, AirdropView, AirdropActionView),
    Ready(ClientView),
    Failed(ErrorView),
}

impl View for SetupNext {
    type V = SetupNextView;

    open spec fn view(&self) -> SetupNextView {
        match self {
            SetupNext::Airdrop(flow, action) => SetupNextView::Airdrop(
                flow.client(),
                flow.airdrop(),
                action@,
            ),
            SetupNext::Ready(client) => SetupNextView::Ready(client@),
            SetupNext::Failed(error) => SetupNextView::Failed(error@),
        }
    }
}

/// One turn of the setting up: the events to tell the caller of first, and how it goes on.
pub struct SetupTurn {
    pub steps: Vec<PaymentStep>,
    pub next: SetupNext,
}

/// One turn of the setting up, with texts as sequences of characters.
pub struct SetupTurnView {
    pub steps: Seq<StepView>,
    pub next: SetupNextView,
}

impl View for SetupTurn {
    type V = SetupTurnView;

    open spec fn view(&self) -> SetupTurnView {
        SetupTurnView { steps: step_views(self.steps@), next: self.next@ }
    }
}

/// Tells of the wallet.
fn wallet_created_step(client: &TestClient) -> (r: PaymentStep)
    ensures
        r@ == client@.wallet_created(),
{
    PaymentStep {
        step_type: PaymentStepType::WalletCreated,
        message: joined("Wallet ", client.address.as_str()),
        data: data_of_2(
            "address",
            Json::text(client.address.as_str()),
            "network",
            Json::text(client.network.as_str()),
        ),
    }
}

/// Tells where the funds come from.
fn funded_step(client: &TestClient) -> (r: PaymentStep)
    ensures
        r@ == client@.funded(),
{
    let name = client.network.as_str();
    if client.network.supports_airdrop() {
        let mut message = joined("Wallet funded via ", name);
        message.append(" airdrop (2 SOL)");
        PaymentStep {
            step_type: PaymentStepType::Funded,
            message,
            data: data_of_2("network", Json::text(name), "amount", Json::whole(2)),
        }
    } else {
        PaymentStep {
            step_type: PaymentStepType::Funded,
            message: "Using pre-funded mainnet wallet".to_owned(),
            data: data_of_1("network", Json::text(name)),
        }
    }
}

impl TestClientConfig {
    /// Sets up a client with a given key, whatever secret key the configuration holds.
    pub fn with_key(self, signing_key: SigningKey) -> (r: SetupTurn)
        ensures
            r@ == self.client(signing_key@).setup(),
    {
        let network = match self.network {
            Some(network) => network,
            None => SolanaNetwork::Devnet,
        };
        let timeout_nanos: u128 = match self.timeout_nanos {
            Some(nanos) => nanos,
            None => DEFAULT_TIMEOUT_NANOS,
        };
        let rpc_url = match self.rpc_url {
            Some(url) => url,
            None => network.default_rpc().to_owned(),
        };
        let pub_key_bytes = signing_key.verifying_key();
        let client = TestClient {
            address: base58_encode(pub_key_bytes.as_slice()),
            network,
            method: "solana".to_owned(),
            rpc: RpcClient::new(rpc_url.as_str()),
            wallet: Wallet { signing_key, pub_key_bytes },
            timeout_nanos,
        };
        let ghost view = client@;
        assert(view == self.client(signing_key@));
        let mut steps: Vec<PaymentStep> = Vec::new();
        steps.push(wallet_created_step(&client));
        if network.supports_airdrop() {
            let (airdrop, action) = AirdropFlow::new(client.address.as_str());
            assert(step_views(steps@) == seq![view.wallet_created()]);
            SetupTurn { steps, next: SetupNext::Airdrop(SetupFlow { client, airdrop }, action) }
        } else {
            steps.push(funded_step(&client));
            assert(step_views(steps@) == seq![view.wallet_created(), view.funded()]);
            SetupTurn { steps, next: SetupNext::Ready(client) }
        }
    }
}

/// What comes of setting up a client, by views.
pub open spec fn setup_result(r: Result<SetupTurn, Error>) -> Result<SetupTurnView, ErrorView> {
    match r {
        Ok(turn) => Ok(turn@),
        Err(error) => Err(error@),
    }
}

impl TestClientConfig {
    /// Whether this may come of setting up a client like this.
    pub open spec fn creates(self, r: Result<SetupTurnView, ErrorView>) -> bool {
        match (r, self.refusal()) {
            (Err(error), Some(expected)) => error == expected,
            (Ok(turn), None) => match self.secret_key {
                Some(key) => turn == self.client(key@.take(32)).setup(),
                None => exists|seed: Seq<u8>|
                    seed.len() == 32 && turn == #[trigger] self.client(seed).setup(),
            },
            _ => false,
        }
    }
}

/// Sets up a client: checks the configuration, takes the key or makes a fresh one, and begins to
/// fund the wallet.
///
/// On devnet/testnet the wallet is funded automatically via airdrop (2 SOL). On mainnet a
/// pre-funded `secret_key` must be provided. A fresh key is random, so that all that is said of the
/// wallet then is that it is that of some key.
pub fn create_test_client(config: TestClientConfig) -> (r: Result<SetupTurn, Error>)
    ensures
        config.creates(setup_result(r)),
{
    let network = match config.network {
        Some(network) => network,
        None => SolanaNetwork::Devnet,
    };
    if network == SolanaNetwork::Mainnet && config.secret_key.is_none() {
        return Err(
            Error::from(
                MppNetworkError {
                    message:
                        "create_test_client: mainnet requires a pre-funded secret_key. Airdrop is not available on mainnet.".to_owned(),
                    network: network.as_str().to_owned(),
                },
            ),
        );
    }
    let signing_key = match &config.secret_key {
        Some(key) => match SigningKey::from_secret_key(key.as_slice()) {
            Some(signing_key) => signing_key,
            None => {
                return Err(
                    Error::Other(
                        joined(
                            "create_test_client: secret_key must be 32 or 64 bytes, got ",
                            decimal_of(key.len() as u128).as_str(),
                        ),
                    ),
                );
            },
        },
        None => SigningKey::generate(),
    };
    Ok(config.with_key(signing_key))
}

impl SetupFlow {
    /// The address of the node that the client uses.
    pub fn rpc_url(&self) -> (r: &str)
        ensures
            r@ == self.client().rpc_url,
    {
        self.client.rpc_url()
    }

    /// Tells whether this is the kind of event that the airdrop waits for.
    pub fn accepts(&self, event: &AirdropEvent) -> (r: bool)
        ensures
            r == self.airdrop().accepts(*event),
    {
        self.airdrop.accepts(event)
    }

    /// Takes what the airdrop is told and says how the setting up goes on.
    pub fn step(self, event: AirdropEvent) -> (r: SetupTurn)
        requires
            self.airdrop().accepts(event),
        ensures
            r@ == self.client().setup_after(self.airdrop(), event),
    {
        let ghost view = self.client@;
        let client = self.client;
        let (airdrop, action) = self.airdrop.step(event);
        let mut steps: Vec<PaymentStep> = Vec::new();
        match action {
            AirdropAction::Done => {
                steps.push(funded_step(&client));
                assert(step_views(steps@) == seq![view.funded()]);
                SetupTurn { steps, next: SetupNext::Ready(client) }
            },
            AirdropAction::Fail(error) => {
                assert(step_views(steps@) == Seq::<StepView>::empty());
                SetupTurn { steps, next: SetupNext::Failed(error) }
            },
            action => {
                assert(step_views(steps@) == Seq::<StepView>::empty());
                SetupTurn { steps, next: SetupNext::Airdrop(SetupFlow { client, airdrop }, action) }
            },
        }
    }
}

// ---------------------------------------------------------------------------------------------
// Laws
// ---------------------------------------------------------------------------------------------
/// The names of the networks survive in a header value.
pub proof fn network_names_are_plain(network: SolanaNetwork)
    ensures
        plain_value(network.name()),
{
    reveal_strlit("devnet");
    reveal_strlit("testnet");
    reveal_strlit("mainnet");
}

/// No two networks have the same name or the same public node.
pub proof fn networks_differ(a: SolanaNetwork, b: SolanaNetwork)
    requires
        a != b,
    ensures
        a.name() != b.name(),
        a.public_node() != b.public_node(),
{
    reveal_strlit("devnet");
    reveal_strlit("testnet");
    reveal_strlit("mainnet");
    reveal_strlit("https://api.devnet.solana.com");
    reveal_strlit("https://api.testnet.solana.com");
    reveal_strlit("https://api.mainnet-beta.solana.com");
    assert("devnet"@.len() == 6 && "testnet"@.len() == 7 && "mainnet"@.len() == 7);
    assert("testnet"@[0] != "mainnet"@[0]);
    assert("https://api.devnet.solana.com"@.len() == 29);
    assert("https://api.testnet.solana.com"@.len() == 30);
    assert("https://api.mainnet-beta.solana.com"@.len() == 35);
}

/// The main network is refused exactly when no secret key is given or the key has a wrong length;
/// the others, only for a key of a wrong length.
pub proof fn refused_configurations(config: TestClientConfig)
    ensures
        config.refusal() is Some <==> {
            ||| config.chosen_network() == SolanaNetwork::Mainnet && config.secret_key is None
            ||| config.secret_key matches Some(key) && key@.len() != 32 && key@.len() != 64
        },
{
}

/// Keypair bytes set up the same client as the seed that they start with.
pub proof fn keypair_sets_up_the_same_client(
    config: TestClientConfig,
    keypair: Vec<u8>,
    seed: Vec<u8>,
)
    requires
        keypair@.len() == 64,
        seed@ == keypair@.take(32),
    ensures
        ({
            let with_keypair = TestClientConfig { secret_key: Some(keypair), ..config };
            let with_seed = TestClientConfig { secret_key: Some(seed), ..config };
            &&& with_keypair.refusal() is None
            &&& with_seed.refusal() is None
            &&& with_keypair.client(keypair@.take(32)) == with_seed.client(seed@.take(32))
        }),
{
    assert(seed@.take(32) == seed@);
}

/// A client for which nothing is chosen is on devnet, with the network's public node and a timeout
/// of 30 seconds, and its wallet is funded with 2 SOL from the faucet.
pub proof fn nothing_needs_to_be_chosen(config: TestClientConfig, seed: Seq<u8>)
    requires
        config.network is None,
        config.secret_key is None,
        config.timeout_nanos is None,
        config.rpc_url is None,
    ensures
        config.refusal() is None,
        ({
            let client = config.client(seed);
            &&& client.network == SolanaNetwork::Devnet
            &&& client.rpc_url == "https://api.devnet.solana.com"@
            &&& client.timeout_nanos == 30_000_000_000
            &&& client.setup().next == SetupNextView::Airdrop(
                client,
                AirdropView::start(client.address),
                AirdropActionView::Request { pubkey: client.address, lamports: 2_000_000_000 },
            )
        }),
{
}

/// A client's address is its public key: it decodes to it, unless the key is all zeros.
pub proof fn address_is_the_public_key(config: TestClientConfig, seed: Seq<u8>)
    requires
        !zeros_only(ed25519_public_key(seed)),
    ensures
        base58_bytes(config.client(seed).address) == Ok::<Seq<u8>, Seq<char>>(
            config.client(seed).public_key,
        ),
{
    decoding_undoes_encoding(ed25519_public_key(seed));
}

/// A client is ready at once on the main network and on no other; on the others it is ready when
/// its airdrop is confirmed, and not before. It keeps its wallet all along.
pub proof fn ready_means_funded(client: ClientView, airdrop: AirdropView, event: AirdropEvent)
    requires
        airdrop.accepts(event),
    ensures
        client.setup().next is Ready <==> client.network == SolanaNetwork::Mainnet,
        client.setup_after(airdrop, event).next is Ready
            <==> event matches AirdropEvent::Confirmed(Ok(_)),
        client.setup_after(airdrop, event).next matches SetupNextView::Ready(c) ==> c == client,
        client.setup_after(airdrop, event).next matches SetupNextView::Airdrop(c, _, _) ==> c
            == client,
{
}

/// The networks, by their names and their public nodes.
pub proof fn the_networks()
    ensures
        SolanaNetwork::Devnet.name() == "devnet"@,
        SolanaNetwork::Testnet.name() == "testnet"@,
        SolanaNetwork::Mainnet.name() == "mainnet"@,
        SolanaNetwork::Devnet.public_node() == "https://api.devnet.solana.com"@,
        SolanaNetwork::Testnet.public_node() == "https://api.testnet.solana.com"@,
        SolanaNetwork::Mainnet.public_node() == "https://api.mainnet-beta.solana.com"@,
{
}

/// What a configuration names is what the client has, whatever else it names: its network, its node
/// and its timeout. The wallet is that of the seed.
pub proof fn what_is_named_is_kept(config: TestClientConfig, seed: Seq<u8>)
    ensures
        config.network matches Some(network) ==> config.client(seed).network == network,
        config.network is None ==> config.client(seed).network == SolanaNetwork::Devnet,
        config.rpc_url matches Some(url) ==> config.client(seed).rpc_url == url@,
        config.rpc_url is None ==> config.client(seed).rpc_url == config.client(
            seed,
        ).network.public_node(),
        config.timeout_nanos matches Some(nanos) ==> config.client(seed).timeout_nanos == nanos,
        config.timeout_nanos is None ==> config.client(seed).timeout_nanos == 30_000_000_000,
        config.client(seed).seed == seed,
        config.client(seed).public_key == ed25519_public_key(seed),
        config.client(seed).address == base58_text(ed25519_public_key(seed)),
        config.client(seed).method == "solana"@,
{
}

/// The client that is set up has the wallet of the key that is given, be it as its seed or as a
/// keypair that starts with the seed, and begins as every client does; where no key is given, it
/// has the wallet of some seed.
pub proof fn the_key_that_is_given_is_taken(
    config: TestClientConfig,
    r: Result<SetupTurnView, ErrorView>,
    seed: Seq<u8>,
    rest: Seq<u8>,
)
    requires
        config.creates(r),
        seed.len() == 32,
        rest.len() == 32,
    ensures
        (config.secret_key matches Some(key) && (key@ == seed || key@ == seed + rest)) ==> r == Ok::<
            SetupTurnView,
            ErrorView,
        >(config.client(seed).setup()),
        (config.secret_key is None && config.network != Some(SolanaNetwork::Mainnet)) ==> (
        r matches Ok(turn) && exists|fresh: Seq<u8>|
            fresh.len() == 32 && turn == #[trigger] config.client(fresh).setup()),
{
    assert(seed.take(32) == seed);
    assert((seed + rest).take(32) == seed);
}

/// Why a client is not set up: on the main network without a key, an error that names the network;
/// with a key of a wrong length, an error that names the length.
pub proof fn why_a_client_is_refused(config: TestClientConfig, r: Result<SetupTurnView, ErrorView>)
    requires
        config.creates(r),
    ensures
        (config.network == Some(SolanaNetwork::Mainnet) && config.secret_key is None) ==> {
            &&& r matches Err(ErrorView::Network { message, network })
            &&& network == "mainnet"@
            &&& message
                == "create_test_client: mainnet requires a pre-funded secret_key. Airdrop is not available on mainnet."@
        },
        (config.secret_key matches Some(key) && key@.len() != 32 && key@.len() != 64) ==> r == Err::<
            SetupTurnView,
            ErrorView,
        >(
            ErrorView::Other(
                "create_test_client: secret_key must be 32 or 64 bytes, got "@ + decimal(
                    config.secret_key->Some_0@.len(),
                ),
            ),
        ),
        (config.secret_key matches Some(key) && (key@.len() == 32 || key@.len() == 64)) ==> r is Ok,
{
}

/// The error of a timeout names the address and the timeout in whole milliseconds, which the number
/// in it keeps to 64 bits.
pub proof fn what_a_timeout_says(url: Seq<char>, millis: nat, rest: nat, timeout_nanos: u128)
    requires
        rest < 1_000_000,
        timeout_nanos == millis * 1_000_000 + rest,
    ensures
        ({
            let error = timeout_error(url, timeout_nanos);
            &&& error matches ErrorView::Timeout { message, url: named, timeout_ms }
            &&& named == url
            &&& message == "Request to "@ + url + " timed out after "@ + decimal(millis)
                + "ms. Increase the timeout option or check your Solana RPC connection."@
            &&& millis < 0x1_0000_0000_0000_0000 ==> timeout_ms == millis
            &&& timeout_ms == millis % 0x1_0000_0000_0000_0000
        }),
{
    assert(timeout_nanos / 1_000_000 == millis);
}

/// What the caller is told of while a client is set up: first its wallet, and, once it is funded,
/// where the funds come from.
pub proof fn what_is_told_of_a_client(client: ClientView)
    ensures
        ({
            let told = client.setup().steps[0];
            &&& client.setup().steps.len() == if client.network == SolanaNetwork::Mainnet {
                2nat
            } else {
                1nat
            }
            &&& told.step_type == PaymentStepType::WalletCreated
            &&& told.message == "Wallet "@ + client.address
            &&& told.data.dom() == set!["address"@, "network"@]
            &&& told.data["address"@] == JsonView::String(client.address)
            &&& told.data["network"@] == JsonView::String(client.network.name())
        }),
        ({
            let told = client.funded();
            &&& told.step_type == PaymentStepType::Funded
            &&& told.data["network"@] == JsonView::String(client.network.name())
            &&& client.network == SolanaNetwork::Mainnet ==> {
                &&& client.setup().steps[1] == told
                &&& told.message == "Using pre-funded mainnet wallet"@
                &&& told.data.dom() == set!["network"@]
            }
            &&& client.network != SolanaNetwork::Mainnet ==> {
                &&& told.message == "Wallet funded via "@ + client.network.name()
                    + " airdrop (2 SOL)"@
                &&& told.data.dom() == set!["network"@, "amount"@]
                &&& told.data["amount"@] == JsonView::Number(JsonNumber::PosInt(2))
            }
        }),
{
    reveal_strlit("address");
    reveal_strlit("network");
    reveal_strlit("amount");
    assert("address"@[0] != "network"@[0]);
    assert("amount"@.len() != "network"@.len());
    let told = client.setup().steps[0];
    assert(told.data.dom() =~= set!["address"@, "network"@]);
    let funded = client.funded();
    if client.network == SolanaNetwork::Mainnet {
        assert(funded.data.dom() =~= set!["network"@]);
    } else {
        assert(funded.data.dom() =~= set!["network"@, "amount"@]);
    }
}

/// A client is set up with what it starts with: on the main network it is ready at once; on the
/// others its own wallet is funded, it goes on as the airdrop does, is ready with the funds told of
/// when the airdrop is done, and fails with the airdrop's error.
pub proof fn how_a_client_is_set_up(client: ClientView, airdrop: AirdropView, event: AirdropEvent)
    ensures
        client.network == SolanaNetwork::Mainnet ==> client.setup().next == SetupNextView::Ready(
            client,
        ),
        client.network != SolanaNetwork::Mainnet ==> (client.setup().next matches
            SetupNextView::Airdrop(c, flow, action) && c == client && flow == AirdropView::start(
            client.address,
        ) && action == (AirdropActionView::Request {
            pubkey: client.address,
            lamports: 2_000_000_000,
        })),
        ({
            let (after, action) = airdrop.next(event);
            let turn = client.setup_after(airdrop, event);
            &&& action is Done ==> turn.next == SetupNextView::Ready(client) && turn.steps == seq![
                client.funded(),
            ]
            &&& action matches AirdropActionView::Fail(error) ==> turn.next
                == SetupNextView::Failed(error) && turn.steps.len() == 0
            &&& !(action is Done) && !(action is Fail) ==> turn.next == SetupNextView::Airdrop(
                client,
                after,
                action,
            ) && turn.steps.len() == 0
        }),
{
}

} // verus!
