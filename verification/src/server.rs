//! The server's side: asking for a payment, and judging the proof of one.
use vstd::prelude::*;
use vstd::string::*;

use crate::base58::{base58_encode, base58_text};
use crate::client::{network_names_are_plain, SolanaNetwork};
use crate::fetch::{
    receipt_can_be_read, request_is_paid_as_asked, AmountReading, FetchActionView, FetchEvent,
    FetchPhaseView, FetchView,
};
use crate::header::{
    addresses_are_plain, header_params, header_values_in_full, parse_header_params,
    payment_receipt_reads_back,
    payment_receipt_text, payment_request_header, payment_request_reads_back,
    payment_request_text, plain_value, visible_text,
};
use crate::json::{json_views, Json, JsonNumber, JsonView};
use crate::keys::{ed25519_public_key, seed_in, SigningKey};
use crate::rpc::RpcClient;
use crate::text::{
    can_front, decimal, decimal_of, front, front_of, has_front, joined, same_text, show_text,
    shown_text,
};

verus! {

// ---------------------------------------------------------------------------------------------
// Setting up
// ---------------------------------------------------------------------------------------------
/// How a server is to be set up. What is left out has a default.
pub struct TestServerConfig {
    pub network: Option<SolanaNetwork>,
    /// 32-byte seed or 64-byte keypair bytes. Auto-generated when omitted.
    pub secret_key: Option<Vec<u8>>,
    /// Override the recipient address. Defaults to the keypair's public key.
    pub recipient_address: Option<String>,
    pub rpc_url: Option<String>,
}

impl Default for TestServerConfig {
    fn default() -> (r: Self)
        ensures
            r.network is None,
            r.secret_key is None,
            r.recipient_address is None,
            r.rpc_url is None,
    {
        TestServerConfig { network: None, secret_key: None, recipient_address: None, rpc_url: None }
    }
}

/// A server that charges for what it serves.
pub struct MppServer {
    pub recipient_address: String,
    pub network: SolanaNetwork,
    pub rpc: RpcClient,
}

/// A server, with texts as sequences of characters.
pub struct ServerView {
    pub recipient_address: Seq<char>,
    pub network: SolanaNetwork,
    pub rpc_url: Seq<char>,
}

impl View for MppServer {
    type V = ServerView;

    open spec fn view(&self) -> ServerView {
        ServerView {
            recipient_address: self.recipient_address@,
            network: self.network,
            rpc_url: self.rpc@,
        }
    }
}

impl TestServerConfig {
    /// The network, which is devnet by default.
    pub open spec fn chosen_network(self) -> SolanaNetwork {
        match self.network {
            Some(network) => network,
            None => SolanaNetwork::Devnet,
        }
    }

    /// The node's address, which is that of the network's public node by default.
    pub open spec fn chosen_rpc(self) -> Seq<char> {
        match self.rpc_url {
            Some(url) => url@,
            None => self.chosen_network().public_node(),
        }
    }

    /// Why a server cannot be set up like this: no recipient, and a secret key of the wrong length.
    pub open spec fn refusal(self) -> Option<Seq<char>> {
        match (self.recipient_address, self.secret_key) {
            (None, Some(key)) => if seed_in(key@) is None {
                Some(
                    "create_test_server: secret_key must be 32 or 64 bytes, got "@ + decimal(
                        key@.len(),
                    ),
                )
            } else {
                None
            },
            _ => None,
        }
    }

    /// The server that is set up like this and paid to this address.
    pub open spec fn server_at(self, recipient_address: Seq<char>) -> ServerView {
        ServerView {
            recipient_address,
            network: self.chosen_network(),
            rpc_url: self.chosen_rpc(),
        }
    }

    /// The server that is set up like this with the key that has this seed: it is paid to the
    /// address that the configuration names, or else to that of the key.
    pub open spec fn server(self, seed: Seq<u8>) -> ServerView {
        match self.recipient_address {
            Some(address) => self.server_at(address@),
            None => self.server_at(base58_text(ed25519_public_key(seed))),
        }
    }

    /// Sets up a server that is paid to a given address, whatever the configuration says of it.
    fn at_address(self, recipient_address: String) -> (r: MppServer)
        ensures
            r@ == self.server_at(recipient_address@),
    {
        let network = match self.network {
            Some(network) => network,
            None => SolanaNetwork::Devnet,
        };
        let rpc_url = match self.rpc_url {
            Some(url) => url,
            None => network.default_rpc().to_owned(),
        };
        MppServer { recipient_address, network, rpc: RpcClient::new(rpc_url.as_str()) }
    }

    /// Sets up a server with a given key, whatever secret key the configuration holds.
    pub fn with_key(self, signing_key: SigningKey) -> (r: MppServer)
        ensures
            r@ == self.server(signing_key@),
    {
        let recipient_address = match &self.recipient_address {
            Some(address) => address.clone(),
            None => base58_encode(signing_key.verifying_key().as_slice()),
        };
        self.at_address(recipient_address)
    }
}

/// What comes of setting up a server, by views.
pub open spec fn server_result(r: Result<MppServer, String>) -> Result<ServerView, Seq<char>> {
    match r {
        Ok(server) => Ok(server@),
        Err(message) => Err(message@),
    }
}

impl TestServerConfig {
    /// Whether this may come of setting up a server like this.
    pub open spec fn creates(self, r: Result<ServerView, Seq<char>>) -> bool {
        match (r, self.refusal()) {
            (Err(message), Some(expected)) => message == expected,
            (Ok(server), None) => match (self.recipient_address, self.secret_key) {
                (Some(address), _) => server == self.server_at(address@),
                (None, Some(key)) => server == self.server(key@.take(32)),
                (None, None) => exists|seed: Seq<u8>|
                    seed.len() == 32 && server == #[trigger] self.server(seed),
            },
            _ => false,
        }
    }
}

/// Sets up a server: it is paid to the address that the configuration names, or else to that of
/// the secret key, or else to that of a fresh key.
///
/// A fresh key is random, so that all that is said of the address then is that it is that of some
/// key.
pub fn create_test_server(config: TestServerConfig) -> (r: Result<MppServer, String>)
    ensures
        config.creates(server_result(r)),
{
    let named = match &config.recipient_address {
        Some(address) => Some(address.clone()),
        None => None,
    };
    match named {
        Some(address) => Ok(config.at_address(address)),
        None => {
            let signing_key = match &config.secret_key {
                Some(key) => match SigningKey::from_secret_key(key.as_slice()) {
                    Some(signing_key) => signing_key,
                    None => {
                        return Err(
                            joined(
                                "create_test_server: secret_key must be 32 or 64 bytes, got ",
                                decimal_of(key.len() as u128).as_str(),
                            ),
                        );
                    },
                },
                None => SigningKey::generate(),
            };
            Ok(config.with_key(signing_key))
        },
    }
}

// ---------------------------------------------------------------------------------------------
// Judging a transaction
// ---------------------------------------------------------------------------------------------
/// The address of an account key, which is a text, or an object with the text as its `pubkey`.
pub open spec fn address_in(key: JsonView) -> Option<Seq<char>> {
    match key {
        JsonView::String(address) => Some(address),
        JsonView::Object(_) => match key.get("pubkey"@) {
            Some(address) => address.as_text(),
            None => None,
        },
        _ => None,
    }
}

/// The place of the first key with this address, or the number of keys where none has it.
pub open spec fn key_position(keys: Seq<JsonView>, address: Seq<char>) -> nat
    decreases keys.len(),
{
    if keys.len() == 0 || address_in(keys[0]) == Some(address) {
        0
    } else {
        1 + key_position(keys.drop_first(), address)
    }
}

/// The account keys of a transaction.
pub open spec fn account_keys(tx: JsonView) -> JsonView {
    tx.at("transaction"@).at("message"@).at("accountKeys"@)
}

/// Whether a transaction succeeded and its account keys can be read.
pub open spec fn readable(tx: JsonView) -> bool {
    &&& tx.at("meta"@) is Object
    &&& tx.at("meta"@).at("err"@) == JsonView::Null
    &&& account_keys(tx) is Array
}

/// Whether a transaction can be read and does not name the recipient.
pub open spec fn recipient_missing(tx: JsonView, recipient: Seq<char>) -> bool {
    readable(tx) && key_position(account_keys(tx)->Array_0, recipient)
        == account_keys(tx)->Array_0.len()
}

/// What the recipient's account held before and after a transaction, or why that is not known.
pub open spec fn assessment(tx: JsonView, recipient: Seq<char>) -> Result<
    (JsonNumber, JsonNumber),
    Seq<char>,
> {
    let meta = tx.at("meta"@);
    if !(meta is Object) {
        Err("Payment verification failed: could not read transaction metadata"@)
    } else if meta.at("err"@) != JsonView::Null {
        Err("Transaction failed on chain"@)
    } else {
        match account_keys(tx) {
            JsonView::Array(keys) => {
                let i = key_position(keys, recipient) as int;
                let pre = meta.at("preBalances"@).numbers();
                let post = meta.at("postBalances"@).numbers();
                if i == keys.len() {
                    Err("Recipient "@ + front(recipient, 8) + "... not found in transaction"@)
                } else if i >= pre.len() || i >= post.len() {
                    Err("Payment verification failed: balance arrays too short"@)
                } else {
                    Ok((pre[i], post[i]))
                }
            },
            _ => Err("Payment verification failed: missing accountKeys"@),
        }
    }
}

/// Tells whether an account key has this address.
fn has_address(key: &Json, address: &str) -> (r: bool)
    ensures
        r == (address_in(key@) == Some(address@)),
{
    let text = match key {
        Json::String(s) => Some(s.as_str()),
        Json::Object(_) => match key.get("pubkey") {
            Some(value) => value.as_str(),
            None => None,
        },
        _ => None,
    };
    match text {
        Some(text) => same_text(text, address),
        None => false,
    }
}

/// Finds the first key with this address.
fn find_key(keys: &Vec<Json>, address: &str) -> (r: usize)
    ensures
        r == key_position(json_views(keys@), address@),
        r <= keys@.len(),
{
    let ghost views = json_views(keys@);
    let mut i: usize = 0;
    assert(views.skip(0) == views);
    while i < keys.len()
        invariant
            i <= keys@.len(),
            views == json_views(keys@),
            key_position(views, address@) == i + key_position(views.skip(i as int), address@),
        decreases keys.len() - i,
    {
        assert(views.skip(i as int)[0] == keys@[i as int]@);
        if has_address(&keys[i], address) {
            return i;
        }
        assert(views.skip(i as int).drop_first() == views.skip(i + 1));
        i = i + 1;
    }
    i
}

/// Tells whether a transaction can be read and does not name the recipient.
pub fn lacks_recipient(tx: &Json, recipient: &str) -> (r: bool)
    ensures
        r == recipient_missing(tx@, recipient@),
{
    let meta = tx.at("meta");
    if !meta.is_object() || !meta.at("err").is_null() {
        return false;
    }
    match tx.at("transaction").at("message").at("accountKeys").as_array() {
        Some(keys) => find_key(keys, recipient) == keys.len(),
        None => false,
    }
}

/// Reads what the recipient's account held before and after a transaction. The message that the
/// recipient is missing shows the first 8 bytes of the address, which must be a text.
pub fn assess_transaction(tx: &Json, recipient: &str) -> (r: Result<
    (JsonNumber, JsonNumber),
    String,
>)
    requires
        recipient_missing(tx@, recipient@) ==> has_front(recipient@, 8),
    ensures
        match (r, assessment(tx@, recipient@)) {
            (Ok(balances), Ok(expected)) => balances == expected,
            (Err(message), Err(expected)) => message@ == expected,
            _ => false,
        },
{
    let meta = tx.at("meta");
    if !meta.is_object() {
        return Err(
            "Payment verification failed: could not read transaction metadata".to_owned(),
        );
    }
    if !meta.at("err").is_null() {
        return Err("Transaction failed on chain".to_owned());
    }
    match tx.at("transaction").at("message").at("accountKeys").as_array() {
        None => Err("Payment verification failed: missing accountKeys".to_owned()),
        Some(keys) => {
            let i: usize = find_key(keys, recipient);
            if i == keys.len() {
                let mut message = joined("Recipient ", front_of(recipient, 8));
                message.append("... not found in transaction");
                return Err(message);
            }
            let pre = meta.at("preBalances").numbers();
            let post = meta.at("postBalances").numbers();
            if i >= pre.len() || i >= post.len() {
                return Err("Payment verification failed: balance arrays too short".to_owned());
            }
            Ok((pre[i], post[i]))
        },
    }
}

// ---------------------------------------------------------------------------------------------
// Charging
// ---------------------------------------------------------------------------------------------
/// What is charged.
pub struct ChargeOptions<'a> {
    /// Required SOL payment, e.g. `"0.001"`.
    pub amount: &'a str,
}

/// What comes of a charge.
pub enum ChargeResult {
    /// No payment found: respond with HTTP 402 and set `payment_request_header`.
    NeedsPayment { payment_request_header: String, body: Json },
    /// Payment verified on-chain: call your handler.
    Authorized,
    /// Payment present but invalid: respond with HTTP 403 and the reason string.
    Denied(String),
}

/// What comes of a charge, with texts as sequences of characters.
pub enum ChargeResultView {
    NeedsPayment { payment_request_header: Seq<char>, body: JsonView },
    Authorized,
    Denied(Seq<char>),
}

impl View for ChargeResult {
    type V = ChargeResultView;

    open spec fn view(&self) -> ChargeResultView {
        match self {
            ChargeResult::NeedsPayment { payment_request_header, body } => {
                ChargeResultView::NeedsPayment {
                    payment_request_header: payment_request_header@,
                    body: body@,
                }
            },
            ChargeResult::Authorized => ChargeResultView::Authorized,
            ChargeResult::Denied(reason) => ChargeResultView::Denied(reason@),
        }
    }
}

/// What a charge is waiting for.
pub enum ChargePhase {
    /// What the required amount comes to.
    Required,
    /// How the claimed amount compares with it.
    Claim { required: String, signature: String, claimed: String },
    /// The transaction.
    Transaction { required: String },
    /// How the amount that was received compares with the required one.
    Received { required: String },
    Closed,
}

/// What a charge is waiting for, with texts as sequences of characters.
pub enum ChargePhaseView {
    Required,
    Claim { required: Seq<char>, signature: Seq<char>, claimed: Seq<char> },
    Transaction { required: Seq<char> },
    Received { required: Seq<char> },
    Closed,
}

impl View for ChargePhase {
    type V = ChargePhaseView;

    open spec fn view(&self) -> ChargePhaseView {
        match self {
            ChargePhase::Required => ChargePhaseView::Required,
            ChargePhase::Claim { required, signature, claimed } => ChargePhaseView::Claim {
                required: required@,
                signature: signature@,
                claimed: claimed@,
            },
            ChargePhase::Transaction { required } => ChargePhaseView::Transaction {
                required: required@,
            },
            ChargePhase::Received { required } => ChargePhaseView::Received { required: required@ },
            ChargePhase::Closed => ChargePhaseView::Closed,
        }
    }
}

/// A charge in its course.
pub struct ChargeFlow {
    recipient: String,
    amount: String,
    receipt: String,
    phase: ChargePhase,
}

/// A charge in its course, with texts as sequences of characters.
pub struct ChargeView {
    pub recipient: Seq<char>,
    pub amount: Seq<char>,
    pub receipt: Seq<char>,
    pub phase: ChargePhaseView,
}

impl View for ChargeFlow {
    type V = ChargeView;

    closed spec fn view(&self) -> ChargeView {
        ChargeView {
            recipient: self.recipient@,
            amount: self.amount@,
            receipt: self.receipt@,
            phase: self.phase@,
        }
    }
}

/// What the outside tells a charge.
pub enum ChargeEvent {
    /// How the required amount is written as a number; nothing where it is no number above zero.
    Required(Option<String>),
    /// Whether the claimed amount is less than the required one; nothing where it is no number.
    Claimed(Option<bool>),
    /// The transaction, where there is one, or why it could not be asked for.
    Transaction(Result<Option<Json>, String>),
    /// How the amount that was received is written, and whether it is less than the required one.
    Received { received: String, short: bool },
}

/// What a charge asks of the outside.
pub enum ChargeAction {
    /// Read the required amount of SOL.
    ReadRequired { text: String },
    /// Compare the claimed amount of SOL with the required one.
    CompareClaim { claimed: String },
    /// Ask the node for the transaction.
    GetTransaction { signature: String },
    /// Compare what the account gained, in lamports, with the required amount.
    CompareReceived { pre: JsonNumber, post: JsonNumber },
    /// The charge is over.
    Answer(ChargeResult),
}

/// An action, with texts as sequences of characters.
pub enum ChargeActionView {
    ReadRequired { text: Seq<char> },
    CompareClaim { claimed: Seq<char> },
    GetTransaction { signature: Seq<char> },
    CompareReceived { pre: JsonNumber, post: JsonNumber },
    Answer(ChargeResultView),
}

impl View for ChargeAction {
    type V = ChargeActionView;

    open spec fn view(&self) -> ChargeActionView {
        match self {
            ChargeAction::ReadRequired { text } => ChargeActionView::ReadRequired { text: text@ },
            ChargeAction::CompareClaim { claimed } => ChargeActionView::CompareClaim {
                claimed: claimed@,
            },
            ChargeAction::GetTransaction { signature } => ChargeActionView::GetTransaction {
                signature: signature@,
            },
            ChargeAction::CompareReceived { pre, post } => ChargeActionView::CompareReceived {
                pre: *pre,
                post: *post,
            },
            ChargeAction::Answer(result) => ChargeActionView::Answer(result@),
        }
    }
}

/// The reason to deny a payment that claims less than is required.
pub open spec fn insufficient(claimed: Seq<char>, required: Seq<char>) -> Seq<char> {
    "Insufficient payment: claimed "@ + claimed + " SOL, required "@ + required + " SOL"@
}

/// The reason to deny a payment of less than is required.
pub open spec fn too_small(received: Seq<char>, required: Seq<char>) -> Seq<char> {
    "Payment too small: received "@ + received + " SOL, required "@ + required + " SOL"@
}

impl ServerView {
    /// What a request without a receipt is answered: what to pay, and to whom.
    pub open spec fn needs_payment(self, amount: Seq<char>) -> ChargeResultView {
        ChargeResultView::NeedsPayment {
            payment_request_header: payment_request_text(
                amount,
                self.recipient_address,
                self.network.name(),
            ),
            body: JsonView::Object(
                seq![
                    ("error"@, JsonView::String("Payment Required"@)),
                    (
                        "payment"@,
                        JsonView::Object(
                            seq![
                                ("amount"@, JsonView::String(amount)),
                                ("currency"@, JsonView::String("SOL"@)),
                                ("network"@, JsonView::String(self.network.name())),
                                ("recipient"@, JsonView::String(self.recipient_address)),
                            ],
                        ),
                    ),
                ],
            ),
        }
    }

    /// How a charge begins. Without a receipt it is over at once.
    pub open spec fn charge(self, receipt: Option<Seq<char>>, amount: Seq<char>) -> (
        ChargeView,
        ChargeActionView,
    ) {
        let receipt = match receipt {
            Some(receipt) => receipt,
            None => Seq::empty(),
        };
        let flow = ChargeView {
            recipient: self.recipient_address,
            amount,
            receipt,
            phase: ChargePhaseView::Required,
        };
        if receipt.len() == 0 {
            flow.answer(self.needs_payment(amount))
        } else {
            (flow, ChargeActionView::ReadRequired { text: amount })
        }
    }
}

impl ChargeView {
    /// The charge in another phase.
    pub open spec fn to(self, phase: ChargePhaseView) -> ChargeView {
        ChargeView { phase, ..self }
    }

    /// The charge at its end.
    pub open spec fn answer(self, result: ChargeResultView) -> (ChargeView, ChargeActionView) {
        (self.to(ChargePhaseView::Closed), ChargeActionView::Answer(result))
    }

    /// The charge at its end, the payment being denied.
    pub open spec fn deny(self, reason: Seq<char>) -> (ChargeView, ChargeActionView) {
        self.answer(ChargeResultView::Denied(reason))
    }

    /// Whether this is an event that is waited for. A transaction that does not name the recipient
    /// is accepted where the first 8 bytes of the recipient's address are a text.
    pub open spec fn accepts(self, event: ChargeEvent) -> bool {
        match (self.phase, event) {
            (ChargePhaseView::Required, ChargeEvent::Required(_)) => true,
            (ChargePhaseView::Claim { .. }, ChargeEvent::Claimed(_)) => true,
            (ChargePhaseView::Transaction { .. }, ChargeEvent::Transaction(found)) => match found {
                Ok(Some(tx)) => recipient_missing(tx@, self.recipient) ==> has_front(
                    self.recipient,
                    8,
                ),
                _ => true,
            },
            (ChargePhaseView::Received { .. }, ChargeEvent::Received { .. }) => true,
            _ => false,
        }
    }

    /// What follows the reading of the required amount. A receipt without an amount claims 0 SOL,
    /// which is less than any amount that is required.
    pub open spec fn required_read(self, required: Option<String>) -> (
        ChargeView,
        ChargeActionView,
    ) {
        match required {
            None => self.deny(
                "server configuration error: invalid amount "@ + shown_text(self.amount),
            ),
            Some(required) => {
                let params = header_params(self.receipt);
                if !params.dom().contains("signature"@) {
                    self.deny("Payment-Receipt missing signature field"@)
                } else if !params.dom().contains("amount"@) {
                    self.deny(insufficient("0"@, required@))
                } else {
                    (
                        self.to(
                            ChargePhaseView::Claim {
                                required: required@,
                                signature: params["signature"@],
                                claimed: params["amount"@],
                            },
                        ),
                        ChargeActionView::CompareClaim { claimed: params["amount"@] },
                    )
                }
            },
        }
    }

    /// What follows the look for the transaction.
    pub open spec fn transaction_found(
        self,
        required: Seq<char>,
        found: Result<Option<Json>, String>,
    ) -> (ChargeView, ChargeActionView) {
        match found {
            Err(e) => self.deny("Payment verification failed: "@ + e@),
            Ok(None) => self.deny("Transaction not found on chain"@),
            Ok(Some(tx)) => match assessment(tx@, self.recipient) {
                Err(reason) => self.deny(reason),
                Ok((pre, post)) => (
                    self.to(ChargePhaseView::Received { required }),
                    ChargeActionView::CompareReceived { pre, post },
                ),
            },
        }
    }

    /// What follows an event that is waited for. A claim that is no number counts as 0 SOL, which
    /// is less than any amount that is required.
    pub open spec fn next(self, event: ChargeEvent) -> (ChargeView, ChargeActionView) {
        match event {
            ChargeEvent::Required(required) => self.required_read(required),
            ChargeEvent::Claimed(short) => if short == Some(false) {
                (
                    self.to(ChargePhaseView::Transaction { required: self.phase->Claim_required }),
                    ChargeActionView::GetTransaction { signature: self.phase->signature },
                )
            } else {
                self.deny(insufficient(self.phase->claimed, self.phase->Claim_required))
            },
            ChargeEvent::Transaction(found) => self.transaction_found(
                self.phase->Transaction_required,
                found,
            ),
            ChargeEvent::Received { received, short } => if short {
                self.deny(too_small(received@, self.phase->Received_required))
            } else {
                self.answer(ChargeResultView::Authorized)
            },
        }
    }
}

/// The text of a receipt header, where there is one.
pub open spec fn receipt_view(receipt_header: Option<&str>) -> Option<Seq<char>> {
    match receipt_header {
        Some(receipt) => Some(receipt@),
        None => None,
    }
}

impl MppServer {
    /// The address of the node that the server uses.
    pub fn rpc_url(&self) -> (r: &str)
        ensures
            r@ == self@.rpc_url,
    {
        self.rpc.endpoint()
    }

    /// What a request without a receipt is answered.
    fn needs_payment(&self, amount: &str) -> (r: ChargeResult)
        ensures
            r@ == self@.needs_payment(amount@),
    {
        let payment = Json::object(
            vec![
                ("amount".to_owned(), Json::text(amount)),
                ("currency".to_owned(), Json::text("SOL")),
                ("network".to_owned(), Json::text(self.network.as_str())),
                ("recipient".to_owned(), Json::text(self.recipient_address.as_str())),
            ],
        );
        let body = Json::object(
            vec![
                ("error".to_owned(), Json::text("Payment Required")),
                ("payment".to_owned(), payment),
            ],
        );
        let ghost expected = self@.needs_payment(amount@)->body;
        assert(payment@->Object_0 == expected->Object_0[1].1->Object_0);
        assert(body@->Object_0 == expected->Object_0);
        ChargeResult::NeedsPayment {
            payment_request_header: payment_request_header(
                amount,
                self.recipient_address.as_str(),
                self.network.as_str(),
            ),
            body,
        }
    }

    /// Begins a charge: checks the incoming `payment_receipt` header and, where there is none,
    /// answers with what to pay.
    ///
    /// `receipt_header` is the raw value of the `payment-receipt` request header
    /// (pass `None` or `Some("")` when the header is absent).
    pub fn charge(&self, receipt_header: Option<&str>, opts: &ChargeOptions<'_>) -> (r: (
        ChargeFlow,
        ChargeAction,
    ))
        ensures
            (r.0@, r.1@) == self@.charge(receipt_view(receipt_header), opts.amount@),
    {
        let receipt = match receipt_header {
            Some(receipt) => receipt.to_owned(),
            None => String::new(),
        };
        let absent = same_text(receipt.as_str(), "");
        proof {
            reveal_strlit("");
            assert(""@ == Seq::<char>::empty());
            if receipt@.len() == 0 {
                assert(receipt@ == ""@);
            }
        }
        let mut flow = ChargeFlow {
            recipient: self.recipient_address.clone(),
            amount: opts.amount.to_owned(),
            receipt,
            phase: ChargePhase::Required,
        };
        if absent {
            flow.phase = ChargePhase::Closed;
            let result = self.needs_payment(opts.amount);
            (flow, ChargeAction::Answer(result))
        } else {
            (flow, ChargeAction::ReadRequired { text: opts.amount.to_owned() })
        }
    }
}

impl ChargeFlow {
    /// Tells whether this is an event that is waited for.
    pub fn accepts(&self, event: &ChargeEvent) -> (r: bool)
        ensures
            r == self@.accepts(*event),
    {
        match (&self.phase, event) {
            (ChargePhase::Required, ChargeEvent::Required(_)) => true,
            (ChargePhase::Claim { .. }, ChargeEvent::Claimed(_)) => true,
            (ChargePhase::Transaction { .. }, ChargeEvent::Transaction(found)) => match found {
                Ok(Some(tx)) => can_front(self.recipient.as_str(), 8) || !lacks_recipient(
                    tx,
                    self.recipient.as_str(),
                ),
                _ => true,
            },
            (ChargePhase::Received { .. }, ChargeEvent::Received { .. }) => true,
            _ => false,
        }
    }

    fn answer(&mut self, result: ChargeResult) -> (action: ChargeAction)
        ensures
            (final(self)@, action@) == old(self)@.answer(result@),
    {
        self.phase = ChargePhase::Closed;
        ChargeAction::Answer(result)
    }

    fn deny(&mut self, reason: String) -> (action: ChargeAction)
        ensures
            (final(self)@, action@) == old(self)@.deny(reason@),
    {
        self.answer(ChargeResult::Denied(reason))
    }

    fn deny_insufficient(&mut self, claimed: &str, required: &str) -> (action: ChargeAction)
        ensures
            (final(self)@, action@) == old(self)@.deny(insufficient(claimed@, required@)),
    {
        let mut reason = joined("Insufficient payment: claimed ", claimed);
        reason.append(" SOL, required ");
        reason.append(required);
        reason.append(" SOL");
        self.deny(reason)
    }

    fn required_read(&mut self, required: Option<String>) -> (action: ChargeAction)
        ensures
            (final(self)@, action@) == old(self)@.required_read(required),
    {
        match required {
            None => {
                let reason = joined(
                    "server configuration error: invalid amount ",
                    show_text(self.amount.as_str()).as_str(),
                );
                self.deny(reason)
            },
            Some(required) => {
                let params = parse_header_params(self.receipt.as_str());
                match params.get("signature") {
                    None => self.deny("Payment-Receipt missing signature field".to_owned()),
                    Some(signature) => match params.get("amount") {
                        None => self.deny_insufficient("0", required.as_str()),
                        Some(claimed) => {
                            self.phase = ChargePhase::Claim {
                                required,
                                signature: signature.clone(),
                                claimed: claimed.clone(),
                            };
                            ChargeAction::CompareClaim { claimed: claimed.clone() }
                        },
                    },
                }
            },
        }
    }

    fn transaction_found(
        &mut self,
        required: String,
        found: Result<Option<Json>, String>,
    ) -> (action: ChargeAction)
        requires
            found matches Ok(Some(tx)) ==> recipient_missing(tx@, old(self)@.recipient)
                ==> has_front(old(self)@.recipient, 8),
        ensures
            (final(self)@, action@) == old(self)@.transaction_found(required@, found),
    {
        match found {
            Err(e) => self.deny(joined("Payment verification failed: ", e.as_str())),
            Ok(None) => self.deny("Transaction not found on chain".to_owned()),
            Ok(Some(tx)) => match assess_transaction(&tx, self.recipient.as_str()) {
                Err(reason) => self.deny(reason),
                Ok((pre, post)) => {
                    self.phase = ChargePhase::Received { required };
                    ChargeAction::CompareReceived { pre, post }
                },
            },
        }
    }

    /// Takes an event and says what to do next.
    pub fn step(&mut self, event: ChargeEvent) -> (action: ChargeAction)
        requires
            old(self)@.accepts(event),
        ensures
            (final(self)@, action@) == old(self)@.next(event),
    {
        match event {
            ChargeEvent::Required(required) => self.required_read(required),
            ChargeEvent::Claimed(short) => {
                let (required, signature, claimed) = match &self.phase {
                    ChargePhase::Claim { required, signature, claimed } => (
                        required.clone(),
                        signature.clone(),
                        claimed.clone(),
                    ),
                    _ => (String::new(), String::new(), String::new()),
                };
                match short {
                    Some(false) => {
                        self.phase = ChargePhase::Transaction { required };
                        ChargeAction::GetTransaction { signature }
                    },
                    _ => self.deny_insufficient(claimed.as_str(), required.as_str()),
                }
            },
            ChargeEvent::Transaction(found) => {
                let required = match &self.phase {
                    ChargePhase::Transaction { required } => required.clone(),
                    _ => String::new(),
                };
                self.transaction_found(required, found)
            },
            ChargeEvent::Received { received, short } => {
                let required = match &self.phase {
                    ChargePhase::Received { required } => required.clone(),
                    _ => String::new(),
                };
                if short {
                    let mut reason = joined("Payment too small: received ", received.as_str());
                    reason.append(" SOL, required ");
                    reason.append(required.as_str());
                    reason.append(" SOL");
                    self.deny(reason)
                } else {
                    self.answer(ChargeResult::Authorized)
                }
            },
        }
    }
}

// ---------------------------------------------------------------------------------------------
// Laws
// ---------------------------------------------------------------------------------------------
/// A request without a receipt, or with an empty one, is always answered with what to pay; one with
/// a receipt never is.
pub proof fn payment_is_asked_for_without_a_receipt(
    server: ServerView,
    receipt: Seq<char>,
    amount: Seq<char>,
)
    ensures
        server.charge(None, amount).1 == ChargeActionView::Answer(server.needs_payment(amount)),
        server.charge(Some(receipt), amount).1 == ChargeActionView::Answer(
            server.needs_payment(amount),
        ) <==> receipt.len() == 0,
        forall|flow: ChargeView, event: ChargeEvent|
            !((#[trigger] flow.next(event)).1 matches ChargeActionView::Answer(result)
                && result is NeedsPayment),
{
}

impl ChargeView {
    /// Whether each of these events is waited for when it comes.
    pub open spec fn takes(self, events: Seq<ChargeEvent>) -> bool
        decreases events.len(),
    {
        events.len() == 0 || self.accepts(events[0]) && self.next(events[0]).0.takes(
            events.drop_first(),
        )
    }

    /// What the last of one or more events leads to.
    pub open spec fn outcome(self, events: Seq<ChargeEvent>) -> ChargeActionView
        decreases events.len(),
    {
        if events.len() <= 1 {
            self.next(events[0]).1
        } else {
            self.next(events[0]).0.outcome(events.drop_first())
        }
    }
}

/// Whether a receipt, with what the outside tells of it, proves a payment: the required amount is
/// a number above zero, the receipt names a transaction and claims no less than that amount, the
/// transaction succeeded and names the recipient, and the recipient received no less.
pub open spec fn proves_payment(
    receipt: Seq<char>,
    recipient: Seq<char>,
    events: Seq<ChargeEvent>,
) -> bool {
    let params = header_params(receipt);
    &&& events.len() == 4
    &&& events[0] matches ChargeEvent::Required(Some(_))
    &&& params.dom().contains("signature"@)
    &&& params.dom().contains("amount"@)
    &&& events[1] == ChargeEvent::Claimed(Some(false))
    &&& events[2] matches ChargeEvent::Transaction(Ok(Some(tx)))
    &&& assessment(tx@, recipient) is Ok
    &&& events[3] matches ChargeEvent::Received { short, .. }
    &&& !short
}

/// A request is authorized exactly when its receipt proves a payment.
pub proof fn authorized_means_paid(
    server: ServerView,
    receipt: Seq<char>,
    amount: Seq<char>,
    events: Seq<ChargeEvent>,
)
    requires
        receipt.len() > 0,
        events.len() > 0,
        server.charge(Some(receipt), amount).0.takes(events),
    ensures
        events.len() <= 4,
        server.charge(Some(receipt), amount).0.outcome(events) == ChargeActionView::Answer(
            ChargeResultView::Authorized,
        ) <==> proves_payment(receipt, server.recipient_address, events),
{
    reveal_with_fuel(ChargeView::takes, 6);
    reveal_with_fuel(ChargeView::outcome, 6);
}

/// A transaction that is taken into account succeeded and names the recipient, and the balances
/// that are compared are those at the place of the recipient.
pub proof fn assessed_transactions(tx: JsonView, recipient: Seq<char>)
    requires
        assessment(tx, recipient) is Ok,
    ensures
        readable(tx),
        ({
            let keys = account_keys(tx)->Array_0;
            let i = key_position(keys, recipient) as int;
            let meta = tx.at("meta"@);
            &&& i < keys.len()
            &&& address_in(keys[i]) == Some(recipient)
            &&& forall|j: int| 0 <= j < i ==> address_in(#[trigger] keys[j]) != Some(recipient)
            &&& assessment(tx, recipient)->Ok_0.0 == meta.at("preBalances"@).numbers()[i]
            &&& assessment(tx, recipient)->Ok_0.1 == meta.at("postBalances"@).numbers()[i]
        }),
{
    key_position_facts(account_keys(tx)->Array_0, recipient);
}

proof fn key_position_facts(keys: Seq<JsonView>, address: Seq<char>)
    ensures
        key_position(keys, address) <= keys.len(),
        key_position(keys, address) < keys.len() ==> address_in(
            keys[key_position(keys, address) as int],
        ) == Some(address),
        forall|j: int|
            0 <= j < key_position(keys, address) ==> address_in(#[trigger] keys[j]) != Some(
                address,
            ),
    decreases keys.len(),
{
    if keys.len() > 0 && address_in(keys[0]) != Some(address) {
        let rest = keys.drop_first();
        key_position_facts(rest, address);
        assert forall|j: int| 0 <= j < key_position(keys, address) implies address_in(
            #[trigger] keys[j],
        ) != Some(address) by {
            if j > 0 {
                assert(keys[j] == rest[j - 1]);
            }
        }
    }
}

/// A client that is asked by a server reads the amount that the server charges, and pays what it
/// comes to to the server's recipient.
pub proof fn client_pays_what_the_server_asks(
    server: ServerView,
    amount: Seq<char>,
    flow: FetchView,
    payment_request: Vec<u8>,
    took_nanos: u128,
    reading: AmountReading,
)
    requires
        flow.phase is Response,
        took_nanos <= flow.left_nanos,
        plain_value(amount),
        plain_value(server.recipient_address),
        visible_text(payment_request@) == Some(
            server.needs_payment(amount)->payment_request_header,
        ),
    ensures
        ({
            let asked = flow.next(
                FetchEvent::Response {
                    status: 402,
                    payment_request: Some(payment_request),
                    took_nanos,
                },
            );
            let paying = asked.flow.next(FetchEvent::Amount(Some(reading)));
            &&& asked.action == (FetchActionView::ReadAmount { text: amount })
            &&& paying.action == (FetchActionView::Pay {
                recipient: server.recipient_address,
                lamports: reading.lamports,
                within_nanos: flow.after(took_nanos).left_nanos,
            })
        }),
{
    network_names_are_plain(server.network);
    request_is_paid_as_asked(
        flow,
        amount,
        server.recipient_address,
        server.network.name(),
        payment_request,
        took_nanos,
        reading,
    );
}

/// A server that is handed the receipt of a client's payment asks for the transaction that the
/// client was told of, unless the amount in it is too small.
pub proof fn server_reads_the_clients_receipt(
    flow: FetchView,
    paid: Seq<char>,
    number: JsonNumber,
    signature: String,
    took_nanos: u128,
    server: ServerView,
    amount: Seq<char>,
    required: String,
)
    requires
        flow.phase == (FetchPhaseView::Payment { amount: paid, number }),
        flow.accepts(FetchEvent::Paid { outcome: Ok(signature), took_nanos }),
        took_nanos <= flow.left_nanos,
        plain_value(signature@),
        plain_value(paid),
    ensures
        ({
            let sent = flow.next(FetchEvent::Paid { outcome: Ok(signature), took_nanos });
            let receipt = sent.flow.request.headers["payment-receipt"@];
            let (charge, action) = server.charge(Some(receipt), amount);
            let (claim, compare) = charge.next(ChargeEvent::Required(Some(required)));
            &&& action == (ChargeActionView::ReadRequired { text: amount })
            &&& compare == (ChargeActionView::CompareClaim { claimed: paid })
            &&& claim.next(ChargeEvent::Claimed(Some(false))).1
                == (ChargeActionView::GetTransaction { signature: signature@ })
        }),
{
    receipt_can_be_read(flow, paid, number, signature, took_nanos);
    network_names_are_plain(flow.network);
    payment_receipt_reads_back(signature@, flow.network.name(), paid);
    reveal_strlit("solana");
    let receipt = payment_receipt_text(signature@, flow.network.name(), paid);
    assert(receipt.len() >= "solana"@.len());
}

/// A server that is told where it is paid takes no notice of its secret key, not even of one that
/// would be refused.
pub proof fn named_recipient_is_kept(config: TestServerConfig, seed: Seq<u8>)
    requires
        config.recipient_address is Some,
    ensures
        config.refusal() is None,
        config.server(seed).recipient_address == config.recipient_address->0@,
{
}

/// Keypair bytes and the seed that they start with set up the same server.
pub proof fn keypair_sets_up_the_same_server(
    config: TestServerConfig,
    keypair: Vec<u8>,
    seed: Vec<u8>,
)
    requires
        keypair@.len() == 64,
        seed@ == keypair@.take(32),
    ensures
        (TestServerConfig { secret_key: Some(keypair), ..config }).refusal() is None,
        (TestServerConfig { secret_key: Some(seed), ..config }).refusal() is None,
        (TestServerConfig { secret_key: Some(keypair), ..config }).server(keypair@.take(32))
            == (TestServerConfig { secret_key: Some(seed), ..config }).server(seed@.take(32)),
{
    assert(seed@.take(32) == seed@);
}

/// What a server asks for can be read, and names the address of its key.
pub proof fn request_names_the_servers_key(
    config: TestServerConfig,
    seed: Seq<u8>,
    amount: Seq<char>,
)
    requires
        config.recipient_address is None,
        plain_value(amount),
    ensures
        ({
            let server = config.server(seed);
            let params = header_params(server.needs_payment(amount)->payment_request_header);
            &&& params["amount"@] == amount
            &&& params["recipient"@] == base58_text(ed25519_public_key(seed))
            &&& params["network"@] == config.chosen_network().name()
        }),
{
    addresses_are_plain(ed25519_public_key(seed));
    network_names_are_plain(config.chosen_network());
    payment_request_reads_back(
        amount,
        base58_text(ed25519_public_key(seed)),
        config.chosen_network().name(),
    );
}

/// The server that is set up has the network and the node that the configuration names, or else
/// devnet and the network's public node. It is paid to the address that is named; or else to that of
/// the key that is given, be it as its seed or as a keypair that starts with the seed; or else to
/// that of some seed. It is refused exactly where no address is named and the key has a wrong
/// length, with a message that names the length.
pub proof fn the_server_that_is_set_up(
    config: TestServerConfig,
    r: Result<ServerView, Seq<char>>,
    seed: Seq<u8>,
    rest: Seq<u8>,
)
    requires
        config.creates(r),
        seed.len() == 32,
        rest.len() == 32,
    ensures
        r matches Ok(server) ==> {
            &&& config.network matches Some(network) ==> server.network == network
            &&& config.network is None ==> server.network == SolanaNetwork::Devnet
            &&& config.rpc_url matches Some(url) ==> server.rpc_url == url@
            &&& config.rpc_url is None ==> server.rpc_url == server.network.public_node()
            &&& config.recipient_address matches Some(address) ==> server.recipient_address
                == address@
            &&& (config.recipient_address is None && (config.secret_key matches Some(key) && (key@
                == seed || key@ == seed + rest))) ==> server.recipient_address == base58_text(
                ed25519_public_key(seed),
            )
            &&& (config.recipient_address is None && config.secret_key is None) ==> exists|
                fresh: Seq<u8>,
            |
                fresh.len() == 32 && server.recipient_address == base58_text(
                    #[trigger] ed25519_public_key(fresh),
                )
        },
        r is Err <==> config.recipient_address is None && (config.secret_key matches Some(key)
            && key@.len() != 32 && key@.len() != 64),
        r matches Err(message) ==> message
            == "create_test_server: secret_key must be 32 or 64 bytes, got "@ + decimal(
            config.secret_key->Some_0@.len(),
        ),
{
    assert(seed.take(32) == seed);
    assert((seed + rest).take(32) == seed);
    if r is Ok && config.recipient_address is None && config.secret_key is None {
        let fresh = choose|fresh: Seq<u8>|
            fresh.len() == 32 && r->Ok_0 == #[trigger] config.server(fresh);
        assert(r->Ok_0.recipient_address == base58_text(ed25519_public_key(fresh)));
    }
}

/// What a server asks for without a receipt: the header names the amount, the recipient and the
/// network, and so does the body, with the currency.
pub proof fn what_is_asked_for(server: ServerView, amount: Seq<char>)
    ensures
        ({
            let asked = server.needs_payment(amount);
            let network = server.network.name();
            &&& asked matches ChargeResultView::NeedsPayment { payment_request_header, body }
            &&& payment_request_header == "solana; amount=\""@ + amount + "\"; recipient=\""@
                + server.recipient_address + "\"; network=\""@ + network + "\""@
            &&& body is Object
            &&& body->Object_0.len() == 2
            &&& body.at("error"@) == JsonView::String("Payment Required"@)
            &&& body.at("payment"@) is Object
            &&& body.at("payment"@)->Object_0.len() == 4
            &&& body.at("payment"@).at("amount"@) == JsonView::String(amount)
            &&& body.at("payment"@).at("currency"@) == JsonView::String("SOL"@)
            &&& body.at("payment"@).at("recipient"@) == JsonView::String(server.recipient_address)
            &&& body.at("payment"@).at("network"@) == JsonView::String(network)
        }),
{
    header_values_in_full(amount, server.recipient_address, server.network.name(), Seq::empty());
    reveal_strlit("error");
    reveal_strlit("payment");
    reveal_strlit("amount");
    reveal_strlit("currency");
    reveal_strlit("network");
    reveal_strlit("recipient");
    assert("error"@.len() == 5 && "payment"@.len() == 7 && "amount"@.len() == 6 && "currency"@.len()
        == 8 && "network"@.len() == 7 && "recipient"@.len() == 9);
    reveal_with_fuel(crate::json::member, 5);
    let members = server.needs_payment(amount)->body->Object_0;
    assert(members.drop_first()[0] == members[1]);
    let payment = members[1].1->Object_0;
    assert(payment.drop_first()[0] == payment[1]);
    assert(payment.drop_first().drop_first()[0] == payment[2]);
    assert(payment.drop_first().drop_first().drop_first()[0] == payment[3]);
}

/// A charge with a receipt first reads the amount that is charged, and keeps to the server's
/// recipient; one without has ended.
pub proof fn how_a_charge_begins(
    server: ServerView,
    receipt: Seq<char>,
    amount: Seq<char>,
    event: ChargeEvent,
)
    ensures
        receipt.len() > 0 ==> {
            let (flow, action) = server.charge(Some(receipt), amount);
            &&& action == (ChargeActionView::ReadRequired { text: amount })
            &&& flow.recipient == server.recipient_address
            &&& flow.amount == amount
            &&& flow.receipt == receipt
            &&& flow.accepts(event) <==> event is Required
        },
        !server.charge(None, amount).0.accepts(event),
        !server.charge(Some(Seq::empty()), amount).0.accepts(event),
{
}

/// Whether a charge has ended with the payment denied, for this reason.
pub open spec fn ends_as_denied(turn: (ChargeView, ChargeActionView), reason: Seq<char>) -> bool {
    turn.1 == ChargeActionView::Answer(ChargeResultView::Denied(reason))
}

/// What is made of a receipt. An amount that cannot be charged is the server's own error; a receipt
/// must name a signature; one that names no amount, or one that is no number or too small, claims
/// too little; with any other the transaction of that signature is asked for.
pub proof fn what_a_receipt_claims(
    flow: ChargeView,
    required: String,
    short: Option<bool>,
    event: ChargeEvent,
)
    requires
        flow.phase is Required,
    ensures
        ends_as_denied(
            flow.next(ChargeEvent::Required(None)),
            "server configuration error: invalid amount "@ + shown_text(flow.amount),
        ),
        ({
            let params = header_params(flow.receipt);
            let turn = flow.next(ChargeEvent::Required(Some(required)));
            &&& !params.dom().contains("signature"@) ==> ends_as_denied(
                turn,
                "Payment-Receipt missing signature field"@,
            )
            &&& params.dom().contains("signature"@) && !params.dom().contains("amount"@)
                ==> ends_as_denied(
                turn,
                "Insufficient payment: claimed "@ + "0"@ + " SOL, required "@ + required@
                    + " SOL"@,
            )
            &&& params.dom().contains("signature"@) && params.dom().contains("amount"@) ==> {
                let claimed = params["amount"@];
                let judged = turn.0.next(ChargeEvent::Claimed(short));
                &&& turn.1 == (ChargeActionView::CompareClaim { claimed })
                &&& turn.0.accepts(event) <==> event is Claimed
                &&& turn.0.recipient == flow.recipient
                &&& short != Some(false) ==> ends_as_denied(
                    judged,
                    "Insufficient payment: claimed "@ + claimed + " SOL, required "@ + required@
                        + " SOL"@,
                )
                &&& short == Some(false) ==> {
                    &&& judged.1 == (ChargeActionView::GetTransaction {
                        signature: params["signature"@],
                    })
                    &&& judged.0.phase == (ChargePhaseView::Transaction { required: required@ })
                    &&& judged.0.recipient == flow.recipient
                }
            }
        }),
{
}

/// Whether an account key is one of this address: the address itself, or an object whose `pubkey`
/// is the address.
pub open spec fn is_of_address(key: JsonView, address: Seq<char>) -> bool {
    key == JsonView::String(address) || (key is Object && key.at("pubkey"@) == JsonView::String(
        address,
    ))
}

/// What is made of a transaction that succeeded and names the recipient, first at some place: where
/// both lists of balances hold a number at that place, these are compared, whatever they are;
/// otherwise the payment is denied.
pub proof fn a_transaction_is_taken_into_account(
    flow: ChargeView,
    tx: Json,
    keys: Seq<JsonView>,
    place: int,
    received: String,
    short: bool,
    event: ChargeEvent,
)
    requires
        flow.phase is Transaction,
        tx@.at("meta"@) is Object,
        tx@.at("meta"@).at("err"@) == JsonView::Null,
        tx@.at("transaction"@).at("message"@).at("accountKeys"@) == JsonView::Array(keys),
        0 <= place < keys.len(),
        is_of_address(keys[place], flow.recipient),
        forall|j: int| 0 <= j < place ==> !is_of_address(#[trigger] keys[j], flow.recipient),
    ensures
        ({
            let found = ChargeEvent::Transaction(Ok(Some(tx)));
            let pre = tx@.at("meta"@).at("preBalances"@).numbers();
            let post = tx@.at("meta"@).at("postBalances"@).numbers();
            let (after, action) = flow.next(found);
            &&& flow.accepts(found)
            &&& place < pre.len() && place < post.len() ==> {
                &&& assessment(tx@, flow.recipient) == Ok::<
                    (JsonNumber, JsonNumber),
                    Seq<char>,
                >((pre[place], post[place]))
                &&& action == (ChargeActionView::CompareReceived {
                    pre: pre[place],
                    post: post[place],
                })
                &&& after.accepts(event) <==> event is Received
                &&& short ==> ends_as_denied(
                    after.next(ChargeEvent::Received { received, short }),
                    "Payment too small: received "@ + received@ + " SOL, required "@
                        + flow.phase->Transaction_required + " SOL"@,
                )
                &&& !short ==> after.next(ChargeEvent::Received { received, short }).1
                    == ChargeActionView::Answer(ChargeResultView::Authorized)
            }
            &&& place >= pre.len() || place >= post.len() ==> ends_as_denied(
                flow.next(found),
                "Payment verification failed: balance arrays too short"@,
            )
        }),
{
    first_place(keys, flow.recipient, place);
}

proof fn first_place(keys: Seq<JsonView>, address: Seq<char>, place: int)
    requires
        0 <= place <= keys.len(),
        place < keys.len() ==> is_of_address(keys[place], address),
        forall|j: int| 0 <= j < place ==> !is_of_address(#[trigger] keys[j], address),
    ensures
        key_position(keys, address) == place,
    decreases keys.len(),
{
    if keys.len() > 0 {
        assert(address_in(keys[0]) == Some(address) <==> is_of_address(keys[0], address));
        if place > 0 {
            let rest = keys.drop_first();
            assert(!is_of_address(keys[0], address));
            assert forall|j: int| 0 <= j < place - 1 implies !is_of_address(
                #[trigger] rest[j],
                address,
            ) by {
                assert(rest[j] == keys[j + 1]);
            }
            first_place(rest, address, place - 1);
        }
    }
}

/// What is made of a transaction that is not there or proves nothing: the payment is denied, with
/// the reason.
pub proof fn a_transaction_that_proves_nothing(flow: ChargeView, found: Result<Option<Json>, String>)
    requires
        flow.phase is Transaction,
    ensures
        ({
            let turn = flow.next(ChargeEvent::Transaction(found));
            &&& found matches Err(e) ==> ends_as_denied(
                turn,
                "Payment verification failed: "@ + e@,
            )
            &&& found matches Ok(None) ==> ends_as_denied(turn, "Transaction not found on chain"@)
            &&& found matches Ok(Some(tx)) ==> {
                let meta = tx@.at("meta"@);
                let keys = tx@.at("transaction"@).at("message"@).at("accountKeys"@);
                let nowhere = forall|j: int|
                    0 <= j < keys->Array_0.len() ==> !is_of_address(
                        #[trigger] keys->Array_0[j],
                        flow.recipient,
                    );
                &&& !(meta is Object) ==> ends_as_denied(
                    turn,
                    "Payment verification failed: could not read transaction metadata"@,
                )
                &&& meta is Object && meta.at("err"@) != JsonView::Null ==> ends_as_denied(
                    turn,
                    "Transaction failed on chain"@,
                )
                &&& meta is Object && meta.at("err"@) == JsonView::Null && !(keys is Array)
                    ==> ends_as_denied(
                    turn,
                    "Payment verification failed: missing accountKeys"@,
                )
                &&& meta is Object && meta.at("err"@) == JsonView::Null && keys is Array && nowhere
                    ==> ends_as_denied(
                    turn,
                    "Recipient "@ + front(flow.recipient, 8) + "... not found in transaction"@,
                )
                &&& flow.accepts(ChargeEvent::Transaction(found)) <==> (has_front(
                    flow.recipient,
                    8,
                ) || !(meta is Object && meta.at("err"@) == JsonView::Null && keys is Array
                    && nowhere))
            }
        }),
        !(found matches Ok(Some(_))) ==> flow.accepts(ChargeEvent::Transaction(found)),
{
    if let Ok(Some(tx)) = found {
        let keys = account_keys(tx@);
        if keys is Array {
            let list = keys->Array_0;
            key_position_facts(list, flow.recipient);
            if forall|j: int|
                0 <= j < list.len() ==> !is_of_address(#[trigger] list[j], flow.recipient) {
                first_place(list, flow.recipient, list.len() as int);
            } else {
                let j = choose|j: int|
                    0 <= j < list.len() && is_of_address(#[trigger] list[j], flow.recipient);
                assert(address_in(list[j]) == Some(flow.recipient));
                assert(key_position(list, flow.recipient) < list.len());
            }
        }
    }
}

/// A charge keeps to its recipient, its amount and its receipt, and one that has ended waits for
/// nothing.
pub proof fn how_a_charge_ends(flow: ChargeView, event: ChargeEvent, other: ChargeEvent)
    ensures
        flow.next(event).0.recipient == flow.recipient,
        flow.next(event).0.amount == flow.amount,
        flow.next(event).0.receipt == flow.receipt,
        flow.next(event).1 is Answer ==> !flow.next(event).0.accepts(other),
{
}

} // verus!
