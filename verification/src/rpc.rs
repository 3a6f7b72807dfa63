//! The JSON-RPC calls to a Solana node: what is asked, and what the answers mean.
use vstd::prelude::*;
use vstd::string::*;

pub use crate::base58::{base58_decode, base58_encode};
pub use crate::header::parse_header_params;
pub use crate::transaction::build_transfer_transaction;

use crate::json::{json_views, Json, JsonNumber, JsonView};
use crate::text::{joined, result_is, same_text, signed_decimal, signed_decimal_of};

verus! {

/// How many lamports one SOL is.
pub const LAMPORTS_PER_SOL: u64 = 1_000_000_000;

// ---------------------------------------------------------------------------------------------
// Calls
// ---------------------------------------------------------------------------------------------
/// For how many seconds the answer to a call is waited for.
pub const RPC_TIMEOUT_SECONDS: u64 = 30;

/// A call to be posted to a node as JSON.
pub struct RpcCall {
    pub endpoint: String,
    pub body: Json,
}

/// A call, with texts as sequences of characters.
pub struct RpcCallView {
    pub endpoint: Seq<char>,
    pub body: JsonView,
}

impl View for RpcCall {
    type V = RpcCallView;

    open spec fn view(&self) -> RpcCallView {
        RpcCallView { endpoint: self.endpoint@, body: self.body@ }
    }
}

/// The call of a method, as a JSON-RPC 2.0 request.
pub open spec fn rpc_call(
    endpoint: Seq<char>,
    method: Seq<char>,
    params: Seq<JsonView>,
) -> RpcCallView {
    RpcCallView {
        endpoint,
        body: JsonView::Object(
            seq![
                ("jsonrpc"@, JsonView::String("2.0"@)),
                ("id"@, JsonView::Number(JsonNumber::PosInt(1))),
                ("method"@, JsonView::String(method)),
                ("params"@, JsonView::Array(params)),
            ],
        ),
    }
}

/// The calls that the client makes.
pub open spec fn get_latest_blockhash_call(endpoint: Seq<char>) -> RpcCallView {
    rpc_call(
        endpoint,
        "getLatestBlockhash"@,
        seq![JsonView::Object(seq![("commitment"@, JsonView::String("confirmed"@))])],
    )
}

pub open spec fn request_airdrop_call(
    endpoint: Seq<char>,
    pubkey: Seq<char>,
    lamports: u64,
) -> RpcCallView {
    rpc_call(
        endpoint,
        "requestAirdrop"@,
        seq![JsonView::String(pubkey), JsonView::Number(JsonNumber::PosInt(lamports))],
    )
}

pub open spec fn signature_statuses_call(endpoint: Seq<char>, sig: Seq<char>) -> RpcCallView {
    rpc_call(
        endpoint,
        "getSignatureStatuses"@,
        seq![
            JsonView::Array(seq![JsonView::String(sig)]),
            JsonView::Object(seq![("searchTransactionHistory"@, JsonView::Bool(true))]),
        ],
    )
}

pub open spec fn send_transaction_call(endpoint: Seq<char>, tx_base64: Seq<char>) -> RpcCallView {
    rpc_call(
        endpoint,
        "sendTransaction"@,
        seq![
            JsonView::String(tx_base64),
            JsonView::Object(seq![("encoding"@, JsonView::String("base64"@))]),
        ],
    )
}

pub open spec fn get_transaction_call(endpoint: Seq<char>, sig: Seq<char>) -> RpcCallView {
    rpc_call(
        endpoint,
        "getTransaction"@,
        seq![
            JsonView::String(sig),
            JsonView::Object(
                seq![
                    ("commitment"@, JsonView::String("confirmed"@)),
                    ("encoding"@, JsonView::String("jsonParsed"@)),
                    (
                        "maxSupportedTransactionVersion"@,
                        JsonView::Number(JsonNumber::PosInt(0)),
                    ),
                ],
            ),
        ],
    )
}

/// An object with one member.
fn object_of_1(name: &str, value: Json) -> (r: Json)
    ensures
        r@ == JsonView::Object(seq![(name@, value@)]),
{
    let members: Vec<(String, Json)> = vec![(name.to_owned(), value)];
    let r = Json::object(members);
    assert(r@->Object_0 == seq![(name@, value@)]);
    r
}

/// A node, by its address.
pub struct RpcClient {
    endpoint: String,
}

impl View for RpcClient {
    type V = Seq<char>;

    closed spec fn view(&self) -> Seq<char> {
        self.endpoint@
    }
}

impl RpcClient {
    /// The node at this address.
    pub fn new(endpoint: &str) -> (r: RpcClient)
        ensures
            r@ == endpoint@,
    {
        RpcClient { endpoint: endpoint.to_owned() }
    }

    /// The node's address.
    pub fn endpoint(&self) -> (r: &str)
        ensures
            r@ == self@,
    {
        self.endpoint.as_str()
    }

    /// The call of a method.
    pub fn call(&self, method: &str, params: Vec<Json>) -> (r: RpcCall)
        ensures
            r@ == rpc_call(self@, method@, json_views(params@)),
    {
        let members: Vec<(String, Json)> = vec![
            ("jsonrpc".to_owned(), Json::text("2.0")),
            ("id".to_owned(), Json::whole(1)),
            ("method".to_owned(), Json::text(method)),
            ("params".to_owned(), Json::array(params)),
        ];
        let body = Json::object(members);
        assert(body@->Object_0 == rpc_call(
            self@,
            method@,
            json_views(params@),
        ).body->Object_0);
        RpcCall { endpoint: self.endpoint.clone(), body }
    }

    /// Asks for the latest block hash.
    pub fn get_latest_blockhash(&self) -> (r: RpcCall)
        ensures
            r@ == get_latest_blockhash_call(self@),
    {
        let params: Vec<Json> = vec![object_of_1("commitment", Json::text("confirmed"))];
        assert(json_views(params@) == seq![
            JsonView::Object(seq![("commitment"@, JsonView::String("confirmed"@))]),
        ]);
        self.call("getLatestBlockhash", params)
    }

    /// Asks for lamports from the faucet.
    pub fn request_airdrop(&self, pubkey: &str, lamports: u64) -> (r: RpcCall)
        ensures
            r@ == request_airdrop_call(self@, pubkey@, lamports),
    {
        let params: Vec<Json> = vec![Json::text(pubkey), Json::whole(lamports)];
        assert(json_views(params@) == seq![
            JsonView::String(pubkey@),
            JsonView::Number(JsonNumber::PosInt(lamports)),
        ]);
        self.call("requestAirdrop", params)
    }

    /// Asks how far a transaction has come.
    pub fn signature_statuses(&self, sig: &str) -> (r: RpcCall)
        ensures
            r@ == signature_statuses_call(self@, sig@),
    {
        let sigs: Vec<Json> = vec![Json::text(sig)];
        assert(json_views(sigs@) == seq![JsonView::String(sig@)]);
        let params: Vec<Json> = vec![
            Json::array(sigs),
            object_of_1("searchTransactionHistory", Json::Bool(true)),
        ];
        assert(json_views(params@) == seq![
            JsonView::Array(seq![JsonView::String(sig@)]),
            JsonView::Object(seq![("searchTransactionHistory"@, JsonView::Bool(true))]),
        ]);
        self.call("getSignatureStatuses", params)
    }

    /// Submits a transaction.
    pub fn send_transaction(&self, tx_base64: &str) -> (r: RpcCall)
        ensures
            r@ == send_transaction_call(self@, tx_base64@),
    {
        let params: Vec<Json> = vec![
            Json::text(tx_base64),
            object_of_1("encoding", Json::text("base64")),
        ];
        assert(json_views(params@) == seq![
            JsonView::String(tx_base64@),
            JsonView::Object(seq![("encoding"@, JsonView::String("base64"@))]),
        ]);
        self.call("sendTransaction", params)
    }

    /// Asks for a transaction.
    pub fn get_transaction(&self, sig: &str) -> (r: RpcCall)
        ensures
            r@ == get_transaction_call(self@, sig@),
    {
        let members: Vec<(String, Json)> = vec![
            ("commitment".to_owned(), Json::text("confirmed")),
            ("encoding".to_owned(), Json::text("jsonParsed")),
            ("maxSupportedTransactionVersion".to_owned(), Json::whole(0)),
        ];
        let options = Json::object(members);
        let ghost expected = seq![
            ("commitment"@, JsonView::String("confirmed"@)),
            ("encoding"@, JsonView::String("jsonParsed"@)),
            ("maxSupportedTransactionVersion"@, JsonView::Number(JsonNumber::PosInt(0))),
        ];
        assert(options@->Object_0 == expected);
        let params: Vec<Json> = vec![Json::text(sig), options];
        assert(json_views(params@) == seq![JsonView::String(sig@), JsonView::Object(expected)]);
        self.call("getTransaction", params)
    }
}

// ---------------------------------------------------------------------------------------------
// Answers
// ---------------------------------------------------------------------------------------------
/// The error in an answer.
pub struct RpcError {
    pub code: i32,
    pub message: String,
}

/// An answer of a node. A result that is null counts as none.
pub struct RpcReply {
    pub result: Option<Json>,
    pub error: Option<RpcError>,
}

/// Why there is no answer: the call could not be written, could not be posted, or what came back
/// could not be read.
pub enum RpcFault {
    Marshal(String),
    Http(String),
    Decode(String),
}

/// What an answer comes to: the error in it, else the result in it.
pub open spec fn outcome(reply: Result<RpcReply, RpcFault>) -> Result<JsonView, Seq<char>> {
    match reply {
        Err(RpcFault::Marshal(e)) => Err("rpc marshal: "@ + e@),
        Err(RpcFault::Http(e)) => Err("rpc http: "@ + e@),
        Err(RpcFault::Decode(e)) => Err("rpc decode: "@ + e@),
        Ok(reply) => match reply.error {
            Some(error) => Err(
                "rpc error "@ + signed_decimal(error.code as int) + ": "@ + error.message@,
            ),
            None => match reply.result {
                Some(result) => if result@ == JsonView::Null {
                    Err("rpc: null result"@)
                } else {
                    Ok(result@)
                },
                None => Err("rpc: null result"@),
            },
        },
    }
}

/// Takes the result out of an answer.
pub fn take_result(reply: Result<RpcReply, RpcFault>) -> (r: Result<Json, String>)
    ensures
        result_is(r, outcome(reply)),
{
    match reply {
        Err(RpcFault::Marshal(e)) => Err(joined("rpc marshal: ", e.as_str())),
        Err(RpcFault::Http(e)) => Err(joined("rpc http: ", e.as_str())),
        Err(RpcFault::Decode(e)) => Err(joined("rpc decode: ", e.as_str())),
        Ok(reply) => match reply.error {
            Some(error) => {
                let mut message = joined("rpc error ", signed_decimal_of(error.code).as_str());
                message.append(": ");
                message.append(error.message.as_str());
                Err(message)
            },
            None => match reply.result {
                Some(result) => if result.is_null() {
                    Err("rpc: null result".to_owned())
                } else {
                    Ok(result)
                },
                None => Err("rpc: null result".to_owned()),
            },
        },
    }
}

/// The latest block hash in an answer, and the last height at which it is valid.
pub open spec fn blockhash_outcome(reply: Result<RpcReply, RpcFault>) -> Result<
    (Seq<char>, u64),
    Seq<char>,
> {
    match outcome(reply) {
        Err(e) => Err(e),
        Ok(result) => {
            let value = result.at("value"@);
            match value.at("blockhash"@).as_text() {
                None => Err("getLatestBlockhash: missing blockhash"@),
                Some(blockhash) => Ok(
                    (
                        blockhash,
                        match value.at("lastValidBlockHeight"@).as_u64() {
                            Some(height) => height,
                            None => 0,
                        },
                    ),
                ),
            }
        },
    }
}

/// Reads the answer to `get_latest_blockhash`.
pub fn read_latest_blockhash(reply: Result<RpcReply, RpcFault>) -> (r: Result<
    (String, u64),
    String,
>)
    ensures
        result_is(r, blockhash_outcome(reply)),
{
    match take_result(reply) {
        Err(e) => Err(e),
        Ok(result) => {
            let value = result.at("value");
            match value.at("blockhash").as_str() {
                None => Err("getLatestBlockhash: missing blockhash".to_owned()),
                Some(blockhash) => {
                    let last_valid = match value.at("lastValidBlockHeight").as_u64() {
                        Some(height) => height,
                        None => 0,
                    };
                    Ok((blockhash.to_owned(), last_valid))
                },
            }
        },
    }
}

/// The text that an answer is, or else the message that it is none.
pub open spec fn text_outcome(reply: Result<RpcReply, RpcFault>, otherwise: Seq<char>) -> Result<
    Seq<char>,
    Seq<char>,
> {
    match outcome(reply) {
        Err(e) => Err(e),
        Ok(result) => match result.as_text() {
            Some(s) => Ok(s),
            None => Err(otherwise),
        },
    }
}

fn read_text(reply: Result<RpcReply, RpcFault>, otherwise: &str) -> (r: Result<String, String>)
    ensures
        result_is(r, text_outcome(reply, otherwise@)),
{
    match take_result(reply) {
        Err(e) => Err(e),
        Ok(result) => match result.as_str() {
            Some(s) => Ok(s.to_owned()),
            None => Err(otherwise.to_owned()),
        },
    }
}

/// What the answer to `request_airdrop` comes to: a signature.
pub open spec fn airdrop_outcome(reply: Result<RpcReply, RpcFault>) -> Result<
    Seq<char>,
    Seq<char>,
> {
    text_outcome(reply, "requestAirdrop: invalid response"@)
}

/// What the answer to `send_transaction` comes to: a signature.
pub open spec fn sent_outcome(reply: Result<RpcReply, RpcFault>) -> Result<Seq<char>, Seq<char>> {
    text_outcome(reply, "sendTransaction: invalid response"@)
}

/// Reads the answer to `request_airdrop`: a signature.
pub fn read_airdrop(reply: Result<RpcReply, RpcFault>) -> (r: Result<String, String>)
    ensures
        result_is(r, airdrop_outcome(reply)),
{
    read_text(reply, "requestAirdrop: invalid response")
}

/// Reads the answer to `send_transaction`: a signature.
pub fn read_sent(reply: Result<RpcReply, RpcFault>) -> (r: Result<String, String>)
    ensures
        result_is(r, sent_outcome(reply)),
{
    read_text(reply, "sendTransaction: invalid response")
}

/// What the answer to `get_transaction` comes to: the transaction, or none where the result is null.
/// A null in an answer is taken for no result at all, which is an error.
pub open spec fn transaction_outcome(reply: Result<RpcReply, RpcFault>) -> Result<
    Option<JsonView>,
    Seq<char>,
> {
    match outcome(reply) {
        Err(e) => Err(e),
        Ok(JsonView::Null) => Ok(None),
        Ok(result) => Ok(Some(result)),
    }
}

/// Reads the answer to `get_transaction`.
pub fn read_transaction(reply: Result<RpcReply, RpcFault>) -> (r: Result<Option<Json>, String>)
    ensures
        match (r, transaction_outcome(reply)) {
            (Ok(Some(tx)), Ok(Some(expected))) => tx@ == expected,
            (Ok(None), Ok(None)) => true,
            (Err(message), Err(expected)) => message@ == expected,
            _ => false,
        },
{
    match take_result(reply) {
        Err(e) => Err(e),
        Ok(result) => if result.is_null() {
            Ok(None)
        } else {
            Ok(Some(result))
        },
    }
}

// ---------------------------------------------------------------------------------------------
// Waiting for a transaction
// ---------------------------------------------------------------------------------------------
/// How long a transaction is waited for: 60 seconds, in nanoseconds.
pub const CONFIRM_NANOS: u128 = 60_000_000_000;

/// How many seconds pass between two looks at a transaction.
pub const POLL_SECONDS: u64 = 2;

/// What a transaction's status tells.
pub enum Verdict {
    Confirmed,
    Failed,
    Pending,
}

/// What the result of `getSignatureStatuses` tells of the one transaction asked for.
pub open spec fn verdict(result: JsonView) -> Verdict {
    match result.at("value"@) {
        JsonView::Array(statuses) => if statuses.len() == 0 || statuses[0] == JsonView::Null {
            Verdict::Pending
        } else if statuses[0].at("err"@) != JsonView::Null {
            Verdict::Failed
        } else {
            match statuses[0].at("confirmationStatus"@).as_text() {
                Some(conf) => if conf == "confirmed"@ || conf == "finalized"@ {
                    Verdict::Confirmed
                } else {
                    Verdict::Pending
                },
                None => Verdict::Pending,
            }
        },
        _ => Verdict::Pending,
    }
}

/// Reads the result of `getSignatureStatuses`.
pub fn read_verdict(result: &Json) -> (r: Verdict)
    ensures
        r == verdict(result@),
{
    match result.at("value").as_array() {
        None => Verdict::Pending,
        Some(statuses) => {
            if statuses.len() == 0 {
                return Verdict::Pending;
            }
            let status = &statuses[0];
            assert(status@ == json_views(statuses@)[0]);
            if status.is_null() {
                Verdict::Pending
            } else if !status.at("err").is_null() {
                Verdict::Failed
            } else {
                match status.at("confirmationStatus").as_str() {
                    Some(conf) => if same_text(conf, "confirmed") || same_text(conf, "finalized") {
                        Verdict::Confirmed
                    } else {
                        Verdict::Pending
                    },
                    None => Verdict::Pending,
                }
            }
        },
    }
}

/// What a wait for a transaction is waiting for.
#[derive(Clone, Copy)]
pub enum ConfirmPhase {
    Clock,
    Status,
    Closed,
}

/// A wait for a transaction: it looks at the clock, asks for the status, and pauses, in turn.
pub struct ConfirmFlow {
    client: RpcClient,
    sig: String,
    phase: ConfirmPhase,
}

/// A wait for a transaction, with texts as sequences of characters.
pub struct ConfirmView {
    pub endpoint: Seq<char>,
    pub sig: Seq<char>,
    pub phase: ConfirmPhase,
}

impl View for ConfirmFlow {
    type V = ConfirmView;

    closed spec fn view(&self) -> ConfirmView {
        ConfirmView { endpoint: self.client@, sig: self.sig@, phase: self.phase }
    }
}

/// What the outside tells a wait for a transaction.
pub enum ConfirmEvent {
    /// The clock was read: how long the wait has lasted.
    Clock { elapsed_nanos: u128 },
    /// The status call was answered.
    Status(Result<RpcReply, RpcFault>),
}

/// What a wait for a transaction asks of the outside.
pub enum ConfirmAction {
    /// Post the call and hand back the answer.
    Query(RpcCall),
    /// Pause for this many seconds, then read the clock.
    Wait { seconds: u64 },
    /// The transaction is confirmed.
    Done,
    /// The wait is over without success.
    Fail(String),
}

/// An action, with texts as sequences of characters.
pub enum ConfirmActionView {
    Query(RpcCallView),
    Wait { seconds: u64 },
    Done,
    Fail(Seq<char>),
}

impl View for ConfirmAction {
    type V = ConfirmActionView;

    open spec fn view(&self) -> ConfirmActionView {
        match self {
            ConfirmAction::Query(call) => ConfirmActionView::Query(call@),
            ConfirmAction::Wait { seconds } => ConfirmActionView::Wait { seconds: *seconds },
            ConfirmAction::Done => ConfirmActionView::Done,
            ConfirmAction::Fail(message) => ConfirmActionView::Fail(message@),
        }
    }
}

impl ConfirmView {
    /// A wait that starts with a look at the clock.
    pub open spec fn start(endpoint: Seq<char>, sig: Seq<char>) -> ConfirmView {
        ConfirmView { endpoint, sig, phase: ConfirmPhase::Clock }
    }

    /// Whether this is the kind of event that is waited for.
    pub open spec fn accepts(self, event: ConfirmEvent) -> bool {
        match (self.phase, event) {
            (ConfirmPhase::Clock, ConfirmEvent::Clock { .. }) => true,
            (ConfirmPhase::Status, ConfirmEvent::Status(_)) => true,
            _ => false,
        }
    }

    /// The wait in another phase.
    pub open spec fn to(self, phase: ConfirmPhase) -> ConfirmView {
        ConfirmView { phase, ..self }
    }

    /// What follows an event.
    pub open spec fn next(self, event: ConfirmEvent) -> (ConfirmView, ConfirmActionView) {
        match event {
            ConfirmEvent::Clock { elapsed_nanos } => if elapsed_nanos > CONFIRM_NANOS {
                (
                    self.to(ConfirmPhase::Closed),
                    ConfirmActionView::Fail(
                        "confirmTransaction: timed out waiting for "@ + self.sig,
                    ),
                )
            } else {
                (
                    self.to(ConfirmPhase::Status),
                    ConfirmActionView::Query(signature_statuses_call(self.endpoint, self.sig)),
                )
            },
            ConfirmEvent::Status(reply) => match outcome(reply) {
                Err(e) => (self.to(ConfirmPhase::Closed), ConfirmActionView::Fail(e)),
                Ok(result) => match verdict(result) {
                    Verdict::Confirmed => (
                        self.to(ConfirmPhase::Closed),
                        ConfirmActionView::Done,
                    ),
                    Verdict::Failed => (
                        self.to(ConfirmPhase::Closed),
                        ConfirmActionView::Fail(
                            "transaction "@ + self.sig + " failed on chain"@,
                        ),
                    ),
                    Verdict::Pending => (
                        self.to(ConfirmPhase::Clock),
                        ConfirmActionView::Wait { seconds: POLL_SECONDS },
                    ),
                },
            },
        }
    }
}

impl RpcClient {
    /// Starts to wait for a transaction, with a look at the clock.
    pub fn confirm_transaction(&self, sig: &str) -> (r: ConfirmFlow)
        ensures
            r@ == ConfirmView::start(self@, sig@),
    {
        ConfirmFlow {
            client: RpcClient::new(self.endpoint.as_str()),
            sig: sig.to_owned(),
            phase: ConfirmPhase::Clock,
        }
    }
}

impl ConfirmFlow {
    /// Tells whether this is the kind of event that is waited for.
    pub fn accepts(&self, event: &ConfirmEvent) -> (r: bool)
        ensures
            r == self@.accepts(*event),
    {
        match (self.phase, event) {
            (ConfirmPhase::Clock, ConfirmEvent::Clock { .. }) => true,
            (ConfirmPhase::Status, ConfirmEvent::Status(_)) => true,
            _ => false,
        }
    }

    /// Takes an event and says what to do next.
    pub fn step(&mut self, event: ConfirmEvent) -> (action: ConfirmAction)
        requires
            old(self)@.accepts(event),
        ensures
            (final(self)@, action@) == old(self)@.next(event),
    {
        match event {
            ConfirmEvent::Clock { elapsed_nanos } => if elapsed_nanos > CONFIRM_NANOS {
                self.phase = ConfirmPhase::Closed;
                ConfirmAction::Fail(
                    joined("confirmTransaction: timed out waiting for ", self.sig.as_str()),
                )
            } else {
                self.phase = ConfirmPhase::Status;
                ConfirmAction::Query(self.client.signature_statuses(self.sig.as_str()))
            },
            ConfirmEvent::Status(reply) => match take_result(reply) {
                Err(e) => {
                    self.phase = ConfirmPhase::Closed;
                    ConfirmAction::Fail(e)
                },
                Ok(result) => match read_verdict(&result) {
                    Verdict::Confirmed => {
                        self.phase = ConfirmPhase::Closed;
                        ConfirmAction::Done
                    },
                    Verdict::Failed => {
                        self.phase = ConfirmPhase::Closed;
                        let mut message = joined("transaction ", self.sig.as_str());
                        message.append(" failed on chain");
                        ConfirmAction::Fail(message)
                    },
                    Verdict::Pending => {
                        self.phase = ConfirmPhase::Clock;
                        ConfirmAction::Wait { seconds: POLL_SECONDS }
                    },
                },
            },
        }
    }
}

// ---------------------------------------------------------------------------------------------
// Laws
// ---------------------------------------------------------------------------------------------
/// A wait ends with success exactly when the node's own answer is that the transaction is
/// confirmed or finalized, with no error.
pub proof fn confirmation_is_the_nodes(flow: ConfirmView, event: ConfirmEvent)
    requires
        flow.accepts(event),
    ensures
        flow.next(event).1 is Done <==> (event matches ConfirmEvent::Status(reply) && outcome(
            reply,
        ) matches Ok(result) && verdict(result) == Verdict::Confirmed),
{
}

/// A wait goes on only as long as the clock allows: after each pause the clock is looked at, and
/// once it has run out nothing more is asked.
pub proof fn wait_ends_with_the_clock(flow: ConfirmView, event: ConfirmEvent)
    requires
        flow.accepts(event),
    ensures
        flow.next(event).1 is Wait ==> flow.next(event).0.phase is Clock,
        event matches ConfirmEvent::Clock { elapsed_nanos } ==> (elapsed_nanos > 60_000_000_000
            <==> flow.next(event).1 is Fail),
        event matches ConfirmEvent::Clock { elapsed_nanos } ==> (elapsed_nanos <= 60_000_000_000
            <==> flow.next(event).1 is Query),
{
}

/// An answer has a result exactly where there is no error in it and a result that is not null.
pub proof fn missing_result_is_an_error(reply: RpcReply)
    ensures
        outcome(Ok(reply)) is Ok <==> (reply.error is None && (reply.result matches Some(result)
            && result@ != JsonView::Null)),
        transaction_outcome(Ok(reply)) is Ok <==> outcome(Ok(reply)) is Ok,
{
}

/// A call goes to the node, and its body is an object with the version, the number 1, the method
/// and the parameters.
pub proof fn what_a_call_says(endpoint: Seq<char>, method: Seq<char>, params: Seq<JsonView>)
    ensures
        ({
            let call = rpc_call(endpoint, method, params);
            &&& call.endpoint == endpoint
            &&& call.body is Object
            &&& call.body->Object_0.len() == 4
            &&& call.body.at("jsonrpc"@) == JsonView::String("2.0"@)
            &&& call.body.at("id"@) == JsonView::Number(JsonNumber::PosInt(1))
            &&& call.body.at("method"@) == JsonView::String(method)
            &&& call.body.at("params"@) == JsonView::Array(params)
        }),
{
    reveal_strlit("jsonrpc");
    reveal_strlit("id");
    reveal_strlit("method");
    reveal_strlit("params");
    assert("jsonrpc"@.len() == 7 && "id"@.len() == 2 && "method"@.len() == 6 && "params"@.len() == 6);
    assert("method"@[0] != "params"@[0]);
    let members = rpc_call(endpoint, method, params).body->Object_0;
    reveal_with_fuel(crate::json::member, 5);
    assert(members.drop_first()[0] == members[1]);
    assert(members.drop_first().drop_first()[0] == members[2]);
    assert(members.drop_first().drop_first().drop_first()[0] == members[3]);
}

/// What each call asks for, by its method and its parameters: the latest block hash that is
/// confirmed; lamports for an address; the status of one signature, in the whole history; that a
/// transaction be taken, in base64; a transaction by its signature, parsed, confirmed, of version 0.
pub proof fn what_the_calls_ask_for(
    node: Seq<char>,
    pubkey: Seq<char>,
    lamports: u64,
    sig: Seq<char>,
    tx_base64: Seq<char>,
)
    ensures
        ({
            let body = get_latest_blockhash_call(node).body;
            &&& get_latest_blockhash_call(node).endpoint == node
            &&& body.at("method"@) == JsonView::String("getLatestBlockhash"@)
            &&& body.at("params"@) matches JsonView::Array(params)
            &&& params.len() == 1
            &&& params[0].at("commitment"@) == JsonView::String("confirmed"@)
        }),
        ({
            let body = request_airdrop_call(node, pubkey, lamports).body;
            &&& request_airdrop_call(node, pubkey, lamports).endpoint == node
            &&& body.at("method"@) == JsonView::String("requestAirdrop"@)
            &&& body.at("params"@) matches JsonView::Array(params)
            &&& params.len() == 2
            &&& params[0] == JsonView::String(pubkey)
            &&& params[1] == JsonView::Number(JsonNumber::PosInt(lamports))
        }),
        ({
            let body = signature_statuses_call(node, sig).body;
            &&& signature_statuses_call(node, sig).endpoint == node
            &&& body.at("method"@) == JsonView::String("getSignatureStatuses"@)
            &&& body.at("params"@) matches JsonView::Array(params)
            &&& params.len() == 2
            &&& params[0] == JsonView::Array(seq![JsonView::String(sig)])
            &&& params[1].at("searchTransactionHistory"@) == JsonView::Bool(true)
        }),
        ({
            let body = send_transaction_call(node, tx_base64).body;
            &&& send_transaction_call(node, tx_base64).endpoint == node
            &&& body.at("method"@) == JsonView::String("sendTransaction"@)
            &&& body.at("params"@) matches JsonView::Array(params)
            &&& params.len() == 2
            &&& params[0] == JsonView::String(tx_base64)
            &&& params[1].at("encoding"@) == JsonView::String("base64"@)
        }),
        ({
            let body = get_transaction_call(node, sig).body;
            &&& get_transaction_call(node, sig).endpoint == node
            &&& body.at("method"@) == JsonView::String("getTransaction"@)
            &&& body.at("params"@) matches JsonView::Array(params)
            &&& params.len() == 2
            &&& params[0] == JsonView::String(sig)
            &&& params[1].at("encoding"@) == JsonView::String("jsonParsed"@)
            &&& params[1].at("commitment"@) == JsonView::String("confirmed"@)
            &&& params[1].at("maxSupportedTransactionVersion"@) == JsonView::Number(
                JsonNumber::PosInt(0),
            )
        }),
{
    let blockhash = get_latest_blockhash_call(node).body->Object_0[3].1->Array_0;
    what_a_call_says(node, "getLatestBlockhash"@, blockhash);
    let airdrop = request_airdrop_call(node, pubkey, lamports).body->Object_0[3].1->Array_0;
    what_a_call_says(node, "requestAirdrop"@, airdrop);
    let statuses = signature_statuses_call(node, sig).body->Object_0[3].1->Array_0;
    what_a_call_says(node, "getSignatureStatuses"@, statuses);
    let sent = send_transaction_call(node, tx_base64).body->Object_0[3].1->Array_0;
    what_a_call_says(node, "sendTransaction"@, sent);
    let found = get_transaction_call(node, sig).body->Object_0[3].1->Array_0;
    what_a_call_says(node, "getTransaction"@, found);
    reveal_strlit("commitment");
    reveal_strlit("encoding");
    reveal_strlit("maxSupportedTransactionVersion");
    assert("commitment"@.len() == 10 && "encoding"@.len() == 8
        && "maxSupportedTransactionVersion"@.len() == 30);
    reveal_with_fuel(crate::json::member, 4);
    let options = found[1]->Object_0;
    assert(options.drop_first()[0] == options[1]);
    assert(options.drop_first().drop_first()[0] == options[2]);
}

/// What came of a call: where there was no answer, the message names the part that failed and the
/// cause; an error in the answer is told with its code, whatever the result; otherwise a result
/// that is not null is the outcome.
pub proof fn what_an_answer_means(fault: RpcFault, reply: RpcReply)
    ensures
        fault matches RpcFault::Marshal(e) ==> outcome(Err(fault)) == Err::<JsonView, Seq<char>>(
            "rpc marshal: "@ + e@,
        ),
        fault matches RpcFault::Http(e) ==> outcome(Err(fault)) == Err::<JsonView, Seq<char>>(
            "rpc http: "@ + e@,
        ),
        fault matches RpcFault::Decode(e) ==> outcome(Err(fault)) == Err::<JsonView, Seq<char>>(
            "rpc decode: "@ + e@,
        ),
        reply.error matches Some(e) ==> outcome(Ok(reply)) == Err::<JsonView, Seq<char>>(
            "rpc error "@ + signed_decimal(e.code as int) + ": "@ + e.message@,
        ),
        (reply.error is None && reply.result is None) ==> outcome(Ok(reply)) == Err::<
            JsonView,
            Seq<char>,
        >("rpc: null result"@),
        (reply.error is None && (reply.result matches Some(result) && result@ == JsonView::Null))
            ==> outcome(Ok(reply)) == Err::<JsonView, Seq<char>>("rpc: null result"@),
        (reply.error is None && (reply.result matches Some(result) && result@ != JsonView::Null))
            ==> outcome(Ok(reply)) == Ok::<JsonView, Seq<char>>(reply.result->Some_0@),
{
}

/// What is read of the answers to the calls, where they have a result: the block hash is the text
/// at `value.blockhash`, and its height the whole number at `value.lastValidBlockHeight`, or 0; a
/// signature is a text; a transaction is the result itself. What comes of an answer without a result
/// is the error of that.
pub proof fn what_is_read_of_answers(reply: Result<RpcReply, RpcFault>)
    ensures
        outcome(reply) matches Err(e) ==> blockhash_outcome(reply) == Err::<
            (Seq<char>, u64),
            Seq<char>,
        >(e) && airdrop_outcome(reply) == Err::<Seq<char>, Seq<char>>(e) && sent_outcome(reply)
            == Err::<Seq<char>, Seq<char>>(e) && transaction_outcome(reply) == Err::<Option<JsonView>, Seq<char>>(e),
        outcome(reply) matches Ok(result) ==> {
            let found = result.at("value"@).at("blockhash"@);
            let height = result.at("value"@).at("lastValidBlockHeight"@);
            &&& !(found is String) ==> blockhash_outcome(reply) == Err::<
                (Seq<char>, u64),
                Seq<char>,
            >("getLatestBlockhash: missing blockhash"@)
            &&& (found is String && height.as_u64() is Some) ==> blockhash_outcome(reply) == Ok::<
                (Seq<char>, u64),
                Seq<char>,
            >((found->String_0, height.as_u64()->Some_0))
            &&& (found is String && height.as_u64() is None) ==> blockhash_outcome(reply) == Ok::<
                (Seq<char>, u64),
                Seq<char>,
            >((found->String_0, 0))
            &&& result matches JsonView::String(s) ==> airdrop_outcome(reply) == Ok::<
                Seq<char>,
                Seq<char>,
            >(s) && sent_outcome(reply) == Ok::<Seq<char>, Seq<char>>(s)
            &&& !(result is String) ==> airdrop_outcome(reply) == Err::<Seq<char>, Seq<char>>(
                "requestAirdrop: invalid response"@,
            ) && sent_outcome(reply) == Err::<Seq<char>, Seq<char>>(
                "sendTransaction: invalid response"@,
            )
            &&& result != JsonView::Null ==> transaction_outcome(reply) == Ok::<
                Option<JsonView>,
                Seq<char>,
            >(Some(result))
        },
{
}

/// What a status tells, by the JSON of the answer. An `err` that is there and is anything but null
/// is a failure, whatever the `confirmationStatus`. Without one, `confirmed` and `finalized` are a
/// success, and all else is waited on, as is an answer with no status in it.
pub proof fn what_a_status_tells(flow: ConfirmView, reply: RpcReply)
    requires
        flow.phase is Status,
        reply.error is None,
        reply.result matches Some(result) && result@ != JsonView::Null,
    ensures
        ({
            let value = reply.result->Some_0@.at("value"@);
            let first = value->Array_0[0];
            let told = value is Array && value->Array_0.len() > 0 && first != JsonView::Null;
            let failed = told && first.at("err"@) != JsonView::Null;
            let done = told && !failed && (first.at("confirmationStatus"@) == JsonView::String(
                "confirmed"@,
            ) || first.at("confirmationStatus"@) == JsonView::String("finalized"@));
            let action = flow.next(ConfirmEvent::Status(Ok(reply))).1;
            &&& failed <==> action == ConfirmActionView::Fail(
                "transaction "@ + flow.sig + " failed on chain"@,
            )
            &&& failed <==> verdict(reply.result->Some_0@) is Failed
            &&& done <==> action is Done
            &&& done <==> verdict(reply.result->Some_0@) is Confirmed
            &&& !failed && !done <==> action == (ConfirmActionView::Wait { seconds: 2 })
        }),
{
}

/// A wait looks at the clock, then asks the node that it was started with for the status of its
/// transaction, and after the answer it has ended or pauses for two seconds and looks at the clock
/// again. A status that could not be had ends it with the error of that.
pub proof fn a_wait_goes_in_turn(flow: ConfirmView, event: ConfirmEvent, other: ConfirmEvent)
    requires
        flow.accepts(event),
    ensures
        ({
            let (after, action) = flow.next(event);
            &&& after.endpoint == flow.endpoint && after.sig == flow.sig
            &&& action matches ConfirmActionView::Query(call) ==> call == signature_statuses_call(
                flow.endpoint,
                flow.sig,
            ) && event is Clock && (after.accepts(other) <==> other is Status)
            &&& action is Wait ==> event is Status && (after.accepts(other) <==> other is Clock)
            &&& (action is Done || action is Fail) ==> !after.accepts(other)
            &&& (event is Status && outcome(event->Status_0) is Err) ==> action
                == ConfirmActionView::Fail(outcome(event->Status_0)->Err_0)
            &&& (event matches ConfirmEvent::Clock { elapsed_nanos } && elapsed_nanos
                > 60_000_000_000) ==> action == ConfirmActionView::Fail(
                "confirmTransaction: timed out waiting for "@ + flow.sig,
            )
        }),
        ConfirmView::start(flow.endpoint, flow.sig).accepts(other) <==> other is Clock,
        ConfirmView::start(flow.endpoint, flow.sig).endpoint == flow.endpoint,
        ConfirmView::start(flow.endpoint, flow.sig).sig == flow.sig,
{
}

} // verus!
