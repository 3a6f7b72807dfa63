//! A request with automatic payment: what the client does when it is answered 402.
use vstd::prelude::*;
use vstd::string::*;
use vstd::utf8::*;

use crate::base58::alphanumeric;
use crate::client::{
    data_of_1, data_of_2, network_names_are_plain, step_views, timeout_err, timeout_error,
    ClientView, PaymentStep, PaymentStepType, SolanaNetwork, StepView, TestClient,
};
use crate::errors::{Error, ErrorView, MppPaymentError};
use crate::header::{
    ascii_values, header_params, header_text, header_values_in_full, parse_header_params,
    payment_receipt_header,
    payment_receipt_reads_back, payment_receipt_text, payment_request_reads_back,
    payment_request_text, plain_value, visible_text,
};
use crate::json::{Json, JsonNumber, JsonView};
use crate::string_map::StringMap;
use crate::text::{
    ascii_front, can_front, decimal, decimal_of, front, front_of, has_front, joined,
};

verus! {

// ---------------------------------------------------------------------------------------------
// Requests
// ---------------------------------------------------------------------------------------------
/// What a request is made with, besides its address.
pub struct FetchOptions {
    /// HTTP method. Defaults to `"GET"`.
    pub method: Option<String>,
    pub headers: StringMap<String>,
    pub body: Option<Vec<u8>>,
}

impl Default for FetchOptions {
    fn default() -> (r: Self)
        ensures
            r.method is None,
            r.headers@ == Map::<Seq<char>, Seq<char>>::empty(),
            r.body is None,
    {
        FetchOptions { method: None, headers: StringMap::new(), body: None }
    }
}

/// An HTTP request.
pub struct HttpRequest {
    pub method: String,
    pub url: String,
    pub headers: StringMap<String>,
    pub body: Option<Vec<u8>>,
}

/// An HTTP request, with texts as sequences of characters.
pub struct HttpRequestView {
    pub method: Seq<char>,
    pub url: Seq<char>,
    pub headers: Map<Seq<char>, Seq<char>>,
    pub body: Option<Seq<u8>>,
}

/// The bytes of a body.
pub open spec fn body_view(body: Option<Vec<u8>>) -> Option<Seq<u8>> {
    match body {
        Some(bytes) => Some(bytes@),
        None => None,
    }
}

impl View for HttpRequest {
    type V = HttpRequestView;

    open spec fn view(&self) -> HttpRequestView {
        HttpRequestView {
            method: self.method@,
            url: self.url@,
            headers: self.headers@,
            body: body_view(self.body),
        }
    }
}

/// Whether a character may stand in the name of an HTTP method.
pub open spec fn token_char(c: char) -> bool {
    alphanumeric(c) || c == '!' || c == '#' || c == '$' || c == '%' || c == '&' || c == '\'' || c
        == '*' || c == '+' || c == '-' || c == '.' || c == '^' || c == '_' || c == '`' || c == '|'
        || c == '~'
}

/// Whether a text is the name of an HTTP method: one or more characters that may stand there.
pub open spec fn method_name(s: Seq<char>) -> bool {
    s.len() > 0 && forall|i: int| 0 <= i < s.len() ==> token_char(#[trigger] s[i])
}

/// `reqwest::Method::from_bytes`, which is that of the `http` crate, takes the UTF-8 bytes of a
/// text for a method exactly where the text is the name of one.
#[verifier::external_body]
fn names_method(s: &str) -> (r: bool)
    ensures
        r == method_name(s@),
{
    reqwest::Method::from_bytes(s.as_bytes()).is_ok()
}

/// The method that a request is made with: what is no name of a method stands for `GET`.
pub open spec fn sent_method(method: Seq<char>) -> Seq<char> {
    if method_name(method) {
        method
    } else {
        "GET"@
    }
}

/// The first request: with the method `GET`, no headers and no body where the options do not say
/// otherwise.
pub open spec fn first_request(url: Seq<char>, opts: Option<FetchOptions>) -> HttpRequestView {
    match opts {
        Some(opts) => HttpRequestView {
            method: match opts.method {
                Some(method) => sent_method(method@),
                None => "GET"@,
            },
            url,
            headers: opts.headers@,
            body: body_view(opts.body),
        },
        None => HttpRequestView { method: "GET"@, url, headers: Map::empty(), body: None },
    }
}

// ---------------------------------------------------------------------------------------------
// The course of a request
// ---------------------------------------------------------------------------------------------
/// An amount of SOL, as it was read: how it is written, the bits of the double that it is, and what
/// it comes to in lamports.
pub struct AmountReading {
    pub text: String,
    pub bits: u64,
    pub lamports: u64,
}

/// The JSON number of the double with these bits: 0 where the double is infinite or not a number,
/// its eleven bits of exponent being all set.
pub open spec fn double_number(bits: u64) -> JsonNumber {
    if bits / 0x10_0000_0000_0000 % 0x800 == 0x7ff {
        JsonNumber::PosInt(0)
    } else {
        JsonNumber::Float(bits)
    }
}

/// The JSON number of the double with these bits.
pub fn number_of_double(bits: u64) -> (r: JsonNumber)
    ensures
        r == double_number(bits),
{
    if bits / 0x10_0000_0000_0000 % 0x800 == 0x7ff {
        JsonNumber::PosInt(0)
    } else {
        JsonNumber::Float(bits)
    }
}

/// What a request is waiting for.
pub enum FetchPhase {
    /// The answer to the first request.
    Response,
    /// What the amount comes to that the answer asks for.
    Amount { recipient: String, amount: String },
    /// The payment.
    Payment { amount: String, number: JsonNumber },
    /// The answer to the second request.
    Retry { signature: String },
    Closed,
}

/// What a request is waiting for, with texts as sequences of characters.
pub enum FetchPhaseView {
    Response,
    Amount { recipient: Seq<char>, amount: Seq<char> },
    Payment { amount: Seq<char>, number: JsonNumber },
    Retry { signature: Seq<char> },
    Closed,
}

impl View for FetchPhase {
    type V = FetchPhaseView;

    open spec fn view(&self) -> FetchPhaseView {
        match self {
            FetchPhase::Response => FetchPhaseView::Response,
            FetchPhase::Amount { recipient, amount } => FetchPhaseView::Amount {
                recipient: recipient@,
                amount: amount@,
            },
            FetchPhase::Payment { amount, number } => FetchPhaseView::Payment {
                amount: amount@,
                number: *number,
            },
            FetchPhase::Retry { signature } => FetchPhaseView::Retry { signature: signature@ },
            FetchPhase::Closed => FetchPhaseView::Closed,
        }
    }
}

/// A request in its course. One timeout covers the whole of it: the first request, the payment and
/// the second request.
pub struct FetchFlow {
    request: HttpRequest,
    network: SolanaNetwork,
    timeout_nanos: u128,
    left_nanos: u128,
    phase: FetchPhase,
}

/// A request in its course, with texts as sequences of characters.
pub struct FetchView {
    pub request: HttpRequestView,
    pub network: SolanaNetwork,
    /// What all of it may take.
    pub timeout_nanos: u128,
    /// What is left of that.
    pub left_nanos: u128,
    pub phase: FetchPhaseView,
}

impl View for FetchFlow {
    type V = FetchView;

    closed spec fn view(&self) -> FetchView {
        FetchView {
            request: self.request@,
            network: self.network,
            timeout_nanos: self.timeout_nanos,
            left_nanos: self.left_nanos,
            phase: self.phase@,
        }
    }
}

/// What the outside tells a request in its course.
pub enum FetchEvent {
    /// The answer: its status, its `Payment-Request` header where it has one, and how long it took.
    Response { status: u16, payment_request: Option<Vec<u8>>, took_nanos: u128 },
    /// The request or the payment took longer than it may.
    TimedOut,
    /// The request could not be made.
    RequestFailed(String),
    /// What the amount comes to; nothing where it is no number.
    Amount(Option<AmountReading>),
    /// The signature of the payment, or why it was not made; and how long it took.
    Paid { outcome: Result<String, String>, took_nanos: u128 },
}

/// How long the part of a request took that ended with this event.
pub open spec fn took(event: FetchEvent) -> u128 {
    match event {
        FetchEvent::Response { took_nanos, .. } => took_nanos,
        FetchEvent::Paid { took_nanos, .. } => took_nanos,
        _ => 0,
    }
}

/// What a request in its course asks of the outside.
pub enum FetchAction {
    /// Make the request that the flow holds, within this time.
    Send { within_nanos: u128 },
    /// Read an amount of SOL.
    ReadAmount { text: String },
    /// Pay, within this time.
    Pay { recipient: String, lamports: u64, within_nanos: u128 },
    /// Hand the last answer to the caller.
    Return,
    /// Hand the error to the caller.
    Fail(Error),
}

/// An action, with texts as sequences of characters.
pub enum FetchActionView {
    Send { within_nanos: u128 },
    ReadAmount { text: Seq<char> },
    Pay { recipient: Seq<char>, lamports: u64, within_nanos: u128 },
    Return,
    Fail(ErrorView),
}

impl View for FetchAction {
    type V = FetchActionView;

    open spec fn view(&self) -> FetchActionView {
        match self {
            FetchAction::Send { within_nanos } => FetchActionView::Send {
                within_nanos: *within_nanos,
            },
            FetchAction::ReadAmount { text } => FetchActionView::ReadAmount { text: text@ },
            FetchAction::Pay { recipient, lamports, within_nanos } => FetchActionView::Pay {
                recipient: recipient@,
                lamports: *lamports,
                within_nanos: *within_nanos,
            },
            FetchAction::Return => FetchActionView::Return,
            FetchAction::Fail(error) => FetchActionView::Fail(error@),
        }
    }
}

/// One turn of a request: the request as it then is, the events to tell the caller of first, and
/// what to do.
pub struct FetchTurn {
    pub flow: FetchFlow,
    pub steps: Vec<PaymentStep>,
    pub action: FetchAction,
}

/// One turn of a request, with texts as sequences of characters.
pub struct FetchTurnView {
    pub flow: FetchView,
    pub steps: Seq<StepView>,
    pub action: FetchActionView,
}

impl View for FetchTurn {
    type V = FetchTurnView;

    open spec fn view(&self) -> FetchTurnView {
        FetchTurnView {
            flow: self.flow@,
            steps: step_views(self.steps@),
            action: self.action@,
        }
    }
}

/// The data of an event, with one entry.
pub open spec fn entry(key: Seq<char>, value: JsonView) -> Map<Seq<char>, JsonView> {
    Map::<Seq<char>, JsonView>::empty().insert(key, value)
}

/// A status as a JSON number.
pub open spec fn status_number(status: u16) -> JsonView {
    JsonView::Number(JsonNumber::PosInt(status as u64))
}

/// Whether a status is one of success.
pub open spec fn success(status: u16) -> bool {
    200 <= status < 300
}

/// The error of a request that was refused.
pub open spec fn refused(url: Seq<char>, status: u16) -> ErrorView {
    ErrorView::Payment {
        message: "Payment failed for "@ + url + " (HTTP "@ + decimal(status as nat) + ")"@,
        url,
        status,
    }
}

/// The error of a request whose answer asks for a payment that cannot be made out.
pub open spec fn malformed(url: Seq<char>, why: Seq<char>) -> ErrorView {
    ErrorView::Payment {
        message: "Payment failed for "@ + url + " (HTTP 402): "@ + why,
        url,
        status: 402,
    }
}

/// The text of the `Payment-Request` header.
pub open spec fn request_header(payment_request: Option<Vec<u8>>) -> Option<Seq<char>> {
    match payment_request {
        Some(bytes) => visible_text(bytes@),
        None => None,
    }
}

impl FetchView {
    /// The request in another phase, with nothing to tell the caller.
    pub open spec fn to(self, phase: FetchPhaseView, action: FetchActionView) -> FetchTurnView {
        FetchTurnView { flow: FetchView { phase, ..self }, steps: Seq::empty(), action }
    }

    /// The request after a part of it that took this long.
    pub open spec fn after(self, took_nanos: u128) -> FetchView {
        FetchView {
            left_nanos: if took_nanos <= self.left_nanos {
                (self.left_nanos - took_nanos) as u128
            } else {
                0
            },
            ..self
        }
    }

    /// The request at its end, with an error.
    pub open spec fn fail(self, error: ErrorView) -> FetchTurnView {
        self.to(FetchPhaseView::Closed, FetchActionView::Fail(error))
    }

    /// Whether this is an event that is waited for. A signature that comes in time is accepted
    /// where its first 16 bytes are a text.
    pub open spec fn accepts(self, event: FetchEvent) -> bool {
        match (self.phase, event) {
            (FetchPhaseView::Response, FetchEvent::Response { .. }) => true,
            (FetchPhaseView::Response, FetchEvent::TimedOut) => true,
            (FetchPhaseView::Response, FetchEvent::RequestFailed(_)) => true,
            (FetchPhaseView::Amount { .. }, FetchEvent::Amount(_)) => true,
            (FetchPhaseView::Payment { .. }, FetchEvent::Paid { outcome, took_nanos }) => {
                match outcome {
                    Ok(signature) => took_nanos > self.left_nanos || has_front(signature@, 16),
                    Err(_) => true,
                }
            },
            (FetchPhaseView::Payment { .. }, FetchEvent::TimedOut) => true,
            (FetchPhaseView::Retry { .. }, FetchEvent::Response { .. }) => true,
            (FetchPhaseView::Retry { .. }, FetchEvent::TimedOut) => true,
            (FetchPhaseView::Retry { .. }, FetchEvent::RequestFailed(_)) => true,
            _ => false,
        }
    }

    /// What follows the answer to the first request.
    pub open spec fn answered(
        self,
        status: u16,
        payment_request: Option<Vec<u8>>,
    ) -> FetchTurnView {
        let url = self.request.url;
        if status == 402 {
            match request_header(payment_request) {
                None => self.fail(malformed(url, "missing Payment-Request header"@)),
                Some(header) => {
                    let params = header_params(header);
                    if !params.dom().contains("recipient"@) {
                        self.fail(malformed(url, "Payment-Request missing recipient"@))
                    } else if !params.dom().contains("amount"@) {
                        self.fail(malformed(url, "Payment-Request missing amount"@))
                    } else {
                        self.to(
                            FetchPhaseView::Amount {
                                recipient: params["recipient"@],
                                amount: params["amount"@],
                            },
                            FetchActionView::ReadAmount { text: params["amount"@] },
                        )
                    }
                },
            }
        } else if success(status) {
            FetchTurnView {
                steps: seq![
                    StepView {
                        step_type: PaymentStepType::Success,
                        message: "← "@ + decimal(status as nat) + " OK"@,
                        data: entry("status"@, status_number(status)),
                    },
                ],
                ..self.to(FetchPhaseView::Closed, FetchActionView::Return)
            }
        } else {
            FetchTurnView {
                steps: seq![
                    StepView {
                        step_type: PaymentStepType::Error,
                        message: "← "@ + decimal(status as nat),
                        data: entry("status"@, status_number(status)),
                    },
                ],
                ..self.fail(refused(url, status))
            }
        }
    }

    /// What follows the reading of the amount: the payment.
    pub open spec fn amount_read(
        self,
        recipient: Seq<char>,
        amount: Seq<char>,
        reading: Option<AmountReading>,
    ) -> FetchTurnView {
        match reading {
            None => self.fail(malformed(self.request.url, "invalid amount: "@ + amount)),
            Some(reading) => FetchTurnView {
                steps: seq![
                    StepView {
                        step_type: PaymentStepType::Payment,
                        message: "Paying "@ + reading.text@ + " SOL → "@ + front(recipient, 8)
                            + "..."@,
                        data: entry(
                            "amount"@,
                            JsonView::Number(double_number(reading.bits)),
                        ).insert("recipient"@, JsonView::String(recipient)),
                    },
                ],
                ..self.to(
                    FetchPhaseView::Payment {
                        amount: reading.text@,
                        number: double_number(reading.bits),
                    },
                    FetchActionView::Pay {
                        recipient,
                        lamports: reading.lamports,
                        within_nanos: self.left_nanos,
                    },
                )
            },
        }
    }

    /// What follows the payment: the second request, which is the first with the receipt.
    pub open spec fn paid(
        self,
        amount: Seq<char>,
        number: JsonNumber,
        signature: Seq<char>,
    ) -> FetchTurnView {
        FetchTurnView {
            flow: FetchView {
                request: HttpRequestView {
                    headers: self.request.headers.insert(
                        "payment-receipt"@,
                        payment_receipt_text(signature, self.network.name(), amount),
                    ),
                    ..self.request
                },
                phase: FetchPhaseView::Retry { signature },
                ..self
            },
            steps: seq![
                StepView {
                    step_type: PaymentStepType::Payment,
                    message: "Confirmed: "@ + front(signature, 16) + "..."@,
                    data: entry("signature"@, JsonView::String(signature)).insert(
                        "amount"@,
                        JsonView::Number(number),
                    ),
                },
                StepView {
                    step_type: PaymentStepType::Retry,
                    message: "↑ Retrying with payment proof"@,
                    data: entry("signature"@, JsonView::String(signature)),
                },
            ],
            action: FetchActionView::Send { within_nanos: self.left_nanos },
        }
    }

    /// What follows the answer to the second request: where it is one of success it goes to the
    /// caller, and otherwise the request was refused.
    pub open spec fn answered_again(self, signature: Seq<char>, status: u16) -> FetchTurnView {
        FetchTurnView {
            steps: seq![
                StepView {
                    step_type: if success(status) {
                        PaymentStepType::Success
                    } else {
                        PaymentStepType::Error
                    },
                    message: "← "@ + decimal(status as nat),
                    data: entry("status"@, status_number(status)).insert(
                        "signature"@,
                        JsonView::String(signature),
                    ),
                },
            ],
            ..(if success(status) {
                self.to(FetchPhaseView::Closed, FetchActionView::Return)
            } else {
                self.fail(refused(self.request.url, status))
            })
        }
    }

    /// What follows an event that comes in time.
    pub open spec fn next_in_time(self, event: FetchEvent) -> FetchTurnView {
        let after = self.after(took(event));
        match event {
            FetchEvent::TimedOut => self.fail(timeout_error(self.request.url, self.timeout_nanos)),
            FetchEvent::RequestFailed(message) => self.fail(ErrorView::Other(message@)),
            FetchEvent::Response { status, payment_request, .. } => match self.phase {
                FetchPhaseView::Retry { signature } => after.answered_again(signature, status),
                _ => after.answered(status, payment_request),
            },
            FetchEvent::Amount(reading) => self.amount_read(
                self.phase->recipient,
                self.phase->Amount_amount,
                reading,
            ),
            FetchEvent::Paid { outcome, .. } => match outcome {
                Err(e) => after.fail(ErrorView::Other("mpp: payment failed: "@ + e@)),
                Ok(signature) => after.paid(
                    self.phase->Payment_amount,
                    self.phase->number,
                    signature@,
                ),
            },
        }
    }

    /// What follows an event that is waited for. One that comes later than it may ends the request
    /// as the timeout does.
    pub open spec fn next(self, event: FetchEvent) -> FetchTurnView {
        if took(event) > self.left_nanos {
            self.after(took(event)).fail(timeout_error(self.request.url, self.timeout_nanos))
        } else {
            self.next_in_time(event)
        }
    }
}

impl ClientView {
    /// How a request of this client begins: it is announced and made.
    pub open spec fn fetch(self, url: Seq<char>, opts: Option<FetchOptions>) -> FetchTurnView {
        FetchTurnView {
            flow: FetchView {
                request: first_request(url, opts),
                network: self.network,
                timeout_nanos: self.timeout_nanos,
                left_nanos: self.timeout_nanos,
                phase: FetchPhaseView::Response,
            },
            steps: seq![
                StepView {
                    step_type: PaymentStepType::Request,
                    message: "→ "@ + url,
                    data: entry("url"@, JsonView::String(url)),
                },
            ],
            action: FetchActionView::Send { within_nanos: self.timeout_nanos },
        }
    }
}

/// One event.
fn one_step(step: PaymentStep) -> (r: Vec<PaymentStep>)
    ensures
        step_views(r@) == seq![step@],
{
    let r: Vec<PaymentStep> = vec![step];
    assert(step_views(r@) == seq![step@]);
    r
}

/// No event.
fn no_steps() -> (r: Vec<PaymentStep>)
    ensures
        step_views(r@) == Seq::<StepView>::empty(),
{
    let r: Vec<PaymentStep> = Vec::new();
    assert(step_views(r@) == Seq::<StepView>::empty());
    r
}

/// The error of a request that was refused.
fn refused_err(url: &str, status: u16) -> (r: Error)
    ensures
        r@ == refused(url@, status),
{
    let mut message = joined("Payment failed for ", url);
    message.append(" (HTTP ");
    message.append(decimal_of(status as u128).as_str());
    message.append(")");
    Error::from(MppPaymentError { message, url: url.to_owned(), status })
}

/// The error of a request whose answer asks for a payment that cannot be made out.
fn malformed_err(url: &str, why: &str) -> (r: Error)
    ensures
        r@ == malformed(url@, why@),
{
    let mut message = joined("Payment failed for ", url);
    message.append(" (HTTP 402): ");
    message.append(why);
    Error::from(MppPaymentError { message, url: url.to_owned(), status: 402 })
}

impl TestClient {
    /// Begins an HTTP request with automatic MPP 402 payment handling.
    pub fn fetch(&self, url: &str, opts: Option<FetchOptions>) -> (r: FetchTurn)
        ensures
            r@ == self@.fetch(url@, opts),
    {
        let opts = match opts {
            Some(opts) => opts,
            None => FetchOptions::default(),
        };
        let method = match opts.method {
            Some(method) => if names_method(method.as_str()) {
                method
            } else {
                "GET".to_owned()
            },
            None => "GET".to_owned(),
        };
        let request = HttpRequest {
            method,
            url: url.to_owned(),
            headers: opts.headers,
            body: opts.body,
        };
        FetchTurn {
            flow: FetchFlow {
                request,
                network: self.network,
                timeout_nanos: self.timeout_nanos,
                left_nanos: self.timeout_nanos,
                phase: FetchPhase::Response,
            },
            steps: one_step(
                PaymentStep {
                    step_type: PaymentStepType::Request,
                    message: joined("→ ", url),
                    data: data_of_1("url", Json::text(url)),
                },
            ),
            action: FetchAction::Send { within_nanos: self.timeout_nanos },
        }
    }
}

impl FetchFlow {
    #[verifier::type_invariant]
    spec fn inv(self) -> bool {
        self.phase matches FetchPhase::Amount { recipient, .. } ==> is_ascii_chars(recipient@)
    }

    /// The request to be made.
    pub fn request(&self) -> (r: &HttpRequest)
        ensures
            r@ == self@.request,
    {
        &self.request
    }

    /// Tells whether this is an event that is waited for.
    pub fn accepts(&self, event: &FetchEvent) -> (r: bool)
        ensures
            r == self@.accepts(*event),
    {
        match (&self.phase, event) {
            (FetchPhase::Response, FetchEvent::Response { .. }) => true,
            (FetchPhase::Response, FetchEvent::TimedOut) => true,
            (FetchPhase::Response, FetchEvent::RequestFailed(_)) => true,
            (FetchPhase::Amount { .. }, FetchEvent::Amount(_)) => true,
            (FetchPhase::Payment { .. }, FetchEvent::Paid { outcome, took_nanos }) => {
                match outcome {
                    Ok(signature) => *took_nanos > self.left_nanos || can_front(
                        signature.as_str(),
                        16,
                    ),
                    Err(_) => true,
                }
            },
            (FetchPhase::Payment { .. }, FetchEvent::TimedOut) => true,
            (FetchPhase::Retry { .. }, FetchEvent::Response { .. }) => true,
            (FetchPhase::Retry { .. }, FetchEvent::TimedOut) => true,
            (FetchPhase::Retry { .. }, FetchEvent::RequestFailed(_)) => true,
            _ => false,
        }
    }

    /// The same request in another phase.
    fn turn(self, phase: FetchPhase, steps: Vec<PaymentStep>, action: FetchAction) -> (r: FetchTurn)
        requires
            phase matches FetchPhase::Amount { recipient, .. } ==> is_ascii_chars(recipient@),
        ensures
            r@ == (FetchTurnView {
                steps: step_views(steps@),
                ..self@.to(phase@, action@)
            }),
    {
        FetchTurn {
            flow: FetchFlow {
                request: self.request,
                network: self.network,
                timeout_nanos: self.timeout_nanos,
                left_nanos: self.left_nanos,
                phase,
            },
            steps,
            action,
        }
    }

    fn fail(self, error: Error) -> (r: FetchTurn)
        ensures
            r@ == self@.fail(error@),
    {
        self.turn(FetchPhase::Closed, no_steps(), FetchAction::Fail(error))
    }

    fn asked_to_pay(self, payment_request: Option<Vec<u8>>) -> (r: FetchTurn)
        ensures
            r@ == self@.answered(402, payment_request),
    {
        let header = match payment_request {
            Some(bytes) => header_text(bytes.as_slice()),
            None => None,
        };
        match header {
            None => {
                let error = malformed_err(
                    self.request.url.as_str(),
                    "missing Payment-Request header",
                );
                self.fail(error)
            },
            Some(header) => {
                let params = parse_header_params(header.as_str());
                match params.get("recipient") {
                    None => {
                        let error = malformed_err(
                            self.request.url.as_str(),
                            "Payment-Request missing recipient",
                        );
                        self.fail(error)
                    },
                    Some(recipient) => match params.get("amount") {
                        None => {
                            let error = malformed_err(
                                self.request.url.as_str(),
                                "Payment-Request missing amount",
                            );
                            self.fail(error)
                        },
                        Some(amount) => {
                            proof {
                                ascii_values(header@, "recipient"@);
                            }
                            self.turn(
                                FetchPhase::Amount {
                                    recipient: recipient.clone(),
                                    amount: amount.clone(),
                                },
                                no_steps(),
                                FetchAction::ReadAmount { text: amount.clone() },
                            )
                        },
                    },
                }
            },
        }
    }

    fn answered(self, status: u16, payment_request: Option<Vec<u8>>) -> (r: FetchTurn)
        ensures
            r@ == self@.answered(status, payment_request),
    {
        if status == 402 {
            return self.asked_to_pay(payment_request);
        }
        let digits = decimal_of(status as u128);
        let data = data_of_1("status", Json::whole(status as u64));
        let mut message = joined("← ", digits.as_str());
        if status >= 200 && status < 300 {
            message.append(" OK");
            let step = PaymentStep { step_type: PaymentStepType::Success, message, data };
            self.turn(FetchPhase::Closed, one_step(step), FetchAction::Return)
        } else {
            let step = PaymentStep { step_type: PaymentStepType::Error, message, data };
            let error = refused_err(self.request.url.as_str(), status);
            self.turn(FetchPhase::Closed, one_step(step), FetchAction::Fail(error))
        }
    }

    fn amount_read(self, recipient: &String, amount: &String, reading: Option<AmountReading>) -> (r:
        FetchTurn)
        requires
            is_ascii_chars(recipient@),
        ensures
            r@ == self@.amount_read(recipient@, amount@, reading),
    {
        match reading {
            None => {
                let error = malformed_err(
                    self.request.url.as_str(),
                    joined("invalid amount: ", amount.as_str()).as_str(),
                );
                self.fail(error)
            },
            Some(reading) => {
                proof {
                    ascii_front(recipient@, 8);
                }
                let number = number_of_double(reading.bits);
                let mut message = joined("Paying ", reading.text.as_str());
                message.append(" SOL → ");
                message.append(front_of(recipient.as_str(), 8));
                message.append("...");
                let step = PaymentStep {
                    step_type: PaymentStepType::Payment,
                    message,
                    data: data_of_2(
                        "amount",
                        Json::Number(number),
                        "recipient",
                        Json::text(recipient.as_str()),
                    ),
                };
                let within_nanos = self.left_nanos;
                self.turn(
                    FetchPhase::Payment { amount: reading.text, number },
                    one_step(step),
                    FetchAction::Pay {
                        recipient: recipient.clone(),
                        lamports: reading.lamports,
                        within_nanos,
                    },
                )
            },
        }
    }

    fn paid(self, amount: &String, number: JsonNumber, signature: String) -> (r: FetchTurn)
        requires
            has_front(signature@, 16),
        ensures
            r@ == self@.paid(amount@, number, signature@),
    {
        let mut message = joined("Confirmed: ", front_of(signature.as_str(), 16));
        message.append("...");
        let confirmed = PaymentStep {
            step_type: PaymentStepType::Payment,
            message,
            data: data_of_2(
                "signature",
                Json::text(signature.as_str()),
                "amount",
                Json::Number(number),
            ),
        };
        let retry = PaymentStep {
            step_type: PaymentStepType::Retry,
            message: "↑ Retrying with payment proof".to_owned(),
            data: data_of_1("signature", Json::text(signature.as_str())),
        };
        let steps: Vec<PaymentStep> = vec![confirmed, retry];
        let receipt = payment_receipt_header(
            signature.as_str(),
            self.network.as_str(),
            amount.as_str(),
        );
        let mut headers = self.request.headers;
        headers.insert("payment-receipt".to_owned(), receipt);
        let request = HttpRequest {
            method: self.request.method,
            url: self.request.url,
            headers,
            body: self.request.body,
        };
        let ghost expected = self@.paid(amount@, number, signature@);
        assert(step_views(steps@) == expected.steps);
        FetchTurn {
            flow: FetchFlow {
                request,
                network: self.network,
                timeout_nanos: self.timeout_nanos,
                left_nanos: self.left_nanos,
                phase: FetchPhase::Retry { signature },
            },
            steps,
            action: FetchAction::Send { within_nanos: self.left_nanos },
        }
    }

    fn answered_again(self, signature: &String, status: u16) -> (r: FetchTurn)
        ensures
            r@ == self@.answered_again(signature@, status),
    {
        let ok = status >= 200 && status < 300;
        let step = PaymentStep {
            step_type: if ok {
                PaymentStepType::Success
            } else {
                PaymentStepType::Error
            },
            message: joined("← ", decimal_of(status as u128).as_str()),
            data: data_of_2(
                "status",
                Json::whole(status as u64),
                "signature",
                Json::text(signature.as_str()),
            ),
        };
        let action = if ok {
            FetchAction::Return
        } else {
            FetchAction::Fail(refused_err(self.request.url.as_str(), status))
        };
        self.turn(FetchPhase::Closed, one_step(step), action)
    }

    /// Tells the request of an event.
    pub fn step(self, event: FetchEvent) -> (r: FetchTurn)
        requires
            self@.accepts(event),
        ensures
            r@ == self@.next(event),
    {
        proof {
            use_type_invariant(&self);
        }
        let took: u128 = match &event {
            FetchEvent::Response { took_nanos, .. } => *took_nanos,
            FetchEvent::Paid { took_nanos, .. } => *took_nanos,
            _ => 0,
        };
        let late = took > self.left_nanos;
        let left_nanos: u128 = if late {
            0
        } else {
            self.left_nanos - took
        };
        let phase = self.phase;
        let flow = FetchFlow {
            request: self.request,
            network: self.network,
            timeout_nanos: self.timeout_nanos,
            left_nanos,
            phase: FetchPhase::Closed,
        };
        if late {
            let error = timeout_err(flow.request.url.as_str(), flow.timeout_nanos);
            return flow.fail(error);
        }
        match (phase, event) {
            (_, FetchEvent::TimedOut) => {
                let error = timeout_err(flow.request.url.as_str(), flow.timeout_nanos);
                flow.fail(error)
            },
            (_, FetchEvent::RequestFailed(message)) => flow.fail(Error::Other(message)),
            (
                FetchPhase::Retry { signature },
                FetchEvent::Response { status, .. },
            ) => flow.answered_again(&signature, status),
            (_, FetchEvent::Response { status, payment_request, .. }) => flow.answered(
                status,
                payment_request,
            ),
            (FetchPhase::Amount { recipient, amount }, FetchEvent::Amount(reading)) => {
                flow.amount_read(&recipient, &amount, reading)
            },
            (FetchPhase::Payment { amount, number }, FetchEvent::Paid { outcome, .. }) => {
                match outcome {
                    Ok(signature) => flow.paid(&amount, number, signature),
                    Err(e) => flow.fail(
                        Error::Other(joined("mpp: payment failed: ", e.as_str())),
                    ),
                }
            },
            _ => flow.turn(FetchPhase::Closed, no_steps(), FetchAction::Return),
        }
    }
}

// ---------------------------------------------------------------------------------------------
// Laws
// ---------------------------------------------------------------------------------------------
/// How many payments an action is: one or none.
pub open spec fn pays(action: FetchActionView) -> nat {
    if action is Pay {
        1
    } else {
        0
    }
}

impl FetchView {
    /// Whether each of these events is waited for when it comes.
    pub open spec fn takes(self, events: Seq<FetchEvent>) -> bool
        decreases events.len(),
    {
        events.len() == 0 || self.accepts(events[0]) && self.next(events[0]).flow.takes(
            events.drop_first(),
        )
    }

    /// The request after these events.
    pub open spec fn course(self, events: Seq<FetchEvent>) -> FetchView
        decreases events.len(),
    {
        if events.len() == 0 {
            self
        } else {
            self.next(events[0]).flow.course(events.drop_first())
        }
    }

    /// What the last of one or more events leads to.
    pub open spec fn outcome(self, events: Seq<FetchEvent>) -> FetchActionView
        decreases events.len(),
    {
        if events.len() <= 1 {
            self.next(events[0]).action
        } else {
            self.next(events[0]).flow.outcome(events.drop_first())
        }
    }

    /// How many payments are asked for in the course of these events.
    pub open spec fn payments(self, events: Seq<FetchEvent>) -> nat
        decreases events.len(),
    {
        if events.len() == 0 {
            0
        } else {
            pays(self.next(events[0]).action) + self.next(events[0]).flow.payments(
                events.drop_first(),
            )
        }
    }
}

/// How long the parts took that the events tell of.
pub open spec fn time_taken(events: Seq<FetchEvent>) -> nat
    decreases events.len(),
{
    if events.len() == 0 {
        0
    } else {
        took(events[0]) as nat + time_taken(events.drop_first())
    }
}

/// A request is over after four events at the most. It pays once at the most, and only where the
/// first answer was 402.
pub proof fn one_payment_at_most(
    client: ClientView,
    url: Seq<char>,
    opts: Option<FetchOptions>,
    events: Seq<FetchEvent>,
)
    requires
        client.fetch(url, opts).flow.takes(events),
    ensures
        events.len() <= 4,
        client.fetch(url, opts).flow.payments(events) <= 1,
        client.fetch(url, opts).flow.payments(events) > 0 ==> (events[0] matches
            FetchEvent::Response { status, .. } && status == 402),
{
    reveal_with_fuel(FetchView::takes, 6);
    reveal_with_fuel(FetchView::payments, 6);
}

/// The second request is the first one, with the same address, method, body and headers but for
/// the receipt.
pub proof fn the_same_request(flow: FetchView, events: Seq<FetchEvent>)
    requires
        flow.takes(events),
    ensures
        flow.course(events).request.url == flow.request.url,
        flow.course(events).request.method == flow.request.method,
        flow.course(events).request.body == flow.request.body,
        flow.course(events).request.headers.remove("payment-receipt"@)
            == flow.request.headers.remove("payment-receipt"@),
    decreases events.len(),
{
    if events.len() > 0 {
        let next = flow.next(events[0]).flow;
        the_same_request(next, events.drop_first());
        assert(next.request.headers.remove("payment-receipt"@)
            =~= flow.request.headers.remove("payment-receipt"@));
    }
}

/// One timeout covers all parts of a request together. As long as they took no more than it, what
/// they took and what is left make up the timeout; once they took more, the request is over, with
/// the error of the timeout.
pub proof fn one_timeout_for_all(
    client: ClientView,
    url: Seq<char>,
    opts: Option<FetchOptions>,
    events: Seq<FetchEvent>,
)
    requires
        client.fetch(url, opts).flow.takes(events),
    ensures
        ({
            let flow = client.fetch(url, opts).flow;
            &&& time_taken(events) <= client.timeout_nanos ==> time_taken(events) + flow.course(
                events,
            ).left_nanos == client.timeout_nanos
            &&& time_taken(events) > client.timeout_nanos ==> flow.course(events).phase is Closed
                && flow.outcome(events) == FetchActionView::Fail(
                timeout_error(url, client.timeout_nanos),
            )
        }),
{
    time_adds_up(client.fetch(url, opts).flow, events);
}

proof fn time_adds_up(flow: FetchView, events: Seq<FetchEvent>)
    requires
        flow.takes(events),
    ensures
        time_taken(events) <= flow.left_nanos ==> time_taken(events) + flow.course(
            events,
        ).left_nanos == flow.left_nanos,
        time_taken(events) > flow.left_nanos ==> flow.course(events).phase is Closed
            && flow.outcome(events) == FetchActionView::Fail(
            timeout_error(flow.request.url, flow.timeout_nanos),
        ),
    decreases events.len(),
{
    if events.len() > 0 {
        let next = flow.next(events[0]).flow;
        let rest = events.drop_first();
        time_adds_up(next, rest);
        if took(events[0]) > flow.left_nanos && rest.len() > 0 {
            // The request is over, so that no other event is waited for.
            assert(next.phase is Closed);
            assert(next.takes(rest));
            assert(next.accepts(rest[0]));
        }
    }
}

/// Whichever part takes too long, the error is the same and names the whole timeout.
pub proof fn every_part_times_out(flow: FetchView, event: FetchEvent)
    requires
        flow.accepts(event),
        event is TimedOut || took(event) > flow.left_nanos,
    ensures
        flow.next(event).action == FetchActionView::Fail(
            timeout_error(flow.request.url, flow.timeout_nanos),
        ),
{
}

/// The caller is handed an answer of success and no other. An answer that came in time and is
/// neither that nor, to the first request, 402 is an error that names its status.
pub proof fn what_is_returned(flow: FetchView, event: FetchEvent)
    requires
        flow.accepts(event),
    ensures
        flow.next(event).action is Return <==> (event matches FetchEvent::Response { status, .. }
            && success(status) && took(event) <= flow.left_nanos),
        (event matches FetchEvent::Response { status, .. } && !success(status) && (status != 402
            || flow.phase is Retry) && took(event) <= flow.left_nanos) ==> flow.next(event).action
            == FetchActionView::Fail(refused(flow.request.url, event->status)),
{
}

/// A payment request as a server writes it is paid as it asks: the amount is the one that is read,
/// and what it comes to goes to the recipient.
pub proof fn request_is_paid_as_asked(
    flow: FetchView,
    amount: Seq<char>,
    recipient: Seq<char>,
    network: Seq<char>,
    payment_request: Vec<u8>,
    took_nanos: u128,
    reading: AmountReading,
)
    requires
        flow.phase is Response,
        took_nanos <= flow.left_nanos,
        plain_value(amount),
        plain_value(recipient),
        plain_value(network),
        visible_text(payment_request@) == Some(payment_request_text(amount, recipient, network)),
    ensures
        ({
            let asked = flow.next(
                FetchEvent::Response {
                    status: 402,
                    payment_request: Some(payment_request),
                    took_nanos,
                },
            );
            let paying = asked.flow.next(FetchEvent::Amount(Some(reading)));
            &&& asked.action == (FetchActionView::ReadAmount { text: amount })
            &&& paying.action == (FetchActionView::Pay {
                recipient,
                lamports: reading.lamports,
                within_nanos: flow.after(took_nanos).left_nanos,
            })
        }),
{
    payment_request_reads_back(amount, recipient, network);
}

/// After a payment, the request is made again with a receipt in which the signature, the network
/// and the amount can be read, and nothing else.
pub proof fn receipt_can_be_read(
    flow: FetchView,
    amount: Seq<char>,
    number: JsonNumber,
    signature: String,
    took_nanos: u128,
)
    requires
        flow.phase == (FetchPhaseView::Payment { amount, number }),
        flow.accepts(FetchEvent::Paid { outcome: Ok(signature), took_nanos }),
        took_nanos <= flow.left_nanos,
        plain_value(signature@),
        plain_value(amount),
    ensures
        ({
            let turn = flow.next(FetchEvent::Paid { outcome: Ok(signature), took_nanos });
            let params = header_params(turn.flow.request.headers["payment-receipt"@]);
            &&& turn.action is Send
            &&& turn.flow.request.headers.dom().contains("payment-receipt"@)
            &&& params.dom() == set!["signature"@, "network"@, "amount"@]
            &&& params["signature"@] == signature@
            &&& params["network"@] == flow.network.name()
            &&& params["amount"@] == amount
        }),
{
    network_names_are_plain(flow.network);
    payment_receipt_reads_back(signature@, flow.network.name(), amount);
}

/// Whether the `Payment-Request` header of an answer names a recipient and an amount.
pub open spec fn payable(payment_request: Option<Vec<u8>>) -> bool {
    request_header(payment_request) matches Some(header) && header_params(header).dom().contains(
        "recipient"@,
    ) && header_params(header).dom().contains("amount"@)
}

/// What the answer to a paid request comes to.
pub open spec fn paid_answer(url: Seq<char>, status: u16) -> FetchActionView {
    if success(status) {
        FetchActionView::Return
    } else {
        FetchActionView::Fail(refused(url, status))
    }
}

/// The last part of a request that is paid for: the second answer.
proof fn answer_part(flow: FetchView, answer: FetchEvent)
    requires
        flow.phase is Retry,
        answer is Response,
        took(answer) <= flow.left_nanos,
    ensures
        flow.takes(seq![answer]),
        flow.payments(seq![answer]) == 0,
        flow.outcome(seq![answer]) == paid_answer(flow.request.url, answer->status),
{
    let rest = seq![answer].drop_first();
    assert(rest == Seq::<FetchEvent>::empty());
    assert(flow.next(answer).flow.takes(rest));
    assert(flow.next(answer).flow.payments(rest) == 0);
}

/// The part before it: the payment.
proof fn payment_part(flow: FetchView, paid: FetchEvent, answer: FetchEvent)
    requires
        flow.phase is Payment,
        paid matches FetchEvent::Paid { outcome: Ok(signature), .. } && has_front(signature@, 16),
        answer is Response,
        took(paid) + took(answer) <= flow.left_nanos,
    ensures
        flow.takes(seq![paid, answer]),
        flow.payments(seq![paid, answer]) == 0,
        flow.outcome(seq![paid, answer]) == paid_answer(flow.request.url, answer->status),
        flow.course(seq![paid]).request.headers == flow.request.headers.insert(
            "payment-receipt"@,
            payment_receipt_text(
                paid->outcome->Ok_0@,
                flow.network.name(),
                flow.phase->Payment_amount,
            ),
        ),
{
    let next = flow.next(paid).flow;
    answer_part(next, answer);
    assert(seq![paid, answer].drop_first() == seq![answer]);
    assert(seq![paid].drop_first() == Seq::<FetchEvent>::empty());
    assert(next.course(Seq::empty()) == next);
}

/// The part before that: the amount.
proof fn amount_part(
    flow: FetchView,
    reading: AmountReading,
    paid: FetchEvent,
    answer: FetchEvent,
)
    requires
        flow.phase is Amount,
        paid matches FetchEvent::Paid { outcome: Ok(signature), .. } && has_front(signature@, 16),
        answer is Response,
        took(paid) + took(answer) <= flow.left_nanos,
    ensures
        ({
            let amount = FetchEvent::Amount(Some(reading));
            &&& flow.takes(seq![amount, paid, answer])
            &&& flow.payments(seq![amount, paid, answer]) == 1
            &&& flow.outcome(seq![amount, paid, answer]) == paid_answer(
                flow.request.url,
                answer->status,
            )
            &&& flow.course(seq![amount, paid]).request.headers == flow.request.headers.insert(
                "payment-receipt"@,
                payment_receipt_text(paid->outcome->Ok_0@, flow.network.name(), reading.text@),
            )
        }),
{
    let amount = FetchEvent::Amount(Some(reading));
    payment_part(flow.next(amount).flow, paid, answer);
    assert(seq![amount, paid, answer].drop_first() == seq![paid, answer]);
    assert(seq![amount, paid].drop_first() == seq![paid]);
}

/// A request that is answered 402 and asked for what can be paid goes through once it is paid for,
/// all within the timeout: it pays once and is made again with the receipt. An answer of success to
/// that is returned, and any other is an error that names its status.
pub proof fn a_paid_request_goes_through(
    client: ClientView,
    url: Seq<char>,
    opts: Option<FetchOptions>,
    asked: FetchEvent,
    reading: AmountReading,
    signature: String,
    payment_took: u128,
    answer: FetchEvent,
)
    requires
        asked matches FetchEvent::Response { status, payment_request, .. } && status == 402
            && payable(payment_request),
        has_front(signature@, 16),
        answer is Response,
        took(asked) + payment_took + took(answer) <= client.timeout_nanos,
    ensures
        ({
            let flow = client.fetch(url, opts).flow;
            let paid = FetchEvent::Paid { outcome: Ok(signature), took_nanos: payment_took };
            let events = seq![asked, FetchEvent::Amount(Some(reading)), paid, answer];
            &&& flow.takes(events)
            &&& flow.payments(events) == 1
            &&& flow.course(events.take(3)).request.headers == first_request(
                url,
                opts,
            ).headers.insert(
                "payment-receipt"@,
                payment_receipt_text(signature@, client.network.name(), reading.text@),
            )
            &&& flow.outcome(events) == paid_answer(url, answer->status)
        }),
{
    let flow = client.fetch(url, opts).flow;
    let paid = FetchEvent::Paid { outcome: Ok(signature), took_nanos: payment_took };
    let amount = FetchEvent::Amount(Some(reading));
    let events = seq![asked, amount, paid, answer];
    amount_part(flow.next(asked).flow, reading, paid, answer);
    assert(events.drop_first() == seq![amount, paid, answer]);
    assert(events.take(3).drop_first() == seq![amount, paid]);
}

/// The first request is what was asked for: it goes to the address, with exactly the headers and the
/// body of the options, whether or not they name a method; and with the method that they name where
/// that is the name of one, and `GET` otherwise.
pub proof fn the_first_request(client: ClientView, url: Seq<char>, opts: FetchOptions)
    ensures
        ({
            let request = client.fetch(url, Some(opts)).flow.request;
            &&& request.url == url
            &&& request.headers == opts.headers@
            &&& opts.body matches Some(body) ==> request.body == Some(body@)
            &&& opts.body is None ==> request.body is None
            &&& (opts.method matches Some(method) && method_name(method@)) ==> request.method
                == opts.method->Some_0@
            &&& (opts.method matches Some(method) && !method_name(method@)) ==> request.method
                == "GET"@
            &&& opts.method is None ==> request.method == "GET"@
        }),
        ({
            let request = client.fetch(url, None).flow.request;
            &&& request.url == url
            &&& request.method == "GET"@
            &&& request.headers == Map::<Seq<char>, Seq<char>>::empty()
            &&& request.body is None
        }),
{
}

/// The name of a method is one or more visible ASCII characters, none of which is one of the
/// delimiters.
pub proof fn names_of_methods(s: Seq<char>, c: char)
    ensures
        token_char(c) <==> '!' <= c <= '~' && c != '"' && c != '(' && c != ')' && c != ',' && c
            != '/' && c != ':' && c != ';' && c != '<' && c != '=' && c != '>' && c != '?' && c
            != '@' && c != '[' && c != '\\' && c != ']' && c != '{' && c != '}',
        method_name(s) <==> s.len() > 0 && forall|i: int|
            0 <= i < s.len() ==> token_char(#[trigger] s[i]),
{
}

/// A request begins with the client's network and the whole of its timeout; the caller is told of
/// it, and it is made and its answer waited for.
pub proof fn how_a_request_begins(
    client: ClientView,
    url: Seq<char>,
    opts: Option<FetchOptions>,
    event: FetchEvent,
)
    ensures
        ({
            let turn = client.fetch(url, opts);
            &&& turn.flow.network == client.network
            &&& turn.flow.timeout_nanos == client.timeout_nanos
            &&& turn.flow.left_nanos == client.timeout_nanos
            &&& turn.action == (FetchActionView::Send { within_nanos: client.timeout_nanos })
            &&& turn.flow.accepts(event) <==> (event is Response || event is TimedOut
                || event is RequestFailed)
            &&& turn.steps.len() == 1
            &&& turn.steps[0].step_type == PaymentStepType::Request
            &&& turn.steps[0].message == "→ "@ + url
            &&& turn.steps[0].data.dom() == set!["url"@]
            &&& turn.steps[0].data["url"@] == JsonView::String(url)
        }),
{
    assert(client.fetch(url, opts).steps[0].data.dom() =~= set!["url"@]);
}

/// What a first answer other than 402 leads to, where it comes in time: one from 200 to 299 is
/// returned, and any other is an error that names the address and the status. The caller is told of
/// the status.
pub proof fn the_first_answer(
    flow: FetchView,
    status: u16,
    payment_request: Option<Vec<u8>>,
    took_nanos: u128,
)
    requires
        flow.phase is Response,
        took_nanos <= flow.left_nanos,
        status != 402,
    ensures
        ({
            let turn = flow.next(FetchEvent::Response { status, payment_request, took_nanos });
            let told = turn.steps[0];
            &&& turn.steps.len() == 1
            &&& told.data.dom() == set!["status"@]
            &&& told.data["status"@] == JsonView::Number(JsonNumber::PosInt(status as u64))
            &&& 200 <= status <= 299 ==> {
                &&& turn.action is Return
                &&& told.step_type == PaymentStepType::Success
                &&& told.message == "← "@ + decimal(status as nat) + " OK"@
            }
            &&& !(200 <= status <= 299) ==> {
                &&& told.step_type == PaymentStepType::Error
                &&& told.message == "← "@ + decimal(status as nat)
                &&& turn.action matches FetchActionView::Fail(error)
                &&& error matches ErrorView::Payment { message, url, status: named }
                &&& url == flow.request.url
                &&& named == status
                &&& message == "Payment failed for "@ + flow.request.url + " (HTTP "@ + decimal(
                    status as nat,
                ) + ")"@
            }
        }),
{
    let turn = flow.next(FetchEvent::Response { status, payment_request, took_nanos });
    assert(turn.steps[0].data.dom() =~= set!["status"@]);
}

/// Whether a request has ended with the error of a payment request that cannot be made out, for
/// this reason.
pub open spec fn ends_as_malformed(turn: FetchTurnView, url: Seq<char>, why: Seq<char>) -> bool {
    &&& turn.steps.len() == 0
    &&& turn.action matches FetchActionView::Fail(error)
    &&& error matches ErrorView::Payment { message, url: named, status }
    &&& named == url
    &&& status == 402
    &&& message == "Payment failed for "@ + url + " (HTTP 402): "@ + why
}

/// What a first answer of 402 leads to, where it comes in time. Without a header that is a text, or
/// without a recipient or an amount in it, the request ends with an error that says so; otherwise
/// the amount is read, and what it comes to is waited for.
pub proof fn the_answer_402(
    flow: FetchView,
    payment_request: Option<Vec<u8>>,
    took_nanos: u128,
    event: FetchEvent,
)
    requires
        flow.phase is Response,
        took_nanos <= flow.left_nanos,
    ensures
        ({
            let turn = flow.next(
                FetchEvent::Response { status: 402, payment_request, took_nanos },
            );
            let url = flow.request.url;
            let unreadable = payment_request matches Some(bytes) && visible_text(bytes@) is None;
            &&& (payment_request is None || unreadable) ==> ends_as_malformed(
                turn,
                url,
                "missing Payment-Request header"@,
            )
            &&& (payment_request is Some && !unreadable) ==> {
                let params = header_params(visible_text(payment_request->Some_0@)->Some_0);
                &&& !params.dom().contains("recipient"@) ==> ends_as_malformed(
                    turn,
                    url,
                    "Payment-Request missing recipient"@,
                )
                &&& params.dom().contains("recipient"@) && !params.dom().contains("amount"@)
                    ==> ends_as_malformed(turn, url, "Payment-Request missing amount"@)
                &&& params.dom().contains("recipient"@) && params.dom().contains("amount"@) ==> {
                    &&& turn.steps.len() == 0
                    &&& turn.action == (FetchActionView::ReadAmount { text: params["amount"@] })
                    &&& turn.flow.request == flow.request
                    &&& turn.flow.phase == (FetchPhaseView::Amount {
                        recipient: params["recipient"@],
                        amount: params["amount"@],
                    })
                    &&& turn.flow.accepts(event) <==> event is Amount
                }
            }
        }),
{
}

/// What the amount leads to. One that is no number ends the request with an error that shows it.
/// One that is pays what it comes to to the recipient, within what is left of the time, and the
/// caller is told of the amount and the recipient.
pub proof fn the_amount_that_was_read(
    flow: FetchView,
    recipient: Seq<char>,
    amount: Seq<char>,
    reading: AmountReading,
    event: FetchEvent,
)
    requires
        flow.phase == (FetchPhaseView::Amount { recipient, amount }),
    ensures
        ends_as_malformed(
            flow.next(FetchEvent::Amount(None)),
            flow.request.url,
            "invalid amount: "@ + amount,
        ),
        ({
            let turn = flow.next(FetchEvent::Amount(Some(reading)));
            let told = turn.steps[0];
            &&& turn.action == (FetchActionView::Pay {
                recipient,
                lamports: reading.lamports,
                within_nanos: flow.left_nanos,
            })
            &&& turn.flow.request == flow.request
            &&& turn.flow.phase == (FetchPhaseView::Payment {
                amount: reading.text@,
                number: double_number(reading.bits),
            })
            &&& turn.flow.accepts(event) <==> event is TimedOut || (event matches FetchEvent::Paid {
                outcome,
                took_nanos,
            } && (outcome matches Ok(signature) ==> took_nanos > flow.left_nanos || has_front(
                signature@,
                16,
            )))
            &&& turn.steps.len() == 1
            &&& told.step_type == PaymentStepType::Payment
            &&& told.message == "Paying "@ + reading.text@ + " SOL → "@ + front(recipient, 8)
                + "..."@
            &&& told.data.dom() == set!["amount"@, "recipient"@]
            &&& told.data["amount"@] == JsonView::Number(double_number(reading.bits))
            &&& told.data["recipient"@] == JsonView::String(recipient)
        }),
{
    reveal_strlit("amount");
    reveal_strlit("recipient");
    assert("amount"@.len() != "recipient"@.len());
    let turn = flow.next(FetchEvent::Amount(Some(reading)));
    assert(turn.steps[0].data.dom() =~= set!["amount"@, "recipient"@]);
}

/// The number of a double with a sign, an exponent of eleven bits and a fraction is the double
/// itself, but 0 where the exponent has all bits set.
pub proof fn numbers_of_doubles(sign: u64, exponent: u64, fraction: u64, bits: u64)
    requires
        sign < 2,
        exponent < 0x800,
        fraction < 0x10_0000_0000_0000,
        bits == sign * 0x8000_0000_0000_0000 + exponent * 0x10_0000_0000_0000 + fraction,
    ensures
        double_number(bits) == if exponent == 0x7ff {
            JsonNumber::PosInt(0)
        } else {
            JsonNumber::Float(bits)
        },
{
    assert(bits / 0x10_0000_0000_0000 == sign * 0x800 + exponent);
}

/// What a payment leads to, where it comes in time. One that failed ends the request with the cause.
/// One that was made has the request made again, with all its headers and the receipt, within what
/// is left of the time; the caller is told of the signature, and that the request is made again.
pub proof fn the_payment_that_was_made(
    flow: FetchView,
    amount: Seq<char>,
    number: JsonNumber,
    outcome: Result<String, String>,
    took_nanos: u128,
    event: FetchEvent,
)
    requires
        flow.phase == (FetchPhaseView::Payment { amount, number }),
        took_nanos <= flow.left_nanos,
    ensures
        ({
            let turn = flow.next(FetchEvent::Paid { outcome, took_nanos });
            &&& outcome matches Err(e) ==> turn.steps.len() == 0 && turn.action
                == FetchActionView::Fail(ErrorView::Other("mpp: payment failed: "@ + e@))
            &&& outcome matches Ok(signature) ==> {
                let confirmed = turn.steps[0];
                let retry = turn.steps[1];
                &&& turn.action == (FetchActionView::Send {
                    within_nanos: (flow.left_nanos - took_nanos) as u128,
                })
                &&& turn.flow.request.url == flow.request.url
                &&& turn.flow.request.method == flow.request.method
                &&& turn.flow.request.body == flow.request.body
                &&& turn.flow.request.headers == flow.request.headers.insert(
                    "payment-receipt"@,
                    "solana; signature=\""@ + signature@ + "\"; network=\""@
                        + flow.network.name() + "\"; amount=\""@ + amount + "\""@,
                )
                &&& turn.flow.phase == (FetchPhaseView::Retry { signature: signature@ })
                &&& turn.flow.accepts(event) <==> (event is Response || event is TimedOut
                    || event is RequestFailed)
                &&& turn.steps.len() == 2
                &&& confirmed.step_type == PaymentStepType::Payment
                &&& confirmed.message == "Confirmed: "@ + front(signature@, 16) + "..."@
                &&& confirmed.data.dom() == set!["signature"@, "amount"@]
                &&& confirmed.data["signature"@] == JsonView::String(signature@)
                &&& confirmed.data["amount"@] == JsonView::Number(number)
                &&& retry.step_type == PaymentStepType::Retry
                &&& retry.message == "↑ Retrying with payment proof"@
                &&& retry.data.dom() == set!["signature"@]
                &&& retry.data["signature"@] == JsonView::String(signature@)
            }
        }),
{
    let turn = flow.next(FetchEvent::Paid { outcome, took_nanos });
    if let Ok(signature) = outcome {
        header_values_in_full(amount, Seq::empty(), flow.network.name(), signature@);
        reveal_strlit("amount");
        reveal_strlit("signature");
        assert("amount"@.len() != "signature"@.len());
        assert(turn.steps[0].data.dom() =~= set!["signature"@, "amount"@]);
        assert(turn.steps[1].data.dom() =~= set!["signature"@]);
    }
}

/// What the answer to the second request leads to, where it comes in time: one from 200 to 299 is
/// returned, and any other is an error that names the address and the status. The caller is told of
/// the status and of the signature.
pub proof fn the_second_answer(
    flow: FetchView,
    signature: Seq<char>,
    status: u16,
    payment_request: Option<Vec<u8>>,
    took_nanos: u128,
)
    requires
        flow.phase == (FetchPhaseView::Retry { signature }),
        took_nanos <= flow.left_nanos,
    ensures
        ({
            let turn = flow.next(FetchEvent::Response { status, payment_request, took_nanos });
            let told = turn.steps[0];
            &&& turn.steps.len() == 1
            &&& told.message == "← "@ + decimal(status as nat)
            &&& told.data.dom() == set!["status"@, "signature"@]
            &&& told.data["status"@] == JsonView::Number(JsonNumber::PosInt(status as u64))
            &&& told.data["signature"@] == JsonView::String(signature)
            &&& 200 <= status <= 299 ==> {
                &&& turn.action is Return
                &&& told.step_type == PaymentStepType::Success
            }
            &&& !(200 <= status <= 299) ==> {
                &&& told.step_type == PaymentStepType::Error
                &&& turn.action matches FetchActionView::Fail(error)
                &&& error matches ErrorView::Payment { message, url, status: named }
                &&& url == flow.request.url
                &&& named == status
                &&& message == "Payment failed for "@ + flow.request.url + " (HTTP "@ + decimal(
                    status as nat,
                ) + ")"@
            }
        }),
{
    reveal_strlit("status");
    reveal_strlit("signature");
    assert("status"@.len() != "signature"@.len());
    let turn = flow.next(FetchEvent::Response { status, payment_request, took_nanos });
    assert(turn.steps[0].data.dom() =~= set!["status"@, "signature"@]);
}

/// A request that could not be made, be it the first or the second, ends with the cause; one that
/// has ended waits for nothing; and none changes its network or its timeout.
pub proof fn how_a_request_ends(flow: FetchView, event: FetchEvent, other: FetchEvent)
    requires
        flow.accepts(event),
    ensures
        event matches FetchEvent::RequestFailed(cause) ==> flow.next(event).action
            == FetchActionView::Fail(ErrorView::Other(cause@)) && flow.next(event).steps.len() == 0,
        (flow.next(event).action is Return || flow.next(event).action is Fail) ==> !flow.next(
            event,
        ).flow.accepts(other),
        flow.next(event).flow.network == flow.network,
        flow.next(event).flow.timeout_nanos == flow.timeout_nanos,
        took(event) <= flow.left_nanos ==> flow.next(event).flow.left_nanos == flow.left_nanos
            - took(event),
        took(event) > flow.left_nanos ==> flow.next(event).steps.len() == 0,
        event matches FetchEvent::Response { took_nanos, .. } ==> took(event) == took_nanos,
        event matches FetchEvent::Paid { took_nanos, .. } ==> took(event) == took_nanos,
        !(event is Response) && !(event is Paid) ==> took(event) == 0,
{
}

} // verus!
