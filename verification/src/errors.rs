//! The errors of the protocol.
use vstd::prelude::*;
use vstd::string::*;

verus! {

/// The wallet could not be funded.
#[derive(Debug)]
pub struct MppFaucetError {
    pub message: String,
    pub address: String,
}

/// A request was refused, or what it asked for could not be paid.
#[derive(Debug)]
pub struct MppPaymentError {
    pub message: String,
    pub url: String,
    pub status: u16,
}

/// A request or its payment took too long.
#[derive(Debug)]
pub struct MppTimeoutError {
    pub message: String,
    pub url: String,
    pub timeout_ms: u64,
}

/// The network cannot be used like this.
#[derive(Debug)]
pub struct MppNetworkError {
    pub message: String,
    pub network: String,
}

/// Unified error type for all MPP operations.
#[derive(Debug)]
pub enum Error {
    Faucet(MppFaucetError),
    Payment(MppPaymentError),
    Timeout(MppTimeoutError),
    Network(MppNetworkError),
    Other(String),
}

/// An error, with texts as sequences of characters.
pub enum ErrorView {
    Faucet { message: Seq<char>, address: Seq<char> },
    Payment { message: Seq<char>, url: Seq<char>, status: u16 },
    Timeout { message: Seq<char>, url: Seq<char>, timeout_ms: u64 },
    Network { message: Seq<char>, network: Seq<char> },
    Other(Seq<char>),
}

impl View for Error {
    type V = ErrorView;

    open spec fn view(&self) -> ErrorView {
        match self {
            Error::Faucet(e) => ErrorView::Faucet { message: e.message@, address: e.address@ },
            Error::Payment(e) => ErrorView::Payment {
                message: e.message@,
                url: e.url@,
                status: e.status,
            },
            Error::Timeout(e) => ErrorView::Timeout {
                message: e.message@,
                url: e.url@,
                timeout_ms: e.timeout_ms,
            },
            Error::Network(e) => ErrorView::Network { message: e.message@, network: e.network@ },
            Error::Other(s) => ErrorView::Other(s@),
        }
    }
}

impl ErrorView {
    /// The text that stands for the error.
    pub open spec fn text(self) -> Seq<char> {
        match self {
            ErrorView::Faucet { message, .. } => message,
            ErrorView::Payment { message, .. } => message,
            ErrorView::Timeout { message, .. } => message,
            ErrorView::Network { message, .. } => message,
            ErrorView::Other(s) => s,
        }
    }
}

impl MppFaucetError {
    /// The text that stands for the error.
    pub fn display(&self) -> (r: String)
        ensures
            r@ == self.message@,
    {
        self.message.clone()
    }
}

impl MppPaymentError {
    /// The text that stands for the error.
    pub fn display(&self) -> (r: String)
        ensures
            r@ == self.message@,
    {
        self.message.clone()
    }
}

impl MppTimeoutError {
    /// The text that stands for the error.
    pub fn display(&self) -> (r: String)
        ensures
            r@ == self.message@,
    {
        self.message.clone()
    }
}

impl MppNetworkError {
    /// The text that stands for the error.
    pub fn display(&self) -> (r: String)
        ensures
            r@ == self.message@,
    {
        self.message.clone()
    }
}

impl Error {
    /// The text that stands for the error: the message of the error inside.
    pub fn display(&self) -> (r: String)
        ensures
            r@ == self@.text(),
    {
        match self {
            Error::Faucet(e) => e.display(),
            Error::Payment(e) => e.display(),
            Error::Timeout(e) => e.display(),
            Error::Network(e) => e.display(),
            Error::Other(s) => s.clone(),
        }
    }
}

impl From<MppFaucetError> for Error {
    fn from(e: MppFaucetError) -> (r: Self) {
        Error::Faucet(e)
    }
}

impl vstd::std_specs::convert::FromSpecImpl<MppFaucetError> for Error {
    open spec fn obeys_from_spec() -> bool {
        true
    }

    open spec fn from_spec(e: MppFaucetError) -> Self {
        Error::Faucet(e)
    }
}

impl From<MppPaymentError> for Error {
    fn from(e: MppPaymentError) -> (r: Self) {
        Error::Payment(e)
    }
}

impl vstd::std_specs::convert::FromSpecImpl<MppPaymentError> for Error {
    open spec fn obeys_from_spec() -> bool {
        true
    }

    open spec fn from_spec(e: MppPaymentError) -> Self {
        Error::Payment(e)
    }
}

impl From<MppTimeoutError> for Error {
    fn from(e: MppTimeoutError) -> (r: Self) {
        Error::Timeout(e)
    }
}

impl vstd::std_specs::convert::FromSpecImpl<MppTimeoutError> for Error {
    open spec fn obeys_from_spec() -> bool {
        true
    }

    open spec fn from_spec(e: MppTimeoutError) -> Self {
        Error::Timeout(e)
    }
}

impl From<MppNetworkError> for Error {
    fn from(e: MppNetworkError) -> (r: Self) {
        Error::Network(e)
    }
}

impl vstd::std_specs::convert::FromSpecImpl<MppNetworkError> for Error {
    open spec fn obeys_from_spec() -> bool {
        true
    }

    open spec fn from_spec(e: MppNetworkError) -> Self {
        Error::Network(e)
    }
}

// ---------------------------------------------------------------------------------------------
// Laws
// ---------------------------------------------------------------------------------------------
/// An error is shown by its message.
pub proof fn errors_show_their_messages(
    faucet: MppFaucetError,
    payment: MppPaymentError,
    timeout: MppTimeoutError,
    network: MppNetworkError,
    other: String,
)
    ensures
        Error::Faucet(faucet)@.text() == faucet.message@,
        Error::Payment(payment)@.text() == payment.message@,
        Error::Timeout(timeout)@.text() == timeout.message@,
        Error::Network(network)@.text() == network.message@,
        Error::Other(other)@.text() == other@,
{
}

/// An error keeps what it was made of.
pub proof fn errors_keep_their_parts(
    faucet: MppFaucetError,
    payment: MppPaymentError,
    timeout: MppTimeoutError,
    network: MppNetworkError,
)
    ensures
        Error::Faucet(faucet)@ matches ErrorView::Faucet { message, address } && message
            == faucet.message@ && address == faucet.address@,
        Error::Payment(payment)@ matches ErrorView::Payment { message, url, status } && message
            == payment.message@ && url == payment.url@ && status == payment.status,
        Error::Timeout(timeout)@ matches ErrorView::Timeout { message, url, timeout_ms } && message
            == timeout.message@ && url == timeout.url@ && timeout_ms == timeout.timeout_ms,
        Error::Network(network)@ matches ErrorView::Network { message, network: name } && message
            == network.message@ && name == network.network@,
{
}

} // verus!
