//! Funding a wallet from a test network's faucet.
use vstd::prelude::*;
use vstd::string::*;

use crate::errors::{Error, ErrorView, MppFaucetError};
use crate::text::joined;

verus! {

/// What the faucet is asked for: 2 SOL, in lamports.
pub const AIRDROP_LAMPORTS: u64 = 2_000_000_000;

/// How often the faucet is asked: once, and three times more.
pub const AIRDROP_ATTEMPTS: u64 = 4;

/// What an airdrop is waiting for.
#[derive(Clone, Copy)]
pub enum AirdropPhase {
    Requested,
    Confirmed,
    Waited,
    Closed,
}

/// An airdrop: it asks the faucet and waits for the transaction; where either fails it pauses and
/// tries again.
pub struct AirdropFlow {
    pubkey: String,
    attempt: u64,
    phase: AirdropPhase,
}

/// An airdrop, with texts as sequences of characters.
pub struct AirdropView {
    pub pubkey: Seq<char>,
    /// How many attempts came before.
    pub attempt: u64,
    pub phase: AirdropPhase,
}

impl View for AirdropFlow {
    type V = AirdropView;

    closed spec fn view(&self) -> AirdropView {
        AirdropView { pubkey: self.pubkey@, attempt: self.attempt, phase: self.phase }
    }
}

/// What the outside tells an airdrop.
pub enum AirdropEvent {
    /// The faucet answered with the transaction's signature, or failed.
    Requested(Result<String, String>),
    /// The transaction was confirmed, or not.
    Confirmed(Result<(), String>),
    /// The pause is over.
    Waited,
}

/// What an airdrop asks of the outside.
pub enum AirdropAction {
    /// Ask the faucet.
    Request { pubkey: String, lamports: u64 },
    /// Wait for the transaction.
    Confirm { signature: String },
    /// Pause for this many seconds.
    Wait { seconds: u64 },
    /// The wallet is funded.
    Done,
    /// The wallet could not be funded.
    Fail(Error),
}

/// An action, with texts as sequences of characters.
pub enum AirdropActionView {
    Request { pubkey: Seq<char>, lamports: u64 },
    Confirm { signature: Seq<char> },
    Wait { seconds: u64 },
    Done,
    Fail(ErrorView),
}

impl View for AirdropAction {
    type V = AirdropActionView;

    open spec fn view(&self) -> AirdropActionView {
        match self {
            AirdropAction::Request { pubkey, lamports } => AirdropActionView::Request {
                pubkey: pubkey@,
                lamports: *lamports,
            },
            AirdropAction::Confirm { signature } => AirdropActionView::Confirm {
                signature: signature@,
            },
            AirdropAction::Wait { seconds } => AirdropActionView::Wait { seconds: *seconds },
            AirdropAction::Done => AirdropActionView::Done,
            AirdropAction::Fail(error) => AirdropActionView::Fail(error@),
        }
    }
}

/// The error of a wallet that could not be funded.
pub open spec fn faucet_error(pubkey: Seq<char>) -> ErrorView {
    ErrorView::Faucet {
        message: "Failed to airdrop SOL to wallet "@ + pubkey
            + ". The devnet/testnet faucet may be rate-limited. Wait 30s and retry, or pass a pre-funded secret_key to skip airdrop."@,
        address: pubkey,
    }
}

impl AirdropView {
    /// An airdrop that has just asked the faucet for the first time.
    pub open spec fn start(pubkey: Seq<char>) -> AirdropView {
        AirdropView { pubkey, attempt: 0, phase: AirdropPhase::Requested }
    }

    /// The request to the faucet.
    pub open spec fn request(self) -> AirdropActionView {
        AirdropActionView::Request { pubkey: self.pubkey, lamports: AIRDROP_LAMPORTS }
    }

    /// Whether this is the kind of event that is waited for.
    pub open spec fn accepts(self, event: AirdropEvent) -> bool {
        match (self.phase, event) {
            (AirdropPhase::Requested, AirdropEvent::Requested(_)) => true,
            (AirdropPhase::Confirmed, AirdropEvent::Confirmed(_)) => true,
            (AirdropPhase::Waited, AirdropEvent::Waited) => true,
            _ => false,
        }
    }

    /// The airdrop in another phase.
    pub open spec fn to(self, phase: AirdropPhase) -> AirdropView {
        AirdropView { phase, ..self }
    }

    /// What follows a failed attempt: after the last, the end; before it, a pause that doubles each
    /// time, starting with one second.
    pub open spec fn failed(self) -> (AirdropView, AirdropActionView) {
        if self.attempt + 1 == AIRDROP_ATTEMPTS {
            (self.to(AirdropPhase::Closed), AirdropActionView::Fail(faucet_error(self.pubkey)))
        } else {
            (
                self.to(AirdropPhase::Waited),
                AirdropActionView::Wait {
                    seconds: vstd::arithmetic::power2::pow2(self.attempt as nat) as u64,
                },
            )
        }
    }

    /// What follows an event.
    pub open spec fn next(self, event: AirdropEvent) -> (AirdropView, AirdropActionView) {
        match event {
            AirdropEvent::Requested(Ok(signature)) => (
                self.to(AirdropPhase::Confirmed),
                AirdropActionView::Confirm { signature: signature@ },
            ),
            AirdropEvent::Requested(Err(_)) => self.failed(),
            AirdropEvent::Confirmed(Ok(_)) => (
                self.to(AirdropPhase::Closed),
                AirdropActionView::Done,
            ),
            AirdropEvent::Confirmed(Err(_)) => self.failed(),
            AirdropEvent::Waited => {
                let again = AirdropView {
                    attempt: (self.attempt + 1) as u64,
                    phase: AirdropPhase::Requested,
                    ..self
                };
                (again, again.request())
            },
        }
    }
}

impl AirdropFlow {
    #[verifier::type_invariant]
    spec fn inv(self) -> bool {
        &&& self.attempt < AIRDROP_ATTEMPTS
        &&& self.phase is Waited ==> self.attempt + 1 < AIRDROP_ATTEMPTS
    }

    /// Starts an airdrop by asking the faucet.
    pub fn new(pubkey: &str) -> (r: (AirdropFlow, AirdropAction))
        ensures
            r.0@ == AirdropView::start(pubkey@),
            r.1@ == AirdropView::start(pubkey@).request(),
    {
        (
            AirdropFlow { pubkey: pubkey.to_owned(), attempt: 0, phase: AirdropPhase::Requested },
            AirdropAction::Request { pubkey: pubkey.to_owned(), lamports: AIRDROP_LAMPORTS },
        )
    }

    /// Tells whether this is the kind of event that is waited for.
    pub fn accepts(&self, event: &AirdropEvent) -> (r: bool)
        ensures
            r == self@.accepts(*event),
    {
        proof {
            use_type_invariant(self);
        }
        match (self.phase, event) {
            (AirdropPhase::Requested, AirdropEvent::Requested(_)) => true,
            (AirdropPhase::Confirmed, AirdropEvent::Confirmed(_)) => true,
            (AirdropPhase::Waited, AirdropEvent::Waited) => true,
            _ => false,
        }
    }

    fn failed(self) -> (r: (AirdropFlow, AirdropAction))
        ensures
            (r.0@, r.1@) == self@.failed(),
    {
        proof {
            use_type_invariant(&self);
        }
        if self.attempt + 1 == AIRDROP_ATTEMPTS {
            let mut message = joined("Failed to airdrop SOL to wallet ", self.pubkey.as_str());
            message.append(
                ". The devnet/testnet faucet may be rate-limited. Wait 30s and retry, or pass a pre-funded secret_key to skip airdrop.",
            );
            let error = Error::from(MppFaucetError { message, address: self.pubkey.clone() });
            (
                AirdropFlow {
                    pubkey: self.pubkey,
                    attempt: self.attempt,
                    phase: AirdropPhase::Closed,
                },
                AirdropAction::Fail(error),
            )
        } else {
            let seconds: u64 = if self.attempt == 0 {
                1
            } else if self.attempt == 1 {
                2
            } else {
                4
            };
            proof {
                vstd::arithmetic::power2::lemma2_to64();
            }
            (
                AirdropFlow {
                    pubkey: self.pubkey,
                    attempt: self.attempt,
                    phase: AirdropPhase::Waited,
                },
                AirdropAction::Wait { seconds },
            )
        }
    }

    /// Takes an event and says what to do next.
    pub fn step(self, event: AirdropEvent) -> (r: (AirdropFlow, AirdropAction))
        requires
            self@.accepts(event),
        ensures
            (r.0@, r.1@) == self@.next(event),
    {
        proof {
            use_type_invariant(&self);
        }
        match event {
            AirdropEvent::Requested(Ok(signature)) => (
                AirdropFlow {
                    pubkey: self.pubkey,
                    attempt: self.attempt,
                    phase: AirdropPhase::Confirmed,
                },
                AirdropAction::Confirm { signature },
            ),
            AirdropEvent::Requested(Err(_)) => self.failed(),
            AirdropEvent::Confirmed(Ok(_)) => (
                AirdropFlow {
                    pubkey: self.pubkey,
                    attempt: self.attempt,
                    phase: AirdropPhase::Closed,
                },
                AirdropAction::Done,
            ),
            AirdropEvent::Confirmed(Err(_)) => self.failed(),
            AirdropEvent::Waited => {
                let action = AirdropAction::Request {
                    pubkey: self.pubkey.clone(),
                    lamports: AIRDROP_LAMPORTS,
                };
                (
                    AirdropFlow {
                        pubkey: self.pubkey,
                        attempt: self.attempt + 1,
                        phase: AirdropPhase::Requested,
                    },
                    action,
                )
            },
        }
    }
}

// ---------------------------------------------------------------------------------------------
// Laws
// ---------------------------------------------------------------------------------------------
impl AirdropView {
    /// Whether each of the events is waited for when it comes.
    pub open spec fn runs(self, events: Seq<AirdropEvent>) -> bool
        decreases events.len(),
    {
        events.len() == 0 || (self.runs(events.drop_last()) && self.after(
            events.drop_last(),
        ).accepts(events.last()))
    }

    /// The airdrop after the events.
    pub open spec fn after(self, events: Seq<AirdropEvent>) -> AirdropView
        decreases events.len(),
    {
        if events.len() == 0 {
            self
        } else {
            self.after(events.drop_last()).next(events.last()).0
        }
    }

    /// How often the faucet is asked in answer to the events.
    pub open spec fn requests(self, events: Seq<AirdropEvent>) -> nat
        decreases events.len(),
    {
        if events.len() == 0 {
            0
        } else {
            self.requests(events.drop_last()) + if self.after(events.drop_last()).next(
                events.last(),
            ).1 is Request {
                1nat
            } else {
                0nat
            }
        }
    }
}

/// The faucet is asked once and then three times more at most, and an airdrop fails only after
/// these three retries.
pub proof fn three_retries(pubkey: Seq<char>, events: Seq<AirdropEvent>)
    requires
        AirdropView::start(pubkey).runs(events),
    ensures
        AirdropView::start(pubkey).requests(events) <= 3,
        events.len() > 0 && AirdropView::start(pubkey).after(events.drop_last()).next(
            events.last(),
        ).1 is Fail ==> AirdropView::start(pubkey).requests(events) == 3,
{
    attempts_are_counted(pubkey, events);
    if events.len() > 0 {
        attempts_are_counted(pubkey, events.drop_last());
    }
}

proof fn attempts_are_counted(pubkey: Seq<char>, events: Seq<AirdropEvent>)
    requires
        AirdropView::start(pubkey).runs(events),
    ensures
        ({
            let flow = AirdropView::start(pubkey).after(events);
            &&& flow.pubkey == pubkey
            &&& flow.attempt == AirdropView::start(pubkey).requests(events)
            &&& flow.attempt < AIRDROP_ATTEMPTS
            &&& flow.phase is Waited ==> flow.attempt + 1 < AIRDROP_ATTEMPTS
        }),
    decreases events.len(),
{
    if events.len() > 0 {
        attempts_are_counted(pubkey, events.drop_last());
    }
}

/// A confirmed airdrop ends with success at whatever attempt, and nothing else does.
pub proof fn confirmed_is_done(flow: AirdropView, event: AirdropEvent)
    requires
        flow.accepts(event),
    ensures
        flow.next(event).1 is Done <==> event matches AirdropEvent::Confirmed(Ok(_)),
{
}

/// The pauses before the three retries are of one second, two and four.
pub proof fn pauses_double(flow: AirdropView, event: AirdropEvent)
    requires
        flow.accepts(event),
    ensures
        flow.next(event).1 matches AirdropActionView::Wait { seconds } ==> (flow.attempt == 0
            ==> seconds == 1) && (flow.attempt == 1 ==> seconds == 2) && (flow.attempt == 2
            ==> seconds == 4),
{
    vstd::arithmetic::power2::lemma2_to64();
}

/// An airdrop asks the faucet for 2 SOL for its wallet, each time, and waits for the answer; the
/// transaction that it is told of is the one that it waits for. An attempt that fails, be it that
/// the faucet did not answer or that the transaction was not confirmed, leads to a pause and the next
/// attempt, but after the fourth to an error that names the wallet. An airdrop that has ended waits
/// for nothing.
pub proof fn an_airdrop_goes_in_turn(
    pubkey: Seq<char>,
    flow: AirdropView,
    event: AirdropEvent,
    other: AirdropEvent,
)
    requires
        flow.accepts(event),
        flow.attempt < 4,
    ensures
        AirdropView::start(pubkey).pubkey == pubkey,
        AirdropView::start(pubkey).attempt == 0,
        AirdropView::start(pubkey).request() == (AirdropActionView::Request {
            pubkey,
            lamports: 2_000_000_000,
        }),
        AirdropView::start(pubkey).accepts(other) <==> other is Requested,
        ({
            let (after, action) = flow.next(event);
            let failed = (event matches AirdropEvent::Requested(Err(_))) || (event matches
                AirdropEvent::Confirmed(Err(_)));
            &&& after.pubkey == flow.pubkey
            &&& event matches AirdropEvent::Requested(Ok(sig)) ==> action == (
            AirdropActionView::Confirm { signature: sig@ }) && after.attempt == flow.attempt && (
            after.accepts(other) <==> other is Confirmed)
            &&& failed && flow.attempt < 3 ==> action is Wait && after.attempt == flow.attempt && (
            after.accepts(other) <==> other is Waited)
            &&& event is Waited ==> action == (AirdropActionView::Request {
                pubkey: flow.pubkey,
                lamports: 2_000_000_000,
            }) && after.attempt == flow.attempt + 1 && (after.accepts(other)
                <==> other is Requested)
            &&& failed && flow.attempt == 3 ==> {
                &&& action matches AirdropActionView::Fail(error)
                &&& error matches ErrorView::Faucet { message, address }
                &&& address == flow.pubkey
                &&& message == "Failed to airdrop SOL to wallet "@ + flow.pubkey
                    + ". The devnet/testnet faucet may be rate-limited. Wait 30s and retry, or pass a pre-funded secret_key to skip airdrop."@
            }
            &&& (action is Done || action is Fail) ==> !after.accepts(other)
        }),
{
}

} // verus!
