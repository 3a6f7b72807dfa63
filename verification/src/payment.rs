//! Paying: a SOL transfer from a client's wallet.
use vstd::prelude::*;
use vstd::string::*;

use crate::base58::{
    base58_bytes, base58_decode, base58_text, decoding_undoes_encoding, zeros_gain_one, zeros_only,
};
use crate::client::{ClientView, TestClient};
use crate::keys::{array_of_32, ed25519_signature};
use crate::text::{decimal, decimal_of, joined, result_is};
use crate::transaction::{
    base64_decoded, build_transfer_transaction, le_value, transfer_text, what_a_transfer_says,
};

verus! {

/// The key that a recipient's address stands for, or why it stands for none.
pub open spec fn recipient_key(recipient_b58: Seq<char>) -> Result<Seq<u8>, Seq<char>> {
    match base58_bytes(recipient_b58) {
        Err(e) => Err("send_payment: invalid recipient: "@ + e),
        Ok(bytes) => if bytes.len() != 32 {
            Err("send_payment: recipient must be 32 bytes, got "@ + decimal(bytes.len()))
        } else {
            Ok(bytes)
        },
    }
}

/// The bytes of a block hash, or why it has none.
pub open spec fn blockhash_bytes(blockhash_b58: Seq<char>) -> Result<Seq<u8>, Seq<char>> {
    match base58_bytes(blockhash_b58) {
        Err(e) => Err("send_payment: invalid blockhash: "@ + e),
        Ok(bytes) => if bytes.len() != 32 {
            Err("send_payment: blockhash must be 32 bytes"@)
        } else {
            Ok(bytes)
        },
    }
}

/// Reads a recipient's address.
pub fn read_recipient(recipient_b58: &str) -> (r: Result<[u8; 32], String>)
    ensures
        result_is(r, recipient_key(recipient_b58@)),
{
    match base58_decode(recipient_b58) {
        Err(e) => Err(joined("send_payment: invalid recipient: ", e.as_str())),
        Ok(bytes) => if bytes.len() != 32 {
            Err(
                joined(
                    "send_payment: recipient must be 32 bytes, got ",
                    decimal_of(bytes.len() as u128).as_str(),
                ),
            )
        } else {
            assert(bytes@.take(32) == bytes@);
            Ok(array_of_32(bytes.as_slice()))
        },
    }
}

/// Reads a block hash.
pub fn read_blockhash(blockhash_b58: &str) -> (r: Result<[u8; 32], String>)
    ensures
        result_is(r, blockhash_bytes(blockhash_b58@)),
{
    match base58_decode(blockhash_b58) {
        Err(e) => Err(joined("send_payment: invalid blockhash: ", e.as_str())),
        Ok(bytes) => if bytes.len() != 32 {
            Err("send_payment: blockhash must be 32 bytes".to_owned())
        } else {
            assert(bytes@.take(32) == bytes@);
            Ok(array_of_32(bytes.as_slice()))
        },
    }
}

// ---------------------------------------------------------------------------------------------
// The course of a payment
// ---------------------------------------------------------------------------------------------
/// What a payment is waiting for.
pub enum PaymentPhase {
    Blockhash,
    Sent,
    Confirmed { signature: String },
    Closed,
}

/// What a payment is waiting for, with texts as sequences of characters.
pub enum PaymentPhaseView {
    Blockhash,
    Sent,
    Confirmed { signature: Seq<char> },
    Closed,
}

impl View for PaymentPhase {
    type V = PaymentPhaseView;

    open spec fn view(&self) -> PaymentPhaseView {
        match self {
            PaymentPhase::Blockhash => PaymentPhaseView::Blockhash,
            PaymentPhase::Sent => PaymentPhaseView::Sent,
            PaymentPhase::Confirmed { signature } => PaymentPhaseView::Confirmed {
                signature: signature@,
            },
            PaymentPhase::Closed => PaymentPhaseView::Closed,
        }
    }
}

/// A payment: it asks for the latest block hash, sends the transfer and waits for it.
pub struct PaymentFlow<'a> {
    client: &'a TestClient,
    to: [u8; 32],
    lamports: u64,
    phase: PaymentPhase,
}

/// A payment, with texts as sequences of characters.
pub struct PaymentView {
    pub client: ClientView,
    pub to: Seq<u8>,
    pub lamports: u64,
    pub phase: PaymentPhaseView,
}

impl<'a> View for PaymentFlow<'a> {
    type V = PaymentView;

    closed spec fn view(&self) -> PaymentView {
        PaymentView {
            client: self.client@,
            to: self.to@,
            lamports: self.lamports,
            phase: self.phase@,
        }
    }
}

/// What the outside tells a payment.
pub enum PaymentEvent {
    /// The latest block hash, in base58, or why there is none.
    Blockhash(Result<String, String>),
    /// The signature of the transfer that was sent, or why it was not.
    Sent(Result<String, String>),
    /// The transfer was confirmed, or why not.
    Confirmed(Result<(), String>),
}

/// What a payment asks of the outside.
pub enum PaymentAction {
    /// Send the transfer.
    Send { tx_base64: String },
    /// Wait for the transfer.
    Confirm { signature: String },
    /// The payment is made.
    Done { signature: String },
    /// The payment could not be made.
    Fail(String),
}

/// An action, with texts as sequences of characters.
pub enum PaymentActionView {
    Send { tx_base64: Seq<char> },
    Confirm { signature: Seq<char> },
    Done { signature: Seq<char> },
    Fail(Seq<char>),
}

impl View for PaymentAction {
    type V = PaymentActionView;

    open spec fn view(&self) -> PaymentActionView {
        match self {
            PaymentAction::Send { tx_base64 } => PaymentActionView::Send { tx_base64: tx_base64@ },
            PaymentAction::Confirm { signature } => PaymentActionView::Confirm {
                signature: signature@,
            },
            PaymentAction::Done { signature } => PaymentActionView::Done { signature: signature@ },
            PaymentAction::Fail(message) => PaymentActionView::Fail(message@),
        }
    }
}

impl PaymentView {
    /// A payment that waits for the latest block hash, or why it does not start.
    pub open spec fn start(
        client: ClientView,
        recipient_b58: Seq<char>,
        lamports: u64,
    ) -> Result<PaymentView, Seq<char>> {
        match recipient_key(recipient_b58) {
            Ok(to) => Ok(
                PaymentView { client, to, lamports, phase: PaymentPhaseView::Blockhash },
            ),
            Err(e) => Err(e),
        }
    }

    /// Whether this is the kind of event that is waited for.
    pub open spec fn accepts(self, event: PaymentEvent) -> bool {
        match (self.phase, event) {
            (PaymentPhaseView::Blockhash, PaymentEvent::Blockhash(_)) => true,
            (PaymentPhaseView::Sent, PaymentEvent::Sent(_)) => true,
            (PaymentPhaseView::Confirmed { .. }, PaymentEvent::Confirmed(_)) => true,
            _ => false,
        }
    }

    /// The payment in another phase.
    pub open spec fn to(self, phase: PaymentPhaseView) -> PaymentView {
        PaymentView { phase, ..self }
    }

    /// The payment at its end, without success.
    pub open spec fn failed(self, message: Seq<char>) -> (PaymentView, PaymentActionView) {
        (self.to(PaymentPhaseView::Closed), PaymentActionView::Fail(message))
    }

    /// What follows an event.
    pub open spec fn next(self, event: PaymentEvent) -> (PaymentView, PaymentActionView) {
        match event {
            PaymentEvent::Blockhash(Err(e)) => self.failed("send_payment: "@ + e@),
            PaymentEvent::Blockhash(Ok(blockhash_b58)) => match blockhash_bytes(blockhash_b58@) {
                Err(e) => self.failed(e),
                Ok(blockhash) => (
                    self.to(PaymentPhaseView::Sent),
                    PaymentActionView::Send {
                        tx_base64: transfer_text(
                            self.client.seed,
                            self.client.public_key,
                            self.to,
                            self.lamports,
                            blockhash,
                        ),
                    },
                ),
            },
            PaymentEvent::Sent(Err(e)) => self.failed("send_payment: sendTransaction: "@ + e@),
            PaymentEvent::Sent(Ok(signature)) => (
                self.to(PaymentPhaseView::Confirmed { signature: signature@ }),
                PaymentActionView::Confirm { signature: signature@ },
            ),
            PaymentEvent::Confirmed(Err(e)) => self.failed("send_payment: confirm: "@ + e@),
            PaymentEvent::Confirmed(Ok(_)) => (
                self.to(PaymentPhaseView::Closed),
                PaymentActionView::Done { signature: self.phase->signature },
            ),
        }
    }
}

impl<'a> PaymentFlow<'a> {
    /// Starts a payment, which first needs the latest block hash. It does not start where the
    /// recipient's address is no key.
    pub fn new(client: &'a TestClient, recipient_b58: &str, lamports: u64) -> (r: Result<
        PaymentFlow<'a>,
        String,
    >)
        ensures
            match (r, PaymentView::start(client@, recipient_b58@, lamports)) {
                (Ok(flow), Ok(expected)) => flow@ == expected,
                (Err(message), Err(expected)) => message@ == expected,
                _ => false,
            },
    {
        match read_recipient(recipient_b58) {
            Err(e) => Err(e),
            Ok(to) => Ok(PaymentFlow { client, to, lamports, phase: PaymentPhase::Blockhash }),
        }
    }

    /// Tells whether this is the kind of event that is waited for.
    pub fn accepts(&self, event: &PaymentEvent) -> (r: bool)
        ensures
            r == self@.accepts(*event),
    {
        match (&self.phase, event) {
            (PaymentPhase::Blockhash, PaymentEvent::Blockhash(_)) => true,
            (PaymentPhase::Sent, PaymentEvent::Sent(_)) => true,
            (PaymentPhase::Confirmed { .. }, PaymentEvent::Confirmed(_)) => true,
            _ => false,
        }
    }

    fn failed(&mut self, message: String) -> (action: PaymentAction)
        ensures
            (final(self)@, action@) == old(self)@.failed(message@),
    {
        self.phase = PaymentPhase::Closed;
        PaymentAction::Fail(message)
    }

    /// Takes an event and says what to do next.
    pub fn step(&mut self, event: PaymentEvent) -> (action: PaymentAction)
        requires
            old(self)@.accepts(event),
        ensures
            (final(self)@, action@) == old(self)@.next(event),
    {
        match event {
            PaymentEvent::Blockhash(Err(e)) => self.failed(joined("send_payment: ", e.as_str())),
            PaymentEvent::Blockhash(Ok(blockhash_b58)) => match read_blockhash(
                blockhash_b58.as_str(),
            ) {
                Err(e) => self.failed(e),
                Ok(blockhash) => {
                    let tx_base64 = build_transfer_transaction(
                        self.client.signing_key(),
                        self.client.public_key(),
                        &self.to,
                        self.lamports,
                        &blockhash,
                    );
                    self.phase = PaymentPhase::Sent;
                    PaymentAction::Send { tx_base64 }
                },
            },
            PaymentEvent::Sent(Err(e)) => self.failed(
                joined("send_payment: sendTransaction: ", e.as_str()),
            ),
            PaymentEvent::Sent(Ok(signature)) => {
                self.phase = PaymentPhase::Confirmed { signature: signature.clone() };
                PaymentAction::Confirm { signature }
            },
            PaymentEvent::Confirmed(Err(e)) => self.failed(
                joined("send_payment: confirm: ", e.as_str()),
            ),
            PaymentEvent::Confirmed(Ok(_)) => {
                let signature = match &self.phase {
                    PaymentPhase::Confirmed { signature } => signature.clone(),
                    _ => String::new(),
                };
                self.phase = PaymentPhase::Closed;
                PaymentAction::Done { signature }
            },
        }
    }
}

// ---------------------------------------------------------------------------------------------
// Laws
// ---------------------------------------------------------------------------------------------
/// A payment to the address of a key goes to that key, unless the key is all zeros.
pub proof fn payment_goes_to_the_key(key: Seq<u8>)
    requires
        key.len() == 32,
        !zeros_only(key),
    ensures
        recipient_key(base58_text(key)) == Ok::<Seq<u8>, Seq<char>>(key),
{
    decoding_undoes_encoding(key);
}

/// The address of the key that is all zeros is refused: it decodes to 33 bytes.
pub proof fn zero_key_is_refused(key: Seq<u8>)
    requires
        key.len() == 32,
        zeros_only(key),
    ensures
        recipient_key(base58_text(key)) == Err::<Seq<u8>, Seq<char>>(
            "send_payment: recipient must be 32 bytes, got "@ + decimal(33),
        ),
{
    assert(key == Seq::new(32, |i: int| 0u8));
    zeros_gain_one(32);
}

/// A payment is made exactly when the transfer that was sent is confirmed, and it is known by the
/// signature under which it was sent.
pub proof fn paid_is_what_was_sent(flow: PaymentView, sent: PaymentEvent, confirmed: PaymentEvent)
    requires
        flow.accepts(sent),
        sent matches PaymentEvent::Sent(Ok(_)),
        flow.next(sent).0.accepts(confirmed),
    ensures
        flow.next(sent).0.next(confirmed).1 is Done <==> confirmed matches PaymentEvent::Confirmed(
            Ok(_),
        ),
        flow.next(sent).0.next(confirmed).1 matches PaymentActionView::Done { signature }
            ==> signature == sent->Sent_0->Ok_0@,
{
}

/// What is paid, by whom and to whom never changes in the course of a payment.
pub proof fn payment_keeps_its_terms(flow: PaymentView, event: PaymentEvent)
    requires
        flow.accepts(event),
    ensures
        flow.next(event).0.client == flow.client,
        flow.next(event).0.to == flow.to,
        flow.next(event).0.lamports == flow.lamports,
{
}

/// A payment of some lamports to the address of a key, once it is given a block hash, asks to send a
/// transfer of these lamports from the client's key to that key, with that hash, signed by the
/// client. Where a signature has 64 bytes, the signature stands at 1 of the 215 bytes, the payer at
/// 69, the payee at 101, the hash at 165 and the lamports, the lowest byte first, at 207.
#[verifier::rlimit(30)]
pub proof fn the_recipient_is_paid(
    client: ClientView,
    key: Seq<u8>,
    lamports: u64,
    blockhash: Seq<u8>,
    blockhash_b58: String,
)
    requires
        client.public_key.len() == 32,
        key.len() == 32,
        !zeros_only(key),
        blockhash.len() == 32,
        !zeros_only(blockhash),
        blockhash_b58@ == base58_text(blockhash),
    ensures
        ({
            let flow = PaymentView::start(client, base58_text(key), lamports)->Ok_0;
            let event = PaymentEvent::Blockhash(Ok(blockhash_b58));
            let (after, action) = flow.next(event);
            let tx = base64_decoded(action->tx_base64);
            let message = tx.skip(tx.len() - 150);
            let signature = ed25519_signature(client.seed, message);
            &&& PaymentView::start(client, base58_text(key), lamports) is Ok
            &&& flow.accepts(event)
            &&& action is Send
            &&& tx == seq![1u8] + signature + message
            &&& message.len() == 150
            &&& message.take(4) == seq![1u8, 0, 1, 3]
            &&& message.subrange(4, 36) == client.public_key
            &&& message.subrange(36, 68) == key
            &&& message.subrange(68, 100) == Seq::new(32, |i: int| 0u8)
            &&& message.subrange(100, 132) == blockhash
            &&& message.subrange(132, 142) == seq![1u8, 2, 2, 0, 1, 12, 2, 0, 0, 0]
            &&& le_value(message.skip(142)) == lamports
            &&& signature.len() == 64 ==> {
                &&& tx.len() == 215
                &&& tx.subrange(1, 65) == ed25519_signature(client.seed, tx.skip(65))
                &&& tx.subrange(69, 101) == client.public_key
                &&& tx.subrange(101, 133) == key
                &&& tx.subrange(165, 197) == blockhash
                &&& le_value(tx.subrange(207, 215)) == lamports
            }
        }),
{
    decoding_undoes_encoding(key);
    decoding_undoes_encoding(blockhash);
    what_a_transfer_says(client.seed, client.public_key, key, lamports, blockhash);
    let flow = PaymentView::start(client, base58_text(key), lamports)->Ok_0;
    let (after, action) = flow.next(PaymentEvent::Blockhash(Ok(blockhash_b58)));
    let tx = base64_decoded(action->tx_base64);
    let message = tx.skip(tx.len() - 150);
    if ed25519_signature(client.seed, message).len() == 64 {
        assert(tx.len() == 215);
        assert(tx.skip(65) == message);
        assert(tx.subrange(1, 65) == ed25519_signature(client.seed, message));
        assert(tx.subrange(69, 101) == message.subrange(4, 36));
        assert(tx.subrange(101, 133) == message.subrange(36, 68));
        assert(tx.subrange(165, 197) == message.subrange(100, 132));
        assert(tx.subrange(207, 215) == message.skip(142));
    }
}

/// A payment starts exactly where the recipient's address decodes to 32 bytes, and it says so where
/// it does not; a block hash is good exactly where it does.
pub proof fn addresses_are_of_32_bytes(
    client: ClientView,
    recipient_b58: Seq<char>,
    lamports: u64,
    flow: PaymentView,
    blockhash_b58: String,
)
    requires
        flow.phase is Blockhash,
    ensures
        PaymentView::start(client, recipient_b58, lamports) is Ok <==> (base58_bytes(
            recipient_b58,
        ) matches Ok(bytes) && bytes.len() == 32),
        base58_bytes(recipient_b58) matches Err(e) ==> PaymentView::start(
            client,
            recipient_b58,
            lamports,
        ) == Err::<PaymentView, Seq<char>>("send_payment: invalid recipient: "@ + e),
        (base58_bytes(recipient_b58) matches Ok(bytes) && bytes.len() != 32)
            ==> PaymentView::start(client, recipient_b58, lamports) == Err::<
            PaymentView,
            Seq<char>,
        >(
            "send_payment: recipient must be 32 bytes, got "@ + decimal(
                base58_bytes(recipient_b58)->Ok_0.len(),
            ),
        ),
        ({
            let action = flow.next(PaymentEvent::Blockhash(Ok(blockhash_b58))).1;
            &&& action is Send <==> (base58_bytes(blockhash_b58@) matches Ok(bytes) && bytes.len()
                == 32)
            &&& base58_bytes(blockhash_b58@) matches Err(e) ==> action == PaymentActionView::Fail(
                "send_payment: invalid blockhash: "@ + e,
            )
            &&& (base58_bytes(blockhash_b58@) matches Ok(bytes) && bytes.len() != 32) ==> action
                == PaymentActionView::Fail("send_payment: blockhash must be 32 bytes"@)
        }),
{
}

/// Each part of a payment that fails ends it, and the message names the part and the cause.
pub proof fn payment_failures_are_told(flow: PaymentView, event: PaymentEvent)
    ensures
        event matches PaymentEvent::Blockhash(Err(e)) ==> flow.next(event).1
            == PaymentActionView::Fail("send_payment: "@ + e@),
        event matches PaymentEvent::Sent(Err(e)) ==> flow.next(event).1 == PaymentActionView::Fail(
            "send_payment: sendTransaction: "@ + e@,
        ),
        event matches PaymentEvent::Confirmed(Err(e)) ==> flow.next(event).1
            == PaymentActionView::Fail("send_payment: confirm: "@ + e@),
{
}

/// A payment waits for the block hash, then for the transfer to be sent, then for it to be
/// confirmed under the signature that it was sent under, and after its end for nothing.
pub proof fn payment_goes_in_turn(
    client: ClientView,
    recipient_b58: Seq<char>,
    lamports: u64,
    flow: PaymentView,
    event: PaymentEvent,
    other: PaymentEvent,
)
    requires
        flow.accepts(event),
    ensures
        PaymentView::start(client, recipient_b58, lamports) matches Ok(start) ==> (start.accepts(
            other,
        ) <==> other is Blockhash) && start.client == client && start.lamports == lamports,
        flow.next(event).1 is Send ==> event is Blockhash && (flow.next(event).0.accepts(other)
            <==> other is Sent),
        flow.next(event).1 matches PaymentActionView::Confirm { signature } ==> (event matches
            PaymentEvent::Sent(Ok(sent)) && signature == sent@) && (flow.next(event).0.accepts(other)
            <==> other is Confirmed),
        event matches PaymentEvent::Sent(Ok(_)) ==> flow.next(event).1 is Confirm,
        (flow.next(event).1 is Done || flow.next(event).1 is Fail) ==> !flow.next(event).0.accepts(
            other,
        ),
{
}

} // verus!
