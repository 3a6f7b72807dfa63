//! The client that many callers share and that is made when it is first needed.
use std::sync::Arc;
use vstd::prelude::*;
use vstd::string::*;

use crate::base58::base58_text;
use crate::client::{
    create_test_client, ClientView, SetupTurn, SolanaNetwork, TestClient, TestClientConfig,
};
use crate::errors::{Error, ErrorView};
use crate::fetch::{FetchOptions, FetchTurn};
use crate::keys::ed25519_public_key;

verus! {

// ---------------------------------------------------------------------------------------------
// The place
// ---------------------------------------------------------------------------------------------

/// A place that holds one value at the most.
pub struct SharedSlot<T> {
    value: Option<T>,
}

impl<T> View for SharedSlot<T> {
    type V = Option<T>;

    closed spec fn view(&self) -> Option<T> {
        self.value
    }
}

/// What a place holds after a value was made for it: what it held before, or else that value.
pub open spec fn first_of<T>(held: Option<T>, made: T) -> T {
    match held {
        Some(value) => value,
        None => made,
    }
}

impl<T> SharedSlot<T> {
    /// An empty place.
    pub fn new() -> (r: SharedSlot<T>)
        ensures
            r@ is None,
    {
        SharedSlot { value: None }
    }

    /// What the place holds.
    pub fn get(&self) -> (r: Option<&T>)
        ensures
            match (r, self@) {
                (Some(value), Some(held)) => *value == held,
                (None, None) => true,
                _ => false,
            },
    {
        match &self.value {
            Some(value) => Some(value),
            None => None,
        }
    }

    /// Hands in a value that was made for the place, and hands out what the place then holds. A
    /// value that came there first is kept.
    pub fn install(&mut self, made: T) -> (r: &T)
        ensures
            final(self)@ == Some(first_of(old(self)@, made)),
            *r == first_of(old(self)@, made),
    {
        if self.value.is_none() {
            self.value = Some(made);
        }
        self.value.as_ref().unwrap()
    }

    /// Empties the place.
    pub fn reset(&mut self)
        ensures
            final(self)@ is None,
    {
        self.value = None;
    }
}

// ---------------------------------------------------------------------------------------------
// Requests of the shared client
// ---------------------------------------------------------------------------------------------
/// `Arc::clone` hands out another pointer to the same value.
#[verifier::external_body]
fn same_client(client: &Arc<TestClient>) -> (r: Arc<TestClient>)
    ensures
        r == *client,
{
    Arc::clone(client)
}

/// The client that a place holds.
pub open spec fn held(slot: Option<Arc<TestClient>>) -> Option<ClientView> {
    match slot {
        Some(client) => Some(client@),
        None => None,
    }
}

/// What came of making a client, by views.
pub open spec fn made_view(made: Result<TestClient, Error>) -> Result<ClientView, ErrorView> {
    match made {
        Ok(client) => Ok(client@),
        Err(error) => Err(error@),
    }
}

/// The client that nothing is chosen for, with the key that has this seed.
pub open spec fn default_client(seed: Seq<u8>) -> ClientView {
    (TestClientConfig {
        network: None,
        secret_key: None,
        timeout_nanos: None,
        rpc_url: None,
    }).client(seed)
}

/// A request that waits for the shared client to be made.
pub struct SharedFetch {
    url: String,
    opts: Option<FetchOptions>,
}

impl SharedFetch {
    /// The address that the request goes to.
    pub closed spec fn url(self) -> Seq<char> {
        self.url@
    }

    /// What the request is made with.
    pub closed spec fn opts(self) -> Option<FetchOptions> {
        self.opts
    }
}

/// How a request of the shared client begins.
pub enum SharedTurn {
    /// The client is there, and begins the request.
    Fetch(Arc<TestClient>, FetchTurn),
    /// The client has to be set up first.
    Create(SharedFetch, SetupTurn),
}

/// Whether a request begins like this where the place holds this.
pub open spec fn begins(
    r: SharedTurn,
    held: Option<ClientView>,
    url: Seq<char>,
    opts: Option<FetchOptions>,
) -> bool {
    match (r, held) {
        (SharedTurn::Fetch(client, turn), Some(view)) => client@ == view && turn@ == view.fetch(
            url,
            opts,
        ),
        (SharedTurn::Create(pending, setup), None) => {
            &&& pending.url() == url
            &&& pending.opts() == opts
            &&& exists|seed: Seq<u8>|
                seed.len() == 32 && setup@ == #[trigger] default_client(seed).setup()
        },
        _ => false,
    }
}

/// Begins a request of the shared client. Where there is none yet, one is made for which nothing is
/// chosen.
///
/// A fresh key is random, so that all that is said of its wallet is that it is that of some key.
pub fn mpp_fetch(
    slot: &SharedSlot<Arc<TestClient>>,
    url: &str,
    opts: Option<FetchOptions>,
) -> (r: SharedTurn)
    ensures
        begins(r, held(slot@), url@, opts),
{
    match slot.get() {
        Some(client) => SharedTurn::Fetch(same_client(client), client.fetch(url, opts)),
        None => {
            let config = TestClientConfig::default();
            let ghost chosen = config;
            match create_test_client(config) {
                Ok(setup) => {
                    proof {
                        let seed = choose|seed: Seq<u8>|
                            seed.len() == 32 && setup@ == #[trigger] chosen.client(seed).setup();
                        assert(chosen.client(seed) == default_client(seed));
                    }
                    SharedTurn::Create(SharedFetch { url: url.to_owned(), opts }, setup)
                },
                Err(_) => vstd::pervasive::unreached(),
            }
        },
    }
}

/// What the place then holds, and which client the request is one of, when the making of a client
/// for it has ended: a client is stored where the place is still empty, and a failure stores
/// nothing.
pub open spec fn stored(
    held: Option<ClientView>,
    made: Result<ClientView, ErrorView>,
) -> (Option<ClientView>, Result<ClientView, ErrorView>) {
    match made {
        Ok(client) => (Some(first_of(held, client)), Ok(first_of(held, client))),
        Err(error) => (held, Err(error)),
    }
}

/// Whether a request that waited for a client goes on like this, where this is what it is one of.
pub open spec fn goes_on(
    r: Result<(Arc<TestClient>, FetchTurn), Error>,
    served: Result<ClientView, ErrorView>,
    pending: SharedFetch,
) -> bool {
    match (r, served) {
        (Ok((client, turn)), Ok(view)) => client@ == view && turn@ == view.fetch(
            pending.url(),
            pending.opts(),
        ),
        (Err(error), Err(expected)) => error@ == expected,
        _ => false,
    }
}

impl SharedFetch {
    /// Goes on with a request when the making of the shared client has ended.
    pub fn created(
        self,
        slot: &mut SharedSlot<Arc<TestClient>>,
        made: Result<TestClient, Error>,
    ) -> (r: Result<(Arc<TestClient>, FetchTurn), Error>)
        ensures
            held(final(slot)@) == stored(held(old(slot)@), made_view(made)).0,
            goes_on(r, stored(held(old(slot)@), made_view(made)).1, self),
    {
        match made {
            Err(error) => Err(error),
            Ok(client) => {
                let shared = same_client(slot.install(Arc::new(client)));
                let turn = shared.fetch(self.url.as_str(), self.opts);
                Ok((shared, turn))
            },
        }
    }
}

/// Discards the shared client. The next request makes a new one.
pub fn reset_mpp_fetch(slot: &mut SharedSlot<Arc<TestClient>>)
    ensures
        held(final(slot)@) is None,
{
    slot.reset();
}

// ---------------------------------------------------------------------------------------------
// Laws
// ---------------------------------------------------------------------------------------------
/// One call: a request, with what came of making a client where that was asked for; or the
/// discarding of the client.
pub enum SharedCall {
    Fetch { made: Result<ClientView, ErrorView> },
    Reset,
}

/// What the place holds after a request that no other call comes between, and which client the
/// request is one of: the one that was held, or else the one that was made.
pub open spec fn requested(
    held: Option<ClientView>,
    made: Result<ClientView, ErrorView>,
) -> (Option<ClientView>, Result<ClientView, ErrorView>) {
    match held {
        Some(client) => (held, Ok(client)),
        None => stored(held, made),
    }
}

/// What the place holds after some calls, one after the other.
pub open spec fn held_after(held: Option<ClientView>, calls: Seq<SharedCall>) -> Option<ClientView>
    decreases calls.len(),
{
    if calls.len() == 0 {
        held
    } else {
        let before = held_after(held, calls.drop_last());
        match calls.last() {
            SharedCall::Fetch { made } => requested(before, made).0,
            SharedCall::Reset => None,
        }
    }
}

/// Whether the client is never discarded in the course of some calls.
pub open spec fn no_reset(calls: Seq<SharedCall>) -> bool {
    forall|i: int| 0 <= i < calls.len() ==> (#[trigger] calls[i]) is Fetch
}

/// Once a client was made, every request is one of that client, whatever the making of another
/// would have come to, until the client is discarded.
pub proof fn one_wallet_until_it_is_discarded(
    calls: Seq<SharedCall>,
    client: ClientView,
    more: Seq<SharedCall>,
    made: Result<ClientView, ErrorView>,
)
    requires
        held_after(None, calls) == Some(client),
        no_reset(more),
    ensures
        held_after(None, calls + more) == Some(client),
        requested(held_after(None, calls + more), made).1 == Ok::<ClientView, ErrorView>(client),
    decreases more.len(),
{
    if more.len() == 0 {
        assert(calls + more == calls);
    } else {
        let front = more.drop_last();
        assert forall|i: int| 0 <= i < front.len() implies (#[trigger] front[i]) is Fetch by {
            assert(front[i] == more[i]);
        }
        one_wallet_until_it_is_discarded(calls, client, front, made);
        assert((calls + more).drop_last() == calls + front);
        assert((calls + more).last() == more[more.len() - 1]);
    }
}

/// After the client was discarded, and likewise at first, the next request makes one: the request
/// is one of that client, which is kept; where the making fails, the request fails with that error
/// and nothing is kept, so that the request after it tries again.
pub proof fn a_new_wallet_after_it_is_discarded(
    calls: Seq<SharedCall>,
    made: Result<ClientView, ErrorView>,
)
    ensures
        held_after(None, calls.push(SharedCall::Reset)) is None,
        requested(None, made).1 == made,
        made matches Ok(client) ==> requested(None, made).0 == Some(client),
        made is Err ==> requested(None, made).0 is None,
{
}

/// Of two clients that were made for an empty place at one time, all requests are those of the one
/// that came first.
pub proof fn all_share_the_first(first: ClientView, second: ClientView)
    ensures
        stored(stored(None, Ok(first)).0, Ok(second)) == (
            Some(first),
            Ok::<ClientView, ErrorView>(first),
        ),
{
}

/// Where a client is held, a request is begun by that client, with its address and its options.
/// Where none is held, one is set up first that is on devnet, with the network's public node, 30
/// seconds and the wallet of some seed, and the request waits for it.
pub proof fn who_makes_a_request(
    r: SharedTurn,
    held: Option<ClientView>,
    url: Seq<char>,
    opts: Option<FetchOptions>,
)
    requires
        begins(r, held, url, opts),
    ensures
        held matches Some(view) ==> (r matches SharedTurn::Fetch(client, turn) && client@ == view
            && turn@ == view.fetch(url, opts)),
        held is None ==> {
            &&& r matches SharedTurn::Create(pending, setup)
            &&& pending.url() == url
            &&& pending.opts() == opts
            &&& exists|seed: Seq<u8>, made: ClientView| #[trigger]
                set_up_by_default(made, seed) && setup@ == made.setup()
        },
{
    if held is None {
        let setup = r->Create_1;
        let seed = choose|seed: Seq<u8>|
            seed.len() == 32 && setup@ == #[trigger] default_client(seed).setup();
        assert(set_up_by_default(default_client(seed), seed));
    }
}

/// Whether a client is one for which nothing was chosen, with the wallet of this seed.
pub open spec fn set_up_by_default(client: ClientView, seed: Seq<u8>) -> bool {
    &&& seed.len() == 32
    &&& client.network == SolanaNetwork::Devnet
    &&& client.rpc_url == "https://api.devnet.solana.com"@
    &&& client.timeout_nanos == 30_000_000_000
    &&& client.seed == seed
    &&& client.public_key == ed25519_public_key(seed)
    &&& client.address == base58_text(ed25519_public_key(seed))
    &&& client.method == "solana"@
}

/// A request that waited for a client goes on with the client that the place then holds: the one
/// that was made, unless another came first. Where none could be made, the request fails with that
/// error, and the place holds what it held.
pub proof fn who_goes_on_with_a_request(
    r: Result<(Arc<TestClient>, FetchTurn), Error>,
    slot: Option<Arc<TestClient>>,
    after: Option<Arc<TestClient>>,
    made: Result<TestClient, Error>,
    pending: SharedFetch,
)
    requires
        held(after) == stored(held(slot), made_view(made)).0,
        goes_on(r, stored(held(slot), made_view(made)).1, pending),
    ensures
        made matches Err(error) ==> (r matches Err(e) && e@ == error@) && (after matches Some(c)
            <==> slot is Some),
        (made is Ok && slot is Some) ==> (after matches Some(c) && c@ == slot->Some_0@) && (
        r matches Ok((client, turn)) && client@ == slot->Some_0@ && turn@ == slot->Some_0@.fetch(
            pending.url(),
            pending.opts(),
        )),
        (made is Ok && slot is None) ==> (after matches Some(c) && c@ == made->Ok_0@) && (
        r matches Ok((client, turn)) && client@ == made->Ok_0@ && turn@ == made->Ok_0@.fetch(
            pending.url(),
            pending.opts(),
        )),
{
}

} // verus!
