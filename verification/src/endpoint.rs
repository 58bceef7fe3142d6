//! The rendezvous endpoint's connection state machine.
//!
//! An endpoint owns a listening socket bound at a filesystem path and accepts
//! exactly one peer connection: the first send establishes the typed channel
//! and caches it, every later send reuses it. The unverified shell around this
//! library performs the socket operations and drives the model kept here; the
//! model decides when a peer must be accepted and records the one transition
//! from "listening, no channel" to "listening, channel cached".

use vstd::prelude::*;
use rand::RngCore;

use crate::names::{generated_path, spec_generated_path};

verus! {

/// Relies on rand::thread_rng and rand::RngCore::next_u64: a fresh random
/// value from the thread-local generator; nothing is assumed of which value
/// comes back.
#[verifier::external_body]
fn fresh_token() -> u64 {
    rand::thread_rng().next_u64()
}

/// Relies on std::time::SystemTime::now, SystemTime::duration_since and
/// Duration::as_secs: whole seconds since the Unix epoch by the system clock
/// (zero if the clock reads before the epoch); nothing is assumed of which
/// value comes back.
#[verifier::external_body]
fn unix_time_secs() -> u64 {
    std::time::SystemTime::now()
        .duration_since(std::time::UNIX_EPOCH)
        .map(|elapsed| elapsed.as_secs())
        .unwrap_or(0)
}

/// Abstract state of one rendezvous endpoint.
pub struct EndpointView {
    /// The filesystem path the listening socket is bound at.
    pub path: Seq<char>,
    /// Whether the one peer connection has been accepted and the typed
    /// channel built and cached.
    pub channel_cached: bool,
}

/// The rendezvous endpoint model: the bound path together with the state of
/// the once-only connection handshake.
pub struct Bootstrapper {
    path: String,
    channel_cached: bool,
}

impl View for Bootstrapper {
    type V = EndpointView;

    closed spec fn view(&self) -> EndpointView {
        EndpointView { path: self.path@, channel_cached: self.channel_cached }
    }
}

impl Bootstrapper {
    /// Endpoint bound at a caller-supplied path, with no peer accepted yet.
    ///
    /// The shell clears any stale file at the path (best effort) and binds the
    /// listening socket before it constructs the model, so a model value only
    /// ever stands for a successfully bound endpoint.
    pub fn bind(path: String) -> (b: Bootstrapper)
        ensures
            b@.path == path@,
            !b@.channel_cached,
    {
        Bootstrapper { path, channel_cached: false }
    }

    /// Endpoint at a generated path under `tmp_dir` (a directory path written
    /// without a trailing separator, normally the system temporary
    /// directory), with no peer accepted yet. The path encodes the current
    /// time and a fresh random token, so two endpoints generated in the same
    /// second still collide only if their random tokens collide.
    pub fn new(tmp_dir: &str) -> (b: Bootstrapper)
        ensures
            !b@.channel_cached,
            exists|secs: u64, token: u64|
                b@.path == spec_generated_path(tmp_dir@, secs as nat, token as nat),
    {
        let secs = unix_time_secs();
        let token = fresh_token();
        let p = generated_path(tmp_dir, secs, token);
        let b = Bootstrapper::bind(p);
        proof {
            assert(b@.path == spec_generated_path(tmp_dir@, secs as nat, token as nat));
        }
        b
    }

    /// The bound filesystem path: what the caller publishes to the peer, and
    /// what destruction of the endpoint removes, in every state.
    pub fn path(&self) -> (p: &String)
        ensures
            p@ == self@.path,
    {
        &self.path
    }

    /// The decision at the start of every send: a peer must be accepted first
    /// exactly when no channel has been cached yet.
    pub fn needs_accept(&self) -> (r: bool)
        ensures
            r == !self@.channel_cached,
    {
        !self.channel_cached
    }

    /// Records the one successful handshake: a peer connection was accepted
    /// and the typed channel built over it. Set exactly once and never
    /// replaced; a failed accept or channel construction calls nothing, so the
    /// endpoint stays retryable.
    pub fn cache_channel(&mut self)
        requires
            !old(self)@.channel_cached,
        ensures
            final(self)@ == spec_after_accept_attempt(old(self)@, true),
    {
        self.channel_cached = true;
    }
}

/// State of the endpoint after one send's accept phase: if a channel is
/// already cached nothing is attempted, otherwise an accept is attempted and
/// `established` says whether it yielded a working channel.
pub open spec fn spec_after_accept_attempt(st: EndpointView, established: bool) -> EndpointView {
    if !st.channel_cached && established {
        EndpointView { channel_cached: true, ..st }
    } else {
        st
    }
}

/// State of the endpoint after a run of send calls; `established[i]` says
/// whether the accept phase of send `i`, if one was attempted, yielded a
/// working channel.
pub open spec fn spec_run(st: EndpointView, established: Seq<bool>) -> EndpointView
    decreases established.len(),
{
    if established.len() == 0 {
        st
    } else {
        spec_run(spec_after_accept_attempt(st, established[0]), established.drop_first())
    }
}

/// Number of accept attempts a run of send calls makes: one per send that
/// starts without a cached channel.
pub open spec fn spec_accepts_in_run(st: EndpointView, established: Seq<bool>) -> nat
    decreases established.len(),
{
    if established.len() == 0 {
        0
    } else {
        (if !st.channel_cached {
            1 as nat
        } else {
            0 as nat
        }) + spec_accepts_in_run(spec_after_accept_attempt(st, established[0]), established.drop_first())
    }
}

/// Once the channel is cached it is never replaced: a run of any number of
/// further sends attempts no accept and leaves the endpoint unchanged.
pub proof fn lemma_cached_channel_is_final(st: EndpointView, established: Seq<bool>)
    requires
        st.channel_cached,
    ensures
        spec_accepts_in_run(st, established) == 0,
        spec_run(st, established) == st,
    decreases established.len(),
{
    if established.len() > 0 {
        lemma_cached_channel_is_final(st, established.drop_first());
    }
}

/// Single accept: in a run of one or more sends on a fresh endpoint whose
/// first accept establishes the channel, the peer is accepted exactly once;
/// every later send reuses the cached channel, and the bound path never
/// changes.
pub proof fn lemma_single_accept(st: EndpointView, established: Seq<bool>)
    requires
        !st.channel_cached,
        established.len() >= 1,
        established[0],
    ensures
        spec_accepts_in_run(st, established) == 1,
        spec_run(st, established) == spec_after_accept_attempt(st, true),
        spec_run(st, established).channel_cached,
        spec_run(st, established).path == st.path,
{
    let cached = spec_after_accept_attempt(st, true);
    lemma_cached_channel_is_final(cached, established.drop_first());
}

/// As long as no accept attempt yields a channel, every send attempts one
/// accept and the endpoint stays in the fresh "listening, no channel" state:
/// failures never use up the endpoint.
pub proof fn lemma_failures_keep_endpoint_retryable(st: EndpointView, established: Seq<bool>)
    requires
        !st.channel_cached,
        forall|i: int| 0 <= i < established.len() ==> !established[i],
    ensures
        spec_run(st, established) == st,
        spec_accepts_in_run(st, established) == established.len(),
    decreases established.len(),
{
    if established.len() > 0 {
        assert(!established[0]);
        assert forall|i: int| 0 <= i < established.drop_first().len() implies !established.drop_first()[i] by {
            assert(established.drop_first()[i] == established[i + 1]);
        }
        lemma_failures_keep_endpoint_retryable(st, established.drop_first());
    }
}

/// Retry after a failed accept: the failure leaves the endpoint in the
/// "listening, no channel" state with its path unchanged, so a later send
/// attempts the accept again, and a successful one establishes the channel.
pub proof fn lemma_retry_after_accept_failure(st: EndpointView)
    requires
        !st.channel_cached,
    ensures
        spec_after_accept_attempt(st, false) == st,
        spec_after_accept_attempt(spec_after_accept_attempt(st, false), true).channel_cached,
        spec_after_accept_attempt(spec_after_accept_attempt(st, false), true).path == st.path,
{
}

// ---------------------------------------------------------------------------
// The endpoint's footprint on the host filesystem namespace, modelled as the
// set of paths that exist. Construction clears any stale entry at the chosen
// path before binding creates it; destruction removes the endpoint's path.
// The unverified shell performs these operations in exactly this order.
// ---------------------------------------------------------------------------

/// Best-effort removal of a stale entry before binding: the path is gone
/// afterwards whether or not an entry existed.
pub open spec fn spec_clear_stale(fs: Set<Seq<char>>, path: Seq<char>) -> Set<Seq<char>> {
    fs.remove(path)
}

/// Binding the listening socket creates the path.
pub open spec fn spec_bind_creates(fs: Set<Seq<char>>, path: Seq<char>) -> Set<Seq<char>> {
    fs.insert(path)
}

/// Destroying an endpoint removes its bound path.
pub open spec fn spec_destroy(fs: Set<Seq<char>>, st: EndpointView) -> Set<Seq<char>> {
    fs.remove(st.path)
}

/// Stale-path takeover: a leftover entry at the chosen path never changes
/// what construction produces — clearing first puts the filesystem in the
/// same state whether or not the stale entry was there — and after binding
/// the path exists and is the endpoint's socket, the only entry construction
/// touches.
pub proof fn lemma_stale_path_takeover(fs: Set<Seq<char>>, path: Seq<char>)
    ensures
        !spec_clear_stale(fs, path).contains(path),
        spec_bind_creates(spec_clear_stale(fs, path), path).contains(path),
        spec_clear_stale(fs.insert(path), path) == spec_clear_stale(fs, path),
        forall|q: Seq<char>|
            q != path ==> (spec_bind_creates(spec_clear_stale(fs, path), path).contains(q)
                <==> fs.contains(q)),
{
    assert(spec_clear_stale(fs.insert(path), path) =~= spec_clear_stale(fs, path));
}

/// Cleanup: destruction removes the endpoint's path, in every state — whether
/// or not a channel was ever established — and touches nothing else.
pub proof fn lemma_destroy_removes_path(fs: Set<Seq<char>>, st: EndpointView)
    ensures
        !spec_destroy(fs, st).contains(st.path),
        forall|q: Seq<char>|
            q != st.path ==> (spec_destroy(fs, st).contains(q) <==> fs.contains(q)),
{
}

} // verus!
