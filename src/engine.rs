//! The engine: configuration shared by all requests, and the generators of
//! nicknames and usernames.
use crate::request::{Request, RequestInfo};
use std::sync::{Arc, Mutex};
use vstd::prelude::*;

verus! {

#[verifier::external_type_specification]
#[verifier::external_body]
pub struct ExGenerator<'a>(names::Generator<'a>);

#[verifier::external_type_specification]
#[verifier::external_body]
#[verifier::reject_recursive_types(T)]
pub struct ExMutex<T: ?Sized>(Mutex<T>);

/// Relies on `names::Generator::default` and `Mutex::new`: a fresh random
/// name generator behind its own lock.
#[verifier::external_body]
fn new_generator() -> (r: Mutex<names::Generator<'static>>) {
    Mutex::new(names::Generator::default())
}

/// Relies on `Mutex::lock` and `names::Generator::next`: the next random
/// name, or `None` where the lock was poisoned. Every name it makes is an
/// adjective, a dash and a noun, so it is never empty; which one comes is chance.
#[verifier::external_body]
fn draw_name(generator: &Mutex<names::Generator<'static>>) -> (r: Option<String>)
    ensures
        r matches Some(s) ==> s@.len() > 0,
{
    match generator.lock() {
        Ok(mut g) => g.next(),
        Err(_) => None,
    }
}

/// Seconds that each wait of a request may take, unless configured otherwise.
pub const DEFAULT_TIMEOUT_SECS: u64 = 30;

/// Engine state, shared by every request made from one engine.
pub struct InnerEngine {
    /// Name generator for IRC nicknames.
    nicknames: Mutex<names::Generator<'static>>,
    /// How long each wait of a request may take, in seconds.
    timeout_secs: u64,
    /// Name generator for IRC usernames; without one no username is sent.
    usernames: Option<Mutex<names::Generator<'static>>>,
}

impl InnerEngine {
    /// Whether this engine generates usernames.
    pub closed spec fn has_usernames(&self) -> bool {
        self.usernames is Some
    }

    /// How long each wait of a request may take, in seconds.
    pub closed spec fn timeout(&self) -> u64 {
        self.timeout_secs
    }

    /// How long each wait of a request may take, in seconds.
    pub fn timeout_secs(&self) -> (r: u64)
        ensures
            r == self.timeout(),
    {
        self.timeout_secs
    }

    /// A nickname generator, no username generator, and the default timeout.
    pub fn new() -> (r: InnerEngine)
        ensures
            r.timeout() == DEFAULT_TIMEOUT_SECS,
            !r.has_usernames(),
    {
        InnerEngine { nicknames: new_generator(), timeout_secs: DEFAULT_TIMEOUT_SECS, usernames: None }
    }

    /// The next IRC nickname, or `None` where the generator is unavailable.
    pub fn next_nickname(&self) -> (r: Option<String>)
        ensures
            r matches Some(s) ==> s@.len() > 0,
    {
        draw_name(&self.nicknames)
    }

    /// The next IRC username; `None` where this engine has no username
    /// generator or it is unavailable.
    pub fn next_username(&self) -> (r: Option<String>)
        ensures
            !self.has_usernames() ==> r is None,
            r matches Some(s) ==> s@.len() > 0,
    {
        match &self.usernames {
            Some(g) => draw_name(g),
            None => None,
        }
    }
}

impl Default for InnerEngine {
    fn default() -> (r: InnerEngine)
        ensures
            r.timeout() == DEFAULT_TIMEOUT_SECS,
            !r.has_usernames(),
    {
        InnerEngine::new()
    }
}

/// A clonable handle that creates XDCC requests; clones share one state.
#[derive(Clone)]
pub struct Engine(pub Arc<InnerEngine>);

impl Engine {
    /// An engine over a fresh default state.
    pub fn new() -> (r: Engine)
        ensures
            r.0.timeout() == DEFAULT_TIMEOUT_SECS,
            !r.0.has_usernames(),
    {
        Engine(Arc::new(InnerEngine::new()))
    }

    /// A request for pack `packnum` of bot `botname`, in `channel` on `server`,
    /// sharing this engine's state.
    pub fn create_request(&self, server: String, channel: String, botname: String, packnum: u64) -> (r:
        Request)
        ensures
            r.info.server@ == server@,
            r.info.channel@ == channel@,
            r.info.botname@ == botname@,
            r.info.packnum == packnum,
            r.inner == self.0,
    {
        Request { inner: self.0.clone(), info: RequestInfo { server, channel, botname, packnum } }
    }
}

impl Default for Engine {
    fn default() -> (r: Engine)
        ensures
            r.0.timeout() == DEFAULT_TIMEOUT_SECS,
            !r.0.has_usernames(),
    {
        Engine::new()
    }
}

} // verus!
