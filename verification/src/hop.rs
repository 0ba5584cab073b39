//! Constructing and using an instance of the engine.
//!
//! A [`Config`] holds how an engine operates, a [`Builder`] makes an engine
//! with a configuration of its own, and a [`Hop`] engine dispatches
//! requests against its state.

use crate::command::impls::{Append, Decrement, DecrementBy, Delete, Echo, Exists, Increment, IncrementBy, Is, Length, Rename, SetValue, Stats};
use crate::command::request::RequestView;
use crate::command::{answered, effective_key_type, Answer, CommandId, Dispatch, DispatchResult, Request};
use crate::metrics::{Metric, Metrics};
use crate::pubsub::Subscriptions;
use crate::session::{SessionManager, SessionManagerView};
use crate::state::value::ValueView;
use crate::state::{internal_key, KeyType, State};
use vstd::prelude::*;

verus! {

/// How an engine operates: whether pubsub is enabled and how many sessions
/// may be active at a time.
#[derive(Clone, Copy, Debug, PartialEq, Eq, Structural)]
pub struct Config {
    pubsub_enabled: bool,
    sessions_active_max: usize,
}

impl Config {
    pub closed spec fn spec_pubsub_enabled(self) -> bool {
        self.pubsub_enabled
    }

    pub closed spec fn spec_sessions_active_max(self) -> usize {
        self.sessions_active_max
    }

    /// Whether pubsub is enabled.
    pub fn pubsub_enabled(&self) -> (r: bool)
        ensures
            r == self.spec_pubsub_enabled(),
    {
        self.pubsub_enabled
    }

    /// The largest number of sessions that may be active at a time.
    pub fn sessions_active_max(&self) -> (r: usize)
        ensures
            r == self.spec_sessions_active_max(),
    {
        self.sessions_active_max
    }
}

impl Default for Config {
    /// Pubsub enabled, and no limit on sessions but the largest `usize`.
    fn default() -> (r: Self)
        ensures
            r.spec_pubsub_enabled(),
            r.spec_sessions_active_max() == usize::MAX,
    {
        Config { pubsub_enabled: true, sessions_active_max: usize::MAX }
    }
}

/// A builder of a configured [`Hop`] engine; each setting starts at the
/// value of [`Config::default`].
#[derive(Clone, Copy, Debug)]
pub struct Builder(Config);

impl Builder {
    pub closed spec fn spec_config(self) -> Config {
        self.0
    }

    /// A builder with the default configuration.
    pub fn new() -> (r: Self)
        ensures
            r.spec_config().spec_pubsub_enabled(),
            r.spec_config().spec_sessions_active_max() == usize::MAX,
    {
        Builder(Config::default())
    }

    /// The engine with the configuration built so far.
    pub fn build(self) -> (r: Hop)
        ensures
            r@.config == self.spec_config(),
            r@.state == Map::<Seq<u8>, ValueView>::empty(),
            r@.sessions.sessions.is_empty(),
            r@.sessions.next_id == 0,
            forall|m: crate::metrics::Metric| r@.metrics.count(m) is None,
            r@.pubsub.is_empty(),
    {
        Hop::with_config(self.0)
    }

    /// Sets whether pubsub is enabled.
    pub fn pubsub_enabled(&mut self, pubsub_enabled: bool) -> (r: &mut Self)
        ensures
            r.spec_config().spec_pubsub_enabled() == pubsub_enabled,
            r.spec_config().spec_sessions_active_max() == old(
                self,
            ).spec_config().spec_sessions_active_max(),
            *final(self) == *final(r),
    {
        self.0.pubsub_enabled = pubsub_enabled;
        self
    }

    /// Sets the largest number of sessions that may be active at a time.
    pub fn sessions_active_max(&mut self, sessions_active_max: usize) -> (r: &mut Self)
        ensures
            r.spec_config().spec_sessions_active_max() == sessions_active_max,
            r.spec_config().spec_pubsub_enabled() == old(self).spec_config().spec_pubsub_enabled(),
            *final(self) == *final(r),
    {
        self.0.sessions_active_max = sessions_active_max;
        self
    }
}

/// What an engine is: its configuration, counters, sessions, store and
/// subscriptions.
pub struct HopView {
    pub config: Config,
    pub metrics: Metrics,
    pub sessions: SessionManagerView,
    pub state: Map<Seq<u8>, ValueView>,
    pub pubsub: Set<(u32, Seq<u8>)>,
}

impl HopView {
    /// Whether dispatching the request panics: it does when the command
    /// reaches into one of the engine's internal keys.
    pub open spec fn dispatch_panics(self, req: RequestView) -> bool {
        match req.command_id {
            CommandId::Append => Append::panics(self, req),
            CommandId::DecrementBy => DecrementBy::panics(self, req),
            CommandId::Decrement => Decrement::panics(self, req),
            CommandId::Delete => Delete::panics(self, req),
            CommandId::Echo => Echo::panics(self, req),
            CommandId::Exists => Exists::panics(self, req),
            CommandId::Increment => Increment::panics(self, req),
            CommandId::IncrementBy => IncrementBy::panics(self, req),
            CommandId::Is => Is::panics(self, req),
            CommandId::Rename => Rename::panics(self, req),
            CommandId::SetValue => SetValue::panics(self, req),
            CommandId::Stats => Stats::panics(self, req),
            CommandId::Length => Length::panics(self, req),
        }
    }

    /// What the request's command answers, and the store it leaves.
    pub open spec fn dispatched(self, req: RequestView) -> (Answer, Map<Seq<u8>, ValueView>) {
        match req.command_id {
            CommandId::Append => Append::answer(self, req),
            CommandId::DecrementBy => DecrementBy::answer(self, req),
            CommandId::Decrement => Decrement::answer(self, req),
            CommandId::Delete => Delete::answer(self, req),
            CommandId::Echo => Echo::answer(self, req),
            CommandId::Exists => Exists::answer(self, req),
            CommandId::Increment => Increment::answer(self, req),
            CommandId::IncrementBy => IncrementBy::answer(self, req),
            CommandId::Is => Is::answer(self, req),
            CommandId::Rename => Rename::answer(self, req),
            CommandId::SetValue => SetValue::answer(self, req),
            CommandId::Stats => Stats::answer(self, req),
            CommandId::Length => Length::answer(self, req),
        }
    }

    /// The engine with its store replaced.
    pub open spec fn with_state(self, state: Map<Seq<u8>, ValueView>) -> HopView {
        HopView { state, ..self }
    }
}

/// The engine.
#[derive(Debug)]
pub struct Hop {
    config: Config,
    metrics: Metrics,
    sessions: SessionManager,
    state: State,
    pubsub: Subscriptions,
}

impl View for Hop {
    type V = HopView;

    closed spec fn view(&self) -> HopView {
        HopView {
            config: self.config,
            metrics: self.metrics,
            sessions: self.sessions@,
            state: self.state@,
            pubsub: self.pubsub@,
        }
    }
}

impl Default for Hop {
    /// The engine of [`Hop::new`].
    fn default() -> (r: Self)
        ensures
            r@.config.spec_pubsub_enabled(),
            r@.config.spec_sessions_active_max() == usize::MAX,
            r@.state == Map::<Seq<u8>, ValueView>::empty(),
            r@.sessions.sessions.is_empty(),
            r@.sessions.next_id == 0,
            r@.pubsub.is_empty(),
    {
        Hop::new()
    }
}

impl Default for Builder {
    /// The builder of [`Builder::new`].
    fn default() -> (r: Self)
        ensures
            r.spec_config().spec_pubsub_enabled(),
            r.spec_config().spec_sessions_active_max() == usize::MAX,
    {
        Builder::new()
    }
}

impl Hop {
    fn with_config(config: Config) -> (r: Hop)
        ensures
            r@.config == config,
            r@.state == Map::<Seq<u8>, ValueView>::empty(),
            r@.sessions.sessions.is_empty(),
            r@.sessions.next_id == 0,
            forall|m: crate::metrics::Metric| r@.metrics.count(m) is None,
            r@.pubsub.is_empty(),
    {
        let r = Hop {
            config,
            metrics: Metrics::new(),
            sessions: SessionManager::new(),
            state: State::new(),
            pubsub: Subscriptions::new(),
        };
        r
    }

    /// An engine with the default configuration, an empty store, no sessions
    /// and counters that were never incremented.
    pub fn new() -> (r: Hop)
        ensures
            r@.config.spec_pubsub_enabled(),
            r@.config.spec_sessions_active_max() == usize::MAX,
            r@.state == Map::<Seq<u8>, ValueView>::empty(),
            r@.sessions.sessions.is_empty(),
            r@.sessions.next_id == 0,
            forall|m: crate::metrics::Metric| r@.metrics.count(m) is None,
            r@.pubsub.is_empty(),
    {
        Hop::with_config(Config::default())
    }

    /// A builder of a configured engine.
    pub fn builder() -> (r: Builder)
        ensures
            r.spec_config().spec_pubsub_enabled(),
            r.spec_config().spec_sessions_active_max() == usize::MAX,
    {
        Builder::new()
    }

    /// Carries out the request, writing the response to `res`, and counts
    /// whether it succeeded.
    pub fn dispatch(&mut self, req: &Request, res: &mut Vec<u8>) -> (r: DispatchResult<()>)
        requires
            !old(self)@.dispatch_panics(req@),
        ensures
            final(self)@.state == old(self)@.dispatched(req@).1,
            final(self)@.config == old(self)@.config,
            final(self)@.sessions == old(self)@.sessions,
            final(self)@.pubsub == old(self)@.pubsub,
            final(self)@.metrics == old(self)@.metrics.after(
                if r is Ok {
                    Metric::CommandsSuccessful
                } else {
                    Metric::CommandsErrored
                },
            ),
            answered(old(self)@.dispatched(req@).0, r, old(res)@, final(res)@),
    {
        let r = match req.command_id() {
            CommandId::Append => Append::dispatch(self, req, res),
            CommandId::DecrementBy => DecrementBy::dispatch(self, req, res),
            CommandId::Decrement => Decrement::dispatch(self, req, res),
            CommandId::Delete => Delete::dispatch(self, req, res),
            CommandId::Echo => Echo::dispatch(self, req, res),
            CommandId::Exists => Exists::dispatch(self, req, res),
            CommandId::Increment => Increment::dispatch(self, req, res),
            CommandId::IncrementBy => IncrementBy::dispatch(self, req, res),
            CommandId::Is => Is::dispatch(self, req, res),
            CommandId::Rename => Rename::dispatch(self, req, res),
            CommandId::SetValue => SetValue::dispatch(self, req, res),
            CommandId::Stats => Stats::dispatch(self, req, res),
            CommandId::Length => Length::dispatch(self, req, res),
        };
        self.metrics.increment(
            if r.is_ok() {
                Metric::CommandsSuccessful
            } else {
                Metric::CommandsErrored
            },
        );
        r
    }

    /// The key type that a request works with on `key`: the requested one,
    /// else that of the key's value, else bytes.
    fn effective_key_type(&self, req: &Request, key: &[u8]) -> (r: KeyType)
        ensures
            r == effective_key_type(self@.state, req@, key@),
    {
        match req.key_type() {
            Some(t) => t,
            None => match self.state.key_type(key) {
                Some(t) => t,
                None => KeyType::Bytes,
            },
        }
    }

    /// Whether dispatching the request would panic, which it does when the
    /// command reaches into one of the engine's internal keys.
    pub fn dispatch_panics(&self, req: &Request) -> (r: bool)
        ensures
            r == self@.dispatch_panics(req@),
    {
        match req.command_id() {
            CommandId::Append => match req.arg(0) {
                Some(k) => internal_key(k) && match self.effective_key_type(req, k) {
                    KeyType::Bytes | KeyType::List | KeyType::String => true,
                    _ => false,
                },
                None => false,
            },
            CommandId::DecrementBy | CommandId::IncrementBy => match req.key() {
                Some(k) => internal_key(k) && req.typed_arg::<i64>(1).is_some(),
                None => false,
            },
            CommandId::Decrement | CommandId::Increment => match req.key() {
                Some(k) => internal_key(k),
                None => false,
            },
            CommandId::SetValue => match req.key() {
                Some(k) => {
                    if !internal_key(k) || req.arg(1).is_none() {
                        false
                    } else if req.key_type().is_none() {
                        true
                    } else {
                        SetValue::value_of(req, self.effective_key_type(req, k)).is_some()
                    }
                },
                None => false,
            },
            CommandId::Length => match req.key() {
                Some(k) => internal_key(k) && match self.effective_key_type(req, k) {
                    KeyType::Bytes | KeyType::List | KeyType::ByteMap | KeyType::ByteSet
                    | KeyType::String => true,
                    _ => false,
                },
                None => false,
            },
            CommandId::Delete | CommandId::Echo | CommandId::Exists | CommandId::Is
            | CommandId::Rename | CommandId::Stats => false,
        }
    }

    /// The configuration.
    pub fn config(&self) -> (r: &Config)
        ensures
            *r == self@.config,
    {
        &self.config
    }

    /// The counters.
    pub fn metrics(&self) -> (r: &Metrics)
        ensures
            *r == self@.metrics,
    {
        &self.metrics
    }

    /// The counters, to count with.
    pub fn metrics_mut(&mut self) -> (r: &mut Metrics)
        ensures
            *r == old(self)@.metrics,
            final(self)@ == (HopView { metrics: *final(r), ..old(self)@ }),
    {
        &mut self.metrics
    }

    /// The subscriptions of sessions to keys.
    pub fn pubsub(&self) -> (r: &Subscriptions)
        ensures
            r@ == self@.pubsub,
    {
        &self.pubsub
    }

    /// The subscriptions, to subscribe and unsubscribe sessions.
    pub fn pubsub_mut(&mut self) -> (r: &mut Subscriptions)
        ensures
            r@ == old(self)@.pubsub,
            final(self)@ == (HopView { pubsub: final(r)@, ..old(self)@ }),
    {
        &mut self.pubsub
    }

    /// The sessions.
    pub fn sessions(&self) -> (r: &SessionManager)
        ensures
            r@ == self@.sessions,
    {
        &self.sessions
    }

    /// The sessions, to add and remove them.
    pub fn sessions_mut(&mut self) -> (r: &mut SessionManager)
        ensures
            r@ == old(self)@.sessions,
            final(self)@ == (HopView { sessions: final(r)@, ..old(self)@ }),
    {
        &mut self.sessions
    }

    /// The store.
    pub fn state(&self) -> (r: &State)
        ensures
            r@ == self@.state,
    {
        &self.state
    }

    /// The store, to change it.
    pub fn state_mut(&mut self) -> (r: &mut State)
        ensures
            r@ == old(self)@.state,
            final(self)@ == old(self)@.with_state(final(r)@),
    {
        &mut self.state
    }
}

} // verus!
