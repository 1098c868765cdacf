//! The lifecycle controller: a state machine that consumes control commands
//! and network events, updates the server's state and client registry, and
//! says which effects to perform and which status events to emit.
//!
//! The controller itself performs no I/O.  The shell around the library
//! owns the listener, the shutdown signal and the worker tasks; it calls
//! one method here per command or event, performs the returned effects in
//! order, and forwards the returned statuses to the control plane.  Every
//! transition is specified by a `step_*` spec function, and each method's
//! contract says that it computes exactly that transition.

use vstd::prelude::*;
use crate::commands::{Address, ServerCommand, ServerStatus};
use crate::registry::ClientRegistry;
use crate::ServerState;

verus! {

/// An effect the shell must perform after a transition, in order.
#[derive(Clone, Copy, Debug, PartialEq, Eq, Structural)]
pub enum ServerEffect {
    /// Bind a listener at this address and run the acceptor loop on it.
    Bind(Address),
    /// Broadcast the shutdown signal so the acceptor loop exits between
    /// two accept attempts.
    SignalShutdown,
    /// Hand the connection just accepted to a new worker under this id.
    SpawnWorker(u128),
    /// Force-close the connections of all workers that are still running.
    CancelWorkers,
}

/// The mathematical state of the controller: the lifecycle phase, the
/// configured address, and the set of ids of live client connections.
#[verifier::ext_equal]
pub struct ServerView {
    pub state: ServerState,
    pub addr: Address,
    pub clients: Set<u128>,
}

/// The outcome of one transition: the state afterwards, the effects the
/// shell must perform, and the statuses to report to the control plane.
#[verifier::ext_equal]
pub struct Step {
    pub post: ServerView,
    pub effects: Seq<ServerEffect>,
    pub statuses: Seq<ServerStatus>,
}

/// A transition that changes nothing, asks for nothing and reports nothing.
pub open spec fn step_noop(s: ServerView) -> Step {
    Step { post: s, effects: Seq::empty(), statuses: Seq::empty() }
}

/// How a command is handled.
///
/// - `Start` acts only in `Stopped`: the controller moves to `Starting`
///   and asks the shell to bind the configured address.  In any other
///   phase the command is ignored, so the listener is never rebound and
///   no duplicate `Started` can be emitted.
/// - `Stop` acts only in `Running`: the controller moves to `Stopping`
///   and asks the shell to broadcast the shutdown signal.  `Stopped` is
///   emitted later, once the acceptor loop has exited.  In any other
///   phase the command is ignored.  By policy a bare `Stop` does not
///   force-close running workers: they drain naturally as their clients
///   disconnect, while `DisconnectClients` closes them.
/// - `DisconnectClients` is valid in every phase: the registry is
///   emptied, the shell is asked to close the live connections, and
///   `ClientDisconnected(0)` reports the now-empty registry.
pub open spec fn step_command(s: ServerView, c: ServerCommand) -> Step {
    match c {
        ServerCommand::Start => {
            if s.state is Stopped {
                Step {
                    post: ServerView { state: ServerState::Starting, ..s },
                    effects: seq![ServerEffect::Bind(s.addr)],
                    statuses: Seq::empty(),
                }
            } else {
                step_noop(s)
            }
        },
        ServerCommand::Stop => {
            if s.state is Running {
                Step {
                    post: ServerView { state: ServerState::Stopping, ..s },
                    effects: seq![ServerEffect::SignalShutdown],
                    statuses: Seq::empty(),
                }
            } else {
                step_noop(s)
            }
        },
        ServerCommand::DisconnectClients => {
            Step {
                post: ServerView { clients: Set::empty(), ..s },
                effects: seq![ServerEffect::CancelWorkers],
                statuses: seq![ServerStatus::ClientDisconnected(0)],
            }
        },
    }
}

/// The shell bound the listener: the run is now live, and `Started` is
/// emitted only now, after binding and before any connection can have
/// been accepted under this run.
pub open spec fn step_bound(s: ServerView) -> Step {
    if s.state is Starting {
        Step {
            post: ServerView { state: ServerState::Running, ..s },
            effects: Seq::empty(),
            statuses: seq![ServerStatus::Started(s.addr)],
        }
    } else {
        step_noop(s)
    }
}

/// The shell could not bind the listener (or could not set the transport
/// up): the start attempt is abandoned, the state returns to `Stopped`,
/// and no status is emitted; the error is the shell's to surface.
pub open spec fn step_bind_failed(s: ServerView) -> Step {
    if s.state is Starting {
        Step {
            post: ServerView { state: ServerState::Stopped, ..s },
            effects: Seq::empty(),
            statuses: Seq::empty(),
        }
    } else {
        step_noop(s)
    }
}

/// The acceptor accepted a connection, to be tracked under `id`.  The id
/// is registered before the worker is spawned, so the reported count never
/// understates the number of live workers.  Outside `Running` (a race with
/// shutdown) the connection is not taken: no worker, no status.
pub open spec fn step_accepted(s: ServerView, id: u128) -> Step {
    if s.state is Running {
        Step {
            post: ServerView { clients: s.clients.insert(id), ..s },
            effects: seq![ServerEffect::SpawnWorker(id)],
            statuses: seq![ServerStatus::ClientConnected(s.clients.insert(id).len() as usize)],
        }
    } else {
        step_noop(s)
    }
}

/// One accept attempt failed.  A transient error is logged by the shell
/// and changes nothing.  An error that makes the listener unusable is
/// treated as if shutdown had been signalled: the acceptor loop is about
/// to exit, and the controller waits for that exit in `Stopping`.
pub open spec fn step_accept_failed(s: ServerView, fatal: bool) -> Step {
    if s.state is Running && fatal {
        Step {
            post: ServerView { state: ServerState::Stopping, ..s },
            effects: Seq::empty(),
            statuses: Seq::empty(),
        }
    } else {
        step_noop(s)
    }
}

/// The acceptor loop has exited and the listener is released, so a later
/// `Start` can bind the same address again.  Only now is the registry
/// cleared and `Stopped` emitted — exactly once per run.
pub open spec fn step_acceptor_exited(s: ServerView) -> Step {
    if s.state is Running || s.state is Stopping {
        Step {
            post: ServerView { state: ServerState::Stopped, clients: Set::empty(), ..s },
            effects: Seq::empty(),
            statuses: seq![ServerStatus::Stopped],
        }
    } else {
        step_noop(s)
    }
}

/// A worker finished, on any of its exit paths.  Its id leaves the
/// registry and the new count is reported; if the registry had already
/// been cleared the count simply reports the remaining clients.
pub open spec fn step_worker_finished(s: ServerView, id: u128) -> Step {
    Step {
        post: ServerView { clients: s.clients.remove(id), ..s },
        effects: Seq::empty(),
        statuses: seq![ServerStatus::ClientDisconnected(s.clients.remove(id).len() as usize)],
    }
}

/// Generates a fresh client id.
///
/// Relies on `uuid::Uuid::new_v4`, a randomly generated version-4 UUID,
/// taken as its 128-bit value.  The value is random, so nothing usable can
/// be promised about it; the registry and the transition functions are
/// specified for every id, a repeated one included.
#[verifier::external_body]
fn fresh_client_id() -> u128 {
    uuid::Uuid::new_v4().as_u128()
}

/// The lifecycle controller.  One value of this type owns the whole
/// lifecycle of one server: phase, configured address, and the registry of
/// live clients.
pub struct Server {
    state: ServerState,
    addr: Address,
    clients: ClientRegistry,
}

impl View for Server {
    type V = ServerView;

    closed spec fn view(&self) -> ServerView {
        ServerView { state: self.state, addr: self.addr, clients: self.clients@ }
    }
}

impl Server {
    /// The registry invariant, carried through every transition.
    pub closed spec fn wf(&self) -> bool {
        self.clients.wf()
    }

    /// A new controller for `addr`, stopped, with no clients.
    pub fn new(addr: Address) -> (r: Server)
        ensures
            r.wf(),
            r@.state == ServerState::Stopped,
            r@.addr == addr,
            r@.clients == Set::<u128>::empty(),
    {
        Server { state: ServerState::Stopped, addr, clients: ClientRegistry::new() }
    }

    /// The current lifecycle phase.
    pub fn state(&self) -> (r: ServerState)
        ensures
            r == self@.state,
    {
        self.state
    }

    /// The number of clients currently registered.
    pub fn get_connected_clients_count(&self) -> (r: usize)
        requires
            self.wf(),
        ensures
            r == self@.clients.len(),
    {
        self.clients.count()
    }

    /// Handles one control command; the transition is exactly
    /// `step_command`.
    pub fn on_command(&mut self, c: ServerCommand) -> (r: (Vec<ServerEffect>, Vec<ServerStatus>))
        requires
            old(self).wf(),
        ensures
            final(self).wf(),
            final(self)@ == step_command(old(self)@, c).post,
            r.0@ == step_command(old(self)@, c).effects,
            r.1@ == step_command(old(self)@, c).statuses,
    {
        let mut effects: Vec<ServerEffect> = Vec::new();
        let mut statuses: Vec<ServerStatus> = Vec::new();
        match c {
            ServerCommand::Start => {
                if matches!(self.state, ServerState::Stopped) {
                    self.state = ServerState::Starting;
                    effects.push(ServerEffect::Bind(self.addr));
                }
            },
            ServerCommand::Stop => {
                if matches!(self.state, ServerState::Running) {
                    self.state = ServerState::Stopping;
                    effects.push(ServerEffect::SignalShutdown);
                }
            },
            ServerCommand::DisconnectClients => {
                self.clients.drain();
                effects.push(ServerEffect::CancelWorkers);
                statuses.push(ServerStatus::ClientDisconnected(0));
            },
        }
        (effects, statuses)
    }

    /// The shell reports that the listener is bound; the transition is
    /// exactly `step_bound`.
    pub fn on_bound(&mut self) -> (r: Vec<ServerStatus>)
        requires
            old(self).wf(),
        ensures
            final(self).wf(),
            final(self)@ == step_bound(old(self)@).post,
            step_bound(old(self)@).effects == Seq::<ServerEffect>::empty(),
            r@ == step_bound(old(self)@).statuses,
    {
        let mut statuses: Vec<ServerStatus> = Vec::new();
        if matches!(self.state, ServerState::Starting) {
            self.state = ServerState::Running;
            statuses.push(ServerStatus::Started(self.addr));
        }
        statuses
    }

    /// The shell reports that binding (or transport setup) failed; the
    /// transition is exactly `step_bind_failed`.
    pub fn on_bind_failed(&mut self) -> (r: Vec<ServerStatus>)
        requires
            old(self).wf(),
        ensures
            final(self).wf(),
            final(self)@ == step_bind_failed(old(self)@).post,
            r@ == step_bind_failed(old(self)@).statuses,
            r@ == Seq::<ServerStatus>::empty(),
    {
        if matches!(self.state, ServerState::Starting) {
            self.state = ServerState::Stopped;
        }
        Vec::new()
    }

    /// The acceptor accepted a connection.  A fresh id is drawn, and the
    /// transition is exactly `step_accepted` for that id, which the caller
    /// receives for the worker it is about to spawn.
    pub fn on_accepted(&mut self) -> (r: (u128, Vec<ServerEffect>, Vec<ServerStatus>))
        requires
            old(self).wf(),
        ensures
            final(self).wf(),
            final(self)@ == step_accepted(old(self)@, r.0).post,
            r.1@ == step_accepted(old(self)@, r.0).effects,
            r.2@ == step_accepted(old(self)@, r.0).statuses,
    {
        let id = fresh_client_id();
        let mut effects: Vec<ServerEffect> = Vec::new();
        let mut statuses: Vec<ServerStatus> = Vec::new();
        if matches!(self.state, ServerState::Running) {
            let count = self.clients.insert(id);
            effects.push(ServerEffect::SpawnWorker(id));
            statuses.push(ServerStatus::ClientConnected(count));
        }
        (id, effects, statuses)
    }

    /// One accept attempt failed; the transition is exactly
    /// `step_accept_failed`.
    pub fn on_accept_failed(&mut self, fatal: bool) -> (r: Vec<ServerStatus>)
        requires
            old(self).wf(),
        ensures
            final(self).wf(),
            final(self)@ == step_accept_failed(old(self)@, fatal).post,
            r@ == step_accept_failed(old(self)@, fatal).statuses,
            r@ == Seq::<ServerStatus>::empty(),
    {
        if matches!(self.state, ServerState::Running) && fatal {
            self.state = ServerState::Stopping;
        }
        Vec::new()
    }

    /// The acceptor loop has exited; the transition is exactly
    /// `step_acceptor_exited`.
    pub fn on_acceptor_exited(&mut self) -> (r: Vec<ServerStatus>)
        requires
            old(self).wf(),
        ensures
            final(self).wf(),
            final(self)@ == step_acceptor_exited(old(self)@).post,
            r@ == step_acceptor_exited(old(self)@).statuses,
    {
        let mut statuses: Vec<ServerStatus> = Vec::new();
        if matches!(self.state, ServerState::Running)
            || matches!(self.state, ServerState::Stopping) {
            self.state = ServerState::Stopped;
            self.clients.drain();
            statuses.push(ServerStatus::Stopped);
        }
        statuses
    }

    /// A worker finished; the transition is exactly `step_worker_finished`.
    pub fn on_worker_finished(&mut self, id: u128) -> (r: Vec<ServerStatus>)
        requires
            old(self).wf(),
        ensures
            final(self).wf(),
            final(self)@ == step_worker_finished(old(self)@, id).post,
            r@ == step_worker_finished(old(self)@, id).statuses,
    {
        let count = self.clients.remove(id);
        let mut statuses: Vec<ServerStatus> = Vec::new();
        statuses.push(ServerStatus::ClientDisconnected(count));
        statuses
    }
}

} // verus!
