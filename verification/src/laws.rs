//! The library's laws: proofs over the lifecycle transition functions that
//! state the server's observable guarantees — repeated `Start`s never
//! rebind, a stopped server rebinds the same address, the reported client
//! counts track the set of live connections exactly, `DisconnectClients`
//! is harmless on an empty registry, and `Stop` emits `Stopped` once.

use vstd::prelude::*;
use vstd::set_lib::*;
use crate::commands::{ServerCommand, ServerStatus};
use crate::server::{
    step_accepted, step_acceptor_exited, step_command, step_noop, step_worker_finished,
    ServerEffect, ServerView, Step,
};
use crate::ServerState;

verus! {

/// Feeding a sequence of commands to the controller, one after the other,
/// collecting all effects and statuses in order.
pub open spec fn run_commands(s: ServerView, cmds: Seq<ServerCommand>) -> Step
    decreases cmds.len(),
{
    if cmds.len() == 0 {
        step_noop(s)
    } else {
        let first = step_command(s, cmds[0]);
        let rest = run_commands(first.post, cmds.drop_first());
        Step {
            post: rest.post,
            effects: first.effects + rest.effects,
            statuses: first.statuses + rest.statuses,
        }
    }
}

/// Accepting a sequence of connections, one after the other, under the
/// given ids.
pub open spec fn run_accepts(s: ServerView, ids: Seq<u128>) -> Step
    decreases ids.len(),
{
    if ids.len() == 0 {
        step_noop(s)
    } else {
        let first = step_accepted(s, ids[0]);
        let rest = run_accepts(first.post, ids.drop_first());
        Step {
            post: rest.post,
            effects: first.effects + rest.effects,
            statuses: first.statuses + rest.statuses,
        }
    }
}

/// The workers for the given ids finishing, one after the other.
pub open spec fn run_finishes(s: ServerView, ids: Seq<u128>) -> Step
    decreases ids.len(),
{
    if ids.len() == 0 {
        step_noop(s)
    } else {
        let first = step_worker_finished(s, ids[0]);
        let rest = run_finishes(first.post, ids.drop_first());
        Step {
            post: rest.post,
            effects: first.effects + rest.effects,
            statuses: first.statuses + rest.statuses,
        }
    }
}

/// However many `Start` commands arrive while the server is already
/// running, nothing happens: the state is untouched, no `Bind` is asked
/// for (the listener is not rebound), and no status — in particular no
/// duplicate `Started` — is emitted.
pub proof fn lemma_start_ignored_while_running(s: ServerView, cmds: Seq<ServerCommand>)
    requires
        s.state is Running,
        forall|i: int| 0 <= i < cmds.len() ==> cmds[i] == ServerCommand::Start,
    ensures
        run_commands(s, cmds).post == s,
        run_commands(s, cmds).effects == Seq::<ServerEffect>::empty(),
        run_commands(s, cmds).statuses == Seq::<ServerStatus>::empty(),
    decreases cmds.len(),
{
    if cmds.len() > 0 {
        assert(cmds[0] == ServerCommand::Start);
        assert(step_command(s, cmds[0]) == step_noop(s));
        lemma_start_ignored_while_running(s, cmds.drop_first());
        assert(run_commands(s, cmds).effects =~= Seq::<ServerEffect>::empty());
        assert(run_commands(s, cmds).statuses =~= Seq::<ServerStatus>::empty());
    }
}

/// After `Stop` and the acceptor's exit, a second `Start` succeeds and
/// asks the shell to bind exactly the address of the first run, which the
/// exited acceptor has released.
pub proof fn lemma_restart_binds_same_address(s: ServerView)
    requires
        s.state is Running,
    ensures
        ({
            let stopping = step_command(s, ServerCommand::Stop);
            let stopped = step_acceptor_exited(stopping.post);
            let restarted = step_command(stopped.post, ServerCommand::Start);
            &&& stopping.post.state is Stopping
            &&& stopping.effects == seq![ServerEffect::SignalShutdown]
            &&& stopped.post.state is Stopped
            &&& stopped.statuses == seq![ServerStatus::Stopped]
            &&& restarted.post.state is Starting
            &&& restarted.effects == seq![ServerEffect::Bind(s.addr)]
            &&& restarted.post.addr == s.addr
        }),
{
}

/// Accepting connections under fresh, pairwise-distinct ids: each one is
/// added to the set of live clients, spawns exactly one worker, and is
/// announced with a `ClientConnected` count that equals the number of live
/// clients right after the insertion — the counts never race ahead of the
/// worker lifetimes.
pub proof fn lemma_accepts_track_registry(s: ServerView, ids: Seq<u128>)
    requires
        s.state is Running,
        s.clients.finite(),
        ids.no_duplicates(),
        forall|i: int| 0 <= i < ids.len() ==> !s.clients.contains(ids[i]),
    ensures
        run_accepts(s, ids).post.state == s.state,
        run_accepts(s, ids).post.addr == s.addr,
        run_accepts(s, ids).post.clients == s.clients + ids.to_set(),
        run_accepts(s, ids).post.clients.finite(),
        run_accepts(s, ids).post.clients.len() == s.clients.len() + ids.len(),
        run_accepts(s, ids).effects == ids.map_values(|id: u128| ServerEffect::SpawnWorker(id)),
        run_accepts(s, ids).statuses.len() == ids.len(),
        forall|k: int| 0 <= k < ids.len()
            ==> run_accepts(s, ids).statuses[k]
                == ServerStatus::ClientConnected(((s.clients.len() + k + 1) as nat) as usize),
    decreases ids.len(),
{
    broadcast use vstd::seq_lib::group_seq_properties;

    if ids.len() == 0 {
        assert(s.clients + ids.to_set() =~= s.clients);
        assert(run_accepts(s, ids).effects =~= ids.map_values(|id: u128| ServerEffect::SpawnWorker(id)));
    } else {
        let id0 = ids[0];
        let first = step_accepted(s, id0);
        let s1 = first.post;
        assert(s1.clients == s.clients.insert(id0));
        assert(s1.clients.len() == s.clients.len() + 1);
        let rest_ids = ids.drop_first();
        assert(forall|i: int| 0 <= i < rest_ids.len() ==> rest_ids[i] == ids[i + 1]);
        assert(forall|i: int| 0 <= i < rest_ids.len() ==> !s1.clients.contains(rest_ids[i])) by {
            assert forall|i: int| 0 <= i < rest_ids.len() implies !s1.clients.contains(rest_ids[i]) by {
                assert(rest_ids[i] == ids[i + 1]);
                assert(ids[i + 1] != ids[0]);
            }
        }
        lemma_accepts_track_registry(s1, rest_ids);
        let whole = run_accepts(s, ids);
        let rest = run_accepts(s1, rest_ids);
        assert(s1.clients + rest_ids.to_set() =~= s.clients + ids.to_set()) by {
            assert forall|x: u128| ids.to_set().contains(x)
                implies rest_ids.to_set().contains(x) || x == id0 by {
                let k = choose|k: int| 0 <= k < ids.len() && ids[k] == x;
                if k > 0 {
                    assert(rest_ids[k - 1] == x);
                    assert(rest_ids.contains(x));
                }
            }
            assert forall|x: u128| rest_ids.to_set().contains(x)
                implies ids.to_set().contains(x) by {
                let k = choose|k: int| 0 <= k < rest_ids.len() && rest_ids[k] == x;
                assert(ids[k + 1] == x);
                assert(ids.contains(x));
            }
            assert(ids.to_set().contains(id0)) by {
                assert(ids[0] == id0);
                assert(ids.contains(id0));
            }
        }
        assert(whole.effects =~= ids.map_values(|id: u128| ServerEffect::SpawnWorker(id))) by {
            assert(rest.effects == rest_ids.map_values(|id: u128| ServerEffect::SpawnWorker(id)));
            assert(first.effects == seq![ServerEffect::SpawnWorker(id0)]);
        }
        assert forall|k: int| 0 <= k < ids.len()
            implies whole.statuses[k]
                == ServerStatus::ClientConnected(((s.clients.len() + k + 1) as nat) as usize) by {
            if k == 0 {
                assert(whole.statuses[0] == first.statuses[0]);
            } else {
                assert(whole.statuses[k] == rest.statuses[k - 1]);
                assert(rest.statuses[k - 1]
                    == ServerStatus::ClientConnected(((s1.clients.len() + (k - 1) + 1) as nat) as usize));
            }
        }
    }
}

/// Workers finishing under pairwise-distinct ids that are all live: each
/// finish removes exactly its id and reports the number of clients still
/// live, so after all have finished the registry is empty and the last
/// reported count is zero.  The count equals the cardinality of a set at
/// every step, so it is never negative and never exceeds the number of
/// concurrently live connections.
pub proof fn lemma_finishes_track_registry(s: ServerView, ids: Seq<u128>)
    requires
        s.clients.finite(),
        ids.no_duplicates(),
        forall|i: int| 0 <= i < ids.len() ==> s.clients.contains(ids[i]),
    ensures
        run_finishes(s, ids).post.state == s.state,
        run_finishes(s, ids).post.addr == s.addr,
        run_finishes(s, ids).post.clients == s.clients - ids.to_set(),
        run_finishes(s, ids).post.clients.finite(),
        run_finishes(s, ids).post.clients.len() == s.clients.len() - ids.len(),
        run_finishes(s, ids).effects == Seq::<ServerEffect>::empty(),
        run_finishes(s, ids).statuses.len() == ids.len(),
        forall|k: int| 0 <= k < ids.len()
            ==> run_finishes(s, ids).statuses[k]
                == ServerStatus::ClientDisconnected(((s.clients.len() - k - 1) as nat) as usize),
    decreases ids.len(),
{
    broadcast use vstd::seq_lib::group_seq_properties;

    if ids.len() == 0 {
        assert(s.clients - ids.to_set() =~= s.clients);
    } else {
        let id0 = ids[0];
        let first = step_worker_finished(s, id0);
        let s1 = first.post;
        assert(s1.clients == s.clients.remove(id0));
        assert(ids.len() <= s.clients.len()) by {
            ids.unique_seq_to_set();
            lemma_len_subset(ids.to_set(), s.clients);
            assert(ids.to_set().subset_of(s.clients)) by {
                assert forall|x: u128| ids.to_set().contains(x) implies s.clients.contains(x) by {
                    let k = choose|k: int| 0 <= k < ids.len() && ids[k] == x;
                }
            }
        }
        assert(s1.clients.len() == s.clients.len() - 1);
        let rest_ids = ids.drop_first();
        assert forall|i: int| 0 <= i < rest_ids.len() implies s1.clients.contains(rest_ids[i]) by {
            assert(rest_ids[i] == ids[i + 1]);
            assert(ids[i + 1] != ids[0]);
        }
        lemma_finishes_track_registry(s1, rest_ids);
        let whole = run_finishes(s, ids);
        let rest = run_finishes(s1, rest_ids);
        assert(s1.clients - rest_ids.to_set() =~= s.clients - ids.to_set()) by {
            assert forall|x: u128| ids.to_set().contains(x)
                implies rest_ids.to_set().contains(x) || x == id0 by {
                let k = choose|k: int| 0 <= k < ids.len() && ids[k] == x;
                if k > 0 {
                    assert(rest_ids[k - 1] == x);
                    assert(rest_ids.contains(x));
                }
            }
            assert forall|x: u128| rest_ids.to_set().contains(x)
                implies ids.to_set().contains(x) by {
                let k = choose|k: int| 0 <= k < rest_ids.len() && rest_ids[k] == x;
                assert(ids[k + 1] == x);
                assert(ids.contains(x));
            }
            assert(ids.to_set().contains(id0)) by {
                assert(ids[0] == id0);
                assert(ids.contains(id0));
            }
        }
        assert(whole.effects =~= Seq::<ServerEffect>::empty());
        assert forall|k: int| 0 <= k < ids.len()
            implies whole.statuses[k]
                == ServerStatus::ClientDisconnected(((s.clients.len() - k - 1) as nat) as usize) by {
            if k == 0 {
                assert(whole.statuses[0] == first.statuses[0]);
            } else {
                assert(whole.statuses[k] == rest.statuses[k - 1]);
                assert(rest.statuses[k - 1]
                    == ServerStatus::ClientDisconnected(((s1.clients.len() - (k - 1) - 1) as nat) as usize));
            }
        }
    }
}

/// The registry count is truthful over a whole run: starting from a
/// running server with no clients, accepting `n` connections under
/// distinct ids makes the count exactly `n` (announced as `1, 2, ..., n`),
/// and after all `n` workers have finished the count is exactly `0` again
/// (announced counting down to `0`).
pub proof fn lemma_counts_over_full_run(s: ServerView, ids: Seq<u128>)
    requires
        s.state is Running,
        s.clients =~= Set::<u128>::empty(),
        ids.no_duplicates(),
    ensures
        run_accepts(s, ids).post.clients.len() == ids.len(),
        run_finishes(run_accepts(s, ids).post, ids).post.clients =~= Set::<u128>::empty(),
        forall|k: int| 0 <= k < ids.len()
            ==> run_accepts(s, ids).statuses[k]
                == ServerStatus::ClientConnected(((k + 1) as nat) as usize),
        forall|k: int| 0 <= k < ids.len()
            ==> run_finishes(run_accepts(s, ids).post, ids).statuses[k]
                == ServerStatus::ClientDisconnected(((ids.len() - k - 1) as nat) as usize),
{
    lemma_accepts_track_registry(s, ids);
    let mid = run_accepts(s, ids).post;
    assert(forall|i: int| 0 <= i < ids.len() ==> mid.clients.contains(ids[i])) by {
        assert forall|i: int| 0 <= i < ids.len() implies mid.clients.contains(ids[i]) by {
            assert(ids.to_set().contains(ids[i])) by {
                assert(ids.contains(ids[i]));
            }
        }
    }
    lemma_finishes_track_registry(mid, ids);
    assert(mid.clients - ids.to_set() =~= Set::<u128>::empty()) by {
        assert forall|x: u128| mid.clients.contains(x) implies ids.to_set().contains(x) by {
            assert(mid.clients == s.clients + ids.to_set());
        }
    }
}

/// `DisconnectClients` while no client is connected: the one status
/// `ClientDisconnected(0)` is emitted, and the server is left exactly as
/// it was — the command never errors.
pub proof fn lemma_disconnect_on_empty_registry(s: ServerView)
    requires
        s.clients.finite(),
        s.clients.len() == 0,
    ensures
        step_command(s, ServerCommand::DisconnectClients).post == s,
        step_command(s, ServerCommand::DisconnectClients).statuses
            == seq![ServerStatus::ClientDisconnected(0)],
{
    s.clients.lemma_len0_is_empty();
    assert(step_command(s, ServerCommand::DisconnectClients).post =~= s);
}

/// Stopping twice produces exactly one `Stopped` emission, whether the
/// second `Stop` arrives before or after the acceptor's exit; the second
/// call is a no-op.
pub proof fn lemma_stop_is_idempotent(s: ServerView)
    requires
        s.state is Running,
    ensures
        ({
            let stopping = step_command(s, ServerCommand::Stop);
            let again = step_command(stopping.post, ServerCommand::Stop);
            let stopped = step_acceptor_exited(again.post);
            &&& again == step_noop(stopping.post)
            &&& stopping.statuses + again.statuses + stopped.statuses == seq![ServerStatus::Stopped]
        }),
        ({
            let stopping = step_command(s, ServerCommand::Stop);
            let stopped = step_acceptor_exited(stopping.post);
            let again = step_command(stopped.post, ServerCommand::Stop);
            &&& again == step_noop(stopped.post)
            &&& stopping.statuses + stopped.statuses + again.statuses == seq![ServerStatus::Stopped]
        }),
{
    let stopping = step_command(s, ServerCommand::Stop);
    let again = step_command(stopping.post, ServerCommand::Stop);
    let stopped = step_acceptor_exited(again.post);
    assert(stopping.statuses + again.statuses + stopped.statuses
        =~= seq![ServerStatus::Stopped]);
    let stopped2 = step_acceptor_exited(stopping.post);
    let again2 = step_command(stopped2.post, ServerCommand::Stop);
    assert(stopping.statuses + stopped2.statuses + again2.statuses
        =~= seq![ServerStatus::Stopped]);
}

} // verus!
