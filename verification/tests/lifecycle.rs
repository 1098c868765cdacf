use remote_input_server::commands::{Address, ServerCommand, ServerStatus};
use remote_input_server::server::{Server, ServerEffect};
use remote_input_server::ServerState;

fn local_addr() -> Address {
    Address { a: 127, b: 0, c: 0, d: 1, port: 8080 }
}

#[test]
fn start_from_stopped_binds_and_reports_started_after_bind() {
    let mut s = Server::new(local_addr());
    assert_eq!(s.state(), ServerState::Stopped);

    let (effects, statuses) = s.on_command(ServerCommand::Start);
    assert_eq!(effects, vec![ServerEffect::Bind(local_addr())]);
    assert!(statuses.is_empty());
    assert_eq!(s.state(), ServerState::Starting);

    let statuses = s.on_bound();
    assert_eq!(statuses, vec![ServerStatus::Started(local_addr())]);
    assert_eq!(s.state(), ServerState::Running);
}

#[test]
fn start_while_running_is_ignored() {
    let mut s = Server::new(local_addr());
    s.on_command(ServerCommand::Start);
    s.on_bound();
    assert_eq!(s.state(), ServerState::Running);

    // However many Starts arrive, nothing rebinds and nothing is emitted.
    for _ in 0..5 {
        let (effects, statuses) = s.on_command(ServerCommand::Start);
        assert!(effects.is_empty());
        assert!(statuses.is_empty());
        assert_eq!(s.state(), ServerState::Running);
    }
}

#[test]
fn bind_failure_returns_to_stopped_without_status() {
    let mut s = Server::new(local_addr());
    s.on_command(ServerCommand::Start);
    let statuses = s.on_bind_failed();
    assert!(statuses.is_empty());
    assert_eq!(s.state(), ServerState::Stopped);
}

#[test]
fn stop_then_start_rebinds_the_same_address() {
    let mut s = Server::new(local_addr());
    s.on_command(ServerCommand::Start);
    s.on_bound();

    let (effects, statuses) = s.on_command(ServerCommand::Stop);
    assert_eq!(effects, vec![ServerEffect::SignalShutdown]);
    assert!(statuses.is_empty());
    assert_eq!(s.state(), ServerState::Stopping);

    let statuses = s.on_acceptor_exited();
    assert_eq!(statuses, vec![ServerStatus::Stopped]);
    assert_eq!(s.state(), ServerState::Stopped);

    // The second Start succeeds and asks for exactly the first address.
    let (effects, _) = s.on_command(ServerCommand::Start);
    assert_eq!(effects, vec![ServerEffect::Bind(local_addr())]);
    assert_eq!(s.state(), ServerState::Starting);
}

#[test]
fn stop_twice_emits_stopped_exactly_once() {
    let mut s = Server::new(local_addr());
    s.on_command(ServerCommand::Start);
    s.on_bound();

    let mut emitted: Vec<ServerStatus> = Vec::new();
    let (_, st) = s.on_command(ServerCommand::Stop);
    emitted.extend(st);
    let (eff2, st2) = s.on_command(ServerCommand::Stop);
    assert!(eff2.is_empty());
    emitted.extend(st2);
    emitted.extend(s.on_acceptor_exited());
    assert_eq!(emitted, vec![ServerStatus::Stopped]);

    // And a Stop after everything settled is a no-op too.
    let (eff3, st3) = s.on_command(ServerCommand::Stop);
    assert!(eff3.is_empty());
    assert!(st3.is_empty());
    assert_eq!(s.state(), ServerState::Stopped);
}

#[test]
fn client_counts_track_live_connections() {
    let mut s = Server::new(local_addr());
    s.on_command(ServerCommand::Start);
    s.on_bound();

    let mut ids: Vec<u128> = Vec::new();
    for k in 1..=3usize {
        let (id, effects, statuses) = s.on_accepted();
        assert_eq!(effects, vec![ServerEffect::SpawnWorker(id)]);
        assert_eq!(statuses, vec![ServerStatus::ClientConnected(k)]);
        assert_eq!(s.get_connected_clients_count(), k);
        ids.push(id);
    }
    for (k, id) in ids.iter().enumerate() {
        let statuses = s.on_worker_finished(*id);
        assert_eq!(statuses, vec![ServerStatus::ClientDisconnected(2 - k)]);
    }
    assert_eq!(s.get_connected_clients_count(), 0);
}

#[test]
fn worker_finish_after_drain_reports_remaining_count() {
    let mut s = Server::new(local_addr());
    s.on_command(ServerCommand::Start);
    s.on_bound();
    let (id, _, _) = s.on_accepted();
    let (_, statuses) = s.on_command(ServerCommand::DisconnectClients);
    assert_eq!(statuses, vec![ServerStatus::ClientDisconnected(0)]);
    // The worker's own exit still reports truthfully: nothing is tracked.
    let statuses = s.on_worker_finished(id);
    assert_eq!(statuses, vec![ServerStatus::ClientDisconnected(0)]);
}

#[test]
fn disconnect_clients_on_empty_registry_is_harmless() {
    let mut s = Server::new(local_addr());
    assert_eq!(s.get_connected_clients_count(), 0);
    let (effects, statuses) = s.on_command(ServerCommand::DisconnectClients);
    assert_eq!(effects, vec![ServerEffect::CancelWorkers]);
    assert_eq!(statuses, vec![ServerStatus::ClientDisconnected(0)]);
    assert_eq!(s.state(), ServerState::Stopped);
    assert_eq!(s.get_connected_clients_count(), 0);
}

#[test]
fn full_run_scenario() {
    // Start; client connects and disconnects; Stop; Start again.
    let mut s = Server::new(Address { a: 127, b: 0, c: 0, d: 1, port: 0 });
    let (effects, _) = s.on_command(ServerCommand::Start);
    assert_eq!(effects.len(), 1);
    let statuses = s.on_bound();
    assert_eq!(statuses, vec![ServerStatus::Started(Address { a: 127, b: 0, c: 0, d: 1, port: 0 })]);

    let (id, _, statuses) = s.on_accepted();
    assert_eq!(statuses, vec![ServerStatus::ClientConnected(1)]);
    let statuses = s.on_worker_finished(id);
    assert_eq!(statuses, vec![ServerStatus::ClientDisconnected(0)]);

    s.on_command(ServerCommand::Stop);
    let statuses = s.on_acceptor_exited();
    assert_eq!(statuses, vec![ServerStatus::Stopped]);

    let (effects, _) = s.on_command(ServerCommand::Start);
    assert_eq!(effects, vec![ServerEffect::Bind(Address { a: 127, b: 0, c: 0, d: 1, port: 0 })]);
}

#[test]
fn accept_outside_running_takes_no_connection() {
    let mut s = Server::new(local_addr());
    let (_, effects, statuses) = s.on_accepted();
    assert!(effects.is_empty());
    assert!(statuses.is_empty());
    assert_eq!(s.get_connected_clients_count(), 0);
}

#[test]
fn fatal_accept_error_behaves_like_shutdown() {
    let mut s = Server::new(local_addr());
    s.on_command(ServerCommand::Start);
    s.on_bound();
    let statuses = s.on_accept_failed(false);
    assert!(statuses.is_empty());
    assert_eq!(s.state(), ServerState::Running);
    let statuses = s.on_accept_failed(true);
    assert!(statuses.is_empty());
    assert_eq!(s.state(), ServerState::Stopping);
    let statuses = s.on_acceptor_exited();
    assert_eq!(statuses, vec![ServerStatus::Stopped]);
}
