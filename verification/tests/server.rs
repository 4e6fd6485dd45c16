use mc_proxy::config::{Config, ManagerConfig, ServerConfig};
use mc_proxy::proxy::{Application, ServerAction, ServerEvent, ServerPhase};
use mc_proxy::util::CancelResult;

#[test]
fn accept_loop_spawns_while_accepting() {
    let app = Application::new();
    let step = app.step(ServerPhase::Accepting, ServerEvent::Accepted, 10);
    assert_eq!(step, (ServerPhase::Accepting, ServerAction::Spawn));
}

#[test]
fn shutdown_starts_the_drain() {
    let app = Application::new();
    let step = app.step(ServerPhase::Accepting, ServerEvent::ShutdownRequested, 7);
    assert_eq!(step, (ServerPhase::Draining, ServerAction::Drain { timeout_sec: 7 }));
}

#[test]
fn nothing_is_accepted_while_draining() {
    let app = Application::new();
    let step = app.step(ServerPhase::Draining, ServerEvent::Accepted, 10);
    assert_eq!(step, (ServerPhase::Draining, ServerAction::Wait));
    let step = app.step(ServerPhase::Draining, ServerEvent::ShutdownRequested, 10);
    assert_eq!(step, (ServerPhase::Draining, ServerAction::Wait));
}

#[test]
fn drain_ends_with_the_tasks_or_the_grace_period() {
    let app = Application::new();
    let stopped = ServerPhase::Stopped { failed: false };
    let exit = ServerAction::Exit { failed: false };
    assert_eq!(app.step(ServerPhase::Draining, ServerEvent::Drained, 10), (stopped, exit));
    assert_eq!(app.step(ServerPhase::Draining, ServerEvent::DrainTimedOut, 10), (stopped, exit));
}

#[test]
fn failed_accept_ends_the_loop_at_once() {
    let app = Application::new();
    let step = app.step(ServerPhase::Accepting, ServerEvent::AcceptFailed, 10);
    let expected = (ServerPhase::Stopped { failed: true }, ServerAction::Exit { failed: true });
    assert_eq!(step, expected);
}

#[test]
fn stopped_loop_stays_stopped() {
    let app = Application::new();
    for failed in [false, true] {
        let phase = ServerPhase::Stopped { failed };
        for event in [ServerEvent::Accepted, ServerEvent::ShutdownRequested, ServerEvent::Drained] {
            assert_eq!(app.step(phase, event, 10), (phase, ServerAction::Exit { failed }));
        }
    }
}

#[test]
fn drain_reports_are_ignored_while_accepting() {
    let app = Application::new();
    for event in [ServerEvent::Drained, ServerEvent::DrainTimedOut] {
        let step = app.step(ServerPhase::Accepting, event, 10);
        assert_eq!(step, (ServerPhase::Accepting, ServerAction::Wait));
    }
}

#[test]
fn default_config() {
    let config = Config::default();
    assert_eq!(config.bind, "0.0.0.0:25565");
    assert_eq!(config.timeout, 10);
    assert!(!config.receive_ppv2);
    assert!(!config.manager.enable);
    assert_eq!(config.manager.host, "m.example.com:9012");
    assert_eq!(config.manager.key, "strong_key");
    assert_eq!(config.manager.tag, "server1");
    assert_eq!(config.servers.len(), 1);
    assert_eq!(config.servers[0].hostname, "mc.example.com");
    assert!(!config.servers[0].ppv2);
    assert_eq!(config.servers[0].backends, vec!["10.0.0.1:25565", "10.0.0.2:25565"]);
}

#[test]
fn default_parts_of_the_config() {
    let manager = ManagerConfig::default();
    assert!(!manager.enable);
    assert_eq!(manager.tag, "server1");
    let server = ServerConfig::default();
    assert_eq!(server.hostname, "mc.example.com");
    assert_eq!(server.backends.len(), 2);
}

#[test]
fn cancel_result_compares() {
    assert!(CancelResult::Success(1) == CancelResult::Success(1));
    assert!(CancelResult::Success(1) != CancelResult::Success(2));
    assert!(CancelResult::<u8>::Cancelled == CancelResult::Cancelled);
    assert!(CancelResult::Success(1) != CancelResult::Cancelled);
}
