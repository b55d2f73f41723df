use telemetry_link::config::{
    LinkConfig, LinkParams, DATA_RATE, IDENTIFY_COMMAND, PROBE_TIMEOUT_MS, PROBE_WINDOW_MS, RETRY_DELAY_MS,
    SETTLE_DELAY_MS, START_COMMAND, STREAM_TIMEOUT_MS,
};
use telemetry_link::discovery::{Discovery, DiscoveryAction, DiscoveryEvent};
use telemetry_link::supervisor::{LinkAction, LinkEvent, Supervisor};

#[test]
fn standard_configuration() {
    let config = LinkConfig::standard();
    assert_eq!(config.params.data_rate, 230400);
    assert_eq!(config.params.stream_timeout_ms, 5000);
    assert_eq!(config.params.probe_timeout_ms, 1000);
    assert_eq!(config.params.probe_window_ms, 2000);
    assert_eq!(config.params.settle_delay_ms, 4);
    assert_eq!(config.params.retry_delay_ms, 5000);
    assert_eq!(config.params, LinkParams::standard());
    assert_eq!(config.identity_markers, vec!["UNO-R4".to_string(), "UNO-R3".to_string()]);
}

#[test]
fn constants() {
    assert_eq!(DATA_RATE, 230400);
    assert_eq!(STREAM_TIMEOUT_MS, 5000);
    assert_eq!(PROBE_TIMEOUT_MS, 1000);
    assert_eq!(PROBE_WINDOW_MS, 2000);
    assert_eq!(SETTLE_DELAY_MS, 4);
    assert_eq!(RETRY_DELAY_MS, 5000);
    assert_eq!(START_COMMAND.as_bytes(), b"START\r\n");
    assert_eq!(IDENTIFY_COMMAND.as_bytes(), b"WHORU\n");
}

#[test]
fn discovery_runs_on_the_standard_configuration() {
    let config = LinkConfig::standard();
    let mut machine = Discovery::new(config.identity_markers, config.params);
    machine.step(DiscoveryEvent::Begin);
    assert_eq!(
        machine.step(DiscoveryEvent::Candidates(vec!["COM3".to_string()])),
        Some(DiscoveryAction::Open { index: 0, data_rate: 230400, timeout_ms: 1000 })
    );
    machine.step(DiscoveryEvent::Opened);
    machine.step(DiscoveryEvent::CommandSent);
    assert_eq!(
        machine.step(DiscoveryEvent::Silence { elapsed_ms: 1999 }),
        Some(DiscoveryAction::Listen)
    );
    assert_eq!(
        machine.step(DiscoveryEvent::Data { bytes: b"UNO-R3".to_vec(), elapsed_ms: 1999 }),
        Some(DiscoveryAction::Report { index: 0 })
    );
}

#[test]
fn exhausted_sweep_rests_for_the_standard_delay() {
    let config = LinkConfig::standard();
    let mut machine = Discovery::new(config.identity_markers, config.params);
    machine.step(DiscoveryEvent::Begin);
    machine.step(DiscoveryEvent::Candidates(vec!["COM3".to_string()]));
    assert_eq!(
        machine.step(DiscoveryEvent::OpenFailed),
        Some(DiscoveryAction::Rest { delay_ms: 5000 })
    );
}

#[test]
fn supervisor_runs_on_the_standard_numbers() {
    let mut supervisor = Supervisor::new(LinkParams::standard(), true);
    assert_eq!(
        supervisor.step(LinkEvent::StartOn("COM3".to_string())),
        Some(LinkAction::OpenLink { data_rate: 230400, timeout_ms: 5000 })
    );
    assert_eq!(
        supervisor.step(LinkEvent::LinkOpened),
        Some(LinkAction::SendStart { settle_delay_ms: 4 })
    );
    assert_eq!(supervisor.step(LinkEvent::CommandSent), Some(LinkAction::Read));
    assert_eq!(
        supervisor.step(LinkEvent::LinkError),
        Some(LinkAction::WaitRetry { release_link: true, delay_ms: 5000 })
    );
}
