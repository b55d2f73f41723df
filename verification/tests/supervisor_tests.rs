use telemetry_link::config::LinkParams;
use telemetry_link::frame::encode_frame;
use telemetry_link::supervisor::{LinkAction, LinkEvent, LinkState, Supervisor};

fn params() -> LinkParams {
    LinkParams {
        data_rate: 115200,
        stream_timeout_ms: 4000,
        probe_timeout_ms: 700,
        probe_window_ms: 1500,
        settle_delay_ms: 3,
        retry_delay_ms: 2500,
    }
}

fn fresh() -> Supervisor {
    Supervisor::new(params(), true)
}

fn open_link() -> Option<LinkAction> {
    Some(LinkAction::OpenLink { data_rate: 115200, timeout_ms: 4000 })
}

fn send_start() -> Option<LinkAction> {
    Some(LinkAction::SendStart { settle_delay_ms: 3 })
}

fn wait_retry(release_link: bool) -> Option<LinkAction> {
    Some(LinkAction::WaitRetry { release_link, delay_ms: 2500 })
}

fn streaming() -> Supervisor {
    let mut supervisor = fresh();
    assert_eq!(supervisor.step(LinkEvent::Start), Some(LinkAction::Discover));
    assert_eq!(
        supervisor.step(LinkEvent::DeviceFound("/dev/ttyACM0".to_string())),
        open_link()
    );
    assert_eq!(supervisor.step(LinkEvent::LinkOpened), send_start());
    assert_eq!(supervisor.step(LinkEvent::CommandSent), Some(LinkAction::Read));
    supervisor
}

fn delivered(action: Option<LinkAction>) -> Vec<Vec<i16>> {
    match action {
        Some(LinkAction::Deliver(samples)) => samples.iter().map(|s| s.to_vec()).collect(),
        other => panic!("no delivery: {:?}", other),
    }
}

#[test]
fn new_supervisor_is_idle() {
    let supervisor = fresh();
    assert_eq!(supervisor.state(), LinkState::Idle);
    assert!(!supervisor.link_held());
    assert_eq!(supervisor.port(), "");
}

#[test]
fn states_follow_the_cycle() {
    let mut supervisor = fresh();
    let mut seen = vec![supervisor.state()];
    supervisor.step(LinkEvent::Start);
    seen.push(supervisor.state());
    supervisor.step(LinkEvent::DeviceFound("COM7".to_string()));
    seen.push(supervisor.state());
    assert_eq!(supervisor.port(), "COM7");
    assert!(!supervisor.link_held());
    supervisor.step(LinkEvent::LinkOpened);
    seen.push(supervisor.state());
    assert!(supervisor.link_held());
    supervisor.step(LinkEvent::CommandSent);
    seen.push(supervisor.state());
    assert_eq!(
        seen,
        vec![
            LinkState::Idle,
            LinkState::Discovering,
            LinkState::Connected,
            LinkState::Connected,
            LinkState::Streaming
        ]
    );
}

#[test]
fn link_error_while_streaming_leads_back_to_discovery() {
    let mut supervisor = streaming();
    let mut seen = vec![supervisor.state()];
    assert_eq!(
        supervisor.step(LinkEvent::LinkError),
        wait_retry(true)
    );
    seen.push(supervisor.state());
    assert!(!supervisor.link_held());
    assert_eq!(supervisor.step(LinkEvent::RetryElapsed), Some(LinkAction::Discover));
    seen.push(supervisor.state());
    assert_eq!(
        seen,
        vec![LinkState::Streaming, LinkState::Disconnected, LinkState::Discovering]
    );
    assert_eq!(
        supervisor.step(LinkEvent::DeviceFound("COM9".to_string())),
        open_link()
    );
    assert_eq!(supervisor.port(), "COM9");
    assert_eq!(supervisor.state(), LinkState::Connected);
}

#[test]
fn timeout_keeps_streaming() {
    let mut supervisor = streaming();
    for _ in 0..5 {
        assert_eq!(supervisor.step(LinkEvent::ReadTimeout), Some(LinkAction::Read));
        assert_eq!(supervisor.state(), LinkState::Streaming);
        assert!(supervisor.link_held());
    }
}

#[test]
fn failed_start_command_still_starts_the_read_loop() {
    let mut supervisor = fresh();
    supervisor.step(LinkEvent::Start);
    supervisor.step(LinkEvent::DeviceFound("COM1".to_string()));
    supervisor.step(LinkEvent::LinkOpened);
    assert_eq!(supervisor.step(LinkEvent::CommandFailed), Some(LinkAction::Read));
    assert_eq!(supervisor.state(), LinkState::Streaming);
}

#[test]
fn open_failure_waits_and_discovers_again() {
    let mut supervisor = fresh();
    supervisor.step(LinkEvent::Start);
    supervisor.step(LinkEvent::DeviceFound("COM1".to_string()));
    assert_eq!(
        supervisor.step(LinkEvent::LinkOpenFailed),
        wait_retry(false)
    );
    assert_eq!(supervisor.state(), LinkState::Disconnected);
    assert_eq!(supervisor.step(LinkEvent::RetryElapsed), Some(LinkAction::Discover));
    assert_eq!(supervisor.state(), LinkState::Discovering);
}

#[test]
fn bytes_are_decoded_and_delivered_in_order() {
    let mut supervisor = streaming();
    let mut bytes = vec![0x00, 0xC7];
    bytes.extend_from_slice(&encode_frame(&[1, 2, 3, 4, 5, 6], 10));
    bytes.extend_from_slice(&encode_frame(&[-1, -2, -3, -4, -5, -6], 11));
    bytes.extend_from_slice(&encode_frame(&[9, 9, 9, 9, 9, 9], 12)[..5]);
    let first = delivered(supervisor.step(LinkEvent::Bytes(bytes)));
    assert_eq!(first, vec![vec![1, 2, 3, 4, 5, 6, 10], vec![-1, -2, -3, -4, -5, -6, 11]]);
    let rest = encode_frame(&[9, 9, 9, 9, 9, 9], 12)[5..].to_vec();
    let second = delivered(supervisor.step(LinkEvent::Bytes(rest)));
    assert_eq!(second, vec![vec![9, 9, 9, 9, 9, 9, 12]]);
    assert_eq!(supervisor.state(), LinkState::Streaming);
}

#[test]
fn bytes_without_a_frame_deliver_nothing() {
    let mut supervisor = streaming();
    assert_eq!(
        supervisor.step(LinkEvent::Bytes(vec![1, 2, 3])),
        Some(LinkAction::Deliver(Vec::new()))
    );
    assert_eq!(supervisor.step(LinkEvent::Bytes(Vec::new())), Some(LinkAction::Deliver(Vec::new())));
}

#[test]
fn pending_bytes_do_not_survive_a_reconnect() {
    let frame = encode_frame(&[1, 2, 3, 4, 5, 6], 7);
    let mut supervisor = streaming();
    assert!(delivered(supervisor.step(LinkEvent::Bytes(frame[..9].to_vec()))).is_empty());
    supervisor.step(LinkEvent::LinkError);
    supervisor.step(LinkEvent::RetryElapsed);
    supervisor.step(LinkEvent::DeviceFound("COM1".to_string()));
    supervisor.step(LinkEvent::LinkOpened);
    supervisor.step(LinkEvent::CommandSent);
    assert!(delivered(supervisor.step(LinkEvent::Bytes(frame[9..].to_vec()))).is_empty());
    assert_eq!(
        delivered(supervisor.step(LinkEvent::Bytes(frame.to_vec()))),
        vec![vec![1, 2, 3, 4, 5, 6, 7]]
    );
}

#[test]
fn cancel_releases_the_link_if_held() {
    let mut held = streaming();
    assert_eq!(held.step(LinkEvent::Cancel), Some(LinkAction::Shutdown { release_link: true }));
    assert_eq!(held.state(), LinkState::ShuttingDown);
    assert!(!held.link_held());

    let mut idle = fresh();
    assert_eq!(idle.step(LinkEvent::Cancel), Some(LinkAction::Shutdown { release_link: false }));
    assert_eq!(idle.state(), LinkState::ShuttingDown);

    let mut connected = fresh();
    connected.step(LinkEvent::Start);
    connected.step(LinkEvent::DeviceFound("COM1".to_string()));
    connected.step(LinkEvent::LinkOpened);
    assert_eq!(
        connected.step(LinkEvent::Cancel),
        Some(LinkAction::Shutdown { release_link: true })
    );
}

#[test]
fn shut_down_supervisor_takes_nothing_but_cancel() {
    let mut supervisor = streaming();
    supervisor.step(LinkEvent::Cancel);
    assert_eq!(supervisor.step(LinkEvent::Start), None);
    assert_eq!(supervisor.step(LinkEvent::ReadTimeout), None);
    assert_eq!(supervisor.step(LinkEvent::RetryElapsed), None);
    assert_eq!(supervisor.step(LinkEvent::Bytes(vec![1])), None);
    assert_eq!(supervisor.state(), LinkState::ShuttingDown);
    assert_eq!(
        supervisor.step(LinkEvent::Cancel),
        Some(LinkAction::Shutdown { release_link: false })
    );
}

#[test]
fn events_out_of_turn_change_no_state() {
    let mut supervisor = fresh();
    assert_eq!(supervisor.step(LinkEvent::LinkOpened), None);
    assert_eq!(supervisor.step(LinkEvent::DeviceFound("COM1".to_string())), None);
    assert_eq!(supervisor.step(LinkEvent::LinkError), None);
    assert_eq!(supervisor.state(), LinkState::Idle);
    assert_eq!(supervisor.port(), "");
    let mut live = streaming();
    assert_eq!(live.step(LinkEvent::Start), None);
    assert_eq!(live.step(LinkEvent::LinkOpened), None);
    assert_eq!(live.step(LinkEvent::CommandSent), None);
    assert_eq!(live.step(LinkEvent::RetryElapsed), None);
    assert_eq!(live.state(), LinkState::Streaming);
    assert!(live.link_held());
}

#[test]
fn link_cannot_open_twice() {
    let mut supervisor = fresh();
    supervisor.step(LinkEvent::Start);
    supervisor.step(LinkEvent::DeviceFound("COM1".to_string()));
    assert_eq!(supervisor.step(LinkEvent::CommandSent), None);
    assert_eq!(supervisor.step(LinkEvent::LinkOpened), send_start());
    assert_eq!(supervisor.step(LinkEvent::LinkOpened), None);
    assert_eq!(supervisor.step(LinkEvent::LinkOpenFailed), None);
    assert_eq!(supervisor.state(), LinkState::Connected);
}

#[test]
fn start_on_a_known_port_skips_discovery() {
    let mut supervisor = fresh();
    assert_eq!(supervisor.step(LinkEvent::StartOn("COM4".to_string())), open_link());
    assert_eq!(supervisor.state(), LinkState::Connected);
    assert_eq!(supervisor.port(), "COM4");
    assert_eq!(supervisor.step(LinkEvent::StartOn("COM5".to_string())), None);
    assert_eq!(supervisor.step(LinkEvent::Start), None);
    assert_eq!(supervisor.port(), "COM4");
    assert_eq!(supervisor.step(LinkEvent::LinkOpened), send_start());
}

#[test]
fn single_run_ends_when_the_link_is_lost() {
    let mut supervisor = Supervisor::new(params(), false);
    assert_eq!(supervisor.step(LinkEvent::StartOn("COM4".to_string())), open_link());
    assert_eq!(supervisor.step(LinkEvent::LinkOpened), send_start());
    assert_eq!(supervisor.step(LinkEvent::CommandSent), Some(LinkAction::Read));
    assert_eq!(supervisor.step(LinkEvent::ReadTimeout), Some(LinkAction::Read));
    assert_eq!(
        supervisor.step(LinkEvent::LinkError),
        Some(LinkAction::Shutdown { release_link: true })
    );
    assert_eq!(supervisor.state(), LinkState::ShuttingDown);
    assert_eq!(supervisor.step(LinkEvent::RetryElapsed), None);
}

#[test]
fn single_run_ends_when_the_link_cannot_be_opened() {
    let mut supervisor = Supervisor::new(params(), false);
    supervisor.step(LinkEvent::StartOn("COM4".to_string()));
    assert_eq!(
        supervisor.step(LinkEvent::LinkOpenFailed),
        Some(LinkAction::Shutdown { release_link: false })
    );
    assert_eq!(supervisor.state(), LinkState::ShuttingDown);
}
