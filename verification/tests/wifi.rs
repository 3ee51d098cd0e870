use sensor_modbus::wifi::{mac_address_text, Action, Connector, Outcome, Phase, WifiState};

#[test]
fn mac_address_is_upper_case_hex_with_colons() {
    assert_eq!(mac_address_text(&[0xA0, 0xB1, 0x0C, 0xD3, 0x04, 0xF5]), "A0:B1:0C:D3:04:F5");
    assert_eq!(mac_address_text(&[0, 0, 0, 0, 0, 0]), "00:00:00:00:00:00");
    assert_eq!(mac_address_text(&[0xFF; 6]), "FF:FF:FF:FF:FF:FF");
}

#[test]
fn new_state_has_no_address() {
    let state = WifiState::new([1, 2, 3, 4, 5, 6], "home".to_string());
    assert_eq!(state.mac_address(), "01:02:03:04:05:06");
    assert_eq!(state.ssid(), "home");
    assert_eq!(state.ip_address(), None);
}

#[test]
fn successful_connection_records_the_address() {
    let mut c = Connector::new([1, 2, 3, 4, 5, 6], "home".to_string());
    assert_eq!(c.phase(), Phase::Idle);
    assert_eq!(c.connect(), Action::Connect);
    assert_eq!(c.advance(Outcome::Done), Action::WaitForIp { timeout_seconds: 10 });
    assert_eq!(c.advance(Outcome::IpAcquired(Some([192, 168, 1, 7]))), Action::WaitForLinkDown);
    assert_eq!(c.phase(), Phase::Connected);
    assert_eq!(c.state().ip_address(), Some([192, 168, 1, 7]));
}

#[test]
fn unreadable_address_is_recorded_as_none() {
    let mut c = Connector::new([1, 2, 3, 4, 5, 6], "home".to_string());
    c.connect();
    c.advance(Outcome::Done);
    c.advance(Outcome::IpAcquired(Some([10, 0, 0, 2])));
    c.advance(Outcome::Done);
    c.advance(Outcome::Done);
    assert_eq!(c.advance(Outcome::IpAcquired(None)), Action::WaitForLinkDown);
    assert_eq!(c.state().ip_address(), None);
}

#[test]
fn failed_attempt_is_retried_after_a_pause() {
    let mut c = Connector::new([1, 2, 3, 4, 5, 6], "home".to_string());
    c.connect();
    assert_eq!(c.advance(Outcome::Failed), Action::Disconnect);
    assert_eq!(c.advance(Outcome::Done), Action::Pause { seconds: 1 });
    assert_eq!(c.advance(Outcome::Done), Action::Connect);
    assert_eq!(c.phase(), Phase::Connecting);
}

#[test]
fn failed_address_wait_is_retried() {
    let mut c = Connector::new([1, 2, 3, 4, 5, 6], "home".to_string());
    c.connect();
    c.advance(Outcome::Done);
    assert_eq!(c.advance(Outcome::Failed), Action::Disconnect);
    assert_eq!(c.state().ip_address(), None);
    assert_eq!(c.advance(Outcome::Done), Action::Pause { seconds: 1 });
    assert_eq!(c.advance(Outcome::Done), Action::Connect);
}

#[test]
fn lost_link_leads_to_a_new_attempt() {
    let mut c = Connector::new([1, 2, 3, 4, 5, 6], "home".to_string());
    c.connect();
    c.advance(Outcome::Done);
    c.advance(Outcome::IpAcquired(Some([10, 0, 0, 2])));
    assert_eq!(c.advance(Outcome::Done), Action::Connect);
    assert_eq!(c.state().ip_address(), Some([10, 0, 0, 2]));
}

#[test]
fn failed_disconnect_stops_the_loop_for_good() {
    let mut c = Connector::new([1, 2, 3, 4, 5, 6], "home".to_string());
    c.connect();
    c.advance(Outcome::Failed);
    assert_eq!(c.advance(Outcome::Failed), Action::Stop);
    assert_eq!(c.phase(), Phase::Stopped);
    assert_eq!(c.advance(Outcome::Done), Action::Stop);
    assert_eq!(c.phase(), Phase::Stopped);
}

#[test]
fn failed_wait_for_link_loss_stops_the_loop() {
    let mut c = Connector::new([1, 2, 3, 4, 5, 6], "home".to_string());
    c.connect();
    c.advance(Outcome::Done);
    c.advance(Outcome::IpAcquired(Some([10, 0, 0, 2])));
    assert_eq!(c.advance(Outcome::Failed), Action::Stop);
}

#[test]
fn loop_can_be_started_again_after_stopping() {
    let mut c = Connector::new([1, 2, 3, 4, 5, 6], "home".to_string());
    c.connect();
    c.advance(Outcome::Failed);
    c.advance(Outcome::Failed);
    assert_eq!(c.connect(), Action::Connect);
    assert_eq!(c.phase(), Phase::Connecting);
}

#[test]
fn advance_before_start_starts() {
    let mut c = Connector::new([1, 2, 3, 4, 5, 6], "home".to_string());
    assert_eq!(c.advance(Outcome::Failed), Action::Connect);
    assert_eq!(c.phase(), Phase::Connecting);
}
