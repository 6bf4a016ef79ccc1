use sigui::parser::{parse_networks, WifiInfo};
use sigui::state::{Action, AppState, Intent, Key, Mode, SpeedTest};

fn net(ssid: &str, auth: &str) -> WifiInfo {
    let mut w = WifiInfo::empty();
    w.ssid = ssid.to_string();
    w.authentication = auth.to_string();
    w
}

fn three() -> AppState {
    AppState::new(vec![net("a", "Open"), net("b", "Open"), net("c", "Open")], None)
}

#[test]
fn new_selects_first_or_nothing() {
    assert_eq!(three().selected, Some(0));
    assert_eq!(AppState::new(Vec::new(), None).selected, None);
}

#[test]
fn select_next_wraps_to_first() {
    let mut s = three();
    s.selected = Some(2);
    assert!(matches!(s.handle_intent(Intent::SelectNext), Action::Nothing));
    assert_eq!(s.selected, Some(0));
}

#[test]
fn select_previous_wraps_to_last() {
    let mut s = three();
    s.handle_intent(Intent::SelectPrevious);
    assert_eq!(s.selected, Some(2));
    s.handle_intent(Intent::SelectPrevious);
    assert_eq!(s.selected, Some(1));
}

#[test]
fn navigation_on_empty_list_is_noop() {
    let mut s = AppState::new(Vec::new(), None);
    s.handle_intent(Intent::SelectNext);
    s.handle_intent(Intent::SelectPrevious);
    assert_eq!(s.selected, None);
    assert!(matches!(s.handle_intent(Intent::Activate), Action::Nothing));
}

#[test]
fn activate_associated_open_network_disconnects() {
    let mut s = AppState::new(vec![net("Cafe", "Open")], Some("Cafe".to_string()));
    assert!(matches!(s.handle_intent(Intent::Activate), Action::Disconnect));
    assert!(matches!(s.mode, Mode::Browsing));
}

#[test]
fn activate_other_open_network_connects() {
    let mut s = AppState::new(vec![net("Cafe", "Open")], Some("Home".to_string()));
    match s.handle_intent(Intent::Activate) {
        Action::ConnectOpen(n) => assert_eq!(n, "Cafe"),
        a => panic!("unexpected {:?}", a),
    }
}

#[test]
fn activate_secured_network_asks_for_password() {
    let mut s = AppState::new(vec![net("Home", "WPA2-Personal")], None);
    assert!(matches!(s.handle_intent(Intent::Activate), Action::Nothing));
    match &s.mode {
        Mode::PasswordEntry { target_ssid, buffer } => {
            assert_eq!(target_ssid, "Home");
            assert_eq!(buffer, "");
        }
        Mode::Browsing => panic!("still browsing"),
    }
}

#[test]
fn password_typing_and_confirm() {
    let mut s = AppState::new(vec![net("Home", "WPA2PSK")], None);
    s.handle_intent(Intent::Activate);
    s.handle_intent(Intent::TextInput('p'));
    s.handle_intent(Intent::TextInput('w'));
    s.handle_intent(Intent::TextInput('x'));
    s.handle_intent(Intent::Backspace);
    match s.handle_intent(Intent::Confirm) {
        Action::ConnectSecured { ssid, password } => {
            assert_eq!(ssid, "Home");
            assert_eq!(password, "pw");
        }
        a => panic!("unexpected {:?}", a),
    }
    assert!(matches!(s.mode, Mode::Browsing));
    s.refresh(Vec::new(), None);
    assert!(matches!(s.mode, Mode::Browsing));
    s.handle_intent(Intent::Quit);
}

#[test]
fn cancel_discards_password() {
    let mut s = AppState::new(vec![net("Home", "WPA2PSK")], None);
    s.handle_intent(Intent::Activate);
    s.handle_intent(Intent::TextInput('a'));
    assert!(matches!(s.handle_intent(Intent::Cancel), Action::Nothing));
    assert!(matches!(s.mode, Mode::Browsing));
    s.handle_intent(Intent::Activate);
    match &s.mode {
        Mode::PasswordEntry { buffer, .. } => assert_eq!(buffer, ""),
        Mode::Browsing => panic!("still browsing"),
    }
}

#[test]
fn speed_test_runs_and_keeps_list() {
    let scan = "SSID 1 : Cafe\n Authentication : Open\nSSID 2 : Home\n Authentication : WPA2PSK\n";
    let mut s = AppState::new(parse_networks(scan), None);
    s.handle_intent(Intent::SelectNext);
    assert!(matches!(s.speed_test, SpeedTest::Idle));
    assert!(matches!(s.handle_intent(Intent::StartSpeedTest), Action::MeasureSpeed));
    assert!(matches!(s.speed_test, SpeedTest::Running));
    assert!(matches!(s.handle_intent(Intent::StartSpeedTest), Action::Nothing));
    s.finish_speed_test(Ok("87.34 Mbps".to_string()));
    match &s.speed_test {
        SpeedTest::Done(t) => assert_eq!(t, "87.34 Mbps"),
        _ => panic!("not done"),
    }
    assert_eq!(s.wifi_list.len(), 2);
    assert_eq!(s.wifi_list[0].ssid, "Cafe");
    assert_eq!(s.wifi_list[1].ssid, "Home");
    assert_eq!(s.selected, Some(1));
}

#[test]
fn speed_test_error_is_shown() {
    let mut s = three();
    s.handle_intent(Intent::StartSpeedTest);
    s.finish_speed_test(Err("curl command failed".to_string()));
    match &s.speed_test {
        SpeedTest::Done(t) => assert_eq!(t, "Err: curl command failed"),
        _ => panic!("not done"),
    }
}

#[test]
fn refresh_keeps_or_clamps_selection() {
    let mut s = three();
    s.selected = Some(2);
    s.refresh(vec![net("x", "Open"), net("y", "Open")], Some("y".to_string()));
    assert_eq!(s.selected, Some(1));
    assert_eq!(s.connected_ssid, Some("y".to_string()));
    s.refresh(Vec::new(), None);
    assert_eq!(s.selected, None);
    s.refresh(vec![net("z", "Open")], None);
    assert_eq!(s.selected, Some(0));
}

#[test]
fn keys_map_by_mode() {
    let mut s = AppState::new(vec![net("Home", "WPA2PSK")], None);
    assert_eq!(s.intent_for_key(Key::Char('q')), Some(Intent::Quit));
    assert_eq!(s.intent_for_key(Key::Down), Some(Intent::SelectNext));
    assert_eq!(s.intent_for_key(Key::Char('k')), Some(Intent::SelectPrevious));
    assert_eq!(s.intent_for_key(Key::Char('s')), Some(Intent::StartSpeedTest));
    assert_eq!(s.intent_for_key(Key::Other), None);
    s.handle_intent(Intent::Activate);
    assert_eq!(s.intent_for_key(Key::Char('q')), Some(Intent::TextInput('q')));
    assert_eq!(s.intent_for_key(Key::Esc), Some(Intent::Cancel));
    assert_eq!(s.intent_for_key(Key::Enter), Some(Intent::Confirm));
}
