use sigui::parser::{parse_connected_ssid, parse_networks};

const SCAN: &str = "Interface name : Wi-Fi\r\nThere are 2 networks currently visible.\r\n\r\nSSID 1 : Cafe\r\n    Network type            : Infrastructure\r\n    Authentication          : Open\r\n    Encryption              : None\r\n\r\nSSID 2 : Home\r\n    Network type            : Infrastructure\r\n    Authentication          : WPA2-Personal\r\n    Encryption              : CCMP\r\n";

#[test]
fn parses_two_networks_in_order() {
    let r = parse_networks(SCAN);
    assert_eq!(r.len(), 2);
    assert_eq!(r[0].ssid, "Cafe");
    assert_eq!(r[0].network_type, "Infrastructure");
    assert_eq!(r[0].authentication, "Open");
    assert_eq!(r[0].encryption, "None");
    assert_eq!(r[1].ssid, "Home");
    assert_eq!(r[1].encryption, "CCMP");
}

#[test]
fn empty_report_gives_no_networks() {
    assert!(parse_networks("").is_empty());
}

#[test]
fn report_without_markers_gives_no_networks() {
    assert!(parse_networks("no SSID markers here").is_empty());
}

#[test]
fn authentication_value_is_trimmed_and_keeps_case() {
    let r = parse_networks("SSID 1 : Home\n    Authentication :   WPA2-Personal   \n");
    assert_eq!(r.len(), 1);
    assert_eq!(r[0].authentication, "WPA2-Personal");
}

#[test]
fn marker_with_empty_name_is_dropped() {
    let r = parse_networks("SSID 1 : \n Authentication : Open\nSSID 2 : Lab\n");
    assert_eq!(r.len(), 1);
    assert_eq!(r[0].ssid, "Lab");
    assert_eq!(r[0].authentication, "");
}

#[test]
fn values_keep_colons_after_the_first() {
    let r = parse_networks("SSID 1 : a:b\n Encryption : x:y\n");
    assert_eq!(r[0].ssid, "a:b");
    assert_eq!(r[0].encryption, "x:y");
}

#[test]
fn unknown_lines_are_ignored_and_fields_default_empty() {
    let r = parse_networks("SSID 1 : Net\n Signal : 80%\n");
    assert_eq!(r.len(), 1);
    assert_eq!(r[0].network_type, "");
    assert_eq!(r[0].authentication, "");
    assert_eq!(r[0].encryption, "");
}

#[test]
fn connected_ssid_is_first_marker_value() {
    let t = "Name : Wi-Fi\n State : connected\n SSID : Home\n BSSID : aa:bb\n SSID : Other\n";
    assert_eq!(parse_connected_ssid(t), Some("Home".to_string()));
}

#[test]
fn connected_ssid_empty_value_is_none() {
    assert_eq!(parse_connected_ssid(" SSID :   \n SSID : Later\n"), None);
}

#[test]
fn connected_ssid_absent_is_none() {
    assert_eq!(parse_connected_ssid(""), None);
    assert_eq!(parse_connected_ssid("State : disconnected\n"), None);
}
