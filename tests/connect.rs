use sigui::connect::{
    add_profile_args, connect_open_args, connect_profile_args, disconnect_args, profile_xml,
    ConnectStep, SecureConnect,
};
use sigui::speed::normalize_rate;

#[test]
fn profile_embeds_name_and_key() {
    let x = profile_xml("Home", "secret");
    assert!(x.starts_with("<?xml version=\"1.0\"?>"));
    assert!(x.contains("<name>Home</name>\n    <SSIDConfig>"));
    assert!(x.contains("<SSID>\n            <name>Home</name>"));
    assert!(x.contains("<keyMaterial>secret</keyMaterial>"));
    assert!(x.ends_with("</WLANProfile>"));
}

#[test]
fn argument_lists() {
    assert_eq!(disconnect_args(), vec!["wlan", "disconnect"]);
    assert_eq!(
        connect_open_args("Cafe"),
        vec!["wlan", "connect", "name=Cafe", "ssid=Cafe", "interface=Wi-Fi"]
    );
    assert_eq!(add_profile_args("p.xml"), vec!["wlan", "add", "profile", "filename=p.xml"]);
    assert_eq!(connect_profile_args("Home"), vec!["wlan", "connect", "name=Home"]);
}

fn run(outcomes: &[bool]) -> (Vec<ConnectStep>, Option<bool>) {
    let mut c = SecureConnect::start();
    let mut steps = vec![c.step];
    for &ok in outcomes {
        if c.outcome().is_some() {
            break;
        }
        c.advance(ok);
        steps.push(c.step);
    }
    (steps, c.outcome())
}

#[test]
fn secured_connect_success_removes_profile() {
    let (steps, out) = run(&[true, true, true, true]);
    assert_eq!(
        steps,
        vec![
            ConnectStep::WriteProfile,
            ConnectStep::RegisterProfile,
            ConnectStep::Connect,
            ConnectStep::RemoveProfile,
            ConnectStep::Finished
        ]
    );
    assert_eq!(out, Some(true));
}

#[test]
fn secured_connect_failed_registration_still_removes_profile() {
    let (steps, out) = run(&[true, false, true, true]);
    assert_eq!(
        steps,
        vec![
            ConnectStep::WriteProfile,
            ConnectStep::RegisterProfile,
            ConnectStep::RemoveProfile,
            ConnectStep::Finished
        ]
    );
    assert_eq!(out, Some(false));
}

#[test]
fn secured_connect_failed_cleanup_keeps_outcome() {
    let (_, out) = run(&[true, true, true, false]);
    assert_eq!(out, Some(true));
    let (steps, out) = run(&[false, true, true, true]);
    assert_eq!(steps[1], ConnectStep::RemoveProfile);
    assert_eq!(out, Some(false));
}

#[test]
fn rate_text_is_trimmed_with_points() {
    assert_eq!(normalize_rate("  1234567,890\r\n"), "1234567.890");
    assert_eq!(normalize_rate("42"), "42");
}
