use sadb::{
    ip_listing_command, package_list_command, screenshot_command, AdbError, WifiAction,
    WifiEvent, WifiSetup,
};

fn ids(v: &[&str]) -> Vec<String> {
    v.iter().map(|s| s.to_string()).collect()
}

fn expect_run(setup: &WifiSetup, argv: &[&str]) {
    match setup.action() {
        WifiAction::Run(a) => assert_eq!(a, ids(argv)),
        _ => panic!("expected a run"),
    }
}

fn expect_finish(setup: &WifiSetup) -> Result<bool, AdbError> {
    match setup.action() {
        WifiAction::Finish(res) => res,
        _ => panic!("expected the end"),
    }
}

#[test]
fn workflow_commands_build_their_arguments() {
    assert_eq!(
        ip_listing_command("emu"),
        ids(&["-s", "emu", "shell", "ip", "addr", "show", "wlan0"])
    );
    assert_eq!(screenshot_command("emu"), ids(&["-s", "emu", "exec-out", "screencap", "-p"]));
    assert_eq!(
        package_list_command("emu"),
        ids(&["-s", "emu", "shell", "pm", "list", "packages"])
    );
}

#[test]
fn wifi_setup_connects_to_listed_address() {
    let mut s = WifiSetup::new("emu");
    match s.action() {
        WifiAction::List(a) => assert_eq!(a, ip_listing_command("emu")),
        _ => panic!("expected the listing"),
    }
    s.advance(WifiEvent::Listed("lo\n  inet 192.168.1.7/24 brd x\n".to_string()));
    expect_run(&s, &["-s", "emu", "tcpip", "5555"]);
    s.advance(WifiEvent::Exited(true));
    expect_run(&s, &["connect", "192.168.1.7:5555"]);
    s.advance(WifiEvent::Exited(true));
    assert_eq!(expect_finish(&s), Ok(true));
}

#[test]
fn wifi_setup_failed_connect_is_not_an_error() {
    let mut s = WifiSetup::new("emu");
    s.advance(WifiEvent::Listed("inet 10.0.0.1/8\n".to_string()));
    s.advance(WifiEvent::Exited(true));
    s.advance(WifiEvent::Exited(false));
    assert_eq!(expect_finish(&s), Ok(false));
}

#[test]
fn wifi_setup_without_address_fails() {
    let mut s = WifiSetup::new("emu");
    s.advance(WifiEvent::Listed("inet6 fe80::1/64\n".to_string()));
    assert_eq!(expect_finish(&s), Err(AdbError::NoIpAddress));
}

#[test]
fn wifi_setup_failed_mode_switch_fails() {
    let mut s = WifiSetup::new("emu");
    s.advance(WifiEvent::Listed("inet 10.0.0.1/8\n".to_string()));
    s.advance(WifiEvent::Exited(false));
    assert_eq!(expect_finish(&s), Err(AdbError::StepFailed));
}

#[test]
fn wifi_setup_failed_listing_and_start_failures() {
    let mut s = WifiSetup::new("emu");
    s.advance(WifiEvent::Exited(false));
    assert_eq!(expect_finish(&s), Err(AdbError::StepFailed));

    let mut s = WifiSetup::new("emu");
    s.advance(WifiEvent::NotStarted);
    assert_eq!(expect_finish(&s), Err(AdbError::Spawn));
}
