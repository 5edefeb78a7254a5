use bios_release::address::GetAddress;

#[test]
fn leader_addresses() {
    let g = GetAddress::new(Some("D:\\config\\supervisor.txt".to_string()));
    let config = "# leaders\nQT: qt@x.com \nBIOS QT: bqt@x.com\n";
    assert_eq!(g.qt_leader_email(config), "qt@x.com");
    assert_eq!(g.bios_qt_leader_email(config), "bqt@x.com");
}

#[test]
fn missing_leader_is_empty() {
    let g = GetAddress::new(None);
    assert_eq!(g.qt_leader_email("BIOS QT: b\n"), "");
    assert_eq!(g.bios_qt_leader_email(""), "");
}
