use wifi_scan::{
    aggregate, build, scan, Error, RawObservation, SecurityFlag, SignalStrength, Wifi, WifiSecurity,
};

fn wifi(mac: &str, ssid: &str) -> Wifi {
    Wifi {
        mac: mac.to_string(),
        ssid: ssid.to_string(),
        channel: 1,
        signal_level: -40,
        security: vec![WifiSecurity::Open],
    }
}

fn element(id: u8, body: &[u8]) -> Vec<u8> {
    let mut v = vec![id, body.len() as u8];
    v.extend_from_slice(body);
    v
}

fn rsn(akms: &[u8]) -> Vec<u8> {
    let mut body = vec![1, 0, 0x00, 0x0f, 0xac, 0x04, 1, 0, 0x00, 0x0f, 0xac, 0x04, akms.len() as u8, 0];
    for a in akms {
        body.extend_from_slice(&[0x00, 0x0f, 0xac, *a]);
    }
    element(48, &body)
}

#[test]
fn aggregate_drops_later_duplicates() {
    let a = wifi("x", "A");
    let b = wifi("y", "B");
    let a2 = wifi("x", "A2");
    let c = wifi("", "C");
    let r = aggregate(vec![vec![a.clone(), b.clone()], vec![a2, c.clone()]]);
    assert_eq!(r, vec![a, b, c]);
}

#[test]
fn aggregate_keeps_every_empty_mac() {
    let c1 = wifi("", "C1");
    let c2 = wifi("", "C2");
    let d = wifi("d", "D");
    let r = aggregate(vec![vec![c1.clone(), d.clone(), d.clone()], vec![], vec![c2.clone(), c1.clone()]]);
    assert_eq!(r, vec![c1.clone(), d, c2, c1]);
    assert_eq!(aggregate(vec![]), vec![]);
}

#[test]
fn build_end_to_end_sae() {
    let mut blob = element(0, b"Home");
    blob.extend(rsn(&[8]));
    let o = RawObservation {
        frequency: Some(2437),
        signal: Some(-55),
        elements: Some(blob),
        ..Default::default()
    };
    let w = build(&o);
    assert_eq!(
        w,
        Wifi {
            mac: String::new(),
            ssid: "Home".to_string(),
            channel: 6,
            signal_level: -55,
            security: vec![WifiSecurity::Wpa3PersonalSae],
        }
    );
}

#[test]
fn build_without_security_elements_is_open() {
    let mut blob = element(0, b"Cafe");
    blob.extend(element(3, &[6]));
    let o = RawObservation { elements: Some(blob), ..Default::default() };
    let w = build(&o);
    assert_eq!(w.security, vec![WifiSecurity::Open]);
    assert!(w.is_open());
}

#[test]
fn build_with_nothing_known() {
    let w = build(&RawObservation::default());
    assert_eq!(w, Wifi { security: vec![WifiSecurity::Unknown], ..Default::default() });
    assert!(w.is_hidden());
}

#[test]
fn build_mac_and_channel_sources() {
    let o = RawObservation {
        bssid: Some(vec![0xde, 0xad, 0xbe, 0xef, 0x00, 0x01]),
        bssid_text: Some("ignored".to_string()),
        channel: Some(40),
        flags: Some(vec![SecurityFlag::Wpa2Personal]),
        ..Default::default()
    };
    let w = build(&o);
    assert_eq!(w.mac, "de:ad:be:ef:00:01");
    assert_eq!(w.channel, 40);
    assert_eq!(w.security, vec![WifiSecurity::Wpa2PersonalPsk]);
    let o2 = RawObservation {
        bssid_text: Some("11:22:33:44:55:66".to_string()),
        frequency: Some(5180),
        channel: Some(40),
        ..Default::default()
    };
    let w2 = build(&o2);
    assert_eq!(w2.mac, "11:22:33:44:55:66");
    assert_eq!(w2.channel, 36);
}

#[test]
fn build_ssid_decoding() {
    // ISO-8859-1 octets that are not valid UTF-8, with trailing NULs
    let o = RawObservation { elements: Some(element(0, &[b'C', 0xe9, b'!', 0, 0])), ..Default::default() };
    assert_eq!(build(&o).ssid, "C\u{e9}!");
    let o2 = RawObservation { elements: Some(element(0, "Caf\u{e9}".as_bytes())), ..Default::default() };
    assert_eq!(build(&o2).ssid, "Caf\u{e9}");
    let o3 = RawObservation {
        ssid: Some("Given".to_string()),
        elements: Some(element(0, b"Other")),
        ..Default::default()
    };
    assert_eq!(build(&o3).ssid, "Given");
}

#[test]
fn scan_without_interfaces_fails() {
    match scan(vec![]) {
        Err(Error::InterfaceError(m)) => assert_eq!(m, "No WiFi adapters detected"),
        other => panic!("unexpected {:?}", other),
    }
}

#[test]
fn scan_merges_interfaces() {
    let o = RawObservation { bssid: Some(vec![1, 2, 3, 4, 5, 6]), frequency: Some(2412), ..Default::default() };
    let o_again = RawObservation { bssid: Some(vec![1, 2, 3, 4, 5, 6]), frequency: Some(2462), ..Default::default() };
    let hidden = RawObservation::default();
    let r = scan(vec![vec![o, hidden.clone()], vec![o_again, hidden]]).unwrap();
    assert_eq!(r.len(), 3);
    assert_eq!(r[0].mac, "01:02:03:04:05:06");
    assert_eq!(r[0].channel, 1);
    assert_eq!(r[1].mac, "");
    assert_eq!(r[2].mac, "");
    assert_eq!(scan(vec![vec![]]).unwrap(), vec![]);
}

#[test]
fn wifi_security_groups() {
    let mut w = wifi("m", "s");
    assert!(w.is_open());
    assert!(!w.is_wpa2() && !w.is_wpa3() && !w.is_enterprise() && !w.is_personal());
    w.security = vec![WifiSecurity::Wpa3PersonalSae, WifiSecurity::Wpa2EnterpriseEap];
    assert!(!w.is_open());
    assert!(w.is_wpa3() && w.is_wpa2() && w.is_enterprise() && w.is_personal());
    w.security = vec![WifiSecurity::Open, WifiSecurity::Open];
    assert!(!w.is_open());
    w.security = vec![WifiSecurity::Enterprise];
    assert!(w.is_enterprise() && !w.is_personal() && !w.is_wpa2());
}

#[test]
fn wifi_readable_signal() {
    let mut w = wifi("m", "s");
    let cases = [
        (0, SignalStrength::Unknown),
        (-1, SignalStrength::Excellent),
        (-50, SignalStrength::Excellent),
        (-55, SignalStrength::Weak),
        (-61, SignalStrength::Good),
        (-70, SignalStrength::Good),
        (-71, SignalStrength::Fair),
        (-80, SignalStrength::Fair),
        (-81, SignalStrength::Weak),
        (5, SignalStrength::Weak),
    ];
    for (level, expected) in cases {
        w.signal_level = level;
        assert_eq!(w.readable_signal(), expected);
    }
}

#[test]
fn wifi_frequency_and_hidden() {
    let mut w = wifi("m", "");
    assert!(w.is_hidden());
    for (ch, f) in [(1, 2412), (13, 2472), (14, 2484), (36, 5180), (165, 5825), (167, 6780), (233, 7110), (0, 0), (15, 0), (234, 0)] {
        w.channel = ch;
        assert_eq!(w.get_frequency(), f);
    }
}

#[test]
fn wifi_describe_and_error_message() {
    let w = Wifi {
        mac: "aa:bb:cc:dd:ee:ff".to_string(),
        ssid: "Home".to_string(),
        channel: 11,
        signal_level: -67,
        security: vec![WifiSecurity::Wpa2PersonalPsk, WifiSecurity::Wpa3PersonalSae],
    };
    assert_eq!(
        w.describe(),
        "[MAC: aa:bb:cc:dd:ee:ff | SSID: Home | Channel: 11 | RSSI: -67 dBm | Security: WPA2-Personal (PSK), WPA3-Personal (SAE)"
    );
    let z = Wifi { security: vec![], ..Default::default() };
    assert_eq!(z.describe(), "[MAC:  | SSID:  | Channel: 0 | RSSI: 0 dBm | Security: ");
    assert_eq!(Error::ScanFailed("busy".to_string()).message(), "Scan Failed: busy");
    assert_eq!(Error::InterfaceError("none".to_string()).message(), "Interface error: none");
    assert_eq!(Error::SocketError("x".to_string()).message(), "Error while creating socket: x");
}

#[test]
fn build_flags_never_mix_open() {
    let o = RawObservation {
        flags: Some(vec![SecurityFlag::NoSecurity, SecurityFlag::Wpa2Personal]),
        ..Default::default()
    };
    let r = scan(vec![vec![o]]).unwrap();
    assert_eq!(r[0].security, vec![WifiSecurity::Wpa2PersonalPsk]);
    assert!(!r[0].is_open());
}
