use wifi_scan::{
    classify, classify_elements, classify_flags, security_of_akm, InformationElement, SecurityFlag,
    WifiSecurity,
};

fn sorted_names(v: &[WifiSecurity]) -> Vec<String> {
    let mut n: Vec<String> = v.iter().map(|s| s.name()).collect();
    n.sort();
    n
}

#[test]
fn classify_single_psk_is_wpa2_personal() {
    let es = vec![InformationElement::RobustSecurityNetwork(vec![2])];
    assert_eq!(classify_elements(&es), vec![WifiSecurity::Wpa2PersonalPsk]);
    assert_eq!(classify(&es, &None), vec![WifiSecurity::Wpa2PersonalPsk]);
}

#[test]
fn classify_akm_table() {
    let es = vec![InformationElement::RobustSecurityNetwork(vec![1, 2, 3, 4, 5, 6, 7, 8, 9, 10, 11, 12])];
    let r = classify_elements(&es);
    assert_eq!(
        r,
        vec![
            WifiSecurity::Wpa2EnterpriseEap,
            WifiSecurity::Wpa2PersonalPsk,
            WifiSecurity::Wpa2EnterpriseEapFt,
            WifiSecurity::Wpa2PersonalPskFt,
            WifiSecurity::Wpa3EnterpriseEap256,
            WifiSecurity::Wpa3PersonalPsk256,
            WifiSecurity::Tdls,
            WifiSecurity::Wpa3PersonalSae,
            WifiSecurity::Wpa3PersonalSaeFt,
            WifiSecurity::Wpa3EnterpriseSuiteBEap256,
        ]
    );
    assert_eq!(security_of_akm(0), None);
    assert_eq!(security_of_akm(10), None);
    assert_eq!(security_of_akm(8), Some(WifiSecurity::Wpa3PersonalSae));
}

#[test]
fn classify_repeated_akms_once() {
    let es = vec![
        InformationElement::RobustSecurityNetwork(vec![2, 2, 8]),
        InformationElement::RobustSecurityNetwork(vec![8]),
    ];
    assert_eq!(classify_elements(&es), vec![WifiSecurity::Wpa2PersonalPsk, WifiSecurity::Wpa3PersonalSae]);
}

#[test]
fn classify_unrecognised_or_empty_rsn_is_unknown() {
    assert_eq!(
        classify_elements(&vec![InformationElement::RobustSecurityNetwork(vec![0, 10, 200])]),
        vec![WifiSecurity::Unknown]
    );
    assert_eq!(
        classify_elements(&vec![InformationElement::RobustSecurityNetwork(vec![]), InformationElement::VendorWpa]),
        vec![WifiSecurity::Unknown]
    );
}

#[test]
fn classify_legacy_wpa_and_open() {
    let wpa = vec![InformationElement::Ssid(b"x".to_vec()), InformationElement::VendorWpa];
    assert_eq!(
        sorted_names(&classify_elements(&wpa)),
        vec!["WPA-Personal".to_string(), "WPA2-Personal (PSK)".to_string()]
    );
    assert_eq!(classify_elements(&vec![]), vec![WifiSecurity::Open]);
    assert_eq!(classify_elements(&vec![InformationElement::Ssid(vec![])]), vec![WifiSecurity::Open]);
}

#[test]
fn classify_never_empty() {
    let cases = vec![
        vec![],
        vec![InformationElement::VendorWpa],
        vec![InformationElement::RobustSecurityNetwork(vec![])],
        vec![InformationElement::RobustSecurityNetwork(vec![2])],
    ];
    for es in &cases {
        assert!(!classify(es, &None).is_empty());
        assert!(!classify(es, &Some(vec![])).is_empty());
    }
}

#[test]
fn classify_flags_table() {
    assert_eq!(classify_flags(&vec![]), vec![WifiSecurity::Unknown]);
    assert_eq!(classify_flags(&vec![SecurityFlag::NoSecurity]), vec![WifiSecurity::Open]);
    assert_eq!(
        classify_flags(&vec![SecurityFlag::Wep, SecurityFlag::DynamicWep]),
        vec![WifiSecurity::Wep]
    );
    assert_eq!(
        classify_flags(&vec![SecurityFlag::WpaPersonalMixed]),
        vec![WifiSecurity::Wpa3PersonalPsk256, WifiSecurity::Wpa2PersonalPskFt]
    );
    assert_eq!(
        classify_flags(&vec![
            SecurityFlag::Wpa2Personal,
            SecurityFlag::Wpa3Personal,
            SecurityFlag::Wpa2Enterprise,
            SecurityFlag::Wpa3Enterprise,
            SecurityFlag::WpaEnterpriseMixed,
            SecurityFlag::Wpa3Transition,
            SecurityFlag::Enterprise,
            SecurityFlag::Personal,
            SecurityFlag::WpaEnterprise,
            SecurityFlag::WpaPersonal,
            SecurityFlag::Unknown,
        ]),
        vec![
            WifiSecurity::Wpa2PersonalPsk,
            WifiSecurity::Wpa3PersonalSae,
            WifiSecurity::Wpa2EnterpriseEap,
            WifiSecurity::Wpa3EnterpriseEap256,
            WifiSecurity::Wpa2EnterpriseEapFt,
            WifiSecurity::Wpa3PersonalSaeFt,
            WifiSecurity::Enterprise,
            WifiSecurity::Personal,
            WifiSecurity::WpaEnterprise,
            WifiSecurity::WpaPersonal,
            WifiSecurity::Unknown,
        ]
    );
}

#[test]
fn classify_flags_take_precedence() {
    let es = vec![InformationElement::RobustSecurityNetwork(vec![2])];
    assert_eq!(classify(&es, &Some(vec![SecurityFlag::Wpa3Personal])), vec![WifiSecurity::Wpa3PersonalSae]);
}

#[test]
fn security_names() {
    assert_eq!(WifiSecurity::Open.name(), "Open");
    assert_eq!(WifiSecurity::Wpa2PersonalPsk.name(), "WPA2-Personal (PSK)");
    assert_eq!(WifiSecurity::Wpa3EnterpriseSuiteBEap256.name(), "WPA3-Enterprise (Suite B EAP-256)");
    assert_eq!(WifiSecurity::Tdls.name(), "TLDS");
    assert_eq!(WifiSecurity::Wep.name(), "WEP");
    assert_eq!(WifiSecurity::Other("OWE".to_string()).name(), "OWE");
}

#[test]
fn classify_flags_open_stands_alone() {
    assert_eq!(
        classify_flags(&vec![SecurityFlag::NoSecurity, SecurityFlag::Wpa2Personal]),
        vec![WifiSecurity::Wpa2PersonalPsk]
    );
    assert_eq!(
        classify_flags(&vec![SecurityFlag::Wpa2Personal, SecurityFlag::NoSecurity, SecurityFlag::Wep]),
        vec![WifiSecurity::Wpa2PersonalPsk, WifiSecurity::Wep]
    );
    assert_eq!(
        classify_flags(&vec![SecurityFlag::NoSecurity, SecurityFlag::Unknown]),
        vec![WifiSecurity::Unknown]
    );
    assert_eq!(
        classify_flags(&vec![SecurityFlag::NoSecurity, SecurityFlag::NoSecurity]),
        vec![WifiSecurity::Open]
    );
    let r = classify(&vec![], &Some(vec![SecurityFlag::NoSecurity, SecurityFlag::WpaPersonalMixed]));
    assert!(!r.contains(&WifiSecurity::Open));
    assert_eq!(r.len(), 2);
}
