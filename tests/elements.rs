use wifi_scan::{parse_all, rsn_suite_types, InformationElement};

fn rsn_body(akms: &[u8]) -> Vec<u8> {
    let mut v = vec![1, 0, 0x00, 0x0f, 0xac, 0x04, 1, 0, 0x00, 0x0f, 0xac, 0x04];
    v.push(akms.len() as u8);
    v.push(0);
    for a in akms {
        v.extend_from_slice(&[0x00, 0x0f, 0xac, *a]);
    }
    v.extend_from_slice(&[0x0c, 0x00]);
    v
}

fn element(id: u8, body: &[u8]) -> Vec<u8> {
    let mut v = vec![id, body.len() as u8];
    v.extend_from_slice(body);
    v
}

fn serialize(es: &[InformationElement]) -> Vec<u8> {
    let mut out = Vec::new();
    for e in es {
        match e {
            InformationElement::Ssid(v) => out.extend(element(0, v)),
            InformationElement::RobustSecurityNetwork(a) => out.extend(element(48, &rsn_body(a))),
            InformationElement::VendorWpa => out.extend(element(221, &[0x00, 0x50, 0xf2, 0x01])),
        }
    }
    out
}

#[test]
fn parse_ssid_and_rsn() {
    let mut blob = element(0, b"Home");
    blob.extend(element(1, &[0x82, 0x84, 0x8b]));
    blob.extend(element(48, &rsn_body(&[2, 8])));
    let es = parse_all(&blob);
    assert_eq!(
        es,
        vec![
            InformationElement::Ssid(b"Home".to_vec()),
            InformationElement::RobustSecurityNetwork(vec![2, 8]),
        ]
    );
}

#[test]
fn parse_vendor_elements() {
    let mut blob = element(221, &[0x00, 0x50, 0xf2, 0x01, 0x01, 0x00]);
    blob.extend(element(221, &[0x00, 0x50, 0xf2, 0x02]));
    blob.extend(element(221, &[0x00, 0x50, 0xf2]));
    blob.extend(element(221, &[0x00, 0x10, 0x18, 0x01]));
    assert_eq!(parse_all(&blob), vec![InformationElement::VendorWpa]);
}

#[test]
fn parse_truncated_keeps_earlier_elements() {
    let mut blob = element(0, b"cafe");
    blob.extend(element(48, &rsn_body(&[2])));
    let whole = parse_all(&blob);
    let mut cut = blob.clone();
    cut.extend_from_slice(&[0, 10, b'a', b'b']);
    assert_eq!(parse_all(&cut), whole);
    let mut cut_header = blob.clone();
    cut_header.push(48);
    assert_eq!(parse_all(&cut_header), whole);
    assert_eq!(whole.len(), 2);
}

#[test]
fn parse_empty_and_short_blobs() {
    assert_eq!(parse_all(&vec![]), vec![]);
    assert_eq!(parse_all(&vec![0]), vec![]);
    assert_eq!(parse_all(&vec![0, 5, b'a']), vec![]);
    assert_eq!(parse_all(&vec![0, 0]), vec![InformationElement::Ssid(vec![])]);
}

#[test]
fn parse_round_trip() {
    let mut blob = element(0, b"Net\0");
    blob.extend(element(7, b"DE "));
    blob.extend(element(48, &rsn_body(&[1, 3, 200])));
    blob.extend(element(48, &[1, 0, 0x00]));
    blob.extend(element(221, &[0x00, 0x50, 0xf2, 0x01]));
    let first = parse_all(&blob);
    let again = parse_all(&serialize(&first));
    assert_eq!(again, first);
    assert_eq!(first.len(), 4);
}

#[test]
fn rsn_malformed_bodies_give_no_akms() {
    assert_eq!(rsn_suite_types(&vec![1, 0, 0x00, 0x0f, 0xac, 0x04, 1]), Vec::<u8>::new());
    // declares two pairwise suites but carries one
    assert_eq!(
        rsn_suite_types(&vec![1, 0, 0x00, 0x0f, 0xac, 0x04, 2, 0, 0x00, 0x0f, 0xac, 0x04, 1, 0]),
        Vec::<u8>::new()
    );
    // declares two AKM suites but carries one
    assert_eq!(
        rsn_suite_types(&vec![1, 0, 0x00, 0x0f, 0xac, 0x04, 0, 0, 2, 0, 0x00, 0x0f, 0xac, 0x02]),
        Vec::<u8>::new()
    );
}

#[test]
fn rsn_suite_types_without_capabilities() {
    assert_eq!(
        rsn_suite_types(&vec![1, 0, 0x00, 0x0f, 0xac, 0x04, 0, 0, 2, 0, 0x00, 0x0f, 0xac, 0x02, 0x00, 0x0f, 0xac, 0x08]),
        vec![2, 8]
    );
    assert_eq!(rsn_suite_types(&rsn_body(&[5, 6, 11])), vec![5, 6, 11]);
}
