use wifi_scan::{channel_of, format_mac};

#[test]
fn channel_of_2ghz_band() {
    let mut f: u32 = 2412;
    while f <= 2472 {
        assert_eq!(channel_of(f), (f - 2407) / 5);
        f += 5;
    }
    assert_eq!(channel_of(2412), 1);
    assert_eq!(channel_of(2437), 6);
    assert_eq!(channel_of(2472), 13);
}

#[test]
fn channel_of_japan_and_unknown() {
    assert_eq!(channel_of(2484), 14);
    assert_eq!(channel_of(2300), 0);
    assert_eq!(channel_of(0), 0);
    assert_eq!(channel_of(2473), 0);
    assert_eq!(channel_of(u32::MAX), 0);
}

#[test]
fn channel_of_5ghz_and_6ghz() {
    assert_eq!(channel_of(5180), 36);
    assert_eq!(channel_of(5895), 179);
    assert_eq!(channel_of(5500), 100);
    assert_eq!(channel_of(5955), 1);
    assert_eq!(channel_of(7115), 233);
    assert_eq!(channel_of(7120), 0);
    assert_eq!(channel_of(5900), 0);
}

fn is_mac_shape(s: &str) -> bool {
    let b = s.as_bytes();
    if b.len() != 17 {
        return false;
    }
    for (i, c) in b.iter().enumerate() {
        let ok = if i % 3 == 2 {
            *c == b':'
        } else {
            c.is_ascii_digit() || (b'a'..=b'f').contains(c)
        };
        if !ok {
            return false;
        }
    }
    true
}

#[test]
fn format_mac_six_bytes() {
    assert_eq!(format_mac(&vec![0xaa, 0xbb, 0xcc, 0xdd, 0xee, 0xff]), "aa:bb:cc:dd:ee:ff");
    assert_eq!(format_mac(&vec![0x00, 0x1a, 0x2B, 0x09, 0x80, 0x7f]), "00:1a:2b:09:80:7f");
    for seed in 0u32..300 {
        let bytes: Vec<u8> = (0..6u32).map(|k| ((seed * 37 + k * 91) % 256) as u8).collect();
        assert!(is_mac_shape(&format_mac(&bytes)));
    }
}

#[test]
fn format_mac_empty_and_other_lengths() {
    assert_eq!(format_mac(&vec![]), "");
    assert_eq!(format_mac(&vec![0x05]), "05");
    assert_eq!(format_mac(&vec![1, 2, 3, 4, 5, 6, 7, 8]), "01:02:03:04:05:06:07:08");
}
