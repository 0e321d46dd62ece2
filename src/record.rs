use vstd::prelude::*;
use crate::channel::{channel_of, channel_spec};
use crate::elements::{parse_all, parse_spec, views, ElementView, InformationElement};
use crate::security::{
    classify_elements, classify_flags, element_security, flag_security, has_rsn, has_vendor_wpa,
    SecurityFlag, WifiSecurity,
};
use crate::text::{decode_ssid, format_mac, mac_text, ssid_text};
use crate::wifi::{Wifi, WifiView};

verus! {

/// What a platform reports of one network, before decoding.
#[derive(Debug, Clone, PartialEq, Eq, Default)]
pub struct RawObservation {
    /// The BSSID as six octets.
    pub bssid: Option<Vec<u8>>,
    /// The BSSID as text, where the platform gives it so.
    pub bssid_text: Option<String>,
    /// The network name, where the platform has decoded it already.
    pub ssid: Option<String>,
    /// Centre frequency in MHz.
    pub frequency: Option<u32>,
    /// Channel number, where the platform reports it instead of a frequency.
    pub channel: Option<u32>,
    /// Signal strength in dBm.
    pub signal: Option<i32>,
    /// The information elements of the network's beacon or probe response.
    pub elements: Option<Vec<u8>>,
    /// The security capabilities that the platform has decoded.
    pub flags: Option<Vec<SecurityFlag>>,
}

/// The body of the first SSID element, if there is one.
pub open spec fn first_ssid(es: Seq<ElementView>) -> Option<Seq<u8>>
    decreases es.len(),
{
    if es.len() == 0 {
        None
    } else {
        match es[0] {
            ElementView::Ssid(v) => Some(v),
            _ => first_ssid(es.drop_first()),
        }
    }
}

/// MAC text: from the octets, else the platform's text, else empty.
pub open spec fn observed_mac(o: RawObservation) -> Seq<char> {
    match o.bssid {
        Some(b) => mac_text(b@),
        None => match o.bssid_text {
            Some(t) => t@,
            None => seq![],
        },
    }
}

/// Network name: the platform's, else that of the first SSID element, else empty.
pub open spec fn observed_ssid(o: RawObservation) -> Seq<char> {
    match o.ssid {
        Some(t) => t@,
        None => match o.elements {
            Some(blob) => match first_ssid(parse_spec(blob@)) {
                Some(v) => ssid_text(v),
                None => seq![],
            },
            None => seq![],
        },
    }
}

/// Channel: from the frequency, else the platform's channel number, else 0.
pub open spec fn observed_channel(o: RawObservation) -> u32 {
    match o.frequency {
        Some(f) => channel_spec(f),
        None => match o.channel {
            Some(c) => c,
            None => 0,
        },
    }
}

/// Securities: from the platform's flags, else from the elements, else `Unknown`.
pub open spec fn observed_security(o: RawObservation) -> Set<WifiSecurity> {
    match o.flags {
        Some(f) => flag_security(f@),
        None => match o.elements {
            Some(blob) => element_security(parse_spec(blob@)),
            None => set![WifiSecurity::Unknown],
        },
    }
}

/// The record that an observation decodes to.
pub open spec fn built(o: RawObservation) -> WifiView {
    WifiView {
        mac: observed_mac(o),
        ssid: observed_ssid(o),
        channel: observed_channel(o),
        signal_level: match o.signal {
            Some(s) => s,
            None => 0,
        },
        security: observed_security(o),
    }
}

/// The body of the first SSID element.
fn first_ssid_of(elements: &Vec<InformationElement>) -> (r: Option<&Vec<u8>>)
    ensures
        match r {
            Some(v) => first_ssid(views(elements@)) == Some(v@),
            None => first_ssid(views(elements@)) is None,
        },
{
    let ghost es = views(elements@);
    let n = elements.len();
    let mut i: usize = 0;
    assert(es.subrange(0, n as int) =~= es);
    while i < n
        invariant
            n == elements@.len(),
            es == views(elements@),
            i <= n,
            first_ssid(es) == first_ssid(es.subrange(i as int, n as int)),
        decreases n - i,
    {
        let ghost rest = es.subrange(i as int, n as int);
        assert(rest[0] == elements@[i as int]@);
        match &elements[i] {
            InformationElement::Ssid(v) => {
                return Some(v);
            },
            _ => {},
        }
        assert(rest.drop_first() =~= es.subrange(i + 1, n as int));
        i = i + 1;
    }
    None
}

/// Decodes one observation into a record. Absent or undecodable parts give
/// an empty text, 0, or `Unknown`; it never fails.
pub fn build(o: &RawObservation) -> (r: Wifi)
    ensures
        r@ == built(*o),
        r.security@.len() > 0,
        r.security@.no_duplicates(),
        r.security@.contains(WifiSecurity::Open) ==> r.security@ == seq![WifiSecurity::Open],
{
    let mac = match &o.bssid {
        Some(b) => format_mac(b),
        None => match &o.bssid_text {
            Some(t) => t.clone(),
            None => String::new(),
        },
    };
    let parsed = match &o.elements {
        Some(blob) => Some(parse_all(blob)),
        None => None,
    };
    let ssid = match &o.ssid {
        Some(t) => t.clone(),
        None => match &parsed {
            Some(es) => match first_ssid_of(es) {
                Some(v) => decode_ssid(v),
                None => String::new(),
            },
            None => String::new(),
        },
    };
    let channel = match o.frequency {
        Some(f) => channel_of(f),
        None => match o.channel {
            Some(c) => c,
            None => 0,
        },
    };
    let signal_level = match o.signal {
        Some(s) => s,
        None => 0,
    };
    let security = match &o.flags {
        Some(f) => classify_flags(f),
        None => match &parsed {
            Some(es) => classify_elements(es),
            None => {
                let v = vec![WifiSecurity::Unknown];
                assert(v@.to_set() =~= set![WifiSecurity::Unknown]) by {
                    assert(v@[0] == WifiSecurity::Unknown);
                }
                assert(!v@.to_set().contains(WifiSecurity::Open));
                v
            },
        },
    };
    Wifi { mac, ssid, channel, signal_level, security }
}

/// An observation whose security comes from its elements, with neither an
/// RSN element nor the legacy WPA element among them, is open.
pub proof fn lemma_no_security_elements_open(o: RawObservation, blob: Vec<u8>)
    requires
        o.flags is None,
        o.elements == Some(blob),
        !has_rsn(parse_spec(blob@)),
        !has_vendor_wpa(parse_spec(blob@)),
    ensures
        observed_security(o) == set![WifiSecurity::Open],
{
}

} // verus!
