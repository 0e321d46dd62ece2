use vstd::prelude::*;
use crate::elements::{views, ElementView, InformationElement};

verus! {

/// A security protocol that a network advertises.
#[derive(Debug, Clone, PartialEq, Eq)]
pub enum WifiSecurity {
    Open,
    Wpa2PersonalPsk,
    Wpa3PersonalSae,
    Wpa2EnterpriseEap,
    Wpa3EnterpriseEap256,
    Wpa3EnterpriseSuiteBEap256,
    Wpa2EnterpriseEapFt,
    Wpa3PersonalPsk256,
    Wpa2PersonalPskFt,
    Wpa3PersonalSaeFt,
    Wep,
    WpaEnterprise,
    WpaPersonal,
    Personal,
    Enterprise,
    Tdls,
    Unknown,
    Other(String),
}

/// A security capability that a platform's WLAN API reports for a network.
#[derive(Debug, Clone, Copy, PartialEq, Eq)]
pub enum SecurityFlag {
    NoSecurity,
    Wep,
    DynamicWep,
    WpaPersonal,
    WpaPersonalMixed,
    Wpa2Personal,
    Personal,
    WpaEnterprise,
    WpaEnterpriseMixed,
    Wpa2Enterprise,
    Enterprise,
    Wpa3Personal,
    Wpa3Enterprise,
    Wpa3Transition,
    Unknown,
}

/// Suite types of the AKM suites (OUI 00-0F-AC) that are told apart.
pub const AKM_EAP: u8 = 1;
pub const AKM_PSK: u8 = 2;
pub const AKM_EAP_FT: u8 = 3;
pub const AKM_PSK_FT: u8 = 4;
pub const AKM_EAP_256: u8 = 5;
pub const AKM_PSK_256: u8 = 6;
pub const AKM_TDLS: u8 = 7;
pub const AKM_SAE: u8 = 8;
pub const AKM_SAE_FT: u8 = 9;
pub const AKM_SUITE_B_EAP_256: u8 = 11;

/// A number for each variant; `Other` has one number whatever its text.
pub open spec fn kind(s: WifiSecurity) -> u8 {
    match s {
        WifiSecurity::Open => 0,
        WifiSecurity::Wpa2PersonalPsk => 1,
        WifiSecurity::Wpa3PersonalSae => 2,
        WifiSecurity::Wpa2EnterpriseEap => 3,
        WifiSecurity::Wpa3EnterpriseEap256 => 4,
        WifiSecurity::Wpa3EnterpriseSuiteBEap256 => 5,
        WifiSecurity::Wpa2EnterpriseEapFt => 6,
        WifiSecurity::Wpa3PersonalPsk256 => 7,
        WifiSecurity::Wpa2PersonalPskFt => 8,
        WifiSecurity::Wpa3PersonalSaeFt => 9,
        WifiSecurity::Wep => 10,
        WifiSecurity::WpaEnterprise => 11,
        WifiSecurity::WpaPersonal => 12,
        WifiSecurity::Personal => 13,
        WifiSecurity::Enterprise => 14,
        WifiSecurity::Tdls => 15,
        WifiSecurity::Unknown => 16,
        WifiSecurity::Other(_) => 17,
    }
}

impl WifiSecurity {
    fn kind(&self) -> (r: u8)
        ensures
            r == kind(*self),
    {
        match self {
            WifiSecurity::Open => 0,
            WifiSecurity::Wpa2PersonalPsk => 1,
            WifiSecurity::Wpa3PersonalSae => 2,
            WifiSecurity::Wpa2EnterpriseEap => 3,
            WifiSecurity::Wpa3EnterpriseEap256 => 4,
            WifiSecurity::Wpa3EnterpriseSuiteBEap256 => 5,
            WifiSecurity::Wpa2EnterpriseEapFt => 6,
            WifiSecurity::Wpa3PersonalPsk256 => 7,
            WifiSecurity::Wpa2PersonalPskFt => 8,
            WifiSecurity::Wpa3PersonalSaeFt => 9,
            WifiSecurity::Wep => 10,
            WifiSecurity::WpaEnterprise => 11,
            WifiSecurity::WpaPersonal => 12,
            WifiSecurity::Personal => 13,
            WifiSecurity::Enterprise => 14,
            WifiSecurity::Tdls => 15,
            WifiSecurity::Unknown => 16,
            WifiSecurity::Other(_) => 17,
        }
    }
}

/// The display name of a security.
pub open spec fn security_name(s: WifiSecurity) -> Seq<char> {
    match s {
        WifiSecurity::Open => "Open"@,
        WifiSecurity::Wpa2PersonalPsk => "WPA2-Personal (PSK)"@,
        WifiSecurity::Wpa3PersonalSae => "WPA3-Personal (SAE)"@,
        WifiSecurity::Wpa2EnterpriseEap => "WPA2-Enterprise (EAP)"@,
        WifiSecurity::Wpa3EnterpriseEap256 => "WPA3-Enterprise (EAP-256)"@,
        WifiSecurity::Wpa3EnterpriseSuiteBEap256 => "WPA3-Enterprise (Suite B EAP-256)"@,
        WifiSecurity::Wpa2EnterpriseEapFt => "WPA2-Enterprise (EAP-FT)"@,
        WifiSecurity::Wpa3PersonalPsk256 => "WPA3-Personal (PSK-256)"@,
        WifiSecurity::Wpa2PersonalPskFt => "WPA2-Personal (PSK-FT)"@,
        WifiSecurity::Wpa3PersonalSaeFt => "WPA3-Personal (SAE-FT)"@,
        WifiSecurity::Wep => "WEP"@,
        WifiSecurity::WpaEnterprise => "WPA-Enterprise"@,
        WifiSecurity::WpaPersonal => "WPA-Personal"@,
        WifiSecurity::Personal => "Personal"@,
        WifiSecurity::Enterprise => "Enterprise"@,
        WifiSecurity::Tdls => "TLDS"@,
        WifiSecurity::Unknown => "Unknown"@,
        WifiSecurity::Other(t) => t@,
    }
}

impl WifiSecurity {
    /// Returns the display name of the security.
    pub fn name(&self) -> (r: String)
        ensures
            r@ == security_name(*self),
    {
        match self {
            WifiSecurity::Open => String::from_str("Open"),
            WifiSecurity::Wpa2PersonalPsk => String::from_str("WPA2-Personal (PSK)"),
            WifiSecurity::Wpa3PersonalSae => String::from_str("WPA3-Personal (SAE)"),
            WifiSecurity::Wpa2EnterpriseEap => String::from_str("WPA2-Enterprise (EAP)"),
            WifiSecurity::Wpa3EnterpriseEap256 => String::from_str("WPA3-Enterprise (EAP-256)"),
            WifiSecurity::Wpa3EnterpriseSuiteBEap256 => String::from_str(
                "WPA3-Enterprise (Suite B EAP-256)",
            ),
            WifiSecurity::Wpa2EnterpriseEapFt => String::from_str("WPA2-Enterprise (EAP-FT)"),
            WifiSecurity::Wpa3PersonalPsk256 => String::from_str("WPA3-Personal (PSK-256)"),
            WifiSecurity::Wpa2PersonalPskFt => String::from_str("WPA2-Personal (PSK-FT)"),
            WifiSecurity::Wpa3PersonalSaeFt => String::from_str("WPA3-Personal (SAE-FT)"),
            WifiSecurity::Wep => String::from_str("WEP"),
            WifiSecurity::WpaEnterprise => String::from_str("WPA-Enterprise"),
            WifiSecurity::WpaPersonal => String::from_str("WPA-Personal"),
            WifiSecurity::Personal => String::from_str("Personal"),
            WifiSecurity::Enterprise => String::from_str("Enterprise"),
            WifiSecurity::Tdls => String::from_str("TLDS"),
            WifiSecurity::Unknown => String::from_str("Unknown"),
            WifiSecurity::Other(t) => t.clone(),
        }
    }
}

/// Adds `s` to a list of distinct securities unless it is there already.
fn insert_security(out: &mut Vec<WifiSecurity>, s: WifiSecurity)
    requires
        !(s is Other),
        old(out)@.no_duplicates(),
    ensures
        final(out)@.no_duplicates(),
        final(out)@.to_set() == old(out)@.to_set().insert(s),
{
    let k = s.kind();
    let mut i: usize = 0;
    while i < out.len()
        invariant
            i <= out@.len(),
            k == kind(s),
            !(s is Other),
            out@.no_duplicates(),
            forall|j: int| 0 <= j < i ==> out@[j] != s,
        decreases out@.len() - i,
    {
        if out[i].kind() == k {
            assert(out@[i as int] == s);
            assert(out@.to_set().insert(s) =~= out@.to_set());
            return;
        }
        i = i + 1;
    }
    let ghost before = out@;
    out.push(s);
    assert(out@.to_set() =~= before.to_set().insert(s)) by {
        assert forall|x: WifiSecurity| before.contains(x) implies out@.contains(x) by {
            let k = choose|k: int| 0 <= k < before.len() && before[k] == x;
            assert(out@[k] == x);
        }
        assert(out@[before.len() as int] == s);
    }
}

/// The security that an AKM suite type stands for, if it is one that is told apart.
pub open spec fn akm_security(code: u8) -> Option<WifiSecurity> {
    if code == AKM_EAP {
        Some(WifiSecurity::Wpa2EnterpriseEap)
    } else if code == AKM_PSK {
        Some(WifiSecurity::Wpa2PersonalPsk)
    } else if code == AKM_EAP_FT {
        Some(WifiSecurity::Wpa2EnterpriseEapFt)
    } else if code == AKM_PSK_FT {
        Some(WifiSecurity::Wpa2PersonalPskFt)
    } else if code == AKM_EAP_256 {
        Some(WifiSecurity::Wpa3EnterpriseEap256)
    } else if code == AKM_PSK_256 {
        Some(WifiSecurity::Wpa3PersonalPsk256)
    } else if code == AKM_TDLS {
        Some(WifiSecurity::Tdls)
    } else if code == AKM_SAE {
        Some(WifiSecurity::Wpa3PersonalSae)
    } else if code == AKM_SAE_FT {
        Some(WifiSecurity::Wpa3PersonalSaeFt)
    } else if code == AKM_SUITE_B_EAP_256 {
        Some(WifiSecurity::Wpa3EnterpriseSuiteBEap256)
    } else {
        None
    }
}

/// Maps an AKM suite type to the security it stands for.
pub fn security_of_akm(code: u8) -> (r: Option<WifiSecurity>)
    ensures
        r == akm_security(code),
{
    if code == AKM_EAP {
        Some(WifiSecurity::Wpa2EnterpriseEap)
    } else if code == AKM_PSK {
        Some(WifiSecurity::Wpa2PersonalPsk)
    } else if code == AKM_EAP_FT {
        Some(WifiSecurity::Wpa2EnterpriseEapFt)
    } else if code == AKM_PSK_FT {
        Some(WifiSecurity::Wpa2PersonalPskFt)
    } else if code == AKM_EAP_256 {
        Some(WifiSecurity::Wpa3EnterpriseEap256)
    } else if code == AKM_PSK_256 {
        Some(WifiSecurity::Wpa3PersonalPsk256)
    } else if code == AKM_TDLS {
        Some(WifiSecurity::Tdls)
    } else if code == AKM_SAE {
        Some(WifiSecurity::Wpa3PersonalSae)
    } else if code == AKM_SAE_FT {
        Some(WifiSecurity::Wpa3PersonalSaeFt)
    } else if code == AKM_SUITE_B_EAP_256 {
        Some(WifiSecurity::Wpa3EnterpriseSuiteBEap256)
    } else {
        None
    }
}

/// The AKM suite types of all RSN elements, in order.
pub open spec fn akm_codes(es: Seq<ElementView>) -> Seq<u8>
    decreases es.len(),
{
    if es.len() == 0 {
        seq![]
    } else {
        akm_codes(es.drop_last()) + match es.last() {
            ElementView::Rsn(a) => a,
            _ => seq![],
        }
    }
}

pub open spec fn has_rsn(es: Seq<ElementView>) -> bool {
    exists|i: int| 0 <= i < es.len() && es[i] is Rsn
}

pub open spec fn has_vendor_wpa(es: Seq<ElementView>) -> bool {
    exists|i: int| 0 <= i < es.len() && es[i] is VendorWpa
}

/// The securities that some of the AKM suite types stand for.
pub open spec fn akm_set(codes: Seq<u8>) -> Set<WifiSecurity> {
    Set::new(|s: WifiSecurity| exists|i: int| 0 <= i < codes.len() && akm_security(codes[i]) == Some(s))
}

/// The securities that a network's elements advertise. With RSN elements,
/// what their AKM suites stand for, or `Unknown` if none stands for anything.
/// Without, `WpaPersonal` and `Wpa2PersonalPsk` if the legacy WPA element is
/// there (the element does not tell the two apart), else `Open`.
pub open spec fn element_security(es: Seq<ElementView>) -> Set<WifiSecurity> {
    if has_rsn(es) {
        if akm_set(akm_codes(es)) == Set::<WifiSecurity>::empty() {
            set![WifiSecurity::Unknown]
        } else {
            akm_set(akm_codes(es))
        }
    } else if has_vendor_wpa(es) {
        set![WifiSecurity::WpaPersonal, WifiSecurity::Wpa2PersonalPsk]
    } else {
        set![WifiSecurity::Open]
    }
}

/// Classifies a network by its decoded information elements.
pub fn classify_elements(elements: &Vec<InformationElement>) -> (r: Vec<WifiSecurity>)
    ensures
        r@.len() > 0,
        r@.no_duplicates(),
        r@.to_set() == element_security(views(elements@)),
        r@.contains(WifiSecurity::Open) ==> r@ == seq![WifiSecurity::Open],
{
    let ghost es = views(elements@);
    let mut out: Vec<WifiSecurity> = Vec::new();
    let mut rsn = false;
    let mut wpa = false;
    let mut i: usize = 0;
    while i < elements.len()
        invariant
            i <= elements@.len(),
            es == views(elements@),
            out@.no_duplicates(),
            out@.to_set() == akm_set(akm_codes(es.subrange(0, i as int))),
            rsn == has_rsn(es.subrange(0, i as int)),
            wpa == has_vendor_wpa(es.subrange(0, i as int)),
        decreases elements@.len() - i,
    {
        let ghost pre = es.subrange(0, i as int);
        let ghost next = es.subrange(0, i + 1);
        assert(next.drop_last() =~= pre);
        assert(next.last() == elements@[i as int]@);
        match &elements[i] {
            InformationElement::RobustSecurityNetwork(akms) => {
                let mut j: usize = 0;
                while j < akms.len()
                    invariant
                        j <= akms@.len(),
                        out@.no_duplicates(),
                        out@.to_set() == akm_set(akm_codes(pre) + akms@.subrange(0, j as int)),
                    decreases akms@.len() - j,
                {
                    let ghost codes = akm_codes(pre) + akms@.subrange(0, j as int);
                    let ghost codes2 = akm_codes(pre) + akms@.subrange(0, j + 1);
                    assert(codes2 =~= codes.push(akms@[j as int]));
                    match security_of_akm(akms[j]) {
                        Some(s) => {
                            insert_security(&mut out, s);
                            assert(akm_set(codes2) =~= akm_set(codes).insert(s)) by {
                                assert(codes2[codes.len() as int] == akms@[j as int]);
                                assert forall|x: WifiSecurity| akm_set(codes).contains(x) implies akm_set(codes2).contains(x) by {
                                    let k = choose|k: int| 0 <= k < codes.len() && akm_security(codes[k]) == Some(x);
                                    assert(codes2[k] == codes[k]);
                                }
                                assert forall|x: WifiSecurity| akm_set(codes2).contains(x) && x != s implies akm_set(codes).contains(x) by {
                                    let k = choose|k: int| 0 <= k < codes2.len() && akm_security(codes2[k]) == Some(x);
                                    assert(k < codes.len());
                                    assert(codes2[k] == codes[k]);
                                }
                            }
                        },
                        None => {
                            assert(akm_set(codes2) =~= akm_set(codes)) by {
                                assert forall|x: WifiSecurity| akm_set(codes).contains(x) implies akm_set(codes2).contains(x) by {
                                    let k = choose|k: int| 0 <= k < codes.len() && akm_security(codes[k]) == Some(x);
                                    assert(codes2[k] == codes[k]);
                                }
                                assert forall|x: WifiSecurity| akm_set(codes2).contains(x) implies akm_set(codes).contains(x) by {
                                    let k = choose|k: int| 0 <= k < codes2.len() && akm_security(codes2[k]) == Some(x);
                                    assert(k < codes.len());
                                    assert(codes2[k] == codes[k]);
                                }
                            }
                        },
                    }
                    j = j + 1;
                }
                assert(akms@.subrange(0, akms@.len() as int) =~= akms@);
                assert(akm_codes(next) == akm_codes(pre) + akms@);
                rsn = true;
                assert(next[i as int] is Rsn);
                assert(wpa == has_vendor_wpa(next)) by {
                    assert(forall|k: int| 0 <= k < i ==> next[k] == pre[k]);
                }
            },
            InformationElement::VendorWpa => {
                assert(akm_codes(next) =~= akm_codes(pre));
                wpa = true;
                assert(next[i as int] is VendorWpa);
                assert(rsn == has_rsn(next)) by {
                    assert(forall|k: int| 0 <= k < i ==> next[k] == pre[k]);
                }
            },
            InformationElement::Ssid(_) => {
                assert(akm_codes(next) =~= akm_codes(pre));
                assert(rsn == has_rsn(next)) by {
                    assert(forall|k: int| 0 <= k < i ==> next[k] == pre[k]);
                }
                assert(wpa == has_vendor_wpa(next)) by {
                    assert(forall|k: int| 0 <= k < i ==> next[k] == pre[k]);
                }
            },
        }
        i = i + 1;
    }
    assert(es.subrange(0, elements@.len() as int) =~= es);
    if rsn {
        if out.len() == 0 {
            assert(out@.to_set() =~= Set::<WifiSecurity>::empty());
            let r = vec![WifiSecurity::Unknown];
            assert(r@.to_set() =~= set![WifiSecurity::Unknown]) by {
                assert(r@[0] == WifiSecurity::Unknown);
            }
            assert(!r@.to_set().contains(WifiSecurity::Open));
            r
        } else {
            assert(out@.to_set().contains(out@[0]));
            assert(!out@.contains(WifiSecurity::Open)) by {
                assert(!akm_set(akm_codes(es)).contains(WifiSecurity::Open));
                assert(!out@.to_set().contains(WifiSecurity::Open));
            }
            out
        }
    } else if wpa {
        let r = vec![WifiSecurity::WpaPersonal, WifiSecurity::Wpa2PersonalPsk];
        assert(r@.to_set() =~= set![WifiSecurity::WpaPersonal, WifiSecurity::Wpa2PersonalPsk]) by {
            assert(r@[0] == WifiSecurity::WpaPersonal);
            assert(r@[1] == WifiSecurity::Wpa2PersonalPsk);
        }
        assert(!r@.to_set().contains(WifiSecurity::Open));
        r
    } else {
        let r = vec![WifiSecurity::Open];
        assert(r@.to_set() =~= set![WifiSecurity::Open]) by {
            assert(r@[0] == WifiSecurity::Open);
        }
        assert(r@ =~= seq![WifiSecurity::Open]);
        r
    }
}

/// Whether a platform capability flag stands for security `s`.
pub open spec fn flag_maps(f: SecurityFlag, s: WifiSecurity) -> bool {
    match f {
        SecurityFlag::NoSecurity => s == WifiSecurity::Open,
        SecurityFlag::Wep => s == WifiSecurity::Wep,
        SecurityFlag::DynamicWep => s == WifiSecurity::Wep,
        SecurityFlag::WpaPersonal => s == WifiSecurity::WpaPersonal,
        SecurityFlag::WpaPersonalMixed => s == WifiSecurity::Wpa3PersonalPsk256 || s
            == WifiSecurity::Wpa2PersonalPskFt,
        SecurityFlag::Wpa2Personal => s == WifiSecurity::Wpa2PersonalPsk,
        SecurityFlag::Personal => s == WifiSecurity::Personal,
        SecurityFlag::WpaEnterprise => s == WifiSecurity::WpaEnterprise,
        SecurityFlag::WpaEnterpriseMixed => s == WifiSecurity::Wpa2EnterpriseEapFt,
        SecurityFlag::Wpa2Enterprise => s == WifiSecurity::Wpa2EnterpriseEap,
        SecurityFlag::Enterprise => s == WifiSecurity::Enterprise,
        SecurityFlag::Wpa3Personal => s == WifiSecurity::Wpa3PersonalSae,
        SecurityFlag::Wpa3Enterprise => s == WifiSecurity::Wpa3EnterpriseEap256,
        SecurityFlag::Wpa3Transition => s == WifiSecurity::Wpa3PersonalSaeFt,
        SecurityFlag::Unknown => s == WifiSecurity::Unknown,
    }
}

/// The securities that some of the flags stand for.
pub open spec fn flag_set(flags: Seq<SecurityFlag>) -> Set<WifiSecurity> {
    Set::new(|s: WifiSecurity| exists|i: int| 0 <= i < flags.len() && flag_maps(flags[i], s))
}

/// The securities that a platform's flags advertise. `Open` stands only
/// alone: it is left out when another flag stands for some security. No
/// flag at all gives `Unknown`.
pub open spec fn flag_security(flags: Seq<SecurityFlag>) -> Set<WifiSecurity> {
    let m = flag_set(flags);
    if m.remove(WifiSecurity::Open) != Set::<WifiSecurity>::empty() {
        m.remove(WifiSecurity::Open)
    } else if m.contains(WifiSecurity::Open) {
        set![WifiSecurity::Open]
    } else {
        set![WifiSecurity::Unknown]
    }
}

/// Where `Open` stands in a list of securities, if it does.
fn position_of_open(v: &Vec<WifiSecurity>) -> (r: Option<usize>)
    ensures
        match r {
            Some(i) => i < v@.len() && v@[i as int] == WifiSecurity::Open,
            None => !v@.contains(WifiSecurity::Open),
        },
{
    let mut i: usize = 0;
    while i < v.len()
        invariant
            i <= v@.len(),
            forall|j: int| 0 <= j < i ==> v@[j] != WifiSecurity::Open,
        decreases v@.len() - i,
    {
        if v[i].kind() == 0 {
            return Some(i);
        }
        i = i + 1;
    }
    None
}

/// The securities that one platform flag stands for: one, or two.
fn securities_of_flag(f: SecurityFlag) -> (r: (WifiSecurity, Option<WifiSecurity>))
    ensures
        forall|s: WifiSecurity| flag_maps(f, s) <==> (s == r.0 || r.1 == Some(s)),
{
    match f {
        SecurityFlag::NoSecurity => (WifiSecurity::Open, None),
        SecurityFlag::Wep => (WifiSecurity::Wep, None),
        SecurityFlag::DynamicWep => (WifiSecurity::Wep, None),
        SecurityFlag::WpaPersonal => (WifiSecurity::WpaPersonal, None),
        SecurityFlag::WpaPersonalMixed => (
            WifiSecurity::Wpa3PersonalPsk256,
            Some(WifiSecurity::Wpa2PersonalPskFt),
        ),
        SecurityFlag::Wpa2Personal => (WifiSecurity::Wpa2PersonalPsk, None),
        SecurityFlag::Personal => (WifiSecurity::Personal, None),
        SecurityFlag::WpaEnterprise => (WifiSecurity::WpaEnterprise, None),
        SecurityFlag::WpaEnterpriseMixed => (WifiSecurity::Wpa2EnterpriseEapFt, None),
        SecurityFlag::Wpa2Enterprise => (WifiSecurity::Wpa2EnterpriseEap, None),
        SecurityFlag::Enterprise => (WifiSecurity::Enterprise, None),
        SecurityFlag::Wpa3Personal => (WifiSecurity::Wpa3PersonalSae, None),
        SecurityFlag::Wpa3Enterprise => (WifiSecurity::Wpa3EnterpriseEap256, None),
        SecurityFlag::Wpa3Transition => (WifiSecurity::Wpa3PersonalSaeFt, None),
        SecurityFlag::Unknown => (WifiSecurity::Unknown, None),
    }
}

/// Classifies a network by the security capability flags its platform reports.
pub fn classify_flags(flags: &Vec<SecurityFlag>) -> (r: Vec<WifiSecurity>)
    ensures
        r@.len() > 0,
        r@.no_duplicates(),
        r@.to_set() == flag_security(flags@),
        r@.contains(WifiSecurity::Open) ==> r@ == seq![WifiSecurity::Open],
{
    let mut out: Vec<WifiSecurity> = Vec::new();
    let mut i: usize = 0;
    while i < flags.len()
        invariant
            i <= flags@.len(),
            out@.no_duplicates(),
            out@.to_set() == flag_set(flags@.subrange(0, i as int)),
        decreases flags@.len() - i,
    {
        let ghost pre = flags@.subrange(0, i as int);
        let ghost next = flags@.subrange(0, i + 1);
        let f = flags[i];
        let (first, second) = securities_of_flag(f);
        assert(flag_maps(f, first));
        insert_security(&mut out, first);
        match second {
            Some(t) => {
                assert(flag_maps(f, t));
                insert_security(&mut out, t);
            },
            None => {},
        }
        assert(flag_set(next) =~= out@.to_set()) by {
            assert(f == next[i as int]);
            assert forall|x: WifiSecurity| flag_set(pre).contains(x) implies flag_set(next).contains(x) by {
                let k = choose|k: int| 0 <= k < pre.len() && flag_maps(pre[k], x);
                assert(next[k] == pre[k]);
            }
            assert forall|x: WifiSecurity| flag_set(next).contains(x) && !flag_set(pre).contains(x) implies flag_maps(f, x) by {
                let k = choose|k: int| 0 <= k < next.len() && flag_maps(next[k], x);
                if k < i {
                    assert(next[k] == pre[k]);
                }
            }
        }
        i = i + 1;
    }
    assert(flags@.subrange(0, flags@.len() as int) =~= flags@);
    let ghost m = flag_set(flags@);
    if out.len() == 0 {
        assert(out@.to_set() =~= Set::<WifiSecurity>::empty());
        assert(m.remove(WifiSecurity::Open) =~= Set::<WifiSecurity>::empty());
        let r = vec![WifiSecurity::Unknown];
        assert(r@.to_set() =~= set![WifiSecurity::Unknown]) by {
            assert(r@[0] == WifiSecurity::Unknown);
        }
        return r;
    }
    match position_of_open(&out) {
        None => {
            assert(m.remove(WifiSecurity::Open) =~= m);
            assert(m.contains(out@[0]));
            out
        },
        Some(i) => {
            if out.len() == 1 {
                assert(out@ =~= seq![WifiSecurity::Open]);
                assert(m =~= set![WifiSecurity::Open]) by {
                    assert forall|x: WifiSecurity| m.contains(x) implies x == WifiSecurity::Open by {
                        let k = choose|k: int| 0 <= k < out@.len() && out@[k] == x;
                    }
                    assert(out@.contains(out@[0]));
                }
                assert(m.remove(WifiSecurity::Open) =~= Set::<WifiSecurity>::empty());
                out
            } else {
                let ghost before = out@;
                out.remove(i);
                assert(forall|j: int| 0 <= j < out@.len() ==> #[trigger] out@[j] == before[if j < i { j } else { j + 1 }]);
                assert(out@.no_duplicates()) by {
                    assert forall|a: int, b: int| 0 <= a < out@.len() && 0 <= b < out@.len() && a != b
                        implies out@[a] != out@[b] by {
                        let a0 = if a < i { a } else { a + 1 };
                        let b0 = if b < i { b } else { b + 1 };
                        assert(out@[a] == before[a0] && out@[b] == before[b0]);
                    }
                }
                assert(out@.to_set() =~= m.remove(WifiSecurity::Open)) by {
                    assert forall|x: WifiSecurity| out@.contains(x) implies m.remove(WifiSecurity::Open).contains(x) by {
                        let k = choose|k: int| 0 <= k < out@.len() && out@[k] == x;
                        let k0 = if k < i { k } else { k + 1 };
                        assert(before[k0] == x);
                        assert(before.contains(x));
                        assert(k0 != i);
                    }
                    assert forall|x: WifiSecurity| m.remove(WifiSecurity::Open).contains(x) implies out@.contains(x) by {
                        let k = choose|k: int| 0 <= k < before.len() && before[k] == x;
                        assert(k != i);
                        if k < i {
                            assert(out@[k] == x);
                        } else {
                            assert(out@[k - 1] == x);
                        }
                    }
                }
                assert(!out@.contains(WifiSecurity::Open)) by {
                    assert(!m.remove(WifiSecurity::Open).contains(WifiSecurity::Open));
                    assert(out@.to_set() == m.remove(WifiSecurity::Open));
                }
                assert(out@.to_set().contains(out@[0]));
                out
            }
        },
    }
}

/// The securities of a network: from its platform's flags where the platform
/// reports them, else from its information elements.
pub open spec fn classification(es: Seq<ElementView>, flags: Option<Seq<SecurityFlag>>) -> Set<WifiSecurity> {
    match flags {
        Some(f) => flag_security(f),
        None => element_security(es),
    }
}

/// Whichever way it is classified, by its elements or by its platform's
/// flags, a network is either `Open` and nothing else, or not `Open` at all.
pub proof fn lemma_open_stands_alone(es: Seq<ElementView>, flags: Option<Seq<SecurityFlag>>)
    ensures
        classification(es, flags).contains(WifiSecurity::Open) ==> classification(es, flags)
            == set![WifiSecurity::Open],
{
    match flags {
        Some(f) => {
            let m = flag_set(f);
            assert(!m.remove(WifiSecurity::Open).contains(WifiSecurity::Open));
        },
        None => {
            if has_rsn(es) {
                assert(!akm_set(akm_codes(es)).contains(WifiSecurity::Open));
            } else if has_vendor_wpa(es) {
                assert(!set![WifiSecurity::WpaPersonal, WifiSecurity::Wpa2PersonalPsk].contains(
                    WifiSecurity::Open,
                ));
            }
        },
    }
}

/// Classifies a network: by the platform's capability flags when given,
/// else by its decoded information elements. Never empty.
pub fn classify(elements: &Vec<InformationElement>, flags: &Option<Vec<SecurityFlag>>) -> (r: Vec<WifiSecurity>)
    ensures
        r@.len() > 0,
        r@.no_duplicates(),
        r@.to_set() == classification(views(elements@), match flags {
            Some(f) => Some(f@),
            None => None,
        }),
        r@.contains(WifiSecurity::Open) ==> r@ == seq![WifiSecurity::Open],
{
    match flags {
        Some(f) => classify_flags(f),
        None => classify_elements(elements),
    }
}

} // verus!
