use vstd::prelude::*;
use crate::channel::frequency_spec;
use crate::security::{security_name, WifiSecurity};
use crate::text::{decimal, push_decimal, push_signed_decimal, push_text, signed_decimal};

verus! {

/// Errors of a scan.
#[derive(Debug, PartialEq, Eq)]
pub enum Error {
    /// No usable radio interface, or enumerating them failed.
    InterfaceError(String),
    /// The connection to the platform's wireless service failed.
    SocketError(String),
    /// The platform refused or could not complete a scan.
    ScanFailed(String),
}

/// One access point found by a scan.
#[derive(Debug, PartialEq, Eq, Default, Clone)]
pub struct Wifi {
    /// MAC address (BSSID); empty when unknown.
    pub mac: String,
    /// Network name; empty for a hidden network.
    pub ssid: String,
    /// Channel the access point is on; 0 when unknown.
    pub channel: u32,
    /// Signal strength in dBm; 0 when unknown.
    pub signal_level: i32,
    /// The security protocols the network advertises; never empty.
    pub security: Vec<WifiSecurity>,
}

/// Mathematical form of a [`Wifi`]: the order of the securities is immaterial.
pub struct WifiView {
    pub mac: Seq<char>,
    pub ssid: Seq<char>,
    pub channel: u32,
    pub signal_level: i32,
    pub security: Set<WifiSecurity>,
}

impl View for Wifi {
    type V = WifiView;

    open spec fn view(&self) -> WifiView {
        WifiView {
            mac: self.mac@,
            ssid: self.ssid@,
            channel: self.channel,
            signal_level: self.signal_level,
            security: self.security@.to_set(),
        }
    }
}

/// The message of an error: what failed, then the detail.
pub open spec fn error_message(e: Error) -> Seq<char> {
    match e {
        Error::SocketError(d) => "Error while creating socket: "@ + d@,
        Error::InterfaceError(d) => "Interface error: "@ + d@,
        Error::ScanFailed(d) => "Scan Failed: "@ + d@,
    }
}

impl Error {
    /// Returns the error as a message for people.
    pub fn message(&self) -> (r: String)
        ensures
            r@ == error_message(*self),
    {
        match self {
            Error::SocketError(d) => String::from_str("Error while creating socket: ").concat(d.as_str()),
            Error::InterfaceError(d) => String::from_str("Interface error: ").concat(d.as_str()),
            Error::ScanFailed(d) => String::from_str("Scan Failed: ").concat(d.as_str()),
        }
    }
}

/// The display names of securities, joined by `", "`.
pub open spec fn joined_names(s: Seq<WifiSecurity>) -> Seq<char>
    decreases s.len(),
{
    if s.len() == 0 {
        seq![]
    } else if s.len() == 1 {
        security_name(s[0])
    } else {
        joined_names(s.drop_last()) + ", "@ + security_name(s.last())
    }
}

/// A record as one line of text.
pub open spec fn record_line(w: Wifi) -> Seq<char> {
    "[MAC: "@ + w.mac@ + " | SSID: "@ + w.ssid@ + " | Channel: "@ + decimal(w.channel as nat)
        + " | RSSI: "@ + signed_decimal(w.signal_level as int) + " dBm | Security: "@
        + joined_names(w.security@)
}

/// Signal strength in words.
#[derive(Debug, Clone, Copy, PartialEq, Eq)]
pub enum SignalStrength {
    Unknown,
    Weak,
    Fair,
    Good,
    Excellent,
}

pub open spec fn signal_strength(level: i32) -> SignalStrength {
    if level == 0 {
        SignalStrength::Unknown
    } else if -50 <= level <= 0 {
        SignalStrength::Excellent
    } else if -70 <= level <= -61 {
        SignalStrength::Good
    } else if -80 <= level <= -71 {
        SignalStrength::Fair
    } else {
        SignalStrength::Weak
    }
}

pub open spec fn is_wpa3_security(s: WifiSecurity) -> bool {
    s is Wpa3EnterpriseEap256 || s is Wpa3EnterpriseSuiteBEap256 || s is Wpa3PersonalPsk256
        || s is Wpa3PersonalSae || s is Wpa3PersonalSaeFt
}

pub open spec fn is_wpa2_security(s: WifiSecurity) -> bool {
    s is Wpa2EnterpriseEap || s is Wpa2EnterpriseEapFt || s is Wpa2PersonalPsk
        || s is Wpa2PersonalPskFt
}

pub open spec fn is_enterprise_security(s: WifiSecurity) -> bool {
    s is Enterprise || s is WpaEnterprise || s is Wpa2EnterpriseEap || s is Wpa2EnterpriseEapFt
        || s is Wpa3EnterpriseEap256 || s is Wpa3EnterpriseSuiteBEap256
}

pub open spec fn is_personal_security(s: WifiSecurity) -> bool {
    s is Personal || s is WpaPersonal || s is Wpa2PersonalPsk || s is Wpa2PersonalPskFt
        || s is Wpa3PersonalPsk256 || s is Wpa3PersonalSae || s is Wpa3PersonalSaeFt
}

/// The four groups that a network's securities are tested against.
pub enum SecurityGroup {
    Wpa3,
    Wpa2,
    Enterprise,
    Personal,
}

pub open spec fn in_group(g: SecurityGroup, s: WifiSecurity) -> bool {
    match g {
        SecurityGroup::Wpa3 => is_wpa3_security(s),
        SecurityGroup::Wpa2 => is_wpa2_security(s),
        SecurityGroup::Enterprise => is_enterprise_security(s),
        SecurityGroup::Personal => is_personal_security(s),
    }
}

fn security_in_group(g: &SecurityGroup, s: &WifiSecurity) -> (r: bool)
    ensures
        r == in_group(*g, *s),
{
    match g {
        SecurityGroup::Wpa3 => match s {
            WifiSecurity::Wpa3EnterpriseEap256 | WifiSecurity::Wpa3EnterpriseSuiteBEap256
            | WifiSecurity::Wpa3PersonalPsk256 | WifiSecurity::Wpa3PersonalSae
            | WifiSecurity::Wpa3PersonalSaeFt => true,
            _ => false,
        },
        SecurityGroup::Wpa2 => match s {
            WifiSecurity::Wpa2EnterpriseEap | WifiSecurity::Wpa2EnterpriseEapFt
            | WifiSecurity::Wpa2PersonalPsk | WifiSecurity::Wpa2PersonalPskFt => true,
            _ => false,
        },
        SecurityGroup::Enterprise => match s {
            WifiSecurity::Enterprise | WifiSecurity::WpaEnterprise
            | WifiSecurity::Wpa2EnterpriseEap | WifiSecurity::Wpa2EnterpriseEapFt
            | WifiSecurity::Wpa3EnterpriseEap256 | WifiSecurity::Wpa3EnterpriseSuiteBEap256 => true,
            _ => false,
        },
        SecurityGroup::Personal => match s {
            WifiSecurity::Personal | WifiSecurity::WpaPersonal | WifiSecurity::Wpa2PersonalPsk
            | WifiSecurity::Wpa2PersonalPskFt | WifiSecurity::Wpa3PersonalPsk256
            | WifiSecurity::Wpa3PersonalSae | WifiSecurity::Wpa3PersonalSaeFt => true,
            _ => false,
        },
    }
}

impl Wifi {
    /// Whether some advertised security lies in group `g`.
    fn any_in_group(&self, g: SecurityGroup) -> (r: bool)
        ensures
            r == exists|i: int| 0 <= i < self.security@.len() && in_group(g, self.security@[i]),
    {
        let mut i: usize = 0;
        while i < self.security.len()
            invariant
                i <= self.security@.len(),
                forall|j: int| 0 <= j < i ==> !in_group(g, self.security@[j]),
            decreases self.security@.len() - i,
        {
            if security_in_group(&g, &self.security[i]) {
                return true;
            }
            i = i + 1;
        }
        false
    }

    /// Returns the record as one line of text:
    /// `[MAC: m | SSID: s | Channel: c | RSSI: r dBm | Security: a, b`.
    pub fn describe(&self) -> (r: String)
        ensures
            r@ == record_line(*self),
    {
        let mut s = String::from_str("[MAC: ");
        push_text(&mut s, self.mac.as_str());
        push_text(&mut s, " | SSID: ");
        push_text(&mut s, self.ssid.as_str());
        push_text(&mut s, " | Channel: ");
        push_decimal(&mut s, self.channel as u64);
        push_text(&mut s, " | RSSI: ");
        push_signed_decimal(&mut s, self.signal_level as i64);
        push_text(&mut s, " dBm | Security: ");
        let ghost head = s@;
        let mut i: usize = 0;
        while i < self.security.len()
            invariant
                i <= self.security@.len(),
                s@ == head + joined_names(self.security@.subrange(0, i as int)),
            decreases self.security@.len() - i,
        {
            let ghost prev = self.security@.subrange(0, i as int);
            let ghost next = self.security@.subrange(0, i + 1);
            if i > 0 {
                push_text(&mut s, ", ");
            }
            let name = self.security[i].name();
            push_text(&mut s, name.as_str());
            assert(next.drop_last() =~= prev);
            assert(s@ =~= head + joined_names(next));
            i = i + 1;
        }
        assert(self.security@.subrange(0, self.security@.len() as int) =~= self.security@);
        assert(s@ =~= record_line(*self));
        s
    }

    /// Returns `true` if the network is open: its only security is `Open`.
    pub fn is_open(&self) -> (r: bool)
        ensures
            r == (self.security@.len() == 1 && self.security@[0] is Open),
    {
        self.security.len() == 1 && matches!(self.security[0], WifiSecurity::Open)
    }

    /// Returns `true` if the network supports WPA3.
    pub fn is_wpa3(&self) -> (r: bool)
        ensures
            r == exists|i: int| 0 <= i < self.security@.len() && is_wpa3_security(self.security@[i]),
    {
        self.any_in_group(SecurityGroup::Wpa3)
    }

    /// Returns `true` if the network supports WPA2.
    pub fn is_wpa2(&self) -> (r: bool)
        ensures
            r == exists|i: int| 0 <= i < self.security@.len() && is_wpa2_security(self.security@[i]),
    {
        self.any_in_group(SecurityGroup::Wpa2)
    }

    /// Returns `true` if the network is an enterprise network.
    pub fn is_enterprise(&self) -> (r: bool)
        ensures
            r == exists|i: int|
                0 <= i < self.security@.len() && is_enterprise_security(self.security@[i]),
    {
        self.any_in_group(SecurityGroup::Enterprise)
    }

    /// Returns `true` if the network is a personal network.
    pub fn is_personal(&self) -> (r: bool)
        ensures
            r == exists|i: int|
                0 <= i < self.security@.len() && is_personal_security(self.security@[i]),
    {
        self.any_in_group(SecurityGroup::Personal)
    }

    /// Returns the signal strength in words.
    pub fn readable_signal(&self) -> (r: SignalStrength)
        ensures
            r == signal_strength(self.signal_level),
    {
        let level = self.signal_level;
        if level == 0 {
            SignalStrength::Unknown
        } else if -50 <= level && level <= 0 {
            SignalStrength::Excellent
        } else if -70 <= level && level <= -61 {
            SignalStrength::Good
        } else if -80 <= level && level <= -71 {
            SignalStrength::Fair
        } else {
            SignalStrength::Weak
        }
    }

    /// Returns `true` if the network is hidden: its name is empty.
    pub fn is_hidden(&self) -> (r: bool)
        ensures
            r == (self.ssid@.len() == 0),
    {
        self.ssid.as_str().is_empty()
    }

    /// Returns the centre frequency in MHz of the network's channel; 0 when unknown.
    pub fn get_frequency(&self) -> (r: u32)
        ensures
            r == frequency_spec(self.channel),
    {
        let channel = self.channel;
        if 1 <= channel && channel <= 13 {
            2407 + channel * 5
        } else if channel == 14 {
            2484
        } else if 36 <= channel && channel <= 165 {
            5000 + channel * 5
        } else if 167 <= channel && channel <= 233 {
            5950 + (channel - 1) * 5
        } else {
            0
        }
    }
}

/// A source of scan results for one platform.
pub trait WlanScanner {
    fn scan(&mut self) -> Result<Vec<Wifi>, Error>;
}

} // verus!
