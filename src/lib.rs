//! Decoding of 802.11 scan results: channel numbers, MAC text, information
//! elements, security classification, and merging of per-interface results.

pub mod aggregate;
pub mod channel;
pub mod elements;
pub mod record;
pub mod security;
pub mod text;
pub mod wifi;

pub use aggregate::{aggregate, scan};
pub use channel::channel_of;
pub use elements::{parse_all, rsn_suite_types, InformationElement};
pub use record::{build, RawObservation};
pub use security::{
    classify, classify_elements, classify_flags, security_of_akm, SecurityFlag, WifiSecurity,
};
pub use text::format_mac;
pub use wifi::{Error, SignalStrength, Wifi, WlanScanner};
