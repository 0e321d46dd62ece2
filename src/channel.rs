use vstd::prelude::*;

verus! {

/// The channel that a centre frequency (MHz) lies on; 0 where no band applies.
pub open spec fn channel_spec(f: u32) -> u32 {
    if 2412 <= f && f <= 2472 {
        ((f - 2407) / 5) as u32
    } else if f == 2484 {
        14
    } else if 5180 <= f && f <= 5895 {
        ((f - 5000) / 5) as u32
    } else if 5955 <= f && f <= 7115 {
        ((f - 5950) / 5) as u32
    } else {
        0
    }
}

/// Maps a centre frequency in MHz to its channel number, 0 when unknown.
pub fn channel_of(frequency: u32) -> (r: u32)
    ensures
        r == channel_spec(frequency),
{
    if 2412 <= frequency && frequency <= 2472 {
        (frequency - 2407) / 5
    } else if frequency == 2484 {
        14
    } else if 5180 <= frequency && frequency <= 5895 {
        (frequency - 5000) / 5
    } else if 5955 <= frequency && frequency <= 7115 {
        (frequency - 5950) / 5
    } else {
        0
    }
}

/// Every 2.4 GHz centre frequency from 2412 to 2472 MHz, in steps of 5,
/// lies on channel `(f - 2407) / 5`.
pub proof fn lemma_channel_of_2ghz(f: u32)
    requires
        2412 <= f <= 2472,
        (f - 2412) % 5 == 0,
    ensures
        channel_spec(f) == (f - 2407) / 5,
        1 <= channel_spec(f) <= 13,
{
}

/// The centre frequency (MHz) that belongs to a channel number; 0 when unknown.
pub open spec fn frequency_spec(channel: u32) -> u32 {
    if 1 <= channel && channel <= 13 {
        (2407 + channel * 5) as u32
    } else if channel == 14 {
        2484
    } else if 36 <= channel && channel <= 165 {
        (5000 + channel * 5) as u32
    } else if 167 <= channel && channel <= 233 {
        (5950 + (channel - 1) * 5) as u32
    } else {
        0
    }
}

} // verus!
