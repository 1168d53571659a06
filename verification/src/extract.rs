//! Typed extractors: each reads one kind of payload and answers with a number
//! or with nothing, so that a malformed payload costs one fact and no more.

use vstd::prelude::*;
use crate::number::{bounded, number_at, scan_number};

verus! {

pub const SECONDS_PER_DAY: i64 = 86400;

pub const SECONDS_PER_HOUR: i64 = 3600;

pub const SECONDS_PER_MINUTE: i64 = 60;

/// The count that a user-count payload reports: its first number, where
/// that fits in 64 signed bits.
pub open spec fn count_of(s: Seq<u8>) -> Option<i64> {
    match number_at(s, 0) {
        Some((v, _)) => bounded(v),
        None => None,
    }
}

/// The seconds that an uptime payload reports. The payload must hold exactly
/// four numbers, in this order: days, hours under 24, minutes under 60 and
/// seconds under 60.
pub open spec fn uptime_of(s: Seq<u8>) -> Option<i64> {
    match number_at(s, 0) {
        None => None,
        Some((days, e1)) => match number_at(s, e1) {
            None => None,
            Some((hours, e2)) => match number_at(s, e2) {
                None => None,
                Some((minutes, e3)) => match number_at(s, e3) {
                    None => None,
                    Some((seconds, e4)) => if number_at(s, e4) is None && hours < 24 && minutes < 60
                        && seconds < 60 {
                        bounded(days * 86400 + hours * 3600 + minutes * 60 + seconds)
                    } else {
                        None
                    },
                },
            },
        },
    }
}

/// Reads a user count out of a payload; absent where the payload holds no
/// number or one too large.
pub fn extract_count(payload: &[u8]) -> (out: Option<i64>)
    ensures
        out == count_of(payload@),
{
    match scan_number(payload, 0) {
        Some((v, _)) => v,
        None => None,
    }
}

/// Reads an uptime in seconds out of a payload of the form
/// `<days> ... <hours>:<minutes>:<seconds>`; absent where the payload has
/// another shape, a field out of range or a total too large.
pub fn extract_uptime(payload: &[u8]) -> (out: Option<i64>)
    ensures
        out == uptime_of(payload@),
{
    let (days, e1) = match scan_number(payload, 0) {
        Some(x) => x,
        None => {
            return None;
        },
    };
    let (hours, e2) = match scan_number(payload, e1) {
        Some(x) => x,
        None => {
            return None;
        },
    };
    let (minutes, e3) = match scan_number(payload, e2) {
        Some(x) => x,
        None => {
            return None;
        },
    };
    let (seconds, e4) = match scan_number(payload, e3) {
        Some(x) => x,
        None => {
            return None;
        },
    };
    if scan_number(payload, e4).is_some() {
        return None;
    }
    match (days, hours, minutes, seconds) {
        (Some(d), Some(h), Some(m), Some(s)) => {
            if h >= 24 || m >= 60 || s >= 60 {
                return None;
            }
            let rest: i64 = h * SECONDS_PER_HOUR + m * SECONDS_PER_MINUTE + s;
            match d.checked_mul(SECONDS_PER_DAY) {
                Some(whole) => whole.checked_add(rest),
                None => None,
            }
        },
        _ => None,
    }
}

} // verus!
