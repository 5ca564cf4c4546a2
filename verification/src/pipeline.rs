//! Frame-level decisions of the conversion: which frames are written, and
//! when a missing API key is worth a warning.

use vstd::prelude::*;

use dji_log_parser::frame::Frame;

verus! {

/// Log versions from this one on are encrypted.
pub const FIRST_ENCRYPTED_VERSION: u8 = 13;

/// A log of `version` read without an API key cannot be decrypted.
pub fn missing_key_warning(version: u8, has_api_key: bool) -> (r: bool)
    ensures
        r == (version >= FIRST_ENCRYPTED_VERSION && !has_api_key),
{
    version >= FIRST_ENCRYPTED_VERSION && !has_api_key
}

/// The time at which a frame's messages are logged: its nanoseconds since
/// the epoch, where there are some and they are positive.
pub open spec fn usable_time(ns: Option<i64>) -> Option<u64> {
    match ns {
        Some(n) => if n > 0 {
            Some(n as u64)
        } else {
            None
        },
        None => None,
    }
}

/// A frame with a positive time is written at exactly that time; any other
/// frame is skipped.
pub proof fn lemma_usable_time(ns: Option<i64>)
    ensures
        (ns is Some && ns.unwrap() > 0) ==> usable_time(ns) == Some(ns.unwrap() as u64),
        (ns is Some && ns.unwrap() > 0) ==> usable_time(ns).unwrap() as int == ns.unwrap() as int,
        !(ns is Some && ns.unwrap() > 0) ==> usable_time(ns) is None,
{
}

/// The log time of a frame stamped `ns` nanoseconds after the epoch; frames
/// without a positive time are skipped.
pub fn usable_timestamp(ns: Option<i64>) -> (r: Option<u64>)
    ensures
        r == usable_time(ns),
        (ns is Some && ns.unwrap() > 0) ==> r == Some(ns.unwrap() as u64),
        (ns is Some && ns.unwrap() > 0) ==> r.unwrap() as int == ns.unwrap() as int,
        !(ns is Some && ns.unwrap() > 0) ==> r is None,
{
    proof {
        lemma_usable_time(ns);
    }
    match ns {
        Some(n) => if n > 0 {
            Some(n as u64)
        } else {
            None
        },
        None => None,
    }
}

/// Name for what `chrono::DateTime::timestamp_nanos_opt` gives for the
/// frame's `custom.date_time`: its nanoseconds since the epoch, where they
/// fit an `i64`; it depends on the date-time alone.
pub uninterp spec fn frame_nanos(frame: Frame) -> Option<i64>;

/// Calls `chrono::DateTime::timestamp_nanos_opt` on the frame's
/// `custom.date_time`; the contract names the result.
#[verifier::external_body]
fn frame_timestamp_nanos(frame: &Frame) -> (r: Option<i64>)
    ensures
        r == frame_nanos(*frame),
{
    frame.custom.date_time.timestamp_nanos_opt()
}

/// The log time of a frame: its nanoseconds since the epoch where there are
/// some and they are positive, else `None` (the frame is skipped); a log
/// time is positive and fits an `i64`.
pub fn frame_time_ns(frame: &Frame) -> (r: Option<u64>)
    ensures
        r == usable_time(frame_nanos(*frame)),
        r matches Some(t) ==> 0 < t <= i64::MAX,
        (frame_nanos(*frame) is Some && frame_nanos(*frame).unwrap() > 0) ==> r.unwrap() as int
            == frame_nanos(*frame).unwrap() as int,
        !(frame_nanos(*frame) is Some && frame_nanos(*frame).unwrap() > 0) ==> r is None,
{
    usable_timestamp(frame_timestamp_nanos(frame))
}

} // verus!
