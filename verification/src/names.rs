//! What the converter reads from file names and container tags: extensions,
//! the local time in DJI file names, and a video's UTC creation time.

use vstd::prelude::*;
use vstd::string::StringSliceAdditionalSpecFns;
use vstd::utf8::*;

verus! {

broadcast use vstd::utf8::group_utf8_lib;

// ── Outside calls ───────────────────────────────────────────────────────────

/// Name for what `chrono` reads from `s` with format `fmt`, taken as a UTC
/// time: `None` where `NaiveDateTime::parse_from_str` fails, `Some(None)`
/// where the time has no nanosecond count in an `i64`, else
/// `Some(Some(nanoseconds since the epoch))`.
pub uninterp spec fn chrono_utc_nanos(s: Seq<char>, fmt: Seq<char>) -> Option<Option<i64>>;

/// Calls `chrono::NaiveDateTime::parse_from_str` on `s` and `fmt` and turns a
/// parsed time into its nanoseconds since the epoch as a UTC time
/// (`DateTime::<Utc>::from_naive_utc_and_offset`, `timestamp_nanos_opt`).
/// The contract only names the result: it is a function of `s` and `fmt`.
#[verifier::external_body]
fn parse_utc_nanos(s: &str, fmt: &str) -> (r: Option<Option<i64>>)
    ensures
        r == chrono_utc_nanos(s@, fmt@),
{
    match chrono::NaiveDateTime::parse_from_str(s, fmt) {
        Ok(dt) => Some(
            chrono::DateTime::<chrono::Utc>::from_naive_utc_and_offset(dt, chrono::Utc).timestamp_nanos_opt(),
        ),
        Err(_) => None,
    }
}

/// Name for the Unicode upper case of `s` (`str::to_uppercase`).
pub uninterp spec fn uppercase(s: Seq<char>) -> Seq<char>;

/// Calls `str::to_uppercase`; the contract only names the result.
#[verifier::external_body]
fn to_uppercase(s: &str) -> (r: String)
    ensures
        r@ == uppercase(s@),
{
    s.to_uppercase()
}

// ── UTF-8 helpers ───────────────────────────────────────────────────────────

/// The position after an ASCII byte that starts a character starts one too.
proof fn lemma_boundary_after_ascii(b: Seq<u8>, d: int)
    requires
        valid_utf8(b),
        0 <= d < b.len(),
        is_char_boundary(b, d),
        b[d] < 0x80,
    ensures
        is_char_boundary(b, d + 1),
    decreases b.len(),
{
    let l = length_of_first_scalar(b);
    let p = pop_first_scalar(b);
    reveal_with_fuel(valid_utf8, 1);
    reveal_with_fuel(is_char_boundary, 2);
    if d > 0 {
        assert(p.len() == b.len() - l);
        assert(p[d - l] == b[d]);
        lemma_boundary_after_ascii(p, d - l);
    }
}

/// Positions `0..=n` all start characters where the first `n` bytes are ASCII.
proof fn lemma_ascii_prefix_boundary(b: Seq<u8>, n: int)
    requires
        valid_utf8(b),
        0 <= n <= b.len(),
        forall|i: int| 0 <= i < n ==> b[i] < 0x80,
    ensures
        is_char_boundary(b, n),
    decreases n,
{
    if n == 0 {
        reveal_with_fuel(is_char_boundary, 1);
    } else {
        lemma_ascii_prefix_boundary(b, n - 1);
        lemma_boundary_after_ascii(b, n - 1);
    }
}

/// The characters of a string whose bytes are known.
proof fn lemma_chars_of_bytes(s: &str)
    ensures
        s@ == decode_utf8(s.spec_bytes()),
        valid_utf8(s.spec_bytes()),
{
}

/// `a` and `b` hold the same bytes.
fn bytes_equal(a: &[u8], b: &[u8]) -> (r: bool)
    ensures
        r == (a@ == b@),
{
    if a.len() != b.len() {
        return false;
    }
    let mut i: usize = 0;
    while i < a.len()
        invariant
            a@.len() == b@.len(),
            i <= a@.len(),
            forall|j: int| 0 <= j < i ==> a@[j] == b@[j],
        decreases a@.len() - i,
    {
        if a[i] != b[i] {
            return false;
        }
        i = i + 1;
    }
    assert(a@ =~= b@);
    true
}

/// `s` is the text `lit`.
fn str_is(s: &str, lit: &str) -> (r: bool)
    ensures
        r == (s@ == lit@),
{
    proof {
        lemma_chars_of_bytes(s);
        lemma_chars_of_bytes(lit);
    }
    bytes_equal(s.as_bytes(), lit.as_bytes())
}

// ── Extensions ──────────────────────────────────────────────────────────────

/// Position of the last `.` in `b`, if any.
pub open spec fn last_dot(b: Seq<u8>) -> Option<int>
    decreases b.len(),
{
    if b.len() == 0 {
        None
    } else if b.last() == 46 {
        Some(b.len() - 1)
    } else {
        last_dot(b.drop_last())
    }
}

/// The bytes of a file name's extension: what follows its last `.`, where
/// that `.` is not the name's first byte; empty where there is none.
pub open spec fn extension_bytes(name: Seq<u8>) -> Seq<u8> {
    match last_dot(name) {
        Some(d) => if d > 0 {
            name.skip(d + 1)
        } else {
            seq![]
        },
        None => seq![],
    }
}

proof fn lemma_last_dot_prefix(b: Seq<u8>, i: int)
    requires
        0 <= i <= b.len(),
        forall|j: int| i <= j < b.len() ==> b[j] != 46,
    ensures
        last_dot(b) == last_dot(b.take(i)),
    decreases b.len() - i,
{
    if i < b.len() {
        assert(b.drop_last().take(i) =~= b.take(i));
        lemma_last_dot_prefix(b.drop_last(), i);
    } else {
        assert(b.take(i) =~= b);
    }
}

/// The extension of a file name (see [`extension_bytes`]).
pub fn extension(name: &str) -> (r: &str)
    ensures
        r.spec_bytes() == extension_bytes(name.spec_bytes()),
{
    let bytes = name.as_bytes();
    let ghost b = bytes@;
    let mut i = bytes.len();
    while i > 0 && bytes[i - 1] != 46u8
        invariant
            i <= b.len(),
            bytes@ == b,
            forall|j: int| i <= j < b.len() ==> b[j] != 46,
        decreases i,
    {
        i = i - 1;
    }
    proof {
        lemma_last_dot_prefix(b, i as int);
        reveal_strlit("");
        if i == 0 {
            assert(b.take(0).len() == 0);
        } else {
            assert(b.take(i as int).drop_last() =~= b.take(i - 1));
            assert(b.take(i as int).last() == 46);
        }
    }
    if i <= 1 {
        return "";
    }
    proof {
        lemma_chars_of_bytes(name);
        is_char_boundary_iff_not_is_continuation_byte(b, i - 1);
        lemma_boundary_after_ascii(b, i - 1);
    }
    let (_, ext) = name.split_at(i);
    ext
}

/// The upper-cased extension of a file name.
pub fn ext_upper(file_name: &str) -> (r: String)
    ensures
        r@ == uppercase(decode_utf8(extension_bytes(file_name.spec_bytes()))),
{
    let ext = extension(file_name);
    proof {
        lemma_chars_of_bytes(ext);
    }
    to_uppercase(ext)
}

/// Kinds of file found next to a flight log.
#[derive(PartialEq, Eq, Structural, Clone, Copy, Debug)]
pub enum MediaClass {
    Video,
    Image,
    Other,
}

/// The kind of file with upper-cased extension `ext`: MP4 and MOV are
/// videos, JPG, JPEG and PNG images.
pub open spec fn class_of(ext: Seq<char>) -> MediaClass {
    if ext == "MP4"@ || ext == "MOV"@ {
        MediaClass::Video
    } else if ext == "JPG"@ || ext == "JPEG"@ || ext == "PNG"@ {
        MediaClass::Image
    } else {
        MediaClass::Other
    }
}

/// A file is a video exactly when its upper-cased extension is MP4 or MOV,
/// and a photo exactly when it is JPG, JPEG or PNG; every other file is
/// skipped.
pub proof fn lemma_class_of(ext: Seq<char>)
    ensures
        (class_of(ext) == MediaClass::Video) <==> (ext == "MP4"@ || ext == "MOV"@),
        (class_of(ext) == MediaClass::Image) <==> (ext == "JPG"@ || ext == "JPEG"@ || ext == "PNG"@),
        (class_of(ext) == MediaClass::Other) <==> !(ext == "MP4"@ || ext == "MOV"@ || ext == "JPG"@
            || ext == "JPEG"@ || ext == "PNG"@),
{
    reveal_strlit("MP4");
    reveal_strlit("MOV");
    reveal_strlit("JPG");
    reveal_strlit("JPEG");
    reveal_strlit("PNG");
    assert("JPG"@[0] != "MP4"@[0] && "JPG"@[0] != "MOV"@[0]);
    assert("PNG"@[0] != "MP4"@[0] && "PNG"@[0] != "MOV"@[0]);
    assert("JPEG"@.len() != "MP4"@.len() && "JPEG"@.len() != "MOV"@.len());
}

/// The kind of file with upper-cased extension `ext`.
pub fn classify(ext: &str) -> (r: MediaClass)
    ensures
        r == class_of(ext@),
        (r == MediaClass::Video) <==> (ext@ == "MP4"@ || ext@ == "MOV"@),
        (r == MediaClass::Image) <==> (ext@ == "JPG"@ || ext@ == "JPEG"@ || ext@ == "PNG"@),
{
    proof {
        lemma_class_of(ext@);
    }
    if str_is(ext, "MP4") || str_is(ext, "MOV") {
        MediaClass::Video
    } else if str_is(ext, "JPG") || str_is(ext, "JPEG") || str_is(ext, "PNG") {
        MediaClass::Image
    } else {
        MediaClass::Other
    }
}

/// The `format` of a photo's `foxglove.CompressedImage`: `png` for a PNG,
/// `jpeg` otherwise.
pub fn image_format(ext: &str) -> (r: &'static str)
    ensures
        r@ == (if ext@ == "PNG"@ {
            "png"@
        } else {
            "jpeg"@
        }),
{
    if str_is(ext, "PNG") {
        "png"
    } else {
        "jpeg"
    }
}

// ── Times ───────────────────────────────────────────────────────────────────

/// The bytes of `DJI_`.
pub open spec fn dji_prefix() -> Seq<u8> {
    seq![68u8, 74u8, 73u8, 95u8]
}

/// The fourteen bytes after a leading `DJI_` of a file name, where they end
/// on a character boundary.
pub open spec fn dji_stamp(name: Seq<u8>) -> Option<Seq<u8>> {
    if name.len() >= 4 && name.take(4) == dji_prefix() && is_char_boundary(name.skip(4), 14) {
        Some(name.subrange(4, 18))
    } else {
        None
    }
}

/// The local time in a DJI file name (`DJI_YYYYMMDDHHMMSS_…`) in nanoseconds,
/// read as if it were UTC.
pub open spec fn dji_name_time(name: Seq<u8>) -> Option<u64> {
    match dji_stamp(name) {
        Some(stamp) => match chrono_utc_nanos(decode_utf8(stamp), "%Y%m%d%H%M%S"@) {
            Some(Some(ns)) => Some(ns as u64),
            _ => None,
        },
        None => None,
    }
}

/// Reads the local timestamp of a DJI file name (`DJI_YYYYMMDDHHMMSS_…`),
/// in nanoseconds as if it were UTC; the caller applies the UTC offset.
pub fn dji_filename_ns_as_utc(file_name: &str) -> (r: Option<u64>)
    ensures
        r == dji_name_time(file_name.spec_bytes()),
{
    let bytes = file_name.as_bytes();
    let ghost b = bytes@;
    if bytes.len() < 4 || bytes[0] != 68u8 || bytes[1] != 74u8 || bytes[2] != 73u8 || bytes[3] != 95u8 {
        proof {
            if b.len() >= 4 && b.take(4) == dji_prefix() {
                assert(b[0] == b.take(4)[0] && b[1] == b.take(4)[1] && b[2] == b.take(4)[2] && b[3]
                    == b.take(4)[3]);
            }
        }
        return None;
    }
    proof {
        assert(b.take(4) =~= dji_prefix());
        lemma_chars_of_bytes(file_name);
        lemma_ascii_prefix_boundary(b, 4);
    }
    let (_, after) = file_name.split_at(4);
    assert(after.spec_bytes() == b.skip(4));
    if !after.is_char_boundary(14) {
        return None;
    }
    proof {
        lemma_chars_of_bytes(after);
    }
    let (stamp, _) = after.split_at(14);
    proof {
        lemma_chars_of_bytes(stamp);
        assert(stamp.spec_bytes() =~= b.subrange(4, 18));
    }
    match parse_utc_nanos(stamp, "%Y%m%d%H%M%S") {
        Some(Some(ns)) => Some(#[verifier::truncate] (ns as u64)),
        _ => None,
    }
}

/// Why a video's creation time could not be read.
#[derive(PartialEq, Eq, Structural, Clone, Copy, Debug)]
pub enum CreationTimeError {
    /// The tag is not a `YYYY-MM-DDTHH:MM:SS` time.
    BadFormat,
    /// The time has no nanosecond count in an `i64`.
    OutOfRange,
}

/// `b` without its trailing `Z`s.
pub open spec fn trim_trailing_z(b: Seq<u8>) -> Seq<u8>
    decreases b.len(),
{
    if b.len() > 0 && b.last() == 90 {
        trim_trailing_z(b.drop_last())
    } else {
        b
    }
}

/// Position of the first `.` in `b`, if any.
pub open spec fn first_dot(b: Seq<u8>) -> Option<int>
    decreases b.len(),
{
    if b.len() == 0 {
        None
    } else if b[0] == 46 {
        Some(0)
    } else {
        match first_dot(b.drop_first()) {
            Some(i) => Some(i + 1),
            None => None,
        }
    }
}

/// The part of a `creation_time` tag that is parsed: without trailing `Z`s
/// and without the fraction after the first `.`.
pub open spec fn creation_base(b: Seq<u8>) -> Seq<u8> {
    let t = trim_trailing_z(b);
    match first_dot(t) {
        Some(i) => t.take(i),
        None => t,
    }
}

/// The UTC time, in nanoseconds since the epoch, of a `creation_time` tag
/// such as `2026-04-25T11:17:06.000000Z`.
pub open spec fn creation_time(raw: Seq<u8>) -> Result<u64, CreationTimeError> {
    match chrono_utc_nanos(decode_utf8(creation_base(raw)), "%Y-%m-%dT%H:%M:%S"@) {
        Some(Some(ns)) => Ok(#[verifier::truncate] (ns as u64)),
        Some(None) => Err(CreationTimeError::OutOfRange),
        None => Err(CreationTimeError::BadFormat),
    }
}

proof fn lemma_trim_prefix(b: Seq<u8>, e: int)
    requires
        0 <= e <= b.len(),
        forall|j: int| e <= j < b.len() ==> b[j] == 90,
    ensures
        trim_trailing_z(b) == trim_trailing_z(b.take(e)),
    decreases b.len() - e,
{
    if e < b.len() {
        assert(b.drop_last().take(e) =~= b.take(e));
        lemma_trim_prefix(b.drop_last(), e);
    } else {
        assert(b.take(e) =~= b);
    }
}

proof fn lemma_first_dot_at(b: Seq<u8>, i: int)
    requires
        0 <= i <= b.len(),
        forall|j: int| 0 <= j < i ==> b[j] != 46,
    ensures
        i < b.len() && b[i] == 46 ==> first_dot(b) == Some(i),
        i == b.len() ==> first_dot(b) is None,
    decreases i,
{
    if i > 0 {
        lemma_first_dot_at(b.drop_first(), i - 1);
    }
}

/// Reads a video's `creation_time` tag (stored as UTC) as nanoseconds since
/// the epoch.
pub fn creation_time_ns(raw: &str) -> (r: Result<u64, CreationTimeError>)
    ensures
        r == creation_time(raw.spec_bytes()),
{
    let bytes = raw.as_bytes();
    let ghost b = bytes@;
    let mut e = bytes.len();
    while e > 0 && bytes[e - 1] == 90u8
        invariant
            e <= b.len(),
            bytes@ == b,
            forall|j: int| e <= j < b.len() ==> b[j] == 90,
        decreases e,
    {
        e = e - 1;
    }
    proof {
        lemma_trim_prefix(b, e as int);
        if e > 0 {
            assert(b.take(e as int).last() != 90);
        }
        assert(trim_trailing_z(b.take(e as int)) == b.take(e as int));
        lemma_chars_of_bytes(raw);
        if e < b.len() {
            is_char_boundary_iff_not_is_continuation_byte(b, e as int);
        }
    }
    let (trimmed, _) = raw.split_at(e);
    let tb = trimmed.as_bytes();
    let ghost t = tb@;
    assert(t == b.take(e as int));
    let mut i: usize = 0;
    while i < tb.len() && tb[i] != 46u8
        invariant
            i <= t.len(),
            tb@ == t,
            forall|j: int| 0 <= j < i ==> t[j] != 46,
        decreases t.len() - i,
    {
        i = i + 1;
    }
    proof {
        lemma_first_dot_at(t, i as int);
        lemma_chars_of_bytes(trimmed);
    }
    let base = if i < tb.len() {
        proof {
            is_char_boundary_iff_not_is_continuation_byte(t, i as int);
        }
        let (before, _) = trimmed.split_at(i);
        before
    } else {
        proof {
            assert(t.take(i as int) =~= t);
        }
        trimmed
    };
    proof {
        lemma_chars_of_bytes(base);
        assert(base.spec_bytes() =~= creation_base(b));
    }
    match parse_utc_nanos(base, "%Y-%m-%dT%H:%M:%S") {
        Some(Some(ns)) => Ok(#[verifier::truncate] (ns as u64)),
        Some(None) => Err(CreationTimeError::OutOfRange),
        None => Err(CreationTimeError::BadFormat),
    }
}

} // verus!
