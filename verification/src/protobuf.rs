//! Hand-written protobuf wire encoding for `foxglove.CompressedVideo` and
//! `foxglove.CompressedImage` messages.

use vstd::prelude::*;
use vstd::string::StringSliceAdditionalSpecFns;

verus! {

/// Base-128 varint of `n`: little-endian groups of seven bits, every byte
/// but the last with its high bit set.
pub open spec fn varint(n: nat) -> Seq<u8>
    decreases n,
{
    if n < 128 {
        seq![n as u8]
    } else {
        seq![(n % 128 + 128) as u8] + varint(n / 128)
    }
}

/// Encodes `n` as a protobuf varint.
pub fn encode_varint(n: u64) -> (out: Vec<u8>)
    ensures
        out@ == varint(n as nat),
        1 <= out@.len() <= 10,
{
    proof {
        lemma_u64_varint_len(n);
    }
    let mut n = n;
    let ghost n0 = n as nat;
    let mut out: Vec<u8> = Vec::with_capacity(10);
    loop
        invariant_except_break
            out@ + varint(n as nat) == varint(n0),
        ensures
            out@ == varint(n0),
        decreases n,
    {
        assert(n & 0x7F == n % 128) by (bit_vector);
        let byte = (n & 0x7F) as u8;
        let ghost prev = n;
        n = n >> 7;
        assert(prev >> 7 == prev / 128) by (bit_vector);
        if n == 0 {
            out.push(byte);
            assert(out@ == varint(n0));
            break;
        }
        assert(byte < 128 ==> byte | 0x80 == byte + 128) by (bit_vector);
        out.push(byte | 0x80);
        assert(out@ + varint(n as nat) == varint(n0)) by {
            assert(varint(prev as nat) == seq![(prev % 128 + 128) as u8] + varint(n as nat));
        }
    }
    out
}


/// Reads a varint from the front of `bytes`: its value and how many bytes it
/// takes, or `None` where the bytes end before a byte without the high bit.
pub open spec fn read_varint(bytes: Seq<u8>) -> Option<(nat, nat)>
    decreases bytes.len(),
{
    if bytes.len() == 0 {
        None
    } else if bytes[0] < 128 {
        Some((bytes[0] as nat, 1nat))
    } else {
        match read_varint(bytes.drop_first()) {
            Some((v, k)) => Some((((bytes[0] - 128) + 128 * v) as nat, k + 1)),
            None => None,
        }
    }
}

/// The key of a field: its number shifted left by three, in a `u32`, with
/// the wire type in the low bits.
pub open spec fn field_key(field: u32, wire_type: u32) -> nat {
    ((field << 3u32) | wire_type) as nat
}

/// A length-delimited field (wire type 2): key, length, payload.
pub open spec fn len_record(field: u32, data: Seq<u8>) -> Seq<u8> {
    varint(field_key(field, 2)) + varint(data.len()) + data
}

/// A varint field (wire type 0): key, value.
pub open spec fn varint_record(field: u32, value: u64) -> Seq<u8> {
    varint(field_key(field, 0)) + varint(value as nat)
}

/// The nested `google.protobuf.Timestamp` of a message stamped `ns`
/// nanoseconds after the epoch: seconds in field 1, nanoseconds in field 2.
pub open spec fn timestamp_record(ns: u64) -> Seq<u8> {
    varint_record(1, (ns / 1_000_000_000) as u64) + varint_record(2, (ns % 1_000_000_000) as u64)
}

/// A `foxglove.CompressedVideo` / `foxglove.CompressedImage` message:
/// timestamp (1), frame_id (2), data (3), format (4).
pub open spec fn media_record(ns: u64, frame_id: Seq<u8>, data: Seq<u8>, format: Seq<u8>) -> Seq<u8> {
    len_record(1, timestamp_record(ns)) + len_record(2, frame_id) + len_record(3, data)
        + len_record(4, format)
}

/// Encodes a length-delimited field with number `field` holding `data`.
pub fn len_field(field: u32, data: &[u8]) -> (out: Vec<u8>)
    ensures
        out@ == len_record(field, data@),
{
    let tag = (field << 3) | 2;
    let mut out = encode_varint(tag as u64);
    let mut len = encode_varint(data.len() as u64);
    out.append(&mut len);
    let ghost head = out@;
    let mut i: usize = 0;
    while i < data.len()
        invariant
            i <= data@.len(),
            out@ == head + data@.subrange(0, i as int),
        decreases data@.len() - i,
    {
        out.push(data[i]);
        i = i + 1;
        assert(out@ == head + data@.subrange(0, i as int));
    }
    assert(data@.subrange(0, data@.len() as int) == data@);
    out
}

/// Encodes a varint field with number `field` holding `value`.
pub fn varint_field(field: u32, value: u64) -> (out: Vec<u8>)
    ensures
        out@ == varint_record(field, value),
{
    let tag = field << 3;
    let mut out = encode_varint(tag as u64);
    assert(tag == (field << 3u32) | 0u32) by (bit_vector)
        requires
            tag == field << 3u32,
    ;
    let mut v = encode_varint(value);
    out.append(&mut v);
    out
}

/// Encodes a `foxglove.CompressedVideo` or `foxglove.CompressedImage`
/// message; both share the field layout timestamp, frame_id, data, format.
pub fn encode_media_msg(timestamp_ns: u64, frame_id: &str, data: &[u8], format: &str) -> (msg: Vec<u8>)
    ensures
        msg@ == media_record(timestamp_ns, frame_id.spec_bytes(), data@, format.spec_bytes()),
{
    let sec = timestamp_ns / 1_000_000_000;
    let nsec = timestamp_ns % 1_000_000_000;

    let mut ts: Vec<u8> = Vec::new();
    let mut f = varint_field(1, sec);
    ts.append(&mut f);
    let mut f = varint_field(2, nsec);
    ts.append(&mut f);

    let mut msg: Vec<u8> = Vec::with_capacity(data.len().saturating_add(64));
    let mut f = len_field(1, ts.as_slice());
    msg.append(&mut f);
    let mut f = len_field(2, frame_id.as_bytes());
    msg.append(&mut f);
    let mut f = len_field(3, data);
    msg.append(&mut f);
    let mut f = len_field(4, format.as_bytes());
    msg.append(&mut f);
    msg
}


/// Reads a varint field (wire type 0) from the front of `bytes`: its field
/// number, its value and the bytes after it.
pub open spec fn read_varint_field(bytes: Seq<u8>) -> Option<(nat, nat, Seq<u8>)> {
    match read_varint(bytes) {
        Some((key, k)) => if key % 8 == 0 {
            match read_varint(bytes.skip(k as int)) {
                Some((value, m)) => Some((key / 8, value, bytes.skip((k + m) as int))),
                None => None,
            }
        } else {
            None
        },
        None => None,
    }
}

/// Reads a length-delimited field (wire type 2) from the front of `bytes`:
/// its field number, its payload and the bytes after it.
pub open spec fn read_len_field(bytes: Seq<u8>) -> Option<(nat, Seq<u8>, Seq<u8>)> {
    match read_varint(bytes) {
        Some((key, k)) => if key % 8 == 2 {
            match read_varint(bytes.skip(k as int)) {
                Some((len, m)) => if k + m + len <= bytes.len() {
                    Some((key / 8, bytes.subrange((k + m) as int, (k + m + len) as int), bytes.skip((k + m + len) as int)))
                } else {
                    None
                },
                None => None,
            }
        } else {
            None
        },
        None => None,
    }
}

/// Decodes a timestamp message made of field 1 (seconds) then field 2
/// (nanoseconds) and nothing else.
pub open spec fn decode_timestamp(bytes: Seq<u8>) -> Option<(nat, nat)> {
    match read_varint_field(bytes) {
        Some((f1, sec, r1)) => match read_varint_field(r1) {
            Some((f2, nsec, r2)) => if f1 == 1 && f2 == 2 && r2.len() == 0 {
                Some((sec, nsec))
            } else {
                None
            },
            None => None,
        },
        None => None,
    }
}

/// Decodes a media message made of fields 1 (timestamp), 2 (frame_id),
/// 3 (data) and 4 (format) in that order and nothing else, into
/// (seconds, nanoseconds, frame_id, data, format).
pub open spec fn decode_media_record(bytes: Seq<u8>) -> Option<(nat, nat, Seq<u8>, Seq<u8>, Seq<u8>)> {
    match read_len_field(bytes) {
        Some((f1, ts, r1)) => match read_len_field(r1) {
            Some((f2, frame_id, r2)) => match read_len_field(r2) {
                Some((f3, data, r3)) => match read_len_field(r3) {
                    Some((f4, format, r4)) => match decode_timestamp(ts) {
                        Some((sec, nsec)) => if f1 == 1 && f2 == 2 && f3 == 3 && f4 == 4
                            && r4.len() == 0 {
                            Some((sec, nsec, frame_id, data, format))
                        } else {
                            None
                        },
                        None => None,
                    },
                    None => None,
                },
                None => None,
            },
            None => None,
        },
        None => None,
    }
}

/// A varint reads back as the number it encodes, whatever follows it.
pub proof fn lemma_varint_roundtrip(n: nat, rest: Seq<u8>)
    ensures
        read_varint(varint(n) + rest) == Some((n, varint(n).len())),
    decreases n,
{
    let s = varint(n) + rest;
    if n < 128 {
        assert(s[0] == n as u8);
    } else {
        lemma_varint_roundtrip(n / 128, rest);
        assert(s.drop_first() =~= varint(n / 128) + rest);
        assert(s[0] == (n % 128 + 128) as u8);
    }
}

/// `128` to the power `k`.
pub open spec fn pow128(k: nat) -> nat
    decreases k,
{
    if k == 0 {
        1
    } else {
        128 * pow128((k - 1) as nat)
    }
}

/// A number below `128^k` takes at most `k` bytes.
pub proof fn lemma_varint_len(n: nat, k: nat)
    requires
        k >= 1,
        n < pow128(k),
    ensures
        1 <= varint(n).len() <= k,
    decreases n,
{
    if n >= 128 {
        if k == 1 {
            assert(pow128(1) == 128) by {
                reveal_with_fuel(pow128, 2);
            }
        } else {
            let p = pow128((k - 1) as nat);
            assert(n / 128 < p) by (nonlinear_arith)
                requires
                    n < 128 * p,
            ;
            lemma_varint_len(n / 128, (k - 1) as nat);
        }
    }
}

proof fn lemma_pow128_positive(k: nat)
    ensures
        pow128(k) >= 1,
    decreases k,
{
    if k > 0 {
        lemma_pow128_positive((k - 1) as nat);
    }
}

/// A varint takes exactly `k` bytes where `128^(k-1) <= n < 128^k` (and one
/// byte for `n < 128`): one byte per seven significant bits.
pub proof fn lemma_varint_len_exact(n: nat, k: nat)
    requires
        k >= 1,
        n < pow128(k),
        k == 1 || n >= pow128((k - 1) as nat),
    ensures
        varint(n).len() == k,
    decreases k,
{
    if k > 1 {
        let p = pow128((k - 2) as nat);
        lemma_pow128_positive((k - 2) as nat);
        assert(pow128((k - 1) as nat) == 128 * p);
        assert(n >= 128);
        assert(n / 128 < pow128((k - 1) as nat)) by (nonlinear_arith)
            requires
                n < 128 * pow128((k - 1) as nat),
        ;
        assert(n / 128 >= p) by (nonlinear_arith)
            requires
                n >= 128 * p,
        ;
        lemma_varint_len_exact(n / 128, (k - 1) as nat);
    } else {
        assert(pow128(1) == 128) by {
            reveal_with_fuel(pow128, 2);
        }
    }
}

/// Every byte of a varint but the last has its high bit set, and the last
/// has it clear.
pub proof fn lemma_varint_continuation_bits(n: nat)
    ensures
        varint(n).len() >= 1,
        forall|i: int| 0 <= i < varint(n).len() - 1 ==> #[trigger] varint(n)[i] >= 128,
        varint(n)[varint(n).len() - 1] < 128,
    decreases n,
{
    if n >= 128 {
        lemma_varint_continuation_bits(n / 128);
        let rest = varint(n / 128);
        assert forall|i: int| 0 <= i < varint(n).len() - 1 implies #[trigger] varint(n)[i] >= 128 by {
            if i > 0 {
                assert(varint(n)[i] == rest[i - 1]);
            }
        }
        assert(varint(n)[varint(n).len() - 1] == rest[rest.len() - 1]);
    }
}

/// A `u64` varint takes between one and ten bytes.
pub proof fn lemma_u64_varint_len(n: u64)
    ensures
        1 <= varint(n as nat).len() <= 10,
{
    assert(pow128(10) == 0x40_0000_0000_0000_0000) by {
        reveal_with_fuel(pow128, 11);
    }
    lemma_varint_len(n as nat, 10);
}

proof fn lemma_field_key(field: u32, wire_type: u32)
    requires
        field < 0x2000_0000,
        wire_type < 8,
    ensures
        field_key(field, wire_type) % 8 == wire_type,
        field_key(field, wire_type) / 8 == field,
{
    assert(((field << 3u32) | wire_type) % 8 == wire_type && ((field << 3u32) | wire_type) / 8
        == field) by (bit_vector)
        requires
            field < 0x2000_0000,
            wire_type < 8,
    ;
}

/// A varint field reads back as its number and value, whatever follows it.
pub proof fn lemma_varint_record_roundtrip(field: u32, value: u64, rest: Seq<u8>)
    requires
        field < 0x2000_0000,
    ensures
        read_varint_field(varint_record(field, value) + rest) == Some((field as nat, value as nat, rest)),
{
    lemma_field_key(field, 0);
    let key = varint(field_key(field, 0));
    let v = varint(value as nat);
    let s = varint_record(field, value) + rest;
    assert(s =~= key + (v + rest));
    lemma_varint_roundtrip(field_key(field, 0), v + rest);
    assert(s.skip(key.len() as int) =~= v + rest);
    lemma_varint_roundtrip(value as nat, rest);
    assert(s.skip((key.len() + v.len()) as int) =~= rest);
}

/// A length-delimited field reads back as its number and payload, whatever
/// follows it.
pub proof fn lemma_len_record_roundtrip(field: u32, data: Seq<u8>, rest: Seq<u8>)
    requires
        field < 0x2000_0000,
    ensures
        read_len_field(len_record(field, data) + rest) == Some((field as nat, data, rest)),
{
    lemma_field_key(field, 2);
    let key = varint(field_key(field, 2));
    let len = varint(data.len());
    let s = len_record(field, data) + rest;
    assert(s =~= key + (len + (data + rest)));
    lemma_varint_roundtrip(field_key(field, 2), len + (data + rest));
    assert(s.skip(key.len() as int) =~= len + (data + rest));
    lemma_varint_roundtrip(data.len(), data + rest);
    let start = key.len() + len.len();
    assert(s.subrange(start as int, (start + data.len()) as int) =~= data);
    assert(s.skip((start + data.len()) as int) =~= rest);
}

/// A media message decodes to the seconds and nanoseconds of its timestamp,
/// its frame id, its data and its format: what a protobuf reader of
/// `foxglove.CompressedVideo` or `foxglove.CompressedImage` gets back.
pub proof fn lemma_media_record_roundtrip(ns: u64, frame_id: Seq<u8>, data: Seq<u8>, format: Seq<u8>)
    ensures
        decode_media_record(media_record(ns, frame_id, data, format)) == Some(
            (
                (ns / 1_000_000_000) as nat,
                (ns % 1_000_000_000) as nat,
                frame_id,
                data,
                format,
            ),
        ),
{
    let ts = timestamp_record(ns);
    let sec = (ns / 1_000_000_000) as u64;
    let nsec = (ns % 1_000_000_000) as u64;
    let empty = Seq::<u8>::empty();
    lemma_varint_record_roundtrip(1, sec, varint_record(2, nsec));
    lemma_varint_record_roundtrip(2, nsec, empty);
    assert(varint_record(2, nsec) + empty =~= varint_record(2, nsec));
    assert(decode_timestamp(ts) == Some((sec as nat, nsec as nat)));

    let r3 = len_record(4, format);
    let r2 = len_record(3, data) + r3;
    let r1 = len_record(2, frame_id) + r2;
    let m = media_record(ns, frame_id, data, format);
    assert(m =~= len_record(1, ts) + r1);
    lemma_len_record_roundtrip(1, ts, r1);
    lemma_len_record_roundtrip(2, frame_id, r2);
    lemma_len_record_roundtrip(3, data, r3);
    lemma_len_record_roundtrip(4, format, empty);
    assert(r3 + empty =~= r3);
}

} // verus!
