//! Media files of a flight: which photos and videos fall into the flight's
//! time window, in what order they are written, and the timing arithmetic of
//! their messages.

use vstd::prelude::*;
use vstd::string::StringSliceAdditionalSpecFns;

verus! {

/// How far outside the flight window a media file may start or end and still
/// be included.
pub const MATCH_PADDING_NS: u64 = 5 * 60 * 1_000_000_000;

/// A media file together with its absolute UTC timestamp.
#[derive(Debug)]
pub enum MediaFile {
    Video { path: String, start_ns: u64, duration_ns: u64 },
    Image { path: String, timestamp_ns: u64 },
}

/// Where a media file's time window starts: a video's start, a photo's
/// timestamp.
pub open spec fn start_of(m: MediaFile) -> u64 {
    match m {
        MediaFile::Video { start_ns, .. } => start_ns,
        MediaFile::Image { timestamp_ns, .. } => timestamp_ns,
    }
}

impl MediaFile {
    /// Where the file's time window starts.
    pub fn window_start(&self) -> (r: u64)
        ensures
            r == start_of(*self),
    {
        match self {
            MediaFile::Video { start_ns, .. } => *start_ns,
            MediaFile::Image { timestamp_ns, .. } => *timestamp_ns,
        }
    }
}

/// A media file found next to the flight log, with the time read for it: a
/// video's UTC start (from its container) and length, or a photo's local
/// time (from its file name, as if it were UTC).
#[derive(Debug)]
pub enum MediaEntry {
    Video { path: String, start_ns: u64, duration_ns: u64 },
    Image { path: String, local_ns: u64 },
}

/// `a + b`, or `u64::MAX` where that overflows.
pub open spec fn sat_add(a: u64, b: u64) -> u64 {
    if a + b > u64::MAX {
        u64::MAX
    } else {
        (a + b) as u64
    }
}

/// `a - b`, or 0 where that underflows.
pub open spec fn sat_sub(a: u64, b: u64) -> u64 {
    if a < b {
        0
    } else {
        (a - b) as u64
    }
}

/// `local - offset` is an `i64`.
pub open spec fn offset_fits(local_ns: u64, utc_offset_ns: i64) -> bool {
    i64::MIN <= (local_ns as i64) - utc_offset_ns <= i64::MAX
}

/// The UTC time of a photo taken at local time `local_ns`, where local time
/// runs `utc_offset_ns` ahead of UTC; times before the epoch become 0.
pub open spec fn image_time(local_ns: u64, utc_offset_ns: i64) -> u64 {
    let t = (local_ns as i64) - utc_offset_ns;
    if t < 0 {
        0
    } else {
        t as u64
    }
}

/// The media file an entry becomes if its time window meets
/// `[pad_start, pad_end]`: a video overlaps it, a photo lies in it.
pub open spec fn admission(e: MediaEntry, pad_start: u64, pad_end: u64, utc_offset_ns: i64) -> Option<MediaFile> {
    match e {
        MediaEntry::Video { path, start_ns, duration_ns } => {
            if start_ns < pad_end && sat_add(start_ns, duration_ns) > pad_start {
                Some(MediaFile::Video { path, start_ns, duration_ns })
            } else {
                None
            }
        },
        MediaEntry::Image { path, local_ns } => {
            let t = image_time(local_ns, utc_offset_ns);
            if pad_start <= t <= pad_end {
                Some(MediaFile::Image { path, timestamp_ns: t })
            } else {
                None
            }
        },
    }
}

/// The media files that the entries become, in the entries' order.
pub open spec fn admitted(entries: Seq<MediaEntry>, pad_start: u64, pad_end: u64, utc_offset_ns: i64) -> Seq<
    MediaFile,
>
    decreases entries.len(),
{
    if entries.len() == 0 {
        seq![]
    } else {
        let before = admitted(entries.drop_last(), pad_start, pad_end, utc_offset_ns);
        match admission(entries.last(), pad_start, pad_end, utc_offset_ns) {
            Some(m) => before.push(m),
            None => before,
        }
    }
}

/// Window starts never decrease along `s`.
pub open spec fn sorted_by_start(s: Seq<MediaFile>) -> bool {
    forall|i: int, j: int| 0 <= i <= j < s.len() ==> start_of(#[trigger] s[i]) <= start_of(#[trigger] s[j])
}

/// The files of `s` whose window starts at `t`, in their order in `s`.
pub open spec fn with_start(s: Seq<MediaFile>, t: u64) -> Seq<MediaFile>
    decreases s.len(),
{
    if s.len() == 0 {
        seq![]
    } else if start_of(s.last()) == t {
        with_start(s.drop_last(), t).push(s.last())
    } else {
        with_start(s.drop_last(), t)
    }
}

/// `r` is `s` sorted by window start, files with the same start kept in
/// their order in `s` (a stable sort).
pub open spec fn stably_sorted(r: Seq<MediaFile>, s: Seq<MediaFile>) -> bool {
    &&& sorted_by_start(r)
    &&& forall|t: u64| #[trigger] with_start(r, t) == with_start(s, t)
}

proof fn lemma_with_start_concat(a: Seq<MediaFile>, b: Seq<MediaFile>, t: u64)
    ensures
        with_start(a + b, t) == with_start(a, t) + with_start(b, t),
    decreases b.len(),
{
    if b.len() == 0 {
        assert(a + b =~= a);
        assert(with_start(a, t) + with_start(b, t) =~= with_start(a, t));
    } else {
        lemma_with_start_concat(a, b.drop_last(), t);
        assert((a + b).drop_last() =~= a + b.drop_last());
        assert((a + b).last() == b.last());
        if start_of(b.last()) == t {
            assert(with_start(a, t) + with_start(b.drop_last(), t).push(b.last()) =~= (with_start(a, t)
                + with_start(b.drop_last(), t)).push(b.last()));
        }
    }
}

proof fn lemma_with_start_none(s: Seq<MediaFile>, t: u64)
    requires
        forall|i: int| 0 <= i < s.len() ==> start_of(#[trigger] s[i]) != t,
    ensures
        with_start(s, t) == Seq::<MediaFile>::empty(),
    decreases s.len(),
{
    if s.len() > 0 {
        assert(start_of(s[s.len() - 1]) != t);
        lemma_with_start_none(s.drop_last(), t);
    }
}

/// Inserts `m` after every file that starts no later than it.
fn insert_by_start(files: &mut Vec<MediaFile>, m: MediaFile)
    requires
        sorted_by_start(old(files)@),
    ensures
        sorted_by_start(final(files)@),
        forall|t: u64| #[trigger] with_start(final(files)@, t) == if start_of(m) == t {
            with_start(old(files)@, t).push(m)
        } else {
            with_start(old(files)@, t)
        },
{
    let key = m.window_start();
    let mut pos: usize = 0;
    while pos < files.len() && files[pos].window_start() <= key
        invariant
            pos <= files@.len(),
            forall|i: int| 0 <= i < pos ==> start_of(#[trigger] files@[i]) <= key,
        decreases files@.len() - pos,
    {
        pos = pos + 1;
    }
    let ghost old_files = files@;
    assert forall|i: int| pos <= i < old_files.len() implies start_of(#[trigger] old_files[i]) > key by {
        assert(start_of(old_files[pos as int]) > key);
        assert(start_of(old_files[pos as int]) <= start_of(old_files[i]));
    }
    files.insert(pos, m);
    proof {
        let front = old_files.take(pos as int);
        let back = old_files.skip(pos as int);
        assert(old_files =~= front + back);
        assert(files@ =~= front.push(m) + back);
        assert forall|t: u64| #[trigger] with_start(files@, t) == if start_of(m) == t {
            with_start(old_files, t).push(m)
        } else {
            with_start(old_files, t)
        } by {
            lemma_with_start_concat(front.push(m), back, t);
            lemma_with_start_concat(front, back, t);
            if start_of(m) == t {
                assert forall|i: int| 0 <= i < back.len() implies start_of(#[trigger] back[i]) != t by {
                    assert(back[i] == old_files[pos + i]);
                }
                lemma_with_start_none(back, t);
                assert(with_start(front.push(m), t) =~= with_start(front, t).push(m)) by {
                    assert(front.push(m).drop_last() =~= front);
                }
                assert(with_start(front, t) + Seq::<MediaFile>::empty() =~= with_start(front, t));
                assert(with_start(front.push(m), t) + Seq::<MediaFile>::empty() =~= with_start(front.push(m), t));
            } else {
                assert(front.push(m).drop_last() =~= front);
            }
        }
    }
}

/// Keeps the entries whose time window meets the flight, padded by
/// [`MATCH_PADDING_NS`] on both sides, and returns them as media files
/// sorted by window start; files that start together stay in the order of
/// `entries`.
pub fn select_media(entries: Vec<MediaEntry>, flight_start_ns: u64, flight_end_ns: u64, utc_offset_ns: i64) -> (r: Vec<
    MediaFile,
>)
    requires
        forall|i: int|
            0 <= i < entries@.len() ==> (#[trigger] entries@[i] matches MediaEntry::Image { local_ns, .. }
                ==> offset_fits(local_ns, utc_offset_ns)),
    ensures
        stably_sorted(
            r@,
            admitted(
                entries@,
                sat_sub(flight_start_ns, MATCH_PADDING_NS),
                sat_add(flight_end_ns, MATCH_PADDING_NS),
                utc_offset_ns,
            ),
        ),
{
    let pad_start = flight_start_ns.saturating_sub(MATCH_PADDING_NS);
    let pad_end = flight_end_ns.saturating_add(MATCH_PADDING_NS);
    let ghost all = entries@;
    let mut rest = entries;
    let mut files: Vec<MediaFile> = Vec::new();
    let ghost mut done: int = 0;
    while rest.len() > 0
        invariant
            0 <= done <= all.len(),
            rest@ == all.skip(done),
            pad_start == sat_sub(flight_start_ns, MATCH_PADDING_NS),
            pad_end == sat_add(flight_end_ns, MATCH_PADDING_NS),
            forall|i: int|
                0 <= i < all.len() ==> (#[trigger] all[i] matches MediaEntry::Image { local_ns, .. }
                    ==> offset_fits(local_ns, utc_offset_ns)),
            stably_sorted(files@, admitted(all.take(done), pad_start, pad_end, utc_offset_ns)),
        decreases rest@.len(),
    {
        let e = rest.remove(0);
        proof {
            assert(e == all[done]);
            assert(all.take(done + 1).drop_last() =~= all.take(done));
            assert(all.take(done + 1).last() == all[done]);
            assert(rest@ =~= all.skip(done + 1));
        }
        let ghost before = admitted(all.take(done), pad_start, pad_end, utc_offset_ns);
        let ghost files_before = files@;
        match e {
            MediaEntry::Video { path, start_ns, duration_ns } => {
                let end_ns = start_ns.saturating_add(duration_ns);
                if start_ns < pad_end && end_ns > pad_start {
                    let m = MediaFile::Video { path, start_ns, duration_ns };
                    insert_by_start(&mut files, m);
                }
            },
            MediaEntry::Image { path, local_ns } => {
                let ts = image_timestamp(local_ns, utc_offset_ns);
                if ts >= pad_start && ts <= pad_end {
                    let m = MediaFile::Image { path, timestamp_ns: ts };
                    insert_by_start(&mut files, m);
                }
            },
        }
        proof {
            let after = admitted(all.take(done + 1), pad_start, pad_end, utc_offset_ns);
            assert forall|t: u64| #[trigger] with_start(files@, t) == with_start(after, t) by {
                assert(with_start(files_before, t) == with_start(before, t));
                match admission(all[done], pad_start, pad_end, utc_offset_ns) {
                    Some(m) => {
                        assert(after == before.push(m));
                        assert(before.push(m).drop_last() =~= before);
                    },
                    None => {},
                }
            }
            done = done + 1;
        }
    }
    proof {
        assert(all.take(done) =~= all);
    }
    files
}

/// `m`'s time window meets `[pad_start, pad_end]`: a video overlaps it, a
/// photo lies in it.
pub open spec fn in_window(m: MediaFile, pad_start: u64, pad_end: u64) -> bool {
    match m {
        MediaFile::Video { start_ns, duration_ns, .. } => start_ns < pad_end && sat_add(start_ns, duration_ns)
            > pad_start,
        MediaFile::Image { timestamp_ns, .. } => pad_start <= timestamp_ns <= pad_end,
    }
}

proof fn lemma_with_start_members(s: Seq<MediaFile>, t: u64, x: MediaFile)
    ensures
        with_start(s, t).contains(x) <==> (s.contains(x) && start_of(x) == t),
    decreases s.len(),
{
    if s.len() > 0 {
        let rest = s.drop_last();
        lemma_with_start_members(rest, t, x);
        assert(s =~= rest.push(s.last()));
        if s.contains(x) && x != s.last() {
            let k = choose|k: int| 0 <= k < s.len() && s[k] == x;
            assert(rest[k] == x);
        }
        if rest.contains(x) {
            let k = choose|k: int| 0 <= k < rest.len() && rest[k] == x;
            assert(s[k] == x);
        }
        if start_of(s.last()) == t {
            let w = with_start(rest, t);
            if w.push(s.last()).contains(x) && x != s.last() {
                let k = choose|k: int| 0 <= k < w.len() + 1 && w.push(s.last())[k] == x;
                assert(w[k] == x);
            }
            if w.contains(x) {
                let k = choose|k: int| 0 <= k < w.len() && w[k] == x;
                assert(w.push(s.last())[k] == x);
            }
            assert(w.push(s.last())[w.len() as int] == s.last());
        }
        assert(s[s.len() - 1] == s.last());
    }
}

proof fn lemma_admitted_in_window(entries: Seq<MediaEntry>, pad_start: u64, pad_end: u64, utc_offset_ns: i64, x: MediaFile)
    requires
        admitted(entries, pad_start, pad_end, utc_offset_ns).contains(x),
    ensures
        in_window(x, pad_start, pad_end),
    decreases entries.len(),
{
    let before = admitted(entries.drop_last(), pad_start, pad_end, utc_offset_ns);
    match admission(entries.last(), pad_start, pad_end, utc_offset_ns) {
        Some(m) => {
            if x != m {
                let k = choose|k: int| 0 <= k < before.len() + 1 && before.push(m)[k] == x;
                assert(before[k] == x);
                lemma_admitted_in_window(entries.drop_last(), pad_start, pad_end, utc_offset_ns, x);
            }
        },
        None => {
            lemma_admitted_in_window(entries.drop_last(), pad_start, pad_end, utc_offset_ns, x);
        },
    }
}

/// A stable sort of the admitted entries holds exactly the admitted files,
/// and every one of them meets the padded flight window.
pub proof fn lemma_selection_members(
    r: Seq<MediaFile>,
    entries: Seq<MediaEntry>,
    pad_start: u64,
    pad_end: u64,
    utc_offset_ns: i64,
)
    requires
        stably_sorted(r, admitted(entries, pad_start, pad_end, utc_offset_ns)),
    ensures
        forall|x: MediaFile| #[trigger] r.contains(x) <==> admitted(entries, pad_start, pad_end, utc_offset_ns).contains(x),
        forall|i: int| 0 <= i < r.len() ==> in_window(#[trigger] r[i], pad_start, pad_end),
{
    let a = admitted(entries, pad_start, pad_end, utc_offset_ns);
    assert forall|x: MediaFile| #[trigger] r.contains(x) <==> a.contains(x) by {
        lemma_with_start_members(r, start_of(x), x);
        lemma_with_start_members(a, start_of(x), x);
        assert(with_start(r, start_of(x)) == with_start(a, start_of(x)));
    }
    assert forall|i: int| 0 <= i < r.len() implies in_window(#[trigger] r[i], pad_start, pad_end) by {
        assert(r.contains(r[i]));
        lemma_admitted_in_window(entries, pad_start, pad_end, utc_offset_ns, r[i]);
    }
}

/// A photo's UTC time plus the offset gives back its local time (read as an
/// `i64`); a photo that would fall before the epoch is put at 0.
pub proof fn lemma_image_time(local_ns: u64, utc_offset_ns: i64)
    requires
        offset_fits(local_ns, utc_offset_ns),
    ensures
        (local_ns as i64) - utc_offset_ns >= 0 ==> image_time(local_ns, utc_offset_ns) as int
            + utc_offset_ns == (local_ns as i64) as int,
        (local_ns as i64) - utc_offset_ns < 0 ==> image_time(local_ns, utc_offset_ns) == 0,
        local_ns <= i64::MAX && local_ns - utc_offset_ns >= 0 ==> image_time(local_ns, utc_offset_ns) as int
            + utc_offset_ns == local_ns as int,
        local_ns <= i64::MAX && local_ns - utc_offset_ns < 0 ==> image_time(local_ns, utc_offset_ns) == 0,
{
    assert(local_ns <= i64::MAX ==> (local_ns as i64) as int == local_ns as int);
}

/// The UTC time of a photo taken at local time `local_ns`, where local time
/// runs `utc_offset_ns` ahead of UTC; times before the epoch become 0.
pub fn image_timestamp(local_ns: u64, utc_offset_ns: i64) -> (r: u64)
    requires
        offset_fits(local_ns, utc_offset_ns),
    ensures
        r == image_time(local_ns, utc_offset_ns),
        (local_ns as i64) - utc_offset_ns >= 0 ==> r as int + utc_offset_ns == (local_ns as i64) as int,
        (local_ns as i64) - utc_offset_ns < 0 ==> r == 0,
        local_ns <= i64::MAX && local_ns - utc_offset_ns >= 0 ==> r as int + utc_offset_ns == local_ns as int,
        local_ns <= i64::MAX && local_ns - utc_offset_ns < 0 ==> r == 0,
{
    proof {
        lemma_image_time(local_ns, utc_offset_ns);
    }
    let t = local_ns as i64 - utc_offset_ns;
    if t < 0 {
        0
    } else {
        t as u64
    }
}

/// What was read for one video while looking for the UTC offset: its UTC
/// start from the container, and its local time from the file name.
pub type OffsetProbe = (Option<u64>, Option<u64>);

/// Position of the first video whose UTC start and local file-name time were
/// both read.
pub open spec fn first_probe(probes: Seq<OffsetProbe>) -> Option<int>
    decreases probes.len(),
{
    if probes.len() == 0 {
        None
    } else if probes[0].0 is Some && probes[0].1 is Some {
        Some(0)
    } else {
        match first_probe(probes.drop_first()) {
            Some(i) => Some(i + 1),
            None => None,
        }
    }
}

/// The local-minus-UTC difference of a probe fits an `i64`.
pub open spec fn probe_fits(p: OffsetProbe) -> bool {
    i64::MIN <= (p.1.unwrap() as i64) - (p.0.unwrap() as i64) <= i64::MAX
}

proof fn lemma_first_probe_at(p: Seq<OffsetProbe>, i: int)
    requires
        0 <= i <= p.len(),
        forall|j: int| 0 <= j < i ==> !(p[j].0 is Some && p[j].1 is Some),
    ensures
        i < p.len() && p[i].0 is Some && p[i].1 is Some ==> first_probe(p) == Some(i),
        i == p.len() ==> first_probe(p) is None,
    decreases i,
{
    if i > 0 {
        lemma_first_probe_at(p.drop_first(), i - 1);
    }
}

/// The UTC offset of the media next to a flight, taken from the first video
/// (in directory order) whose UTC start and local file-name time were both
/// read: that video's position and its local-minus-UTC difference, or `None`
/// where there is no such video (the caller then uses no offset).
pub fn choose_utc_offset(probes: &Vec<OffsetProbe>) -> (r: Option<(usize, i64)>)
    requires
        match first_probe(probes@) {
            Some(i) => probe_fits(probes@[i]),
            None => true,
        },
    ensures
        match first_probe(probes@) {
            Some(i) => r == Some(
                (i as usize, ((probes@[i].1.unwrap() as i64) - (probes@[i].0.unwrap() as i64)) as i64),
            ),
            None => r is None,
        },
{
    let mut i: usize = 0;
    while i < probes.len()
        invariant
            i <= probes@.len(),
            forall|j: int| 0 <= j < i ==> !(probes@[j].0 is Some && probes@[j].1 is Some),
            match first_probe(probes@) {
                Some(k) => probe_fits(probes@[k]),
                None => true,
            },
        decreases probes@.len() - i,
    {
        if let (Some(utc), Some(local)) = probes[i] {
            proof {
                lemma_first_probe_at(probes@, i as int);
            }
            return Some((i, utc_offset_ns(utc, local)));
        }
        i = i + 1;
    }
    proof {
        lemma_first_probe_at(probes@, i as int);
    }
    None
}

/// Video codecs found in a container, as far as the passthrough cares.
#[derive(PartialEq, Eq, Structural, Clone, Copy, Debug)]
pub enum VideoCodec {
    Hevc,
    H265,
    H264,
    Other,
}

/// The bitstream filters that turn MP4 packets into Annex-B.
#[derive(PartialEq, Eq, Structural, Clone, Copy, Debug)]
pub enum AnnexBCodec {
    Hevc,
    H264,
}

/// The `format` written for a passed-through video of codec `codec` and the
/// Annex-B filter its packets go through; other codecs are unsupported.
pub fn passthrough_codec(codec: VideoCodec) -> (r: Option<(&'static str, AnnexBCodec)>)
    ensures
        (codec == VideoCodec::Hevc || codec == VideoCodec::H265) ==> (r is Some && r.unwrap().0@
            == "h265"@ && r.unwrap().1 == AnnexBCodec::Hevc),
        codec == VideoCodec::H264 ==> (r is Some && r.unwrap().0@ == "h264"@ && r.unwrap().1
            == AnnexBCodec::H264),
        codec == VideoCodec::Other ==> r is None,
{
    match codec {
        VideoCodec::Hevc | VideoCodec::H265 => Some(("h265", AnnexBCodec::Hevc)),
        VideoCodec::H264 => Some(("h264", AnnexBCodec::H264)),
        VideoCodec::Other => None,
    }
}

/// How far local time (read from a file name as if it were UTC) runs ahead
/// of the UTC time of the same instant.
pub fn utc_offset_ns(utc_ns: u64, local_ns: u64) -> (r: i64)
    requires
        i64::MIN <= (local_ns as i64) - (utc_ns as i64) <= i64::MAX,
    ensures
        r == (local_ns as i64) - (utc_ns as i64),
{
    local_ns as i64 - utc_ns as i64
}


/// `a * b`, or `u64::MAX` where that overflows.
pub open spec fn sat_mul(a: u64, b: u64) -> u64 {
    if a * b > u64::MAX {
        u64::MAX
    } else {
        (a * b) as u64
    }
}

fn saturating_mul(a: u64, b: u64) -> (r: u64)
    ensures
        r == sat_mul(a, b),
{
    match a.checked_mul(b) {
        Some(v) => v,
        None => u64::MAX,
    }
}

/// Nanoseconds from a stream's start to presentation time `pts`, in a time
/// base of `num / den` seconds; non-positive times and a zero denominator
/// give 0, and the products saturate.
pub open spec fn pts_ns(pts: i64, num: i32, den: i32) -> u64 {
    if pts <= 0 || den == 0 {
        0
    } else {
        (sat_mul(sat_mul(pts as u64, num as u64), 1_000_000_000) / (den as u64)) as u64
    }
}

/// A positive presentation time in a positive time base `num / den` is
/// `pts * num / den` seconds: where nothing saturates the result is that many
/// nanoseconds, rounded down; where the product overflows it saturates; a
/// non-positive time or a zero denominator gives 0.
pub proof fn lemma_pts_ns(pts: i64, num: i32, den: i32)
    ensures
        pts > 0 && den > 0 && num >= 0 && pts * num * 1_000_000_000 <= u64::MAX ==> pts_ns(pts, num, den)
            == pts * num * 1_000_000_000 / (den as int),
        pts > 0 && den > 0 && num >= 0 && pts * num * 1_000_000_000 > u64::MAX ==> pts_ns(pts, num, den)
            == u64::MAX / (den as u64),
        pts <= 0 || den == 0 ==> pts_ns(pts, num, den) == 0,
{
    if pts > 0 && den > 0 && num >= 0 {
        let a = pts as u64;
        let b = num as u64;
        assert(a as int == pts as int);
        assert(b as int == num as int);
        assert((den as u64) as int == den as int);
        if pts * num * 1_000_000_000 <= u64::MAX {
            assert(pts * num <= pts * num * 1_000_000_000) by (nonlinear_arith)
                requires
                    pts > 0,
                    num >= 0,
            ;
            assert(sat_mul(a, b) == pts * num);
            assert(sat_mul(sat_mul(a, b), 1_000_000_000) == pts * num * 1_000_000_000);
        } else {
            if a * b > u64::MAX {
                assert(sat_mul(a, b) == u64::MAX);
                assert(sat_mul(sat_mul(a, b), 1_000_000_000) == u64::MAX);
            } else {
                assert(sat_mul(a, b) == pts * num);
                assert(sat_mul(sat_mul(a, b), 1_000_000_000) == u64::MAX);
            }
        }
    }
}

/// Converts presentation time `pts` in time base `num / den` to nanoseconds.
pub fn pts_to_ns(pts: i64, tb_num: i32, tb_den: i32) -> (r: u64)
    ensures
        r == pts_ns(pts, tb_num, tb_den),
        pts > 0 && tb_den > 0 && tb_num >= 0 && pts * tb_num * 1_000_000_000 <= u64::MAX ==> r
            == pts * tb_num * 1_000_000_000 / (tb_den as int),
        pts > 0 && tb_den > 0 && tb_num >= 0 && pts * tb_num * 1_000_000_000 > u64::MAX ==> r
            == u64::MAX / (tb_den as u64),
        pts <= 0 || tb_den == 0 ==> r == 0,
{
    proof {
        lemma_pts_ns(pts, tb_num, tb_den);
    }
    if pts <= 0 || tb_den == 0 {
        return 0;
    }
    let den = #[verifier::truncate] (tb_den as u64);
    assert(tb_den != 0 ==> tb_den as u64 != 0) by (bit_vector);
    saturating_mul(saturating_mul(pts as u64, #[verifier::truncate] (tb_num as u64)), 1_000_000_000) / den
}

/// The absolute time of a packet at `pts` (time base `num / den`) of a
/// video that starts at `start_ns`; it saturates at `u64::MAX`.
pub open spec fn packet_time(start_ns: u64, pts: i64, num: i32, den: i32) -> u64 {
    sat_add(start_ns, pts_ns(pts, num, den))
}

/// The time and the `foxglove.CompressedVideo` payload of a packet copied
/// from the container; packets with a negative presentation time are
/// dropped.
pub fn passthrough_message(
    start_ns: u64,
    pts: i64,
    tb_num: i32,
    tb_den: i32,
    data: &[u8],
    format: &str,
) -> (r: Option<(u64, Vec<u8>)>)
    ensures
        pts < 0 ==> r is None,
        pts >= 0 ==> (r matches Some((t, payload)) && t == packet_time(start_ns, pts, tb_num, tb_den)
            && payload@ == crate::protobuf::media_record(t, "camera".spec_bytes(), data@, format.spec_bytes())),
{
    if pts < 0 {
        return None;
    }
    let t = start_ns.saturating_add(pts_to_ns(pts, tb_num, tb_den));
    let payload = crate::protobuf::encode_media_msg(t, "camera", data, format);
    Some((t, payload))
}

/// The time base of the H.264 encoder: 1/90000 s.
pub const ENCODER_TIME_BASE_DEN: i32 = 90000;

/// The time and the `foxglove.CompressedVideo` payload of a packet of the
/// H.264 re-encoding of a video that starts at `start_ns`; a packet without
/// presentation time counts as time 0.
pub fn transcoded_message(start_ns: u64, pts: Option<i64>, data: &[u8]) -> (r: (u64, Vec<u8>))
    ensures
        r.0 == packet_time(
            start_ns,
            match pts {
                Some(p) => p,
                None => 0,
            },
            1,
            ENCODER_TIME_BASE_DEN,
        ),
        r.1@ == crate::protobuf::media_record(r.0, "camera".spec_bytes(), data@, "h264".spec_bytes()),
{
    let p = match pts {
        Some(p) => p,
        None => 0,
    };
    let t = start_ns.saturating_add(pts_to_ns(p, 1, ENCODER_TIME_BASE_DEN));
    (t, crate::protobuf::encode_media_msg(t, "camera", data, "h264"))
}

/// The length in nanoseconds of a container whose duration is `duration_us`
/// microseconds; negative durations count as 0.
pub fn duration_ns(duration_us: i64) -> (r: u64)
    requires
        duration_us <= u64::MAX / 1000,
    ensures
        r == (if duration_us < 0 {
            0
        } else {
            duration_us * 1000
        }),
{
    let us: i64 = if duration_us < 0 {
        0
    } else {
        duration_us
    };
    us as u64 * 1000
}

/// The even width and height, at least 2 each, of a `src_w` by `src_h`
/// video scaled to width `target_width` (rounded down to even), keeping its
/// aspect ratio.
pub open spec fn scaled(target_width: u32, src_w: u32, src_h: u32) -> (u32, u32) {
    let w = target_width & !1u32;
    let dst_w: u32 = if w < 2 {
        2
    } else {
        w
    };
    let h = (((src_h as int) * (dst_w as int) / (src_w as int)) as u32) & !1u32;
    let dst_h: u32 = if h < 2 {
        2
    } else {
        h
    };
    (dst_w, dst_h)
}

/// The output width is the requested width rounded down to even (at least
/// 2), and the height keeps the aspect ratio: with `q = src_h * width /
/// src_w` (rounded down), the height is `q` rounded down to even, or 2 where
/// that is below 2. Both sides are even and at least 2.
pub proof fn lemma_scaled(target_width: u32, src_w: u32, src_h: u32)
    requires
        src_w > 0,
    ensures
        ({
            let (w, h) = scaled(target_width, src_w, src_h);
            let q = (src_h as int) * (w as int) / (src_w as int);
            &&& w % 2 == 0 && w >= 2 && h % 2 == 0 && h >= 2
            &&& target_width >= 2 ==> w <= target_width < w + 2
            &&& target_width < 2 ==> w == 2
            &&& q <= u32::MAX && q >= 2 ==> h <= q < h + 2
            &&& q <= u32::MAX && q >= 2 ==> (h as int) * (src_w as int) <= (src_h as int) * (w as int)
                < (h as int + 2) * (src_w as int)
            &&& q < 2 ==> h == 2
        }),
{
    let (w, h) = scaled(target_width, src_w, src_h);
    let tw = target_width & !1u32;
    assert(tw % 2 == 0 && tw <= target_width && target_width < tw + 2) by (bit_vector)
        requires
            tw == target_width & !1u32,
    ;
    let q = (src_h as int) * (w as int) / (src_w as int);
    assert(q >= 0) by (nonlinear_arith)
        requires
            src_h >= 0,
            w >= 0,
            src_w > 0,
            q == (src_h as int) * (w as int) / (src_w as int),
    ;
    let qu = q as u32;
    let hh = qu & !1u32;
    assert(hh % 2 == 0 && hh <= qu && qu < hh + 2) by (bit_vector)
        requires
            hh == qu & !1u32,
    ;
    if q <= u32::MAX && q >= 2 {
        assert(qu as int == q);
        assert(h == hh);
        let p = (src_h as int) * (w as int);
        assert(q * (src_w as int) <= p < (q + 1) * (src_w as int)) by (nonlinear_arith)
            requires
                src_w > 0,
                q == p / (src_w as int),
                p >= 0,
        ;
        assert((h as int) * (src_w as int) <= q * (src_w as int)) by (nonlinear_arith)
            requires
                h <= q,
                src_w > 0,
        ;
        assert((q + 1) * (src_w as int) <= (h as int + 2) * (src_w as int)) by (nonlinear_arith)
            requires
                q + 1 <= h + 2,
                src_w > 0,
        ;
    }
    if q < 2 {
        assert(qu as int == q);
    }
}

/// The output size when transcoding a `src_w` by `src_h` video to width
/// `target_width`: both sides even and at least 2, as H.264 needs.
pub fn scaled_dimensions(target_width: u32, src_w: u32, src_h: u32) -> (r: (u32, u32))
    requires
        src_w > 0,
    ensures
        r == scaled(target_width, src_w, src_h),
        r.0 % 2 == 0 && r.0 >= 2,
        r.1 % 2 == 0 && r.1 >= 2,
        target_width >= 2 ==> r.0 <= target_width < r.0 + 2,
        target_width < 2 ==> r.0 == 2,
        (src_h as int) * (r.0 as int) / (src_w as int) <= u32::MAX && (src_h as int) * (r.0 as int)
            / (src_w as int) >= 2 ==> r.1 <= (src_h as int) * (r.0 as int) / (src_w as int) < r.1 + 2,
        (src_h as int) * (r.0 as int) / (src_w as int) < 2 ==> r.1 == 2,
{
    proof {
        lemma_scaled(target_width, src_w, src_h);
    }
    let w = target_width & !1u32;
    let dst_w: u32 = if w < 2 {
        2
    } else {
        w
    };
    assert((src_h as u64) * (dst_w as u64) <= 0xffff_ffffu64 * 0xffff_ffffu64) by (nonlinear_arith)
        requires
            src_h <= 0xffff_ffffu32,
            dst_w <= 0xffff_ffffu32,
    ;
    let ratio = src_h as u64 * dst_w as u64 / src_w as u64;
    let h = (#[verifier::truncate] (ratio as u32)) & !1u32;
    let dst_h: u32 = if h < 2 {
        2
    } else {
        h
    };
    assert(w % 2 == 0) by (bit_vector)
        requires
            w == target_width & !1u32,
    ;
    assert(h % 2 == 0) by (bit_vector)
        requires
            h == (ratio as u32) & !1u32,
    ;
    (dst_w, dst_h)
}

} // verus!
