//! Channel bookkeeping of the MCAP writer: which channel a message goes to,
//! and the sequence number it gets there.

use vstd::prelude::*;

verus! {

/// The header of one MCAP message: its channel, its sequence number on that
/// channel, and its log and publish times (nanoseconds).
#[derive(PartialEq, Eq, Structural, Clone, Copy, Debug)]
pub struct MessageHeader {
    pub channel_id: u16,
    pub sequence: u32,
    pub log_time: u64,
    pub publish_time: u64,
}

/// The header of a message written at `time` as number `sequence` of
/// channel `channel_id`.
pub open spec fn header_at(channel_id: u16, sequence: u32, time: u64) -> MessageHeader {
    MessageHeader { channel_id, sequence, log_time: time, publish_time: time }
}

/// A channel's id and the sequence number its next message gets.
pub type ChannelState = (u16, u32);

/// The state after one more message on a channel.
pub open spec fn advanced(state: ChannelState) -> ChannelState {
    (state.0, (state.1 + 1) as u32)
}

// ── Telemetry channels, keyed by (topic, schema name) ──────────────────────

/// The key of a telemetry channel: its topic and its schema name.
pub type ChannelKey = (Seq<char>, Seq<char>);

/// The telemetry channels opened so far, keyed by topic and schema name.
pub struct ChannelRegistry {
    keys: Vec<(String, String)>,
    states: Vec<(u16, u32)>,
}

/// The key of a stored (topic, schema name) pair.
pub open spec fn key_of(k: (String, String)) -> ChannelKey {
    (k.0@, k.1@)
}

impl ChannelRegistry {
    /// Keys and states line up, and no key occurs twice.
    #[verifier::type_invariant]
    closed spec fn inv(self) -> bool {
        &&& self.keys@.len() == self.states@.len()
        &&& forall|i: int, j: int|
            0 <= i < j < self.keys@.len() ==> key_of(#[trigger] self.keys@[i]) != key_of(
                #[trigger] self.keys@[j],
            )
    }

    closed spec fn index_of(self, k: ChannelKey) -> int {
        choose|i: int| 0 <= i < self.keys@.len() && key_of(self.keys@[i]) == k
    }

    /// Each opened channel's key mapped to its id and next sequence number.
    pub closed spec fn view(self) -> Map<ChannelKey, ChannelState> {
        Map::new(
            |k: ChannelKey| exists|i: int| 0 <= i < self.keys@.len() && key_of(self.keys@[i]) == k,
            |k: ChannelKey| self.states@[self.index_of(k)],
        )
    }

    /// No channel opened yet.
    pub fn new() -> (r: Self)
        ensures
            r@ == Map::<ChannelKey, ChannelState>::empty(),
    {
        let r = ChannelRegistry { keys: Vec::new(), states: Vec::new() };
        assert(r.view() =~= Map::<ChannelKey, ChannelState>::empty());
        r
    }

    fn find(&self, topic: &String, schema_name: &String) -> (r: Option<usize>)
        ensures
            match r {
                Some(i) => i < self.keys@.len() && key_of(self.keys@[i as int]) == (topic@, schema_name@),
                None => forall|i: int|
                    0 <= i < self.keys@.len() ==> key_of(#[trigger] self.keys@[i]) != (topic@, schema_name@),
            },
    {
        let mut i: usize = 0;
        while i < self.keys.len()
            invariant
                i <= self.keys@.len(),
                forall|j: int| 0 <= j < i ==> key_of(#[trigger] self.keys@[j]) != (topic@, schema_name@),
            decreases self.keys@.len() - i,
        {
            if self.keys[i].0 == *topic && self.keys[i].1 == *schema_name {
                return Some(i);
            }
            i = i + 1;
        }
        None
    }

    proof fn lemma_index(self, i: int)
        requires
            self.inv(),
            0 <= i < self.keys@.len(),
        ensures
            self@.dom().contains(key_of(self.keys@[i])),
            self.index_of(key_of(self.keys@[i])) == i,
            self@[key_of(self.keys@[i])] == self.states@[i],
    {
        let k = key_of(self.keys@[i]);
        assert(exists|j: int| 0 <= j < self.keys@.len() && key_of(self.keys@[j]) == k);
        let j = self.index_of(k);
        if j != i {
            if j < i {
                assert(key_of(self.keys@[j]) != key_of(self.keys@[i]));
            } else {
                assert(key_of(self.keys@[i]) != key_of(self.keys@[j]));
            }
        }
    }

    /// The id and next sequence number of the channel of `topic` and
    /// `schema_name`, if it is open.
    pub fn lookup(&self, topic: &String, schema_name: &String) -> (r: Option<(u16, u32)>)
        ensures
            r == (if self@.dom().contains((topic@, schema_name@)) {
                Some(self@[(topic@, schema_name@)])
            } else {
                None
            }),
    {
        proof {
            use_type_invariant(self);
        }
        match self.find(topic, schema_name) {
            Some(i) => {
                proof {
                    self.lemma_index(i as int);
                }
                Some(self.states[i])
            },
            None => {
                assert(!self@.dom().contains((topic@, schema_name@)));
                None
            },
        }
    }

    /// Records channel `channel_id` as the channel of a new key; its first
    /// message will get sequence number 0.
    pub fn register(&mut self, topic: String, schema_name: String, channel_id: u16)
        requires
            !old(self)@.dom().contains((topic@, schema_name@)),
        ensures
            final(self)@ == old(self)@.insert((topic@, schema_name@), (channel_id, 0u32)),
    {
        proof {
            use_type_invariant(&*self);
        }
        let ghost old_self = *self;
        let ghost k = (topic@, schema_name@);
        assert forall|i: int| 0 <= i < old_self.keys@.len() implies key_of(
            #[trigger] old_self.keys@[i],
        ) != k by {
            old_self.lemma_index(i);
        }
        let mut taken = ChannelRegistry::new();
        std::mem::swap(&mut taken, self);
        let ChannelRegistry { mut keys, mut states } = taken;
        keys.push((topic, schema_name));
        states.push((channel_id, 0));
        *self = ChannelRegistry { keys, states };
        proof {
            let new_self = *self;
            assert forall|kk: ChannelKey| #[trigger] new_self@.dom().contains(kk) <==> old_self@.insert(
                k,
                (channel_id, 0u32),
            ).dom().contains(kk) by {
                if old_self@.dom().contains(kk) {
                    let j = choose|j: int| 0 <= j < old_self.keys@.len() && key_of(old_self.keys@[j]) == kk;
                    assert(key_of(new_self.keys@[j]) == kk);
                }
                if new_self@.dom().contains(kk) && kk != k {
                    let j = choose|j: int| 0 <= j < new_self.keys@.len() && key_of(new_self.keys@[j]) == kk;
                    assert(key_of(old_self.keys@[j]) == kk);
                }
                if kk == k {
                    assert(key_of(new_self.keys@[old_self.keys@.len() as int]) == k);
                }
            }
            assert forall|kk: ChannelKey| #[trigger] new_self@.dom().contains(kk) implies new_self@[kk]
                == old_self@.insert(k, (channel_id, 0u32))[kk] by {
                let j = choose|j: int| 0 <= j < new_self.keys@.len() && key_of(new_self.keys@[j]) == kk;
                new_self.lemma_index(j);
                if j < old_self.keys@.len() {
                    old_self.lemma_index(j);
                }
            }
            assert(new_self@ =~= old_self@.insert(k, (channel_id, 0u32)));
        }
    }

    /// The header of the next message on the channel of `topic` and
    /// `schema_name`, written at `log_time`; the channel's sequence number
    /// moves on by one and every other channel stays as it was.
    pub fn stamp(&mut self, topic: &String, schema_name: &String, log_time: u64) -> (h: MessageHeader)
        requires
            old(self)@.dom().contains((topic@, schema_name@)),
            old(self)@[(topic@, schema_name@)].1 < u32::MAX,
        ensures
            h == header_at(
                old(self)@[(topic@, schema_name@)].0,
                old(self)@[(topic@, schema_name@)].1,
                log_time,
            ),
            final(self)@ == old(self)@.insert(
                (topic@, schema_name@),
                advanced(old(self)@[(topic@, schema_name@)]),
            ),
    {
        proof {
            use_type_invariant(&*self);
        }
        let ghost old_self = *self;
        let ghost k = (topic@, schema_name@);
        let found = self.find(topic, schema_name);
        proof {
            if found is None {
                let j = choose|j: int| 0 <= j < old_self.keys@.len() && key_of(old_self.keys@[j]) == k;
                assert(key_of(old_self.keys@[j]) != k);
            }
        }
        let i = found.unwrap();
        proof {
            old_self.lemma_index(i as int);
        }
        let (channel_id, sequence) = self.states[i];
        let mut taken = ChannelRegistry::new();
        std::mem::swap(&mut taken, self);
        let ChannelRegistry { keys, mut states } = taken;
        states.set(i, (channel_id, sequence + 1));
        *self = ChannelRegistry { keys, states };
        proof {
            let new_self = *self;
            assert forall|kk: ChannelKey| #[trigger] new_self@.dom().contains(kk) <==> old_self@.dom().contains(kk) by {
                if old_self@.dom().contains(kk) {
                    let j = choose|j: int| 0 <= j < old_self.keys@.len() && key_of(old_self.keys@[j]) == kk;
                    assert(key_of(new_self.keys@[j]) == kk);
                }
                if new_self@.dom().contains(kk) {
                    let j = choose|j: int| 0 <= j < new_self.keys@.len() && key_of(new_self.keys@[j]) == kk;
                    assert(key_of(old_self.keys@[j]) == kk);
                }
            }
            assert forall|kk: ChannelKey| #[trigger] new_self@.dom().contains(kk) implies new_self@[kk]
                == old_self@.insert(k, advanced(old_self@[k]))[kk] by {
                let j = choose|j: int| 0 <= j < new_self.keys@.len() && key_of(new_self.keys@[j]) == kk;
                new_self.lemma_index(j);
                old_self.lemma_index(j);
            }
            assert(new_self@ =~= old_self@.insert(k, advanced(old_self@[k])));
        }
        MessageHeader { channel_id, sequence, log_time, publish_time: log_time }
    }
}


/// The channels after one message on each key of `keys`, in turn.
pub open spec fn stamp_all(m: Map<ChannelKey, ChannelState>, keys: Seq<ChannelKey>) -> Map<
    ChannelKey,
    ChannelState,
>
    decreases keys.len(),
{
    if keys.len() == 0 {
        m
    } else {
        let before = stamp_all(m, keys.drop_last());
        before.insert(keys.last(), advanced(before[keys.last()]))
    }
}

/// How many times `k` occurs in `keys`.
pub open spec fn occurrences(keys: Seq<ChannelKey>, k: ChannelKey) -> nat
    decreases keys.len(),
{
    if keys.len() == 0 {
        0
    } else {
        occurrences(keys.drop_last(), k) + if keys.last() == k {
            1nat
        } else {
            0nat
        }
    }
}

/// Messages on open channels keep the set of channels and every channel's
/// id, and move a channel's sequence number on by the number of messages
/// written to it: the messages of one channel are numbered one after the
/// other, from the number it had.
pub proof fn lemma_sequence_counts(m: Map<ChannelKey, ChannelState>, keys: Seq<ChannelKey>, k: ChannelKey)
    requires
        forall|i: int| 0 <= i < keys.len() ==> m.dom().contains(#[trigger] keys[i]),
        m.dom().contains(k),
        m[k].1 + occurrences(keys, k) <= u32::MAX,
    ensures
        stamp_all(m, keys).dom() == m.dom(),
        stamp_all(m, keys)[k] == (m[k].0, (m[k].1 + occurrences(keys, k)) as u32),
    decreases keys.len(),
{
    if keys.len() > 0 {
        let rest = keys.drop_last();
        assert forall|i: int| 0 <= i < rest.len() implies m.dom().contains(#[trigger] rest[i]) by {
            assert(rest[i] == keys[i]);
        }
        lemma_sequence_counts(m, rest, k);
        assert(m.dom().contains(keys[keys.len() - 1]));
        let before = stamp_all(m, rest);
        assert(before.dom().insert(keys.last()) =~= before.dom());
    }
}

// ── Media channels ──────────────────────────────────────────────────────────

/// The two media channels.
#[derive(PartialEq, Eq, Structural, Clone, Copy, Debug)]
pub enum MediaKind {
    Video,
    Image,
}

/// The video and image channels of the media writer, each once opened with
/// its id and the sequence number of its next message.
pub struct Channels {
    video: Option<(u16, u32)>,
    image: Option<(u16, u32)>,
}

impl Channels {
    /// The state of the channel of `kind`, if opened.
    pub closed spec fn slot(self, kind: MediaKind) -> Option<ChannelState> {
        match kind {
            MediaKind::Video => self.video,
            MediaKind::Image => self.image,
        }
    }

    /// Neither channel opened.
    pub fn new() -> (r: Self)
        ensures
            r.slot(MediaKind::Video) is None,
            r.slot(MediaKind::Image) is None,
    {
        Channels { video: None, image: None }
    }

    /// The id and next sequence number of the channel of `kind`, if opened.
    pub fn state(&self, kind: MediaKind) -> (r: Option<(u16, u32)>)
        ensures
            r == self.slot(kind),
    {
        match kind {
            MediaKind::Video => self.video,
            MediaKind::Image => self.image,
        }
    }

    /// Records `channel_id` as the channel of `kind`; its first message will
    /// get sequence number 0.
    pub fn open(&mut self, kind: MediaKind, channel_id: u16)
        requires
            old(self).slot(kind) is None,
        ensures
            final(self).slot(kind) == Some((channel_id, 0u32)),
            forall|other: MediaKind| other != kind ==> final(self).slot(other) == old(self).slot(other),
    {
        match kind {
            MediaKind::Video => self.video = Some((channel_id, 0)),
            MediaKind::Image => self.image = Some((channel_id, 0)),
        }
    }

    /// The header of the next message of `kind`, written at `time`; that
    /// channel's sequence number moves on by one, the other stays.
    pub fn next_header(&mut self, kind: MediaKind, time: u64) -> (h: MessageHeader)
        requires
            old(self).slot(kind) is Some,
            old(self).slot(kind).unwrap().1 < u32::MAX,
        ensures
            h == header_at(old(self).slot(kind).unwrap().0, old(self).slot(kind).unwrap().1, time),
            final(self).slot(kind) == Some(advanced(old(self).slot(kind).unwrap())),
            forall|other: MediaKind| other != kind ==> final(self).slot(other) == old(self).slot(other),
    {
        let (channel_id, sequence) = match kind {
            MediaKind::Video => self.video.unwrap(),
            MediaKind::Image => self.image.unwrap(),
        };
        match kind {
            MediaKind::Video => self.video = Some((channel_id, sequence + 1)),
            MediaKind::Image => self.image = Some((channel_id, sequence + 1)),
        }
        MessageHeader { channel_id, sequence, log_time: time, publish_time: time }
    }
}


/// The state of the channel of `kind` after media writes of the kinds in
/// `writes`, in turn ([`Channels::next_header`] on each): a write of `kind`
/// moves it on by one, a write of the other kind leaves it as it is.
pub open spec fn after_media_writes(s: Option<ChannelState>, writes: Seq<MediaKind>, kind: MediaKind) -> Option<
    ChannelState,
>
    decreases writes.len(),
{
    if writes.len() == 0 {
        s
    } else {
        let before = after_media_writes(s, writes.drop_last(), kind);
        if writes.last() == kind {
            match before {
                Some(st) => Some(advanced(st)),
                None => None,
            }
        } else {
            before
        }
    }
}

/// How many of `writes` are of `kind`.
pub open spec fn kind_count(writes: Seq<MediaKind>, kind: MediaKind) -> nat
    decreases writes.len(),
{
    if writes.len() == 0 {
        0
    } else {
        kind_count(writes.drop_last(), kind) + if writes.last() == kind {
            1nat
        } else {
            0nat
        }
    }
}

/// Over any run of video and image writes, an opened media channel keeps
/// its id and its sequence number moves on by the number of writes of its
/// own kind: the k-th video message is number k, whatever images come
/// between.
pub proof fn lemma_media_sequence_counts(id: u16, sequence: u32, writes: Seq<MediaKind>, kind: MediaKind)
    requires
        sequence + kind_count(writes, kind) <= u32::MAX,
    ensures
        after_media_writes(Some((id, sequence)), writes, kind) == Some(
            (id, (sequence + kind_count(writes, kind)) as u32),
        ),
    decreases writes.len(),
{
    if writes.len() > 0 {
        lemma_media_sequence_counts(id, sequence, writes.drop_last(), kind);
    }
}

} // verus!
