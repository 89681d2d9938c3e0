//! A track: an ordered sequence of groups, cached for a bounded time,
//! fanned out to any number of consumers.
//!
//! The producer owns the mutable state.  A consumer is a cursor over the
//! producer's history; the asynchronous waiting of a live system is
//! modelled by a `Pending` outcome, to be retried when the state changes.
//! Time enters every operation as an explicit millisecond clock reading.

use vstd::prelude::*;

use crate::error::Error;

verus! {

/// How long a group stays cached after ingest, in milliseconds.
pub const MAX_CACHE_MS: u64 = 30_000;

/// A track's name and priority.
#[derive(Clone, Debug, PartialEq, Eq)]
pub struct Track {
    pub name: String,
    pub priority: u8,
}

impl Track {
    /// A track with the given name and priority zero.
    pub fn new(name: String) -> (r: Track)
        ensures
            r.name@ == name@,
            r.priority == 0,
    {
        Track { name, priority: 0 }
    }

    /// Start producing this track.
    pub fn produce(self) -> (r: TrackProducer)
        ensures
            r.info == self,
            r.history@ == Seq::<CachedGroup>::empty(),
            r.offset == 0,
            r.max_sequence is None,
            r.drop_sequence is None,
            r.closed is None,
            r.wf(),
    {
        TrackProducer::new(self)
    }
}

/// One cached group: when it was ingested and its sequence number.
#[derive(Clone, Copy, Debug, PartialEq, Eq, Structural)]
pub struct CachedGroup {
    pub ingest_ms: u64,
    pub sequence: u64,
}

/// Whether a cached group has outlived the cache window at time `now_ms`.
/// A clock reading before the ingest time counts as age zero.
pub open spec fn spec_expired(g: CachedGroup, now_ms: u64) -> bool {
    g.ingest_ms < now_ms && now_ms - g.ingest_ms > MAX_CACHE_MS
}

/// The length of the expired prefix of a cache.
pub open spec fn expired_prefix_len(gs: Seq<CachedGroup>, now_ms: u64) -> int
    decreases gs.len(),
{
    if gs.len() == 0 {
        0
    } else if spec_expired(gs[0], now_ms) {
        1 + expired_prefix_len(gs.drop_first(), now_ms)
    } else {
        0
    }
}

/// The greatest sequence number in a history, if any.
pub open spec fn seq_max(gs: Seq<CachedGroup>) -> Option<u64>
    decreases gs.len(),
{
    if gs.len() == 0 {
        None
    } else {
        match seq_max(gs.drop_last()) {
            None => Some(gs.last().sequence),
            Some(m) => {
                if gs.last().sequence >= m {
                    Some(gs.last().sequence)
                } else {
                    Some(m)
                }
            },
        }
    }
}

/// The ingest time of the newest entry, or zero for an empty history.
pub open spec fn last_ingest(gs: Seq<CachedGroup>) -> u64 {
    if gs.len() == 0 {
        0
    } else {
        gs.last().ingest_ms
    }
}

/// The producer half of a track.
pub struct TrackProducer {
    /// The track's name and priority.
    pub info: Track,
    /// The cached groups, oldest first.
    pub groups: Vec<CachedGroup>,
    /// How many groups have been evicted; the absolute index of the
    /// first cached group.
    pub offset: usize,
    /// The greatest sequence number ever inserted.
    pub max_sequence: Option<u64>,
    /// The greatest sequence number ever evicted.
    pub drop_sequence: Option<u64>,
    /// The terminal state, once closed or aborted.
    pub closed: Option<Result<(), Error>>,
    /// Every group ever inserted, in ingest order; the cache is its
    /// suffix from `offset` on.
    pub history: Ghost<Seq<CachedGroup>>,
}

impl TrackProducer {
    /// The cache is the suffix of the history past the evicted prefix,
    /// ingest times never decrease, and the running maxima match the
    /// history.
    pub open spec fn wf(self) -> bool {
        &&& self.history@.len() <= usize::MAX
        &&& self.history@.len() == self.offset + self.groups@.len()
        &&& forall|k: int|
            0 <= k < self.groups@.len() ==> self.history@[self.offset + k] == #[trigger] self.groups@[k]
        &&& forall|k1: int, k2: int|
            0 <= k1 <= k2 < self.history@.len() ==> #[trigger] self.history@[k1].ingest_ms
                <= #[trigger] self.history@[k2].ingest_ms
        &&& self.max_sequence == seq_max(self.history@)
        &&& self.drop_sequence == seq_max(self.history@.take(self.offset as int))
    }

    /// A fresh, empty producer.
    pub fn new(info: Track) -> (r: TrackProducer)
        ensures
            r.info == info,
            r.history@ == Seq::<CachedGroup>::empty(),
            r.offset == 0,
            r.max_sequence is None,
            r.drop_sequence is None,
            r.closed is None,
            r.wf(),
    {
        let r = TrackProducer {
            info,
            groups: Vec::new(),
            offset: 0,
            max_sequence: None,
            drop_sequence: None,
            closed: None,
            history: Ghost(Seq::empty()),
        };
        proof {
            assert(r.history@.take(0) =~= Seq::<CachedGroup>::empty());
        }
        r
    }

    /// Evict every cached group that has outlived the cache window.
    /// Exactly the expired groups leave, oldest first, and the drop
    /// watermark rises to the greatest evicted sequence.
    pub fn trim(&mut self, now_ms: u64)
        requires
            old(self).wf(),
        ensures
            final(self).wf(),
            final(self).info == old(self).info,
            final(self).history == old(self).history,
            final(self).max_sequence == old(self).max_sequence,
            final(self).closed == old(self).closed,
            final(self).offset == old(self).offset + expired_prefix_len(old(self).groups@, now_ms),
            final(self).groups@ == old(self).groups@.skip(
                expired_prefix_len(old(self).groups@, now_ms),
            ),
            final(self).drop_sequence == seq_max(final(self).history@.take(final(self).offset as int)),
    {
        loop
            invariant
                self.wf(),
                self.info == old(self).info,
                self.history == old(self).history,
                self.max_sequence == old(self).max_sequence,
                self.closed == old(self).closed,
                self.offset >= old(self).offset,
                self.groups@.len() + self.offset == old(self).groups@.len() + old(self).offset,
                self.offset + expired_prefix_len(self.groups@, now_ms) == old(self).offset
                    + expired_prefix_len(old(self).groups@, now_ms),
                self.groups@ == old(self).groups@.skip(self.offset - old(self).offset),
            ensures
                self.wf(),
                self.info == old(self).info,
                self.history == old(self).history,
                self.max_sequence == old(self).max_sequence,
                self.closed == old(self).closed,
                expired_prefix_len(self.groups@, now_ms) == 0,
                self.offset == old(self).offset + expired_prefix_len(old(self).groups@, now_ms),
                self.groups@ == old(self).groups@.skip(self.offset - old(self).offset),
            decreases self.groups@.len(),
        {
            if self.groups.len() == 0 {
                break;
            }
            let head = self.groups[0];
            let expired = head.ingest_ms < now_ms && now_ms - head.ingest_ms > MAX_CACHE_MS;
            if !expired {
                break;
            }
            let ghost pre = *self;
            let evicted = self.groups.remove(0);
            self.offset = self.offset + 1;
            self.drop_sequence = match self.drop_sequence {
                None => Some(evicted.sequence),
                Some(d) => {
                    if evicted.sequence >= d {
                        Some(evicted.sequence)
                    } else {
                        Some(d)
                    }
                },
            };
            proof {
                assert(self.groups@ =~= pre.groups@.drop_first());
                let d = pre.offset - old(self).offset;
                assert(pre.groups@.len() == old(self).groups@.len() - d);
                assert(0 <= d <= old(self).groups@.len());
                assert forall|m: int|
                    0 <= m < self.groups@.len() implies self.groups@[m] == old(self).groups@.skip(
                    d + 1,
                )[m] by {
                    assert(self.groups@[m] == pre.groups@[m + 1]);
                    assert(pre.groups@[m + 1] == old(self).groups@.skip(d)[m + 1]);
                    assert(old(self).groups@.skip(d)[m + 1] == old(self).groups@[d + m + 1]);
                    assert(old(self).groups@.skip(d + 1)[m] == old(self).groups@[d + 1 + m]);
                };
                assert(self.groups@ =~= old(self).groups@.skip(self.offset - old(self).offset));
                assert(expired_prefix_len(pre.groups@, now_ms) == 1 + expired_prefix_len(
                    self.groups@,
                    now_ms,
                ));
                assert(self.history@.take(self.offset as int) =~= self.history@.take(
                    pre.offset as int,
                ).push(evicted));
                lemma_seq_max_push(self.history@.take(pre.offset as int), evicted);
                assert forall|k: int|
                    0 <= k < self.groups@.len() implies self.history@[self.offset + k]
                    == #[trigger] self.groups@[k] by {
                    assert(self.groups@[k] == pre.groups@[k + 1]);
                    assert(self.history@[pre.offset + (k + 1)] == pre.groups@[k + 1]);
                };
            }
        }
    }

    /// Insert a group ingested now.  Inserting on a closed track is a
    /// contract violation; expired groups are evicted first; the maximum
    /// sequence never decreases, and afterwards it is at least the new
    /// group's sequence.  Returns whether the group is the newest.
    pub fn insert_group(&mut self, now_ms: u64, sequence: u64) -> (r: bool)
        requires
            old(self).wf(),
            old(self).closed is None,
            now_ms >= last_ingest(old(self).history@),
            old(self).history@.len() < usize::MAX,
        ensures
            final(self).wf(),
            final(self).info == old(self).info,
            final(self).closed is None,
            final(self).history@ == old(self).history@.push(
                CachedGroup { ingest_ms: now_ms, sequence },
            ),
            final(self).max_sequence == Some(
                match old(self).max_sequence {
                    None => sequence,
                    Some(m) => if sequence >= m {
                        sequence
                    } else {
                        m
                    },
                },
            ),
            r == (match old(self).max_sequence {
                None => true,
                Some(m) => sequence >= m,
            }),
    {
        self.trim(now_ms);
        let g = CachedGroup { ingest_ms: now_ms, sequence };
        let ghost pre = *self;
        self.groups.push(g);
        proof {
            self.history@ = self.history@.push(g);
        }
        let newest = match self.max_sequence {
            None => true,
            Some(m) => sequence >= m,
        };
        self.max_sequence = match self.max_sequence {
            None => Some(sequence),
            Some(m) => {
                if sequence >= m {
                    Some(sequence)
                } else {
                    Some(m)
                }
            },
        };
        proof {
            lemma_seq_max_push(pre.history@, g);
            assert(self.history@.drop_last() =~= pre.history@);
            assert(self.history@.last() == g);
            assert(self.history@.take(self.offset as int) =~= pre.history@.take(self.offset as int));
            assert forall|k1: int, k2: int|
                0 <= k1 <= k2 < self.history@.len() implies #[trigger] self.history@[k1].ingest_ms
                <= #[trigger] self.history@[k2].ingest_ms by {
                if k2 < pre.history@.len() {
                    assert(pre.history@[k1].ingest_ms <= pre.history@[k2].ingest_ms);
                } else {
                    if k1 < pre.history@.len() {
                        assert(pre.history@[k1].ingest_ms <= last_ingest(pre.history@));
                    }
                }
            };
        }
        newest
    }

    /// Create the next group: its sequence is one past the maximum, or
    /// zero on a fresh track.  Returns the new sequence number.
    pub fn append_group(&mut self, now_ms: u64) -> (r: u64)
        requires
            old(self).wf(),
            old(self).closed is None,
            now_ms >= last_ingest(old(self).history@),
            old(self).history@.len() < usize::MAX,
            match old(self).max_sequence {
                None => true,
                Some(m) => m < u64::MAX,
            },
        ensures
            final(self).wf(),
            final(self).info == old(self).info,
            final(self).closed is None,
            r == (match old(self).max_sequence {
                None => 0u64,
                Some(m) => (m + 1) as u64,
            }),
            final(self).history@ == old(self).history@.push(
                CachedGroup { ingest_ms: now_ms, sequence: r },
            ),
            final(self).max_sequence == Some(r),
    {
        let sequence = match self.max_sequence {
            None => 0,
            Some(m) => m + 1,
        };
        self.insert_group(now_ms, sequence);
        sequence
    }

    /// Create a group with the given sequence, which must become the new
    /// maximum; an older sequence is refused.
    pub fn create_group(&mut self, now_ms: u64, sequence: u64) -> (r: bool)
        requires
            old(self).wf(),
            old(self).closed is None,
            now_ms >= last_ingest(old(self).history@),
            old(self).history@.len() < usize::MAX,
        ensures
            final(self).wf(),
            final(self).info == old(self).info,
            final(self).closed is None,
            r == (match old(self).max_sequence {
                None => true,
                Some(m) => sequence >= m,
            }),
            final(self).history@ == old(self).history@.push(
                CachedGroup { ingest_ms: now_ms, sequence },
            ),
    {
        self.insert_group(now_ms, sequence)
    }

    /// Close the track cleanly.
    pub fn close(&mut self)
        requires
            old(self).wf(),
        ensures
            final(self).wf(),
            *final(self) == (TrackProducer { closed: Some(Ok::<(), Error>(())), ..*old(self) }),
    {
        self.closed = Some(Ok(()));
    }

    /// Close the track with an error.
    pub fn abort(&mut self, err: Error)
        requires
            old(self).wf(),
        ensures
            final(self).wf(),
            *final(self) == (TrackProducer { closed: Some(Err::<(), Error>(err)), ..*old(self) }),
    {
        self.closed = Some(Err(err));
    }

    /// A new consumer, positioned at the newest cached group.
    pub fn consume(&self) -> (r: TrackConsumer)
        requires
            self.wf(),
        ensures
            r.index == if self.groups@.len() == 0 {
                self.offset as int
            } else {
                self.offset + self.groups@.len() - 1
            },
    {
        let idx = if self.groups.len() == 0 {
            0
        } else {
            self.groups.len() - 1
        };
        TrackConsumer { index: self.offset + idx }
    }
}

/// What a consumer sees when it asks for the next group.
#[derive(Clone, Copy, Debug, PartialEq, Eq, Structural)]
pub enum TrackPoll {
    /// The next group's sequence number.
    Group(u64),
    /// The track ended cleanly; no more groups will come.
    Closed,
    /// The track was aborted.
    Failed(Error),
    /// Nothing yet; ask again when the state changes.
    Pending,
}

/// A consumer: a cursor over the producer's history.
#[derive(Clone, Copy, Debug, PartialEq, Eq, Structural)]
pub struct TrackConsumer {
    /// The absolute index of the next group to read.
    pub index: usize,
}

impl TrackConsumer {
    /// Read the next group in ascending order, skipping groups that have
    /// been evicted.  Yields `Closed` only when the producer closed
    /// cleanly, `Failed` when it aborted, and `Pending` while there is
    /// nothing new.
    pub fn next_group(&mut self, track: &TrackProducer) -> (r: TrackPoll)
        requires
            track.wf(),
        ensures
            ({
                let at = if old(self).index >= track.offset {
                    old(self).index as int
                } else {
                    track.offset as int
                };
                if at < track.history@.len() {
                    r == TrackPoll::Group(track.history@[at].sequence) && final(self).index == at + 1
                } else {
                    *final(self) == *old(self) && (match track.closed {
                        None => r == TrackPoll::Pending,
                        Some(Ok(())) => r == TrackPoll::Closed,
                        Some(Err(e)) => r == TrackPoll::Failed(e),
                    })
                }
            }),
    {
        let idx = if self.index >= track.offset {
            self.index - track.offset
        } else {
            0
        };
        if idx < track.groups.len() {
            let g = track.groups[idx];
            self.index = track.offset + idx + 1;
            proof {
                assert(track.history@[track.offset + idx] == track.groups@[idx as int]);
            }
            return TrackPoll::Group(g.sequence);
        }
        match track.closed {
            None => TrackPoll::Pending,
            Some(Ok(())) => TrackPoll::Closed,
            Some(Err(e)) => TrackPoll::Failed(e),
        }
    }

    /// Look a specific sequence up.  A cached group is found; an evicted
    /// one (the drop watermark has passed it) is gone without error; a
    /// closed track ends the wait; otherwise the consumer would block.
    pub fn get_group(&self, track: &TrackProducer, sequence: u64) -> (r: TrackPoll)
        requires
            track.wf(),
        ensures
            (exists|k: int|
                0 <= k < track.groups@.len() && (#[trigger] track.groups@[k]).sequence == sequence) ==> r
                == TrackPoll::Group(sequence),
            !(exists|k: int|
                0 <= k < track.groups@.len() && (#[trigger] track.groups@[k]).sequence == sequence) ==> (
            match track.closed {
                Some(Ok(())) => r == TrackPoll::Closed,
                Some(Err(e)) => r == TrackPoll::Failed(e),
                None => r == (match track.drop_sequence {
                    Some(d) => if d >= sequence {
                        TrackPoll::Closed
                    } else {
                        TrackPoll::Pending
                    },
                    None => TrackPoll::Pending,
                }),
            }),
    {
        let mut k: usize = 0;
        while k < track.groups.len()
            invariant
                k <= track.groups@.len(),
                forall|m: int| 0 <= m < k ==> (#[trigger] track.groups@[m]).sequence != sequence,
            decreases track.groups@.len() - k,
        {
            if track.groups[k].sequence == sequence {
                return TrackPoll::Group(sequence);
            }
            k = k + 1;
        }
        match track.closed {
            Some(Ok(())) => TrackPoll::Closed,
            Some(Err(e)) => TrackPoll::Failed(e),
            None => {
                match track.drop_sequence {
                    Some(d) => {
                        if d >= sequence {
                            TrackPoll::Closed
                        } else {
                            TrackPoll::Pending
                        }
                    },
                    None => TrackPoll::Pending,
                }
            },
        }
    }
}

/// Pushing an entry moves the maximum up to it.
pub proof fn lemma_seq_max_push(gs: Seq<CachedGroup>, g: CachedGroup)
    ensures
        seq_max(gs.push(g)) == Some(
            match seq_max(gs) {
                None => g.sequence,
                Some(m) => if g.sequence >= m {
                    g.sequence
                } else {
                    m
                },
            },
        ),
{
    assert(gs.push(g).drop_last() =~= gs);
    assert(gs.push(g).last() == g);
}

/// The sequences a consumer at absolute position `i` will read from a
/// frozen track state, in order.
pub open spec fn remaining_sequences(h: Seq<CachedGroup>, i: int) -> Seq<u64> {
    h.skip(i).map_values(|g: CachedGroup| g.sequence)
}

/// A consumer that never falls behind reads every remaining group's
/// sequence in order exactly once: from position `i`, the reads yield
/// `h[i], h[i+1], ...` and each read advances the cursor by one, so no
/// position repeats and none is passed over.
pub proof fn lemma_consumer_reads_in_order(track: TrackProducer, i: int)
    requires
        track.wf(),
        track.offset <= i < track.history@.len(),
    ensures
        remaining_sequences(track.history@, i)[0] == track.history@[i].sequence,
        remaining_sequences(track.history@, i + 1) == remaining_sequences(track.history@, i).drop_first(),
{
    assert(track.history@.skip(i)[0] == track.history@[i]);
    assert(track.history@.skip(i + 1) =~= track.history@.skip(i).drop_first());
    assert(remaining_sequences(track.history@, i + 1) =~= remaining_sequences(
        track.history@,
        i,
    ).drop_first());
}

/// A consumer that fell behind the cache window skips exactly the evicted
/// positions: the next read returns the oldest cached group, every skipped
/// position lies in the evicted prefix, and the drop watermark is the
/// greatest evicted sequence, hence at least every skipped one.
pub proof fn lemma_consumer_skips_evicted(track: TrackProducer, i: int)
    requires
        track.wf(),
        0 <= i < track.offset,
        track.groups@.len() > 0,
    ensures
        forall|k: int|
            i <= k < track.offset ==> (track.drop_sequence matches Some(d) && d
                >= (#[trigger] track.history@[k]).sequence),
{
    assert forall|k: int|
        i <= k < track.offset implies (track.drop_sequence matches Some(d) && d
        >= (#[trigger] track.history@[k]).sequence) by {
        lemma_seq_max_bound(track.history@.take(track.offset as int), k);
        assert(track.history@.take(track.offset as int)[k] == track.history@[k]);
    };
}

/// Every entry's sequence is bounded by the maximum.
pub proof fn lemma_seq_max_bound(gs: Seq<CachedGroup>, k: int)
    requires
        0 <= k < gs.len(),
    ensures
        seq_max(gs) matches Some(m) && m >= gs[k].sequence,
    decreases gs.len(),
{
    if k == gs.len() - 1 {
    } else {
        lemma_seq_max_bound(gs.drop_last(), k);
        assert(gs.drop_last()[k] == gs[k]);
    }
}

} // verus!
