//! The media container: timestamped frames, keyframe-delimited group
//! production, and latency-bounded group reordering on the consumer side.
//!
//! Frame timestamps are microsecond ticks; each frame travels as a varint
//! timestamp header followed by the codec payload.

use vstd::prelude::*;

use crate::coding::{decode_varint, encode_varint, sp_varint, spec_varint, VARINT_MAX};
use crate::error::{DecodeError, Error};
use crate::model::track::{last_ingest, CachedGroup, TrackProducer};

verus! {

/// A media frame: a presentation timestamp in microseconds, a keyframe
/// flag, and the codec payload.
#[derive(Clone, Debug, PartialEq, Eq)]
pub struct Frame {
    pub timestamp: u64,
    pub keyframe: bool,
    pub payload: Vec<u8>,
}

impl Frame {
    /// The timestamp fits in a varint.
    pub open spec fn wf(self) -> bool {
        self.timestamp <= VARINT_MAX
    }

    /// The wire form: the timestamp, then the payload bytes.
    pub open spec fn spec_encode(self) -> Seq<u8> {
        spec_varint(self.timestamp) + self.payload@
    }

    /// Append the wire form of this frame.
    pub fn encode(&self, buf: &mut Vec<u8>)
        requires
            self.wf(),
        ensures
            final(buf)@ == old(buf)@ + self.spec_encode(),
    {
        encode_varint(buf, self.timestamp);
        let ghost mid = buf@;
        let mut k: usize = 0;
        while k < self.payload.len()
            invariant
                k <= self.payload@.len(),
                buf@ == mid + self.payload@.subrange(0, k as int),
            decreases self.payload@.len() - k,
        {
            buf.push(self.payload[k]);
            k = k + 1;
            assert(buf@ =~= mid + self.payload@.subrange(0, k as int));
        }
        proof {
            assert(self.payload@.subrange(0, self.payload@.len() as int) =~= self.payload@);
            assert(buf@ =~= old(buf)@ + self.spec_encode());
        }
    }

    /// Read a frame back from its wire form: the varint timestamp, then
    /// the remaining bytes as the payload.  The keyframe flag is not on
    /// the wire; the caller knows it from the frame's position.
    pub fn decode(buf: &[u8], keyframe: bool) -> (r: Result<Frame, DecodeError>)
        ensures
            match r {
                Ok(f) => (match sp_varint(buf@, 0) {
                    Ok((ts, j)) => f.timestamp == ts && f.payload@ == buf@.skip(j) && f.keyframe
                        == keyframe,
                    Err(_) => false,
                }),
                Err(e) => sp_varint(buf@, 0) == Err::<(u64, int), DecodeError>(e),
            },
    {
        let mut pos: usize = 0;
        let timestamp = match decode_varint(buf, &mut pos) {
            Ok(v) => v,
            Err(e) => {
                return Err(e);
            },
        };
        let mut payload: Vec<u8> = Vec::new();
        let ghost j = pos as int;
        let mut k: usize = pos;
        proof {
            assert(payload@ =~= buf@.subrange(j, j));
        }
        while k < buf.len()
            invariant
                0 <= j <= k <= buf@.len(),
                payload@ == buf@.subrange(j, k as int),
            decreases buf@.len() - k,
        {
            payload.push(buf[k]);
            k = k + 1;
            assert(payload@ =~= buf@.subrange(j, k as int));
        }
        proof {
            assert(payload@ =~= buf@.skip(j));
        }
        Ok(Frame { timestamp, keyframe, payload })
    }
}

/// A group under construction or closed: its sequence and its frames.
#[derive(Clone, Debug, PartialEq, Eq)]
pub struct MediaGroup {
    pub sequence: u64,
    pub frames: Vec<Frame>,
}

/// A produced group is never empty and opens with a keyframe.
pub open spec fn group_starts_with_keyframe(g: MediaGroup) -> bool {
    g.frames@.len() > 0 && g.frames@[0].keyframe
}

/// A producer that splits a stream of frames into groups at keyframes.
pub struct OrderedProducer {
    /// The track the groups are inserted into.
    pub track: TrackProducer,
    /// The group currently being written, if any.
    pub group: Option<MediaGroup>,
    /// The timestamp of the last accepted keyframe.
    pub keyframe: Option<u64>,
    /// Every group closed so far, in order.
    pub closed_groups: Ghost<Seq<MediaGroup>>,
    /// How many keyframes have been accepted.
    pub keyframes_accepted: Ghost<int>,
}

impl OrderedProducer {
    /// Closed groups and the open one all start with a keyframe, and
    /// there is exactly one group per accepted keyframe.
    pub open spec fn wf(self) -> bool {
        &&& self.track.wf()
        &&& forall|k: int|
            0 <= k < self.closed_groups@.len() ==> group_starts_with_keyframe(
                #[trigger] self.closed_groups@[k],
            )
        &&& (match self.group {
            Some(g) => group_starts_with_keyframe(g),
            None => true,
        })
        &&& self.keyframes_accepted@ == self.closed_groups@.len() + (if self.group is Some {
            1int
        } else {
            0int
        })
    }

    /// Wrap a track producer.
    pub fn new(track: TrackProducer) -> (r: OrderedProducer)
        requires
            track.wf(),
        ensures
            r.track == track,
            r.group is None,
            r.keyframe is None,
            r.closed_groups@ == Seq::<MediaGroup>::empty(),
            r.keyframes_accepted@ == 0,
            r.wf(),
    {
        OrderedProducer {
            track,
            group: None,
            keyframe: None,
            closed_groups: Ghost(Seq::empty()),
            keyframes_accepted: Ghost(0),
        }
    }

    /// Write one frame, in decode order.
    ///
    /// A keyframe closes the current group and opens a new one, so the
    /// producer makes exactly one group per accepted keyframe and every
    /// group starts with a keyframe.  A keyframe whose timestamp is
    /// before the last keyframe's is refused; a non-keyframe with no
    /// open group is refused, because a track must start with a
    /// keyframe.
    pub fn write(&mut self, now_ms: u64, frame: Frame) -> (r: Result<(), Error>)
        requires
            old(self).wf(),
            old(self).track.closed is None,
            now_ms >= last_ingest(old(self).track.history@),
            old(self).track.history@.len() < usize::MAX,
            match old(self).track.max_sequence {
                None => true,
                Some(m) => m < u64::MAX,
            },
        ensures
            final(self).wf(),
            final(self).track.closed is None,
            match r {
                Ok(()) => {
                    &&& (frame.keyframe ==> ({
                        &&& final(self).keyframe == Some(frame.timestamp)
                        &&& final(self).keyframes_accepted@ == old(self).keyframes_accepted@ + 1
                        &&& final(self).closed_groups@ == (match old(self).group {
                            Some(g) => old(self).closed_groups@.push(g),
                            None => old(self).closed_groups@,
                        })
                        &&& (final(self).group matches Some(g2) && g2.frames@ == seq![frame])
                    })
                    )
                    &&& (!frame.keyframe ==> ({
                        &&& old(self).group is Some
                        &&& final(self).keyframes_accepted@ == old(self).keyframes_accepted@
                        &&& final(self).closed_groups@ == old(self).closed_groups@
                        &&& (final(self).group matches Some(g2) && old(self).group matches Some(g1)
                            && g2.frames@ == g1.frames@.push(frame))
                    })
                    )
                },
                Err(Error::TimestampBackwards) => {
                    &&& frame.keyframe
                    &&& old(self).keyframe matches Some(ts) && frame.timestamp < ts
                    &&& final(self).group is None
                    &&& final(self).closed_groups@ == (match old(self).group {
                        Some(g) => old(self).closed_groups@.push(g),
                        None => old(self).closed_groups@,
                    })
                    &&& final(self).keyframes_accepted@ == final(self).closed_groups@.len()
                },
                Err(Error::MissingKeyframe) => {
                    &&& !frame.keyframe
                    &&& old(self).group is None
                    &&& *final(self) == *old(self)
                },
                Err(_) => false,
            },
    {
        if frame.keyframe {
            let prev = self.group.take();
            match prev {
                Some(g) => {
                    proof {
                        self.closed_groups@ = self.closed_groups@.push(g);
                    }
                },
                None => {},
            }
            match self.keyframe {
                Some(ts) => {
                    if frame.timestamp < ts {
                        proof {
                            self.keyframes_accepted@ = self.closed_groups@.len() as int;
                        }
                        return Err(Error::TimestampBackwards);
                    }
                },
                None => {},
            }
            self.keyframe = Some(frame.timestamp);
            let sequence = self.track.append_group(now_ms);
            let mut frames: Vec<Frame> = Vec::new();
            frames.push(frame);
            proof {
                assert(frames@ =~= seq![frame]);
                self.keyframes_accepted@ = self.keyframes_accepted@ + 1;
            }
            self.group = Some(MediaGroup { sequence, frames });
            Ok(())
        } else {
            let cur = self.group.take();
            match cur {
                Some(mut g) => {
                    let ghost pre = g.frames@;
                    g.frames.push(frame);
                    proof {
                        assert(g.frames@ =~= pre.push(frame));
                        assert(g.frames@[0] == pre[0]);
                    }
                    self.group = Some(g);
                    Ok(())
                },
                None => Err(Error::MissingKeyframe),
            }
        }
    }

    /// Explicitly close the current group, ahead of the next keyframe.
    pub fn flush(&mut self) -> (r: Result<(), Error>)
        requires
            old(self).wf(),
        ensures
            final(self).wf(),
            final(self).track == old(self).track,
            match r {
                Ok(()) => old(self).group is Some && final(self).group is None
                    && final(self).closed_groups@ == old(self).closed_groups@.push(
                    old(self).group.unwrap(),
                ),
                Err(Error::MissingKeyframe) => old(self).group is None && *final(self) == *old(self),
                Err(_) => false,
            },
    {
        let cur = self.group.take();
        match cur {
            Some(g) => {
                proof {
                    self.closed_groups@ = self.closed_groups@.push(g);
                    self.keyframes_accepted@ = self.keyframes_accepted@;
                }
                Ok(())
            },
            None => {
                Err(Error::MissingKeyframe)
            },
        }
    }
}

/// One group per keyframe, each opening with a keyframe: a well-formed
/// producer has closed exactly as many groups as it accepted keyframes
/// (minus the one still open), and every one of them, closed or open,
/// starts with a keyframe.
pub proof fn lemma_one_group_per_keyframe(p: OrderedProducer)
    requires
        p.wf(),
    ensures
        p.keyframes_accepted@ == p.closed_groups@.len() + (if p.group is Some {
            1int
        } else {
            0int
        }),
        forall|k: int|
            0 <= k < p.closed_groups@.len() ==> group_starts_with_keyframe(#[trigger] p.closed_groups@[k]),
        p.group matches Some(g) ==> group_starts_with_keyframe(g),
{
}

// ---------------------------------------------------------------------------
// The ordered consumer
// ---------------------------------------------------------------------------

/// What the consumer knows of one group it is watching: its sequence and
/// the greatest timestamp buffered from it so far.
#[derive(Clone, Copy, Debug, PartialEq, Eq, Structural)]
pub struct WatchedGroup {
    pub sequence: u64,
    pub max_timestamp: u64,
}

/// A consumer that reorders groups and drops the slow ones to meet a
/// latency budget, in microseconds.
pub struct OrderedConsumer {
    /// The group frames are currently read from.
    pub current: Option<WatchedGroup>,
    /// Newer groups, buffered, in ascending sequence order.
    pub pending: Vec<WatchedGroup>,
    /// The greatest timestamp emitted so far: the playhead.
    pub max_timestamp: u64,
    /// The latency budget.
    pub max_latency: u64,
}

impl OrderedConsumer {
    /// Pending groups are sorted by sequence and all newer than the
    /// current group.
    pub open spec fn wf(self) -> bool {
        &&& forall|k1: int, k2: int|
            0 <= k1 <= k2 < self.pending@.len() ==> (#[trigger] self.pending@[k1]).sequence
                <= (#[trigger] self.pending@[k2]).sequence
        &&& (match self.current {
            Some(c) => forall|k: int|
                0 <= k < self.pending@.len() ==> (#[trigger] self.pending@[k]).sequence >= c.sequence,
            None => self.pending@.len() == 0,
        })
    }

    /// A fresh consumer with the given latency budget.
    pub fn new(max_latency: u64) -> (r: OrderedConsumer)
        ensures
            r.current is None,
            r.pending@ == Seq::<WatchedGroup>::empty(),
            r.max_timestamp == 0,
            r.max_latency == max_latency,
            r.wf(),
    {
        OrderedConsumer { current: None, pending: Vec::new(), max_timestamp: 0, max_latency }
    }

    /// A frame arrived from the current group: emit it and advance the
    /// playhead to its timestamp.
    pub fn on_frame(&mut self, timestamp: u64)
        requires
            old(self).wf(),
            old(self).current is Some,
        ensures
            final(self).wf(),
            final(self).max_timestamp == timestamp,
            final(self).current == old(self).current,
            final(self).pending == old(self).pending,
            final(self).max_latency == old(self).max_latency,
    {
        self.max_timestamp = timestamp;
    }

    /// The current group ended: move to the oldest pending group.  No
    /// group is dropped.
    pub fn on_current_ended(&mut self)
        requires
            old(self).wf(),
        ensures
            final(self).wf(),
            final(self).max_timestamp == old(self).max_timestamp,
            final(self).max_latency == old(self).max_latency,
            old(self).pending@.len() > 0 ==> final(self).current == Some(old(self).pending@[0])
                && final(self).pending@ == old(self).pending@.drop_first(),
            old(self).pending@.len() == 0 ==> final(self).current is None && final(self).pending@
                == old(self).pending@,
    {
        if self.pending.len() > 0 {
            let head = self.pending.remove(0);
            self.current = Some(head);
            proof {
                assert(self.pending@ =~= old(self).pending@.drop_first());
            }
        } else {
            self.current = None;
        }
    }

    /// A new group arrived from the track.  An older sequence than the
    /// current group is ignored; otherwise it is buffered in ascending
    /// sequence order, or becomes current if nothing is.
    pub fn on_new_group(&mut self, sequence: u64)
        requires
            old(self).wf(),
            old(self).pending@.len() < usize::MAX,
        ensures
            final(self).wf(),
            final(self).max_timestamp == old(self).max_timestamp,
            final(self).max_latency == old(self).max_latency,
            match old(self).current {
                None => final(self).current == Some(
                    WatchedGroup { sequence, max_timestamp: 0 },
                ) && final(self).pending@ == old(self).pending@,
                Some(c) => {
                    if sequence < c.sequence {
                        *final(self) == *old(self)
                    } else {
                        final(self).current == old(self).current
                            && final(self).pending@.to_multiset() == old(
                            self,
                        ).pending@.to_multiset().insert(WatchedGroup { sequence, max_timestamp: 0 })
                    }
                },
            },
    {
        let g = WatchedGroup { sequence, max_timestamp: 0 };
        match self.current {
            None => {
                self.current = Some(g);
            },
            Some(c) => {
                if sequence < c.sequence {
                } else {
                    let mut k: usize = 0;
                    while k < self.pending.len() && self.pending[k].sequence < sequence
                        invariant
                            k <= self.pending@.len(),
                            *self == *old(self),
                            forall|m: int|
                                0 <= m < k ==> (#[trigger] self.pending@[m]).sequence < sequence,
                        decreases self.pending@.len() - k,
                    {
                        k = k + 1;
                    }
                    let ghost pre = self.pending@;
                    proof {
                        assert(k == pre.len() || pre[k as int].sequence >= sequence);
                    }
                    self.pending.insert(k, g);
                    proof {
                        assert(self.pending@ =~= pre.insert(k as int, g));
                        lemma_insert_multiset(pre, k as int, g);
                        assert forall|k1: int, k2: int|
                            0 <= k1 <= k2 < self.pending@.len() implies (#[trigger] self.pending@[k1]).sequence
                            <= (#[trigger] self.pending@[k2]).sequence by {
                            if k1 < k {
                                assert(self.pending@[k1] == pre[k1]);
                            } else if k1 > k {
                                assert(self.pending@[k1] == pre[k1 - 1]);
                            } else {
                                assert(self.pending@[k1] == g);
                            }
                            if k2 < k {
                                assert(self.pending@[k2] == pre[k2]);
                            } else if k2 > k {
                                assert(self.pending@[k2] == pre[k2 - 1]);
                            } else {
                                assert(self.pending@[k2] == g);
                            }
                            if k1 == k && k2 > k {
                                assert(pre[k as int].sequence <= pre[k2 - 1].sequence);
                            }
                            if k1 < k && k2 == k {
                                assert(pre[k1].sequence < sequence);
                            }
                            if k1 < k && k2 > k {
                                assert(pre[k1].sequence <= pre[k2 - 1].sequence);
                            }
                        };
                    }
                }
            },
        }
    }

    /// Whether a pending group's buffered timestamp has run past the
    /// latency budget: the trigger for skipping ahead.
    pub open spec fn spec_threshold(self, g: WatchedGroup) -> bool {
        g.max_timestamp >= self.max_timestamp + self.max_latency
    }

    /// A pending group buffered a frame past the latency budget: skip to
    /// it, dropping the current group and every older pending one.  This
    /// is the only transition that drops groups, and it fires only for a
    /// group whose buffered timestamp exceeds the playhead by the
    /// budget.
    pub fn on_buffer_threshold(&mut self, index: usize, buffered_ts: u64)
        requires
            old(self).wf(),
            index < old(self).pending@.len(),
            buffered_ts == old(self).pending@[index as int].max_timestamp,
            old(self).spec_threshold(old(self).pending@[index as int]),
        ensures
            final(self).wf(),
            final(self).max_timestamp == old(self).max_timestamp,
            final(self).max_latency == old(self).max_latency,
            final(self).current == Some(old(self).pending@[index as int]),
            final(self).pending@ == old(self).pending@.skip(index as int + 1),
    {
        let ghost pre = self.pending@;
        let n = self.pending.len();
        proof {
            assert(index < n);
        }
        let mut kept: Vec<WatchedGroup> = Vec::new();
        let mut k: usize = index + 1;
        while k < self.pending.len()
            invariant
                index as int + 1 <= k <= pre.len(),
                self.pending@ == pre,
                index < pre.len(),
                kept@ == pre.subrange(index as int + 1, k as int),
            decreases pre.len() - k,
        {
            kept.push(self.pending[k]);
            k = k + 1;
            assert(kept@ =~= pre.subrange(index as int + 1, k as int));
        }
        self.current = Some(self.pending[index]);
        self.pending = kept;
        proof {
            assert(self.pending@ =~= pre.skip(index as int + 1));
        }
    }
}

/// Inserting preserves the multiset of watched groups.
proof fn lemma_insert_multiset(s: Seq<WatchedGroup>, i: int, g: WatchedGroup)
    requires
        0 <= i <= s.len(),
    ensures
        s.insert(i, g).to_multiset() == s.to_multiset().insert(g),
{
    vstd::seq_lib::to_multiset_insert(s, i, g);
}

/// If every watched group's buffered timestamp stays within the latency
/// budget of the playhead, the skip transition can never fire, so no
/// group is dropped.
pub proof fn lemma_no_skip_within_budget(c: OrderedConsumer)
    requires
        c.wf(),
        forall|k: int|
            0 <= k < c.pending@.len() ==> (#[trigger] c.pending@[k]).max_timestamp < c.max_timestamp
                + c.max_latency,
    ensures
        forall|k: int| 0 <= k < c.pending@.len() ==> !c.spec_threshold(#[trigger] c.pending@[k]),
{
}

} // verus!
