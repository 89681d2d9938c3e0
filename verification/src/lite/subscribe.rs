//! Subscription messages of the lite family.

use vstd::prelude::*;

use crate::coding::{
    decode_string, decode_u8, decode_varint, encode_string, encode_u8, encode_varint, sp_string, sp_u8,
    sp_varint, spec_string, spec_u8, spec_varint, VARINT_MAX,
};
use crate::error::DecodeError;
use crate::lite::{
    decode_lite_path, encode_lite_path, lite_path_fits, sp_lite_path, spec_lite_path, Version,
};
use crate::path::{spec_split, Path};

verus! {

/// The wire form of an optional group bound: zero for none, else the
/// bound plus one.
pub open spec fn spec_opt_group(v: Option<u64>) -> Seq<u8> {
    match v {
        None => spec_varint(0),
        Some(g) => spec_varint((g + 1) as u64),
    }
}

/// An optional group bound fits on the wire.
pub open spec fn opt_group_fits(v: Option<u64>) -> bool {
    match v {
        None => true,
        Some(g) => g + 1 <= VARINT_MAX,
    }
}

/// Append an optional group bound.
pub fn encode_opt_group(buf: &mut Vec<u8>, v: Option<u64>)
    requires
        opt_group_fits(v),
    ensures
        final(buf)@ == old(buf)@ + spec_opt_group(v),
{
    match v {
        None => encode_varint(buf, 0),
        Some(g) => encode_varint(buf, g + 1),
    }
}

/// Decode an optional group bound at cursor `i`.
pub open spec fn sp_opt_group(s: Seq<u8>, i: int) -> Result<(Option<u64>, int), DecodeError> {
    match sp_varint(s, i) {
        Err(e) => Err(e),
        Ok((v, j)) => {
            if v == 0 {
                Ok((None, j))
            } else {
                Ok((Some((v - 1) as u64), j))
            }
        },
    }
}

/// Read an optional group bound at `*pos`.
pub fn decode_opt_group(buf: &[u8], pos: &mut usize) -> (r: Result<Option<u64>, DecodeError>)
    requires
        *old(pos) <= buf@.len(),
    ensures
        match r {
            Ok(v) => sp_opt_group(buf@, *old(pos) as int) == Ok::<(Option<u64>, int), DecodeError>((
                v,
                *final(pos) as int,
            )) && *old(pos) <= *final(pos) <= buf@.len(),
            Err(e) => sp_opt_group(buf@, *old(pos) as int) == Err::<(Option<u64>, int), DecodeError>(e)
                && *final(pos) == *old(pos),
        },
{
    match decode_varint(buf, pos) {
        Ok(v) => {
            if v == 0 {
                Ok(None)
            } else {
                Ok(Some(v - 1))
            }
        },
        Err(e) => Err(e),
    }
}

/// Asks the publisher for all future groups of a track, with an assigned
/// short identifier.
#[derive(Clone, Debug)]
pub struct Subscribe {
    pub id: u64,
    pub broadcast: Path,
    pub track: String,
    pub priority: u8,
    pub ordered: bool,
    pub max_latency_ms: u64,
    pub start_group: Option<u64>,
    pub end_group: Option<u64>,
}

impl Subscribe {
    /// The payload fits on the wire.
    pub open spec fn wf(self) -> bool {
        &&& self.id <= VARINT_MAX
        &&& lite_path_fits(self.broadcast@)
        &&& vstd::utf8::encode_utf8(self.track@).len() <= VARINT_MAX
        &&& self.max_latency_ms <= VARINT_MAX
        &&& opt_group_fits(self.start_group)
        &&& opt_group_fits(self.end_group)
    }

    /// The wire form of the payload.
    pub open spec fn spec_encode_msg(self, version: Version) -> Seq<u8> {
        spec_varint(self.id) + spec_lite_path(self.broadcast@) + spec_string(self.track@) + spec_u8(
            self.priority,
        ) + (match version {
            Version::Draft03 => spec_u8(
                if self.ordered {
                    1u8
                } else {
                    0u8
                },
            ) + spec_varint(self.max_latency_ms) + spec_opt_group(self.start_group) + spec_opt_group(
                self.end_group,
            ),
            Version::Draft01 | Version::Draft02 => Seq::empty(),
        })
    }

    /// Append the payload of this message.
    #[verifier::rlimit(30)]
    pub fn encode_msg(&self, buf: &mut Vec<u8>, version: Version)
        requires
            self.wf(),
        ensures
            final(buf)@ == old(buf)@ + self.spec_encode_msg(version),
    {
        encode_varint(buf, self.id);
        encode_lite_path(buf, &self.broadcast);
        encode_string(buf, self.track.as_str());
        encode_u8(buf, self.priority);
        match version {
            Version::Draft03 => {
                encode_u8(buf, if self.ordered { 1 } else { 0 });
                encode_varint(buf, self.max_latency_ms);
                encode_opt_group(buf, self.start_group);
                encode_opt_group(buf, self.end_group);
            },
            Version::Draft01 | Version::Draft02 => {},
        }
        assert(buf@ =~= old(buf)@ + self.spec_encode_msg(version));
    }

    /// Decode a payload at cursor `i`: identifier, joined broadcast path
    /// bytes, track name bytes, and the subscription options.
    pub open spec fn sp_decode_msg(s: Seq<u8>, i: int, version: Version) -> Result<
        ((u64, Seq<u8>, Seq<u8>, u8, bool, u64, Option<u64>, Option<u64>), int),
        DecodeError,
    > {
        match sp_varint(s, i) {
            Err(e) => Err(e),
            Ok((id, j)) => match sp_lite_path(s, j) {
                Err(e) => Err(e),
                Ok((bp, j2)) => match sp_string(s, j2) {
                    Err(e) => Err(e),
                    Ok((track, j3)) => match sp_u8(s, j3) {
                        Err(e) => Err(e),
                        Ok((prio, j4)) => match version {
                            Version::Draft03 => match sp_u8(s, j4) {
                                Err(e) => Err(e),
                                Ok((ob, j5)) => match sp_varint(s, j5) {
                                    Err(e) => Err(e),
                                    Ok((lat, j6)) => match sp_opt_group(s, j6) {
                                        Err(e) => Err(e),
                                        Ok((sg, j7)) => match sp_opt_group(s, j7) {
                                            Err(e) => Err(e),
                                            Ok((eg, j8)) => Ok((
                                                (id, bp, track, prio, ob != 0, lat, sg, eg),
                                                j8,
                                            )),
                                        },
                                    },
                                },
                            },
                            Version::Draft01 | Version::Draft02 => Ok((
                                (id, bp, track, prio, false, 0u64, None, None),
                                j4,
                            )),
                        },
                    },
                },
            },
        }
    }

    /// Read a payload at `*pos`.
    pub fn decode_msg(buf: &[u8], pos: &mut usize, version: Version) -> (r: Result<
        Subscribe,
        DecodeError,
    >)
        requires
            *old(pos) <= buf@.len(),
        ensures
            match r {
                Ok(v) => (exists|chars: Seq<char>|
                    Self::sp_decode_msg(buf@, *old(pos) as int, version) == Ok::<
                        ((u64, Seq<u8>, Seq<u8>, u8, bool, u64, Option<u64>, Option<u64>), int),
                        DecodeError,
                    >((
                        (
                            v.id,
                            vstd::utf8::encode_utf8(chars),
                            vstd::utf8::encode_utf8(v.track@),
                            v.priority,
                            v.ordered,
                            v.max_latency_ms,
                            v.start_group,
                            v.end_group,
                        ),
                        *final(pos) as int,
                    )) && v.broadcast@ == spec_split(chars)) && *old(pos) <= *final(pos) <= buf@.len(),
                Err(e) => Self::sp_decode_msg(buf@, *old(pos) as int, version) == Err::<
                    ((u64, Seq<u8>, Seq<u8>, u8, bool, u64, Option<u64>, Option<u64>), int),
                    DecodeError,
                >(e) && *final(pos) == *old(pos),
            },
    {
        let start = *pos;
        let id = match decode_varint(buf, pos) {
            Ok(v) => v,
            Err(e) => {
                return Err(e);
            },
        };
        let broadcast = match decode_lite_path(buf, pos) {
            Ok(v) => v,
            Err(e) => {
                *pos = start;
                return Err(e);
            },
        };
        let track = match decode_string(buf, pos) {
            Ok(v) => v,
            Err(e) => {
                *pos = start;
                return Err(e);
            },
        };
        let priority = match decode_u8(buf, pos) {
            Ok(v) => v,
            Err(e) => {
                *pos = start;
                return Err(e);
            },
        };
        match version {
            Version::Draft03 => {
                let ob = match decode_u8(buf, pos) {
                    Ok(v) => v,
                    Err(e) => {
                        *pos = start;
                        return Err(e);
                    },
                };
                let max_latency_ms = match decode_varint(buf, pos) {
                    Ok(v) => v,
                    Err(e) => {
                        *pos = start;
                        return Err(e);
                    },
                };
                let start_group = match decode_opt_group(buf, pos) {
                    Ok(v) => v,
                    Err(e) => {
                        *pos = start;
                        return Err(e);
                    },
                };
                let end_group = match decode_opt_group(buf, pos) {
                    Ok(v) => v,
                    Err(e) => {
                        *pos = start;
                        return Err(e);
                    },
                };
                Ok(Subscribe {
                    id,
                    broadcast,
                    track,
                    priority,
                    ordered: ob != 0,
                    max_latency_ms,
                    start_group,
                    end_group,
                })
            },
            Version::Draft01 | Version::Draft02 => Ok(Subscribe {
                id,
                broadcast,
                track,
                priority,
                ordered: false,
                max_latency_ms: 0,
                start_group: None,
                end_group: None,
            }),
        }
    }
}

/// Accepts a subscription.
#[derive(Clone, Copy, Debug, PartialEq, Eq, Structural)]
pub struct SubscribeOk {
    pub priority: u8,
    pub ordered: bool,
    pub max_latency_ms: u64,
    pub start_group: Option<u64>,
    pub end_group: Option<u64>,
}

impl SubscribeOk {
    /// The payload fits on the wire.
    pub open spec fn wf(self) -> bool {
        &&& self.max_latency_ms <= VARINT_MAX
        &&& opt_group_fits(self.start_group)
        &&& opt_group_fits(self.end_group)
    }

    /// The wire form of the payload.
    pub open spec fn spec_encode_msg(self, version: Version) -> Seq<u8> {
        match version {
            Version::Draft03 => spec_u8(self.priority) + spec_u8(
                if self.ordered {
                    1u8
                } else {
                    0u8
                },
            ) + spec_varint(self.max_latency_ms) + spec_opt_group(self.start_group) + spec_opt_group(
                self.end_group,
            ),
            Version::Draft01 => spec_u8(self.priority),
            Version::Draft02 => Seq::empty(),
        }
    }

    /// Append the payload of this message.
    pub fn encode_msg(&self, buf: &mut Vec<u8>, version: Version)
        requires
            self.wf(),
        ensures
            final(buf)@ == old(buf)@ + self.spec_encode_msg(version),
    {
        match version {
            Version::Draft03 => {
                encode_u8(buf, self.priority);
                encode_u8(buf, if self.ordered { 1 } else { 0 });
                encode_varint(buf, self.max_latency_ms);
                encode_opt_group(buf, self.start_group);
                encode_opt_group(buf, self.end_group);
            },
            Version::Draft01 => {
                encode_u8(buf, self.priority);
            },
            Version::Draft02 => {},
        }
        assert(buf@ =~= old(buf)@ + self.spec_encode_msg(version));
    }

    /// Decode a payload at cursor `i`.
    pub open spec fn sp_decode_msg(s: Seq<u8>, i: int, version: Version) -> Result<
        (SubscribeOk, int),
        DecodeError,
    > {
        match version {
            Version::Draft03 => match sp_u8(s, i) {
                Err(e) => Err(e),
                Ok((prio, j)) => match sp_u8(s, j) {
                    Err(e) => Err(e),
                    Ok((ob, j2)) => match sp_varint(s, j2) {
                        Err(e) => Err(e),
                        Ok((lat, j3)) => match sp_opt_group(s, j3) {
                            Err(e) => Err(e),
                            Ok((sg, j4)) => match sp_opt_group(s, j4) {
                                Err(e) => Err(e),
                                Ok((eg, j5)) => Ok((
                                    SubscribeOk {
                                        priority: prio,
                                        ordered: ob != 0,
                                        max_latency_ms: lat,
                                        start_group: sg,
                                        end_group: eg,
                                    },
                                    j5,
                                )),
                            },
                        },
                    },
                },
            },
            Version::Draft01 => match sp_u8(s, i) {
                Err(e) => Err(e),
                Ok((prio, j)) => Ok((
                    SubscribeOk {
                        priority: prio,
                        ordered: false,
                        max_latency_ms: 0,
                        start_group: None,
                        end_group: None,
                    },
                    j,
                )),
            },
            Version::Draft02 => Ok((
                SubscribeOk {
                    priority: 0,
                    ordered: false,
                    max_latency_ms: 0,
                    start_group: None,
                    end_group: None,
                },
                i,
            )),
        }
    }

    /// Read a payload at `*pos`.
    pub fn decode_msg(buf: &[u8], pos: &mut usize, version: Version) -> (r: Result<
        SubscribeOk,
        DecodeError,
    >)
        requires
            *old(pos) <= buf@.len(),
        ensures
            match r {
                Ok(v) => Self::sp_decode_msg(buf@, *old(pos) as int, version) == Ok::<
                    (SubscribeOk, int),
                    DecodeError,
                >((v, *final(pos) as int)) && *old(pos) <= *final(pos) <= buf@.len(),
                Err(e) => Self::sp_decode_msg(buf@, *old(pos) as int, version) == Err::<
                    (SubscribeOk, int),
                    DecodeError,
                >(e) && *final(pos) == *old(pos),
            },
    {
        let start = *pos;
        match version {
            Version::Draft03 => {
                let priority = match decode_u8(buf, pos) {
                    Ok(v) => v,
                    Err(e) => {
                        return Err(e);
                    },
                };
                let ob = match decode_u8(buf, pos) {
                    Ok(v) => v,
                    Err(e) => {
                        *pos = start;
                        return Err(e);
                    },
                };
                let max_latency_ms = match decode_varint(buf, pos) {
                    Ok(v) => v,
                    Err(e) => {
                        *pos = start;
                        return Err(e);
                    },
                };
                let start_group = match decode_opt_group(buf, pos) {
                    Ok(v) => v,
                    Err(e) => {
                        *pos = start;
                        return Err(e);
                    },
                };
                let end_group = match decode_opt_group(buf, pos) {
                    Ok(v) => v,
                    Err(e) => {
                        *pos = start;
                        return Err(e);
                    },
                };
                Ok(SubscribeOk { priority, ordered: ob != 0, max_latency_ms, start_group, end_group })
            },
            Version::Draft01 => {
                let priority = match decode_u8(buf, pos) {
                    Ok(v) => v,
                    Err(e) => {
                        return Err(e);
                    },
                };
                Ok(SubscribeOk {
                    priority,
                    ordered: false,
                    max_latency_ms: 0,
                    start_group: None,
                    end_group: None,
                })
            },
            Version::Draft02 => Ok(SubscribeOk {
                priority: 0,
                ordered: false,
                max_latency_ms: 0,
                start_group: None,
                end_group: None,
            }),
        }
    }
}

/// Updates the options of a live subscription.  Only the newest draft
/// carries it.
#[derive(Clone, Copy, Debug, PartialEq, Eq, Structural)]
pub struct SubscribeUpdate {
    pub priority: u8,
    pub ordered: bool,
    pub max_latency_ms: u64,
    pub start_group: Option<u64>,
    pub end_group: Option<u64>,
}

impl SubscribeUpdate {
    /// The payload fits on the wire.
    pub open spec fn wf(self) -> bool {
        &&& self.max_latency_ms <= VARINT_MAX
        &&& opt_group_fits(self.start_group)
        &&& opt_group_fits(self.end_group)
    }

    /// The wire form of the payload.
    pub open spec fn spec_encode_msg(self, version: Version) -> Seq<u8> {
        spec_u8(self.priority) + spec_u8(
            if self.ordered {
                1u8
            } else {
                0u8
            },
        ) + spec_varint(self.max_latency_ms) + spec_opt_group(self.start_group) + spec_opt_group(
            self.end_group,
        )
    }

    /// Append the payload of this message.
    pub fn encode_msg(&self, buf: &mut Vec<u8>, version: Version)
        requires
            self.wf(),
            version is Draft03,
        ensures
            final(buf)@ == old(buf)@ + self.spec_encode_msg(version),
    {
        encode_u8(buf, self.priority);
        encode_u8(buf, if self.ordered { 1 } else { 0 });
        encode_varint(buf, self.max_latency_ms);
        encode_opt_group(buf, self.start_group);
        encode_opt_group(buf, self.end_group);
        assert(buf@ =~= old(buf)@ + self.spec_encode_msg(version));
    }

    /// Decode a payload at cursor `i`.
    pub open spec fn sp_decode_msg(s: Seq<u8>, i: int, version: Version) -> Result<
        (SubscribeUpdate, int),
        DecodeError,
    > {
        match sp_u8(s, i) {
            Err(e) => Err(e),
            Ok((prio, j)) => match sp_u8(s, j) {
                Err(e) => Err(e),
                Ok((ob, j2)) => match sp_varint(s, j2) {
                    Err(e) => Err(e),
                    Ok((lat, j3)) => match sp_opt_group(s, j3) {
                        Err(e) => Err(e),
                        Ok((sg, j4)) => match sp_opt_group(s, j4) {
                            Err(e) => Err(e),
                            Ok((eg, j5)) => Ok((
                                SubscribeUpdate {
                                    priority: prio,
                                    ordered: ob != 0,
                                    max_latency_ms: lat,
                                    start_group: sg,
                                    end_group: eg,
                                },
                                j5,
                            )),
                        },
                    },
                },
            },
        }
    }

    /// Read a payload at `*pos`.
    pub fn decode_msg(buf: &[u8], pos: &mut usize, version: Version) -> (r: Result<
        SubscribeUpdate,
        DecodeError,
    >)
        requires
            *old(pos) <= buf@.len(),
            version is Draft03,
        ensures
            match r {
                Ok(v) => Self::sp_decode_msg(buf@, *old(pos) as int, version) == Ok::<
                    (SubscribeUpdate, int),
                    DecodeError,
                >((v, *final(pos) as int)) && *old(pos) <= *final(pos) <= buf@.len(),
                Err(e) => Self::sp_decode_msg(buf@, *old(pos) as int, version) == Err::<
                    (SubscribeUpdate, int),
                    DecodeError,
                >(e) && *final(pos) == *old(pos),
            },
    {
        let start = *pos;
        let priority = match decode_u8(buf, pos) {
            Ok(v) => v,
            Err(e) => {
                return Err(e);
            },
        };
        let ob = match decode_u8(buf, pos) {
            Ok(v) => v,
            Err(e) => {
                *pos = start;
                return Err(e);
            },
        };
        let max_latency_ms = match decode_varint(buf, pos) {
            Ok(v) => v,
            Err(e) => {
                *pos = start;
                return Err(e);
            },
        };
        let start_group = match decode_opt_group(buf, pos) {
            Ok(v) => v,
            Err(e) => {
                *pos = start;
                return Err(e);
            },
        };
        let end_group = match decode_opt_group(buf, pos) {
            Ok(v) => v,
            Err(e) => {
                *pos = start;
                return Err(e);
            },
        };
        Ok(SubscribeUpdate { priority, ordered: ob != 0, max_latency_ms, start_group, end_group })
    }
}

/// Reports that a run of groups was dropped.  Only the newest draft
/// carries it.
#[derive(Clone, Copy, Debug, PartialEq, Eq, Structural)]
pub struct SubscribeDrop {
    pub sequence: u64,
    pub count: u64,
    pub error: u64,
}

impl SubscribeDrop {
    /// The payload fits on the wire.
    pub open spec fn wf(self) -> bool {
        self.sequence <= VARINT_MAX && self.count <= VARINT_MAX && self.error <= VARINT_MAX
    }

    /// The wire form of the payload.
    pub open spec fn spec_encode_msg(self, version: Version) -> Seq<u8> {
        spec_varint(self.sequence) + spec_varint(self.count) + spec_varint(self.error)
    }

    /// Append the payload of this message.
    pub fn encode_msg(&self, buf: &mut Vec<u8>, version: Version)
        requires
            self.wf(),
            version is Draft03,
        ensures
            final(buf)@ == old(buf)@ + self.spec_encode_msg(version),
    {
        encode_varint(buf, self.sequence);
        encode_varint(buf, self.count);
        encode_varint(buf, self.error);
        assert(buf@ =~= old(buf)@ + self.spec_encode_msg(version));
    }

    /// Decode a payload at cursor `i`.
    pub open spec fn sp_decode_msg(s: Seq<u8>, i: int, version: Version) -> Result<
        (SubscribeDrop, int),
        DecodeError,
    > {
        match sp_varint(s, i) {
            Err(e) => Err(e),
            Ok((sequence, j)) => match sp_varint(s, j) {
                Err(e) => Err(e),
                Ok((count, j2)) => match sp_varint(s, j2) {
                    Err(e) => Err(e),
                    Ok((error, j3)) => Ok((SubscribeDrop { sequence, count, error }, j3)),
                },
            },
        }
    }

    /// Read a payload at `*pos`.
    pub fn decode_msg(buf: &[u8], pos: &mut usize, version: Version) -> (r: Result<
        SubscribeDrop,
        DecodeError,
    >)
        requires
            *old(pos) <= buf@.len(),
            version is Draft03,
        ensures
            match r {
                Ok(v) => Self::sp_decode_msg(buf@, *old(pos) as int, version) == Ok::<
                    (SubscribeDrop, int),
                    DecodeError,
                >((v, *final(pos) as int)) && *old(pos) <= *final(pos) <= buf@.len(),
                Err(e) => Self::sp_decode_msg(buf@, *old(pos) as int, version) == Err::<
                    (SubscribeDrop, int),
                    DecodeError,
                >(e) && *final(pos) == *old(pos),
            },
    {
        let start = *pos;
        let sequence = match decode_varint(buf, pos) {
            Ok(v) => v,
            Err(e) => {
                return Err(e);
            },
        };
        let count = match decode_varint(buf, pos) {
            Ok(v) => v,
            Err(e) => {
                *pos = start;
                return Err(e);
            },
        };
        let error = match decode_varint(buf, pos) {
            Ok(v) => v,
            Err(e) => {
                *pos = start;
                return Err(e);
            },
        };
        Ok(SubscribeDrop { sequence, count, error })
    }
}

/// A message on the subscribe response stream: acceptance first, then any
/// number of drop reports.  On the newest draft each response carries a
/// type tag; every response body is framed by a varint length.
#[derive(Clone, Copy, Debug, PartialEq, Eq, Structural)]
pub enum SubscribeResponse {
    Accepted(SubscribeOk),
    Dropped(SubscribeDrop),
}

impl SubscribeResponse {
    /// The payload fits on the wire, and drops exist only on the newest
    /// draft.
    pub open spec fn wf(self, version: Version) -> bool {
        match self {
            SubscribeResponse::Accepted(ok) => ok.wf(),
            SubscribeResponse::Dropped(d) => d.wf() && version is Draft03,
        }
    }

    /// The wire form: an optional tag, then the length-framed body.
    pub open spec fn spec_encode(self, version: Version) -> Seq<u8> {
        match self {
            SubscribeResponse::Accepted(ok) => (if version is Draft03 {
                spec_varint(0)
            } else {
                Seq::empty()
            }) + spec_varint(ok.spec_encode_msg(version).len() as u64) + ok.spec_encode_msg(version),
            SubscribeResponse::Dropped(d) => spec_varint(1) + spec_varint(
                d.spec_encode_msg(version).len() as u64,
            ) + d.spec_encode_msg(version),
        }
    }

    /// Append the wire form of this response.
    pub fn encode(&self, buf: &mut Vec<u8>, version: Version)
        requires
            self.wf(version),
        ensures
            final(buf)@ == old(buf)@ + self.spec_encode(version),
    {
        match self {
            SubscribeResponse::Accepted(ok) => {
                if matches!(version, Version::Draft03) {
                    encode_varint(buf, 0);
                }
                let mut body: Vec<u8> = Vec::new();
                ok.encode_msg(&mut body, version);
                proof {
                    assert(body@ =~= ok.spec_encode_msg(version));
                    assert(body@.len() <= 30);
                }
                encode_varint(buf, body.len() as u64);
                let mut k: usize = 0;
                let ghost mid = buf@;
                while k < body.len()
                    invariant
                        k <= body@.len(),
                        buf@ == mid + body@.subrange(0, k as int),
                    decreases body@.len() - k,
                {
                    buf.push(body[k]);
                    k = k + 1;
                    assert(buf@ =~= mid + body@.subrange(0, k as int));
                }
                proof {
                    assert(body@.subrange(0, body@.len() as int) =~= body@);
                    assert(buf@ =~= old(buf)@ + self.spec_encode(version));
                }
            },
            SubscribeResponse::Dropped(d) => {
                encode_varint(buf, 1);
                let mut body: Vec<u8> = Vec::new();
                d.encode_msg(&mut body, version);
                proof {
                    assert(body@ =~= d.spec_encode_msg(version));
                    assert(body@.len() <= 24);
                }
                encode_varint(buf, body.len() as u64);
                let mut k: usize = 0;
                let ghost mid = buf@;
                while k < body.len()
                    invariant
                        k <= body@.len(),
                        buf@ == mid + body@.subrange(0, k as int),
                    decreases body@.len() - k,
                {
                    buf.push(body[k]);
                    k = k + 1;
                    assert(buf@ =~= mid + body@.subrange(0, k as int));
                }
                proof {
                    assert(body@.subrange(0, body@.len() as int) =~= body@);
                    assert(buf@ =~= old(buf)@ + self.spec_encode(version));
                }
            },
        }
    }
}

} // verus!
