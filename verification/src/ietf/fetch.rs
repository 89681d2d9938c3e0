//! Fetch messages: requesting a past range of a track.

use vstd::prelude::*;

use crate::coding::{
    decode_string, decode_u8, decode_varint, encode_string, encode_u8, encode_varint, sp_string, sp_u8,
    sp_varint, spec_string, spec_u8, spec_varint, VARINT_MAX,
};
use crate::error::DecodeError;
use crate::ietf::parameters::{
    sp_table, spec_store, MessageParameters, Parameters, PARAM_GROUP_ORDER, PARAM_SUBSCRIBER_PRIORITY,
};
use crate::ietf::request::RequestId;
use crate::ietf::subscribe::{spec_order_from_params, spec_priority_from_params};
use crate::ietf::{
    decode_namespace, encode_namespace, path_bytes, path_fits, sp_namespace, spec_namespace, GroupOrder,
    Location, Version,
};
use crate::path::Path;

verus! {

/// What a fetch asks for: an absolute range, or a range relative to an
/// existing subscription.
#[derive(Clone, Debug)]
pub enum FetchType {
    Standalone { namespace: Path, track: String, start: Location, end: Location },
    RelativeJoining { subscriber_request_id: RequestId, group_offset: u64 },
    AbsoluteJoining { subscriber_request_id: RequestId, group_id: u64 },
}

/// The mathematical shape of a decoded fetch type.
pub open spec fn fetch_type_model(t: FetchType) -> (u64, Seq<Seq<u8>>, Seq<u8>, Location, Location, RequestId, u64) {
    match t {
        FetchType::Standalone { namespace, track, start, end } => (
            1u64,
            path_bytes(namespace@),
            vstd::utf8::encode_utf8(track@),
            start,
            end,
            RequestId(0),
            0u64,
        ),
        FetchType::RelativeJoining { subscriber_request_id, group_offset } => (
            2u64,
            Seq::empty(),
            Seq::empty(),
            Location { group: 0, object: 0 },
            Location { group: 0, object: 0 },
            subscriber_request_id,
            group_offset,
        ),
        FetchType::AbsoluteJoining { subscriber_request_id, group_id } => (
            3u64,
            Seq::empty(),
            Seq::empty(),
            Location { group: 0, object: 0 },
            Location { group: 0, object: 0 },
            subscriber_request_id,
            group_id,
        ),
    }
}

impl FetchType {
    /// The payload fits on the wire.
    pub open spec fn wf(self) -> bool {
        match self {
            FetchType::Standalone { namespace, track, start, end } => {
                &&& path_fits(namespace@)
                &&& vstd::utf8::encode_utf8(track@).len() <= VARINT_MAX
                &&& start.wf()
                &&& end.wf()
            },
            FetchType::RelativeJoining { subscriber_request_id, group_offset } => {
                subscriber_request_id.wf() && group_offset <= VARINT_MAX
            },
            FetchType::AbsoluteJoining { subscriber_request_id, group_id } => {
                subscriber_request_id.wf() && group_id <= VARINT_MAX
            },
        }
    }

    /// The wire form: a tag, then the variant's fields.
    pub open spec fn spec_encode(self) -> Seq<u8> {
        match self {
            FetchType::Standalone { namespace, track, start, end } => spec_u8(1) + spec_namespace(namespace@)
                + spec_string(track@) + start.spec_encode() + end.spec_encode(),
            FetchType::RelativeJoining { subscriber_request_id, group_offset } => spec_u8(2)
                + subscriber_request_id.spec_encode() + spec_varint(group_offset),
            FetchType::AbsoluteJoining { subscriber_request_id, group_id } => spec_u8(3)
                + subscriber_request_id.spec_encode() + spec_varint(group_id),
        }
    }

    /// Append the wire form of this fetch type.
    pub fn encode(&self, buf: &mut Vec<u8>)
        requires
            self.wf(),
        ensures
            final(buf)@ == old(buf)@ + self.spec_encode(),
    {
        match self {
            FetchType::Standalone { namespace, track, start, end } => {
                encode_u8(buf, 1);
                encode_namespace(buf, namespace);
                encode_string(buf, track.as_str());
                start.encode(buf);
                end.encode(buf);
            },
            FetchType::RelativeJoining { subscriber_request_id, group_offset } => {
                encode_u8(buf, 2);
                subscriber_request_id.encode(buf);
                encode_varint(buf, *group_offset);
            },
            FetchType::AbsoluteJoining { subscriber_request_id, group_id } => {
                encode_u8(buf, 3);
                subscriber_request_id.encode(buf);
                encode_varint(buf, *group_id);
            },
        }
        assert(buf@ =~= old(buf)@ + self.spec_encode());
    }

    /// Decode a fetch type at cursor `i`.
    pub open spec fn sp_decode(s: Seq<u8>, i: int) -> Result<
        ((u64, Seq<Seq<u8>>, Seq<u8>, Location, Location, RequestId, u64), int),
        DecodeError,
    > {
        match sp_varint(s, i) {
            Err(e) => Err(e),
            Ok((tag, j)) => {
                if tag == 1 {
                    match sp_namespace(s, j) {
                        Err(e) => Err(e),
                        Ok((ns, j2)) => match sp_string(s, j2) {
                            Err(e) => Err(e),
                            Ok((track, j3)) => match Location::sp_decode(s, j3) {
                                Err(e) => Err(e),
                                Ok((start, j4)) => match Location::sp_decode(s, j4) {
                                    Err(e) => Err(e),
                                    Ok((end, j5)) => Ok((
                                        (1u64, ns, track, start, end, RequestId(0), 0u64),
                                        j5,
                                    )),
                                },
                            },
                        },
                    }
                } else if tag == 2 {
                    match RequestId::sp_decode(s, j) {
                        Err(e) => Err(e),
                        Ok((rid, j2)) => match sp_varint(s, j2) {
                            Err(e) => Err(e),
                            Ok((off, j3)) => Ok((
                                (
                                    2u64,
                                    Seq::empty(),
                                    Seq::empty(),
                                    Location { group: 0, object: 0 },
                                    Location { group: 0, object: 0 },
                                    rid,
                                    off,
                                ),
                                j3,
                            )),
                        },
                    }
                } else if tag == 3 {
                    match RequestId::sp_decode(s, j) {
                        Err(e) => Err(e),
                        Ok((rid, j2)) => match sp_varint(s, j2) {
                            Err(e) => Err(e),
                            Ok((gid, j3)) => Ok((
                                (
                                    3u64,
                                    Seq::empty(),
                                    Seq::empty(),
                                    Location { group: 0, object: 0 },
                                    Location { group: 0, object: 0 },
                                    rid,
                                    gid,
                                ),
                                j3,
                            )),
                        },
                    }
                } else {
                    Err(DecodeError::InvalidValue)
                }
            },
        }
    }

    /// Read a fetch type at `*pos`.
    pub fn decode(buf: &[u8], pos: &mut usize) -> (r: Result<FetchType, DecodeError>)
        requires
            *old(pos) <= buf@.len(),
        ensures
            match r {
                Ok(v) => Self::sp_decode(buf@, *old(pos) as int) == Ok::<
                    ((u64, Seq<Seq<u8>>, Seq<u8>, Location, Location, RequestId, u64), int),
                    DecodeError,
                >((fetch_type_model(v), *final(pos) as int)) && *old(pos) <= *final(pos) <= buf@.len(),
                Err(e) => Self::sp_decode(buf@, *old(pos) as int) == Err::<
                    ((u64, Seq<Seq<u8>>, Seq<u8>, Location, Location, RequestId, u64), int),
                    DecodeError,
                >(e) && *final(pos) == *old(pos),
            },
    {
        let start_pos = *pos;
        let tag = match decode_varint(buf, pos) {
            Ok(v) => v,
            Err(e) => {
                return Err(e);
            },
        };
        if tag == 1 {
            let namespace = match decode_namespace(buf, pos) {
                Ok(v) => v,
                Err(e) => {
                    *pos = start_pos;
                    return Err(e);
                },
            };
            let track = match decode_string(buf, pos) {
                Ok(v) => v,
                Err(e) => {
                    *pos = start_pos;
                    return Err(e);
                },
            };
            let start = match Location::decode(buf, pos) {
                Ok(v) => v,
                Err(e) => {
                    *pos = start_pos;
                    return Err(e);
                },
            };
            let end = match Location::decode(buf, pos) {
                Ok(v) => v,
                Err(e) => {
                    *pos = start_pos;
                    return Err(e);
                },
            };
            Ok(FetchType::Standalone { namespace, track, start, end })
        } else if tag == 2 {
            let subscriber_request_id = match RequestId::decode(buf, pos) {
                Ok(v) => v,
                Err(e) => {
                    *pos = start_pos;
                    return Err(e);
                },
            };
            let group_offset = match decode_varint(buf, pos) {
                Ok(v) => v,
                Err(e) => {
                    *pos = start_pos;
                    return Err(e);
                },
            };
            Ok(FetchType::RelativeJoining { subscriber_request_id, group_offset })
        } else if tag == 3 {
            let subscriber_request_id = match RequestId::decode(buf, pos) {
                Ok(v) => v,
                Err(e) => {
                    *pos = start_pos;
                    return Err(e);
                },
            };
            let group_id = match decode_varint(buf, pos) {
                Ok(v) => v,
                Err(e) => {
                    *pos = start_pos;
                    return Err(e);
                },
            };
            Ok(FetchType::AbsoluteJoining { subscriber_request_id, group_id })
        } else {
            *pos = start_pos;
            Err(DecodeError::InvalidValue)
        }
    }
}

/// Asks for a past range of a track.
#[derive(Clone, Debug)]
pub struct Fetch {
    pub request_id: RequestId,
    pub subscriber_priority: u8,
    pub group_order: GroupOrder,
    pub fetch_type: FetchType,
}

impl Fetch {
    /// The control message kind of this message.
    pub const ID: u64 = 0x16;

    /// The payload fits on the wire.
    pub open spec fn wf(self) -> bool {
        self.request_id.wf() && self.fetch_type.wf()
    }

    /// The parameter table the newest drafts carry.
    pub open spec fn spec_params_vars(self) -> Seq<(u64, u64)> {
        spec_store(
            spec_store(Seq::empty(), PARAM_SUBSCRIBER_PRIORITY, self.subscriber_priority as u64),
            PARAM_GROUP_ORDER,
            self.group_order.spec_value() as u64,
        )
    }

    /// The wire form of the payload.
    pub open spec fn spec_encode_msg(self, version: Version) -> Seq<u8> {
        self.request_id.spec_encode() + (match version {
            Version::Draft14 => spec_u8(self.subscriber_priority) + spec_u8(self.group_order.spec_value())
                + self.fetch_type.spec_encode() + spec_varint(0),
            Version::Draft15 | Version::Draft16 => self.fetch_type.spec_encode()
                + crate::ietf::parameters::spec_table_encode(self.spec_params_vars(), Seq::empty()),
        })
    }

    /// Append the payload of this message.
    pub fn encode_msg(&self, buf: &mut Vec<u8>, version: Version)
        requires
            self.wf(),
        ensures
            final(buf)@ == old(buf)@ + self.spec_encode_msg(version),
    {
        self.request_id.encode(buf);
        match version {
            Version::Draft14 => {
                encode_u8(buf, self.subscriber_priority);
                encode_u8(buf, self.group_order.value());
                self.fetch_type.encode(buf);
                encode_varint(buf, 0);
            },
            Version::Draft15 | Version::Draft16 => {
                self.fetch_type.encode(buf);
                let mut params = MessageParameters::new();
                params.set_subscriber_priority(self.subscriber_priority);
                params.set_group_order(self.group_order.value() as u64);
                proof {
                    assert(params.vars_v() == self.spec_params_vars());
                    assert(params.bytes_v() =~= Seq::<(u64, Seq<u8>)>::empty());
                    crate::ietf::parameters::lemma_store_missing(
                        Seq::<(u64, u64)>::empty(),
                        PARAM_SUBSCRIBER_PRIORITY,
                        self.subscriber_priority as u64,
                    );
                    let v1 = spec_store(
                        Seq::<(u64, u64)>::empty(),
                        PARAM_SUBSCRIBER_PRIORITY,
                        self.subscriber_priority as u64,
                    );
                    assert(v1 =~= seq![(PARAM_SUBSCRIBER_PRIORITY, self.subscriber_priority as u64)]);
                    crate::ietf::parameters::lemma_store_missing(
                        v1,
                        PARAM_GROUP_ORDER,
                        self.group_order.spec_value() as u64,
                    );
                    assert(params.vars_v() =~= seq![
                        (PARAM_SUBSCRIBER_PRIORITY, self.subscriber_priority as u64),
                        (PARAM_GROUP_ORDER, self.group_order.spec_value() as u64),
                    ]);
                    assert(params.wf());
                }
                params.encode(buf);
            },
        }
        assert(buf@ =~= old(buf)@ + self.spec_encode_msg(version));
    }

    /// Decode a payload at cursor `i`.
    pub open spec fn sp_decode_msg(s: Seq<u8>, i: int, version: Version) -> Result<
        (
            (RequestId, u8, GroupOrder, (u64, Seq<Seq<u8>>, Seq<u8>, Location, Location, RequestId, u64)),
            int,
        ),
        DecodeError,
    > {
        match RequestId::sp_decode(s, i) {
            Err(e) => Err(e),
            Ok((rid, j)) => match version {
                Version::Draft14 => match sp_u8(s, j) {
                    Err(e) => Err(e),
                    Ok((prio, j2)) => match sp_u8(s, j2) {
                        Err(e) => Err(e),
                        Ok((ov, j3)) => match GroupOrder::spec_from_value(ov) {
                            None => Err(DecodeError::InvalidValue),
                            Some(order) => match FetchType::sp_decode(s, j3) {
                                Err(e) => Err(e),
                                Ok((ft, j4)) => match sp_table(s, j4) {
                                    Err(e) => Err(e),
                                    Ok((_, j5)) => Ok(((rid, prio, order, ft), j5)),
                                },
                            },
                        },
                    },
                },
                Version::Draft15 | Version::Draft16 => match FetchType::sp_decode(s, j) {
                    Err(e) => Err(e),
                    Ok((ft, j2)) => match sp_table(s, j2) {
                        Err(e) => Err(e),
                        Ok(((vars, _), j3)) => Ok((
                            (rid, spec_priority_from_params(vars), spec_order_from_params(vars), ft),
                            j3,
                        )),
                    },
                },
            },
        }
    }

    /// Read a payload at `*pos`.
    pub fn decode_msg(buf: &[u8], pos: &mut usize, version: Version) -> (r: Result<Fetch, DecodeError>)
        requires
            *old(pos) <= buf@.len(),
        ensures
            match r {
                Ok(v) => Self::sp_decode_msg(buf@, *old(pos) as int, version) == Ok::<
                    (
                        (
                            RequestId,
                            u8,
                            GroupOrder,
                            (u64, Seq<Seq<u8>>, Seq<u8>, Location, Location, RequestId, u64),
                        ),
                        int,
                    ),
                    DecodeError,
                >((
                    (v.request_id, v.subscriber_priority, v.group_order, fetch_type_model(v.fetch_type)),
                    *final(pos) as int,
                )) && *old(pos) <= *final(pos) <= buf@.len(),
                Err(e) => Self::sp_decode_msg(buf@, *old(pos) as int, version) == Err::<
                    (
                        (
                            RequestId,
                            u8,
                            GroupOrder,
                            (u64, Seq<Seq<u8>>, Seq<u8>, Location, Location, RequestId, u64),
                        ),
                        int,
                    ),
                    DecodeError,
                >(e) && *final(pos) == *old(pos),
            },
    {
        let start = *pos;
        let request_id = match RequestId::decode(buf, pos) {
            Ok(v) => v,
            Err(e) => {
                return Err(e);
            },
        };
        match version {
            Version::Draft14 => {
                let subscriber_priority = match decode_u8(buf, pos) {
                    Ok(v) => v,
                    Err(e) => {
                        *pos = start;
                        return Err(e);
                    },
                };
                let ov = match decode_u8(buf, pos) {
                    Ok(v) => v,
                    Err(e) => {
                        *pos = start;
                        return Err(e);
                    },
                };
                let group_order = match GroupOrder::from_value(ov) {
                    Some(o) => o,
                    None => {
                        *pos = start;
                        return Err(DecodeError::InvalidValue);
                    },
                };
                let fetch_type = match FetchType::decode(buf, pos) {
                    Ok(v) => v,
                    Err(e) => {
                        *pos = start;
                        return Err(e);
                    },
                };
                match Parameters::decode(buf, pos) {
                    Ok(_) => {},
                    Err(e) => {
                        *pos = start;
                        return Err(e);
                    },
                }
                Ok(Fetch { request_id, subscriber_priority, group_order, fetch_type })
            },
            Version::Draft15 | Version::Draft16 => {
                let fetch_type = match FetchType::decode(buf, pos) {
                    Ok(v) => v,
                    Err(e) => {
                        *pos = start;
                        return Err(e);
                    },
                };
                let params = match MessageParameters::decode(buf, pos) {
                    Ok(v) => v,
                    Err(e) => {
                        *pos = start;
                        return Err(e);
                    },
                };
                let subscriber_priority = match params.subscriber_priority() {
                    Some(p) => p,
                    None => 128,
                };
                let group_order = match params.group_order() {
                    None => GroupOrder::Descending,
                    Some(v) => {
                        if v <= 255 {
                            match GroupOrder::from_value(v as u8) {
                                Some(o) => o.any_to_descending(),
                                None => GroupOrder::Descending,
                            }
                        } else {
                            GroupOrder::Descending
                        }
                    },
                };
                Ok(Fetch { request_id, subscriber_priority, group_order, fetch_type })
            },
        }
    }
}

/// Accepts a fetch.
#[derive(Clone, Copy, Debug, PartialEq, Eq, Structural)]
pub struct FetchOk {
    pub request_id: RequestId,
    pub group_order: GroupOrder,
    pub end_of_track: bool,
    pub end_location: Location,
}

impl FetchOk {
    /// The control message kind of this message.
    pub const ID: u64 = 0x18;

    /// The payload fits on the wire.
    pub open spec fn wf(self) -> bool {
        self.request_id.wf() && self.end_location.wf()
    }

    /// The parameter table the newest drafts carry.
    pub open spec fn spec_params_vars(self) -> Seq<(u64, u64)> {
        spec_store(Seq::empty(), PARAM_GROUP_ORDER, self.group_order.spec_value() as u64)
    }

    /// The wire form of the payload.
    pub open spec fn spec_encode_msg(self, version: Version) -> Seq<u8> {
        self.request_id.spec_encode() + (match version {
            Version::Draft14 => spec_u8(self.group_order.spec_value()) + crate::coding::spec_bool(
                self.end_of_track,
            ) + self.end_location.spec_encode() + spec_varint(0),
            Version::Draft15 | Version::Draft16 => crate::coding::spec_bool(self.end_of_track)
                + self.end_location.spec_encode() + crate::ietf::parameters::spec_table_encode(
                self.spec_params_vars(),
                Seq::empty(),
            ),
        })
    }

    /// Append the payload of this message.
    pub fn encode_msg(&self, buf: &mut Vec<u8>, version: Version)
        requires
            self.wf(),
        ensures
            final(buf)@ == old(buf)@ + self.spec_encode_msg(version),
    {
        self.request_id.encode(buf);
        match version {
            Version::Draft14 => {
                encode_u8(buf, self.group_order.value());
                crate::coding::encode_bool(buf, self.end_of_track);
                self.end_location.encode(buf);
                encode_varint(buf, 0);
            },
            Version::Draft15 | Version::Draft16 => {
                crate::coding::encode_bool(buf, self.end_of_track);
                self.end_location.encode(buf);
                let mut params = MessageParameters::new();
                params.set_group_order(self.group_order.value() as u64);
                proof {
                    assert(params.vars_v() == self.spec_params_vars());
                    assert(params.bytes_v() =~= Seq::<(u64, Seq<u8>)>::empty());
                    crate::ietf::parameters::lemma_store_missing(
                        Seq::<(u64, u64)>::empty(),
                        PARAM_GROUP_ORDER,
                        self.group_order.spec_value() as u64,
                    );
                    assert(params.vars_v() =~= seq![
                        (PARAM_GROUP_ORDER, self.group_order.spec_value() as u64),
                    ]);
                    assert(params.wf());
                }
                params.encode(buf);
            },
        }
        assert(buf@ =~= old(buf)@ + self.spec_encode_msg(version));
    }

    /// Decode a payload at cursor `i`.
    pub open spec fn sp_decode_msg(s: Seq<u8>, i: int, version: Version) -> Result<
        (FetchOk, int),
        DecodeError,
    > {
        match RequestId::sp_decode(s, i) {
            Err(e) => Err(e),
            Ok((rid, j)) => match version {
                Version::Draft14 => match sp_u8(s, j) {
                    Err(e) => Err(e),
                    Ok((ov, j2)) => match GroupOrder::spec_from_value(ov) {
                        None => Err(DecodeError::InvalidValue),
                        Some(order) => match crate::coding::sp_bool(s, j2) {
                            Err(e) => Err(e),
                            Ok((eot, j3)) => match Location::sp_decode(s, j3) {
                                Err(e) => Err(e),
                                Ok((loc, j4)) => match sp_table(s, j4) {
                                    Err(e) => Err(e),
                                    Ok((_, j5)) => Ok((
                                        FetchOk {
                                            request_id: rid,
                                            group_order: order,
                                            end_of_track: eot,
                                            end_location: loc,
                                        },
                                        j5,
                                    )),
                                },
                            },
                        },
                    },
                },
                Version::Draft15 | Version::Draft16 => match crate::coding::sp_bool(s, j) {
                    Err(e) => Err(e),
                    Ok((eot, j2)) => match Location::sp_decode(s, j2) {
                        Err(e) => Err(e),
                        Ok((loc, j3)) => match sp_table(s, j3) {
                            Err(e) => Err(e),
                            Ok(((vars, _), j4)) => Ok((
                                FetchOk {
                                    request_id: rid,
                                    group_order: spec_order_from_params(vars),
                                    end_of_track: eot,
                                    end_location: loc,
                                },
                                j4,
                            )),
                        },
                    },
                },
            },
        }
    }

    /// Read a payload at `*pos`.
    pub fn decode_msg(buf: &[u8], pos: &mut usize, version: Version) -> (r: Result<FetchOk, DecodeError>)
        requires
            *old(pos) <= buf@.len(),
        ensures
            match r {
                Ok(v) => Self::sp_decode_msg(buf@, *old(pos) as int, version) == Ok::<
                    (FetchOk, int),
                    DecodeError,
                >((v, *final(pos) as int)) && *old(pos) <= *final(pos) <= buf@.len(),
                Err(e) => Self::sp_decode_msg(buf@, *old(pos) as int, version) == Err::<
                    (FetchOk, int),
                    DecodeError,
                >(e) && *final(pos) == *old(pos),
            },
    {
        let start = *pos;
        let request_id = match RequestId::decode(buf, pos) {
            Ok(v) => v,
            Err(e) => {
                return Err(e);
            },
        };
        match version {
            Version::Draft14 => {
                let ov = match decode_u8(buf, pos) {
                    Ok(v) => v,
                    Err(e) => {
                        *pos = start;
                        return Err(e);
                    },
                };
                let group_order = match GroupOrder::from_value(ov) {
                    Some(o) => o,
                    None => {
                        *pos = start;
                        return Err(DecodeError::InvalidValue);
                    },
                };
                let end_of_track = match crate::coding::decode_bool(buf, pos) {
                    Ok(v) => v,
                    Err(e) => {
                        *pos = start;
                        return Err(e);
                    },
                };
                let end_location = match Location::decode(buf, pos) {
                    Ok(v) => v,
                    Err(e) => {
                        *pos = start;
                        return Err(e);
                    },
                };
                match Parameters::decode(buf, pos) {
                    Ok(_) => {},
                    Err(e) => {
                        *pos = start;
                        return Err(e);
                    },
                }
                Ok(FetchOk { request_id, group_order, end_of_track, end_location })
            },
            Version::Draft15 | Version::Draft16 => {
                let end_of_track = match crate::coding::decode_bool(buf, pos) {
                    Ok(v) => v,
                    Err(e) => {
                        *pos = start;
                        return Err(e);
                    },
                };
                let end_location = match Location::decode(buf, pos) {
                    Ok(v) => v,
                    Err(e) => {
                        *pos = start;
                        return Err(e);
                    },
                };
                let params = match MessageParameters::decode(buf, pos) {
                    Ok(v) => v,
                    Err(e) => {
                        *pos = start;
                        return Err(e);
                    },
                };
                let group_order = match params.group_order() {
                    None => GroupOrder::Descending,
                    Some(v) => {
                        if v <= 255 {
                            match GroupOrder::from_value(v as u8) {
                                Some(o) => o.any_to_descending(),
                                None => GroupOrder::Descending,
                            }
                        } else {
                            GroupOrder::Descending
                        }
                    },
                };
                Ok(FetchOk { request_id, group_order, end_of_track, end_location })
            },
        }
    }
}

/// Rejects a fetch.
#[derive(Clone, Debug)]
pub struct FetchError {
    pub request_id: RequestId,
    pub error_code: u64,
    pub reason_phrase: String,
}

impl FetchError {
    /// The control message kind of this message.
    pub const ID: u64 = 0x19;

    /// The payload fits on the wire.
    pub open spec fn wf(self) -> bool {
        &&& self.request_id.wf()
        &&& self.error_code <= VARINT_MAX
        &&& vstd::utf8::encode_utf8(self.reason_phrase@).len() <= VARINT_MAX
    }

    /// The wire form of the payload.
    pub open spec fn spec_encode_msg(self, version: Version) -> Seq<u8> {
        self.request_id.spec_encode() + spec_varint(self.error_code) + spec_string(self.reason_phrase@)
    }

    /// Append the payload of this message.
    pub fn encode_msg(&self, buf: &mut Vec<u8>, version: Version)
        requires
            self.wf(),
        ensures
            final(buf)@ == old(buf)@ + self.spec_encode_msg(version),
    {
        self.request_id.encode(buf);
        encode_varint(buf, self.error_code);
        encode_string(buf, self.reason_phrase.as_str());
        assert(buf@ =~= old(buf)@ + self.spec_encode_msg(version));
    }

    /// Decode a payload at cursor `i`.
    pub open spec fn sp_decode_msg(s: Seq<u8>, i: int, version: Version) -> Result<
        ((RequestId, u64, Seq<u8>), int),
        DecodeError,
    > {
        match RequestId::sp_decode(s, i) {
            Err(e) => Err(e),
            Ok((request_id, j)) => match sp_varint(s, j) {
                Err(e) => Err(e),
                Ok((code, j2)) => match sp_string(s, j2) {
                    Err(e) => Err(e),
                    Ok((reason, j3)) => Ok(((request_id, code, reason), j3)),
                },
            },
        }
    }

    /// Read a payload at `*pos`.
    pub fn decode_msg(buf: &[u8], pos: &mut usize, version: Version) -> (r: Result<
        FetchError,
        DecodeError,
    >)
        requires
            *old(pos) <= buf@.len(),
        ensures
            match r {
                Ok(v) => Self::sp_decode_msg(buf@, *old(pos) as int, version) == Ok::<
                    ((RequestId, u64, Seq<u8>), int),
                    DecodeError,
                >((
                    (v.request_id, v.error_code, vstd::utf8::encode_utf8(v.reason_phrase@)),
                    *final(pos) as int,
                )) && *old(pos) <= *final(pos) <= buf@.len(),
                Err(e) => Self::sp_decode_msg(buf@, *old(pos) as int, version) == Err::<
                    ((RequestId, u64, Seq<u8>), int),
                    DecodeError,
                >(e) && *final(pos) == *old(pos),
            },
    {
        let start = *pos;
        let request_id = match RequestId::decode(buf, pos) {
            Ok(v) => v,
            Err(e) => {
                return Err(e);
            },
        };
        let error_code = match decode_varint(buf, pos) {
            Ok(v) => v,
            Err(e) => {
                *pos = start;
                return Err(e);
            },
        };
        let reason_phrase = match decode_string(buf, pos) {
            Ok(v) => v,
            Err(e) => {
                *pos = start;
                return Err(e);
            },
        };
        Ok(FetchError { request_id, error_code, reason_phrase })
    }
}

/// Cancels a fetch in flight.
#[derive(Clone, Copy, Debug, PartialEq, Eq, Structural)]
pub struct FetchCancel {
    pub request_id: RequestId,
}

impl FetchCancel {
    /// The control message kind of this message.
    pub const ID: u64 = 0x17;

    /// The payload fits on the wire.
    pub open spec fn wf(self) -> bool {
        self.request_id.wf()
    }

    /// The wire form of the payload.
    pub open spec fn spec_encode_msg(self, version: Version) -> Seq<u8> {
        self.request_id.spec_encode()
    }

    /// Append the payload of this message.
    pub fn encode_msg(&self, buf: &mut Vec<u8>, version: Version)
        requires
            self.wf(),
        ensures
            final(buf)@ == old(buf)@ + self.spec_encode_msg(version),
    {
        self.request_id.encode(buf);
    }

    /// Decode a payload at cursor `i`.
    pub open spec fn sp_decode_msg(s: Seq<u8>, i: int, version: Version) -> Result<
        (FetchCancel, int),
        DecodeError,
    > {
        match RequestId::sp_decode(s, i) {
            Err(e) => Err(e),
            Ok((request_id, j)) => Ok((FetchCancel { request_id }, j)),
        }
    }

    /// Read a payload at `*pos`.
    pub fn decode_msg(buf: &[u8], pos: &mut usize, version: Version) -> (r: Result<
        FetchCancel,
        DecodeError,
    >)
        requires
            *old(pos) <= buf@.len(),
        ensures
            match r {
                Ok(v) => Self::sp_decode_msg(buf@, *old(pos) as int, version) == Ok::<
                    (FetchCancel, int),
                    DecodeError,
                >((v, *final(pos) as int)) && *old(pos) <= *final(pos) <= buf@.len(),
                Err(e) => Self::sp_decode_msg(buf@, *old(pos) as int, version) == Err::<
                    (FetchCancel, int),
                    DecodeError,
                >(e) && *final(pos) == *old(pos),
            },
    {
        match RequestId::decode(buf, pos) {
            Ok(request_id) => Ok(FetchCancel { request_id }),
            Err(e) => Err(e),
        }
    }
}

/// The header of a fetch data stream.
#[derive(Clone, Copy, Debug, PartialEq, Eq, Structural)]
pub struct FetchHeader {
    pub request_id: RequestId,
}

impl FetchHeader {
    /// The stream type that announces a fetch stream.
    pub const TYPE: u64 = 0x5;

    /// The payload fits on the wire.
    pub open spec fn wf(self) -> bool {
        self.request_id.wf()
    }

    /// The wire form of the header.
    pub open spec fn spec_encode(self) -> Seq<u8> {
        self.request_id.spec_encode()
    }

    /// Append the wire form of this header.
    pub fn encode(&self, buf: &mut Vec<u8>)
        requires
            self.wf(),
        ensures
            final(buf)@ == old(buf)@ + self.spec_encode(),
    {
        self.request_id.encode(buf);
    }

    /// Decode a header at cursor `i`.
    pub open spec fn sp_decode(s: Seq<u8>, i: int) -> Result<(FetchHeader, int), DecodeError> {
        match RequestId::sp_decode(s, i) {
            Err(e) => Err(e),
            Ok((request_id, j)) => Ok((FetchHeader { request_id }, j)),
        }
    }

    /// Read a header at `*pos`.
    pub fn decode(buf: &[u8], pos: &mut usize) -> (r: Result<FetchHeader, DecodeError>)
        requires
            *old(pos) <= buf@.len(),
        ensures
            match r {
                Ok(v) => Self::sp_decode(buf@, *old(pos) as int) == Ok::<(FetchHeader, int), DecodeError>((
                    v,
                    *final(pos) as int,
                )) && *old(pos) <= *final(pos) <= buf@.len(),
                Err(e) => Self::sp_decode(buf@, *old(pos) as int) == Err::<(FetchHeader, int), DecodeError>(
                    e,
                ) && *final(pos) == *old(pos),
            },
    {
        match RequestId::decode(buf, pos) {
            Ok(request_id) => Ok(FetchHeader { request_id }),
            Err(e) => Err(e),
        }
    }
}

/// The shape of one object on a fetch data stream.  The full object
/// serialization is not implemented; this type records the layout.
#[derive(Clone, Copy, Debug, PartialEq, Eq, Structural)]
pub struct FetchObject {
    pub group_id: u64,
    pub subgroup_id: u64,
    pub object_id: u64,
}

} // verus!
