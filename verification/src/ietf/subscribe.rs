//! Subscription messages: requesting a track's future groups and the
//! publisher's responses.

use vstd::prelude::*;

use crate::coding::{
    decode_bool, decode_string, decode_u8, decode_varint, encode_bool, encode_string, encode_u8,
    encode_varint, sp_bool, sp_string, sp_u8, sp_varint, spec_bool, spec_string, spec_u8, spec_varint,
    VARINT_MAX,
};
use crate::error::DecodeError;
use crate::ietf::parameters::{
    sp_table, spec_lookup, spec_store, MessageParameters, Parameters, PARAM_FORWARD, PARAM_GROUP_ORDER,
    PARAM_SUBSCRIBER_PRIORITY, PARAM_SUBSCRIPTION_FILTER,
};
use crate::ietf::request::RequestId;
use crate::ietf::{
    decode_namespace, encode_namespace, path_bytes, path_fits, sp_namespace, spec_namespace, FilterType,
    GroupOrder, Location, Version,
};
use crate::path::Path;

verus! {

/// A three-entry varint store chain is the three pushes, and its keys are
/// exactly the three given.
proof fn lemma_store3(a: u64, av: u64, b: u64, bv: u64, c: u64, cv: u64)
    requires
        a != b,
        a != c,
        b != c,
    ensures
        spec_store(spec_store(spec_store(Seq::<(u64, u64)>::empty(), a, av), b, bv), c, cv) == seq![
            (a, av),
            (b, bv),
            (c, cv),
        ],
{
    let e0 = Seq::<(u64, u64)>::empty();
    let v1 = spec_store(e0, a, av);
    crate::ietf::parameters::lemma_store_missing(e0, a, av);
    assert(v1 =~= seq![(a, av)]);
    let v2 = spec_store(v1, b, bv);
    crate::ietf::parameters::lemma_store_missing(v1, b, bv);
    assert(v2 =~= seq![(a, av), (b, bv)]);
    let v3 = spec_store(v2, c, cv);
    crate::ietf::parameters::lemma_store_missing(v2, c, cv);
    assert(v3 =~= seq![(a, av), (b, bv), (c, cv)]);
}

/// A two-entry varint store chain is the two pushes.
proof fn lemma_store2(a: u64, av: u64, b: u64, bv: u64)
    requires
        a != b,
    ensures
        spec_store(spec_store(Seq::<(u64, u64)>::empty(), a, av), b, bv) == seq![(a, av), (b, bv)],
{
    let e0 = Seq::<(u64, u64)>::empty();
    let v1 = spec_store(e0, a, av);
    crate::ietf::parameters::lemma_store_missing(e0, a, av);
    assert(v1 =~= seq![(a, av)]);
    let v2 = spec_store(v1, b, bv);
    crate::ietf::parameters::lemma_store_missing(v1, b, bv);
    assert(v2 =~= seq![(a, av), (b, bv)]);
}

/// A one-entry store chain is one push.
proof fn lemma_store1_var(a: u64, av: u64)
    ensures
        spec_store(Seq::<(u64, u64)>::empty(), a, av) == seq![(a, av)],
{
    crate::ietf::parameters::lemma_store_missing(Seq::<(u64, u64)>::empty(), a, av);
    assert(spec_store(Seq::<(u64, u64)>::empty(), a, av) =~= seq![(a, av)]);
}

/// A one-entry byte store chain is one push.
proof fn lemma_store1_bytes(a: u64, av: Seq<u8>)
    ensures
        spec_store(Seq::<(u64, Seq<u8>)>::empty(), a, av) == seq![(a, av)],
{
    crate::ietf::parameters::lemma_store_missing(Seq::<(u64, Seq<u8>)>::empty(), a, av);
    assert(spec_store(Seq::<(u64, Seq<u8>)>::empty(), a, av) =~= seq![(a, av)]);
}

/// The group order a parameter table implies: a missing, oversized or
/// unknown value, and `Any`, all fall back to descending.
pub open spec fn spec_order_from_params(vars: Seq<(u64, u64)>) -> GroupOrder {
    match spec_lookup(vars, PARAM_GROUP_ORDER) {
        None => GroupOrder::Descending,
        Some(v) => {
            if v <= 255 {
                match GroupOrder::spec_from_value(v as u8) {
                    Some(o) => if o is Any {
                        GroupOrder::Descending
                    } else {
                        o
                    },
                    None => GroupOrder::Descending,
                }
            } else {
                GroupOrder::Descending
            }
        },
    }
}

/// The subscriber priority a parameter table implies, defaulting to 128.
pub open spec fn spec_priority_from_params(vars: Seq<(u64, u64)>) -> u8 {
    match spec_lookup(vars, PARAM_SUBSCRIBER_PRIORITY) {
        None => 128u8,
        Some(v) => (v % 0x100) as u8,
    }
}

/// Read the group order out of a decoded parameter table.
fn order_from_params(params: &MessageParameters) -> (r: GroupOrder)
    ensures
        r == spec_order_from_params(params.vars_v()),
{
    match params.group_order() {
        None => GroupOrder::Descending,
        Some(v) => {
            if v <= 255 {
                match GroupOrder::from_value(v as u8) {
                    Some(o) => o.any_to_descending(),
                    None => GroupOrder::Descending,
                }
            } else {
                GroupOrder::Descending
            }
        },
    }
}

/// Asks the publisher for all future groups of a track.
#[derive(Clone, Debug)]
pub struct Subscribe {
    pub request_id: RequestId,
    pub track_namespace: Path,
    pub track_name: String,
    pub subscriber_priority: u8,
    pub group_order: GroupOrder,
    pub filter_type: FilterType,
}

impl Subscribe {
    /// The control message kind of this message.
    pub const ID: u64 = 0x03;

    /// The payload fits on the wire.  Absolute filters are not supported
    /// by this implementation's encoder.
    pub open spec fn wf(self) -> bool {
        &&& self.request_id.wf()
        &&& path_fits(self.track_namespace@)
        &&& vstd::utf8::encode_utf8(self.track_name@).len() <= VARINT_MAX
        &&& !(self.filter_type is AbsoluteStart)
        &&& !(self.filter_type is AbsoluteRange)
    }

    /// The parameter table the newest drafts carry in place of the fixed
    /// fields.
    pub open spec fn spec_params_vars(self) -> Seq<(u64, u64)> {
        spec_store(
            spec_store(
                spec_store(
                    Seq::empty(),
                    PARAM_SUBSCRIBER_PRIORITY,
                    self.subscriber_priority as u64,
                ),
                PARAM_GROUP_ORDER,
                self.group_order.spec_value() as u64,
            ),
            PARAM_FORWARD,
            1u64,
        )
    }

    /// The byte-string parameters of the newest drafts: the filter.
    pub open spec fn spec_params_bytes(self) -> Seq<(u64, Seq<u8>)> {
        spec_store(Seq::empty(), PARAM_SUBSCRIPTION_FILTER, spec_varint(self.filter_type.spec_value()))
    }

    /// The wire form of the payload.
    pub open spec fn spec_encode_msg(self, version: Version) -> Seq<u8> {
        self.request_id.spec_encode() + spec_namespace(self.track_namespace@) + spec_string(
            self.track_name@,
        ) + (match version {
            Version::Draft14 => spec_u8(self.subscriber_priority) + spec_u8(self.group_order.spec_value())
                + spec_bool(true) + spec_varint(self.filter_type.spec_value()) + spec_varint(0),
            Version::Draft15 | Version::Draft16 => crate::ietf::parameters::spec_table_encode(
                self.spec_params_vars(),
                self.spec_params_bytes(),
            ),
        })
    }

    /// Append the payload of this message.
    pub fn encode_msg(&self, buf: &mut Vec<u8>, version: Version)
        requires
            self.wf(),
        ensures
            final(buf)@ == old(buf)@ + self.spec_encode_msg(version),
    {
        self.request_id.encode(buf);
        encode_namespace(buf, &self.track_namespace);
        encode_string(buf, self.track_name.as_str());
        match version {
            Version::Draft14 => {
                encode_u8(buf, self.subscriber_priority);
                encode_u8(buf, self.group_order.value());
                encode_bool(buf, true);
                encode_varint(buf, self.filter_type.value());
                encode_varint(buf, 0);
            },
            Version::Draft15 | Version::Draft16 => {
                let mut params = MessageParameters::new();
                params.set_subscriber_priority(self.subscriber_priority);
                params.set_group_order(self.group_order.value() as u64);
                params.set_forward(true);
                params.set_subscription_filter(self.filter_type);
                proof {
                    assert(params.vars_v() == self.spec_params_vars());
                    assert(params.bytes_v() == self.spec_params_bytes());
                    lemma_store3(
                        PARAM_SUBSCRIBER_PRIORITY,
                        self.subscriber_priority as u64,
                        PARAM_GROUP_ORDER,
                        self.group_order.spec_value() as u64,
                        PARAM_FORWARD,
                        1u64,
                    );
                    lemma_store1_bytes(
                        PARAM_SUBSCRIPTION_FILTER,
                        spec_varint(self.filter_type.spec_value()),
                    );
                    assert(params.wf());
                }
                params.encode(buf);
            },
        }
        assert(buf@ =~= old(buf)@ + self.spec_encode_msg(version));
    }

    /// Decode a payload at cursor `i`: the identifier, the namespace
    /// segments, the track name bytes, then priority, order and filter,
    /// fixed fields or parameters by version.  A subscription with
    /// forwarding off is unsupported.
    pub open spec fn sp_decode_msg(s: Seq<u8>, i: int, version: Version) -> Result<
        ((RequestId, Seq<Seq<u8>>, Seq<u8>, u8, GroupOrder, FilterType), int),
        DecodeError,
    > {
        match RequestId::sp_decode(s, i) {
            Err(e) => Err(e),
            Ok((rid, j)) => match sp_namespace(s, j) {
                Err(e) => Err(e),
                Ok((ns, j2)) => match sp_string(s, j2) {
                    Err(e) => Err(e),
                    Ok((name, j3)) => match version {
                        Version::Draft14 => Self::sp_decode_v14_tail(s, j3, rid, ns, name),
                        Version::Draft15 | Version::Draft16 => match sp_table(s, j3) {
                            Err(e) => Err(e),
                            Ok(((vars, bytes), j4)) => {
                                let prio = spec_priority_from_params(vars);
                                let order = spec_order_from_params(vars);
                                let filter = match Self::spec_filter_from_bytes(bytes) {
                                    Some(f) => f,
                                    None => FilterType::LargestObject,
                                };
                                Ok(((rid, ns, name, prio, order, filter), j4))
                            },
                        },
                    },
                },
            },
        }
    }

    /// The filter a decoded byte-string parameter implies, if present and
    /// well-formed.
    pub open spec fn spec_filter_from_bytes(bytes: Seq<(u64, Seq<u8>)>) -> Option<FilterType> {
        match spec_lookup(bytes, PARAM_SUBSCRIPTION_FILTER) {
            None => None,
            Some(b) => match sp_varint(b, 0) {
                Ok((v, _)) => FilterType::spec_from_value(v),
                Err(_) => None,
            },
        }
    }

    /// The fixed fields of the oldest draft after the track name.
    pub open spec fn sp_decode_v14_tail(
        s: Seq<u8>,
        i: int,
        rid: RequestId,
        ns: Seq<Seq<u8>>,
        name: Seq<u8>,
    ) -> Result<((RequestId, Seq<Seq<u8>>, Seq<u8>, u8, GroupOrder, FilterType), int), DecodeError> {
        match sp_u8(s, i) {
            Err(e) => Err(e),
            Ok((prio, j)) => match sp_u8(s, j) {
                Err(e) => Err(e),
                Ok((ov, j2)) => match GroupOrder::spec_from_value(ov) {
                    None => Err(DecodeError::InvalidValue),
                    Some(order) => match sp_bool(s, j2) {
                        Err(e) => Err(e),
                        Ok((forward, j3)) => {
                            if !forward {
                                Err(DecodeError::Unsupported)
                            } else {
                                match sp_varint(s, j3) {
                                    Err(e) => Err(e),
                                    Ok((fv, j4)) => match FilterType::spec_from_value(fv) {
                                        None => Err(DecodeError::InvalidValue),
                                        Some(filter) => {
                                            let skipped = match filter {
                                                FilterType::AbsoluteStart => match Location::sp_decode(s, j4) {
                                                    Err(e) => Err(e),
                                                    Ok((_, j5)) => Ok(j5),
                                                },
                                                FilterType::AbsoluteRange => match Location::sp_decode(s, j4) {
                                                    Err(e) => Err(e),
                                                    Ok((_, j5)) => match sp_varint(s, j5) {
                                                        Err(e) => Err(e),
                                                        Ok((_, j6)) => Ok(j6),
                                                    },
                                                },
                                                _ => Ok(j4),
                                            };
                                            match skipped {
                                                Err(e) => Err(e),
                                                Ok(j7) => match sp_table(s, j7) {
                                                    Err(e) => Err(e),
                                                    Ok((_, j8)) => Ok(((rid, ns, name, prio, order, filter), j8)),
                                                },
                                            }
                                        },
                                    },
                                }
                            }
                        },
                    },
                },
            },
        }
    }

    /// Read a payload at `*pos`.
    pub fn decode_msg(buf: &[u8], pos: &mut usize, version: Version) -> (r: Result<
        Subscribe,
        DecodeError,
    >)
        requires
            *old(pos) <= buf@.len(),
        ensures
            match r {
                Ok(v) => Self::sp_decode_msg(buf@, *old(pos) as int, version) == Ok::<
                    ((RequestId, Seq<Seq<u8>>, Seq<u8>, u8, GroupOrder, FilterType), int),
                    DecodeError,
                >((
                    (
                        v.request_id,
                        path_bytes(v.track_namespace@),
                        vstd::utf8::encode_utf8(v.track_name@),
                        v.subscriber_priority,
                        v.group_order,
                        v.filter_type,
                    ),
                    *final(pos) as int,
                )) && *old(pos) <= *final(pos) <= buf@.len(),
                Err(e) => Self::sp_decode_msg(buf@, *old(pos) as int, version) == Err::<
                    ((RequestId, Seq<Seq<u8>>, Seq<u8>, u8, GroupOrder, FilterType), int),
                    DecodeError,
                >(e) && *final(pos) == *old(pos),
            },
    {
        let start = *pos;
        let request_id = match RequestId::decode(buf, pos) {
            Ok(v) => v,
            Err(e) => {
                return Err(e);
            },
        };
        let track_namespace = match decode_namespace(buf, pos) {
            Ok(v) => v,
            Err(e) => {
                *pos = start;
                return Err(e);
            },
        };
        let track_name = match decode_string(buf, pos) {
            Ok(v) => v,
            Err(e) => {
                *pos = start;
                return Err(e);
            },
        };
        match version {
            Version::Draft14 => {
                let subscriber_priority = match decode_u8(buf, pos) {
                    Ok(v) => v,
                    Err(e) => {
                        *pos = start;
                        return Err(e);
                    },
                };
                let ov = match decode_u8(buf, pos) {
                    Ok(v) => v,
                    Err(e) => {
                        *pos = start;
                        return Err(e);
                    },
                };
                let group_order = match GroupOrder::from_value(ov) {
                    Some(o) => o,
                    None => {
                        *pos = start;
                        return Err(DecodeError::InvalidValue);
                    },
                };
                let forward = match decode_bool(buf, pos) {
                    Ok(v) => v,
                    Err(e) => {
                        *pos = start;
                        return Err(e);
                    },
                };
                if !forward {
                    *pos = start;
                    return Err(DecodeError::Unsupported);
                }
                let fv = match decode_varint(buf, pos) {
                    Ok(v) => v,
                    Err(e) => {
                        *pos = start;
                        return Err(e);
                    },
                };
                let filter_type = match FilterType::from_value(fv) {
                    Some(f) => f,
                    None => {
                        *pos = start;
                        return Err(DecodeError::InvalidValue);
                    },
                };
                match filter_type {
                    FilterType::AbsoluteStart => {
                        match Location::decode(buf, pos) {
                            Ok(_) => {},
                            Err(e) => {
                                *pos = start;
                                return Err(e);
                            },
                        }
                    },
                    FilterType::AbsoluteRange => {
                        match Location::decode(buf, pos) {
                            Ok(_) => {},
                            Err(e) => {
                                *pos = start;
                                return Err(e);
                            },
                        }
                        match decode_varint(buf, pos) {
                            Ok(_) => {},
                            Err(e) => {
                                *pos = start;
                                return Err(e);
                            },
                        }
                    },
                    _ => {},
                }
                match Parameters::decode(buf, pos) {
                    Ok(_) => {},
                    Err(e) => {
                        *pos = start;
                        return Err(e);
                    },
                }
                Ok(Subscribe {
                    request_id,
                    track_namespace,
                    track_name,
                    subscriber_priority,
                    group_order,
                    filter_type,
                })
            },
            Version::Draft15 | Version::Draft16 => {
                let params = match MessageParameters::decode(buf, pos) {
                    Ok(v) => v,
                    Err(e) => {
                        *pos = start;
                        return Err(e);
                    },
                };
                let subscriber_priority = match params.subscriber_priority() {
                    Some(p) => p,
                    None => 128,
                };
                let group_order = order_from_params(&params);
                let filter_type = match params.subscription_filter() {
                    Some(f) => f,
                    None => FilterType::LargestObject,
                };
                Ok(Subscribe {
                    request_id,
                    track_namespace,
                    track_name,
                    subscriber_priority,
                    group_order,
                    filter_type,
                })
            },
        }
    }
}

/// Accepts a subscription and assigns the track alias.
#[derive(Clone, Copy, Debug, PartialEq, Eq, Structural)]
pub struct SubscribeOk {
    pub request_id: RequestId,
    pub track_alias: u64,
}

impl SubscribeOk {
    /// The control message kind of this message.
    pub const ID: u64 = 0x04;

    /// The payload fits on the wire.
    pub open spec fn wf(self) -> bool {
        self.request_id.wf() && self.track_alias <= VARINT_MAX
    }

    /// The parameter table the newest drafts carry: the group order.
    pub open spec fn spec_params_vars(self) -> Seq<(u64, u64)> {
        spec_store(Seq::empty(), PARAM_GROUP_ORDER, GroupOrder::Descending.spec_value() as u64)
    }

    /// The wire form of the payload.
    pub open spec fn spec_encode_msg(self, version: Version) -> Seq<u8> {
        self.request_id.spec_encode() + spec_varint(self.track_alias) + (match version {
            Version::Draft14 => spec_varint(0) + spec_u8(GroupOrder::Descending.spec_value())
                + spec_bool(false) + spec_varint(0),
            Version::Draft15 | Version::Draft16 => crate::ietf::parameters::spec_table_encode(
                self.spec_params_vars(),
                Seq::empty(),
            ),
        })
    }

    /// Append the payload of this message.
    pub fn encode_msg(&self, buf: &mut Vec<u8>, version: Version)
        requires
            self.wf(),
        ensures
            final(buf)@ == old(buf)@ + self.spec_encode_msg(version),
    {
        self.request_id.encode(buf);
        encode_varint(buf, self.track_alias);
        match version {
            Version::Draft14 => {
                encode_varint(buf, 0);
                encode_u8(buf, GroupOrder::Descending.value());
                encode_bool(buf, false);
                encode_varint(buf, 0);
            },
            Version::Draft15 | Version::Draft16 => {
                let mut params = MessageParameters::new();
                params.set_group_order(GroupOrder::Descending.value() as u64);
                proof {
                    assert(params.vars_v() == self.spec_params_vars());
                    assert(params.bytes_v() =~= Seq::<(u64, Seq<u8>)>::empty());
                    lemma_store1_var(PARAM_GROUP_ORDER, GroupOrder::Descending.spec_value() as u64);
                    assert(params.wf());
                }
                params.encode(buf);
            },
        }
        assert(buf@ =~= old(buf)@ + self.spec_encode_msg(version));
    }

    /// Decode a payload at cursor `i`.  A non-zero expiry is unsupported.
    pub open spec fn sp_decode_msg(s: Seq<u8>, i: int, version: Version) -> Result<
        (SubscribeOk, int),
        DecodeError,
    > {
        match RequestId::sp_decode(s, i) {
            Err(e) => Err(e),
            Ok((request_id, j)) => match sp_varint(s, j) {
                Err(e) => Err(e),
                Ok((track_alias, j2)) => match version {
                    Version::Draft14 => match sp_varint(s, j2) {
                        Err(e) => Err(e),
                        Ok((expires, j3)) => {
                            if expires != 0 {
                                Err(DecodeError::Unsupported)
                            } else {
                                match sp_u8(s, j3) {
                                    Err(e) => Err(e),
                                    Ok((_, j4)) => match sp_bool(s, j4) {
                                        Err(e) => Err(e),
                                        Ok((content, j5)) => {
                                            let skipped = if content {
                                                match Location::sp_decode(s, j5) {
                                                    Err(e) => Err(e),
                                                    Ok((_, j6)) => Ok(j6),
                                                }
                                            } else {
                                                Ok(j5)
                                            };
                                            match skipped {
                                                Err(e) => Err(e),
                                                Ok(j7) => match sp_table(s, j7) {
                                                    Err(e) => Err(e),
                                                    Ok((_, j8)) => Ok(
                                                        (SubscribeOk { request_id, track_alias }, j8),
                                                    ),
                                                },
                                            }
                                        },
                                    },
                                }
                            }
                        },
                    },
                    Version::Draft15 | Version::Draft16 => match sp_table(s, j2) {
                        Err(e) => Err(e),
                        Ok((_, j3)) => Ok((SubscribeOk { request_id, track_alias }, j3)),
                    },
                },
            },
        }
    }

    /// Read a payload at `*pos`.
    pub fn decode_msg(buf: &[u8], pos: &mut usize, version: Version) -> (r: Result<
        SubscribeOk,
        DecodeError,
    >)
        requires
            *old(pos) <= buf@.len(),
        ensures
            match r {
                Ok(v) => Self::sp_decode_msg(buf@, *old(pos) as int, version) == Ok::<
                    (SubscribeOk, int),
                    DecodeError,
                >((v, *final(pos) as int)) && *old(pos) <= *final(pos) <= buf@.len(),
                Err(e) => Self::sp_decode_msg(buf@, *old(pos) as int, version) == Err::<
                    (SubscribeOk, int),
                    DecodeError,
                >(e) && *final(pos) == *old(pos),
            },
    {
        let start = *pos;
        let request_id = match RequestId::decode(buf, pos) {
            Ok(v) => v,
            Err(e) => {
                return Err(e);
            },
        };
        let track_alias = match decode_varint(buf, pos) {
            Ok(v) => v,
            Err(e) => {
                *pos = start;
                return Err(e);
            },
        };
        match version {
            Version::Draft14 => {
                let expires = match decode_varint(buf, pos) {
                    Ok(v) => v,
                    Err(e) => {
                        *pos = start;
                        return Err(e);
                    },
                };
                if expires != 0 {
                    *pos = start;
                    return Err(DecodeError::Unsupported);
                }
                match decode_u8(buf, pos) {
                    Ok(_) => {},
                    Err(e) => {
                        *pos = start;
                        return Err(e);
                    },
                }
                let content = match decode_bool(buf, pos) {
                    Ok(v) => v,
                    Err(e) => {
                        *pos = start;
                        return Err(e);
                    },
                };
                if content {
                    match Location::decode(buf, pos) {
                        Ok(_) => {},
                        Err(e) => {
                            *pos = start;
                            return Err(e);
                        },
                    }
                }
                match Parameters::decode(buf, pos) {
                    Ok(_) => {},
                    Err(e) => {
                        *pos = start;
                        return Err(e);
                    },
                }
                Ok(SubscribeOk { request_id, track_alias })
            },
            Version::Draft15 | Version::Draft16 => {
                match MessageParameters::decode(buf, pos) {
                    Ok(_) => {},
                    Err(e) => {
                        *pos = start;
                        return Err(e);
                    },
                }
                Ok(SubscribeOk { request_id, track_alias })
            },
        }
    }
}

/// Rejects a subscription.
#[derive(Clone, Debug)]
pub struct SubscribeError {
    pub request_id: RequestId,
    pub error_code: u64,
    pub reason_phrase: String,
}

impl SubscribeError {
    /// The control message kind of this message.
    pub const ID: u64 = 0x05;

    /// The payload fits on the wire.
    pub open spec fn wf(self) -> bool {
        &&& self.request_id.wf()
        &&& self.error_code <= VARINT_MAX
        &&& vstd::utf8::encode_utf8(self.reason_phrase@).len() <= VARINT_MAX
    }

    /// The wire form of the payload.
    pub open spec fn spec_encode_msg(self, version: Version) -> Seq<u8> {
        self.request_id.spec_encode() + spec_varint(self.error_code) + spec_string(self.reason_phrase@)
    }

    /// Append the payload of this message.
    pub fn encode_msg(&self, buf: &mut Vec<u8>, version: Version)
        requires
            self.wf(),
        ensures
            final(buf)@ == old(buf)@ + self.spec_encode_msg(version),
    {
        self.request_id.encode(buf);
        encode_varint(buf, self.error_code);
        encode_string(buf, self.reason_phrase.as_str());
        assert(buf@ =~= old(buf)@ + self.spec_encode_msg(version));
    }

    /// Decode a payload at cursor `i`.
    pub open spec fn sp_decode_msg(s: Seq<u8>, i: int, version: Version) -> Result<
        ((RequestId, u64, Seq<u8>), int),
        DecodeError,
    > {
        match RequestId::sp_decode(s, i) {
            Err(e) => Err(e),
            Ok((request_id, j)) => match sp_varint(s, j) {
                Err(e) => Err(e),
                Ok((code, j2)) => match sp_string(s, j2) {
                    Err(e) => Err(e),
                    Ok((reason, j3)) => Ok(((request_id, code, reason), j3)),
                },
            },
        }
    }

    /// Read a payload at `*pos`.
    pub fn decode_msg(buf: &[u8], pos: &mut usize, version: Version) -> (r: Result<
        SubscribeError,
        DecodeError,
    >)
        requires
            *old(pos) <= buf@.len(),
        ensures
            match r {
                Ok(v) => Self::sp_decode_msg(buf@, *old(pos) as int, version) == Ok::<
                    ((RequestId, u64, Seq<u8>), int),
                    DecodeError,
                >((
                    (v.request_id, v.error_code, vstd::utf8::encode_utf8(v.reason_phrase@)),
                    *final(pos) as int,
                )) && *old(pos) <= *final(pos) <= buf@.len(),
                Err(e) => Self::sp_decode_msg(buf@, *old(pos) as int, version) == Err::<
                    ((RequestId, u64, Seq<u8>), int),
                    DecodeError,
                >(e) && *final(pos) == *old(pos),
            },
    {
        let start = *pos;
        let request_id = match RequestId::decode(buf, pos) {
            Ok(v) => v,
            Err(e) => {
                return Err(e);
            },
        };
        let error_code = match decode_varint(buf, pos) {
            Ok(v) => v,
            Err(e) => {
                *pos = start;
                return Err(e);
            },
        };
        let reason_phrase = match decode_string(buf, pos) {
            Ok(v) => v,
            Err(e) => {
                *pos = start;
                return Err(e);
            },
        };
        Ok(SubscribeError { request_id, error_code, reason_phrase })
    }
}

/// Ends a subscription.
#[derive(Clone, Copy, Debug, PartialEq, Eq, Structural)]
pub struct Unsubscribe {
    pub request_id: RequestId,
}

impl Unsubscribe {
    /// The control message kind of this message.
    pub const ID: u64 = 0x0a;

    /// The payload fits on the wire.
    pub open spec fn wf(self) -> bool {
        self.request_id.wf()
    }

    /// The wire form of the payload.
    pub open spec fn spec_encode_msg(self, version: Version) -> Seq<u8> {
        self.request_id.spec_encode()
    }

    /// Append the payload of this message.
    pub fn encode_msg(&self, buf: &mut Vec<u8>, version: Version)
        requires
            self.wf(),
        ensures
            final(buf)@ == old(buf)@ + self.spec_encode_msg(version),
    {
        self.request_id.encode(buf);
    }

    /// Decode a payload at cursor `i`.
    pub open spec fn sp_decode_msg(s: Seq<u8>, i: int, version: Version) -> Result<
        (Unsubscribe, int),
        DecodeError,
    > {
        match RequestId::sp_decode(s, i) {
            Err(e) => Err(e),
            Ok((request_id, j)) => Ok((Unsubscribe { request_id }, j)),
        }
    }

    /// Read a payload at `*pos`.
    pub fn decode_msg(buf: &[u8], pos: &mut usize, version: Version) -> (r: Result<
        Unsubscribe,
        DecodeError,
    >)
        requires
            *old(pos) <= buf@.len(),
        ensures
            match r {
                Ok(v) => Self::sp_decode_msg(buf@, *old(pos) as int, version) == Ok::<
                    (Unsubscribe, int),
                    DecodeError,
                >((v, *final(pos) as int)) && *old(pos) <= *final(pos) <= buf@.len(),
                Err(e) => Self::sp_decode_msg(buf@, *old(pos) as int, version) == Err::<
                    (Unsubscribe, int),
                    DecodeError,
                >(e) && *final(pos) == *old(pos),
            },
    {
        match RequestId::decode(buf, pos) {
            Ok(request_id) => Ok(Unsubscribe { request_id }),
            Err(e) => Err(e),
        }
    }
}

/// Updates the parameters of a live subscription.
#[derive(Clone, Copy, Debug, PartialEq, Eq, Structural)]
pub struct SubscribeUpdate {
    pub request_id: RequestId,
    pub subscription_request_id: RequestId,
    pub start_location: Location,
    pub end_group: u64,
    pub subscriber_priority: u8,
    pub forward: bool,
}

impl SubscribeUpdate {
    /// The control message kind of this message.
    pub const ID: u64 = 0x02;

    /// The payload fits on the wire.
    pub open spec fn wf(self) -> bool {
        &&& self.request_id.wf()
        &&& self.subscription_request_id.wf()
        &&& self.start_location.wf()
        &&& self.end_group <= VARINT_MAX
    }

    /// The parameter table the newest drafts carry.
    pub open spec fn spec_params_vars(self) -> Seq<(u64, u64)> {
        spec_store(
            spec_store(Seq::empty(), PARAM_SUBSCRIBER_PRIORITY, self.subscriber_priority as u64),
            PARAM_FORWARD,
            if self.forward {
                1u64
            } else {
                0u64
            },
        )
    }

    /// The byte-string parameters of the newest drafts: the filter.
    pub open spec fn spec_params_bytes(self) -> Seq<(u64, Seq<u8>)> {
        spec_store(
            Seq::empty(),
            PARAM_SUBSCRIPTION_FILTER,
            spec_varint(FilterType::LargestObject.spec_value()),
        )
    }

    /// The wire form of the payload.
    pub open spec fn spec_encode_msg(self, version: Version) -> Seq<u8> {
        self.request_id.spec_encode() + self.subscription_request_id.spec_encode() + (match version {
            Version::Draft14 => self.start_location.spec_encode() + spec_varint(self.end_group) + spec_u8(
                self.subscriber_priority,
            ) + spec_bool(self.forward) + spec_varint(0),
            Version::Draft15 | Version::Draft16 => crate::ietf::parameters::spec_table_encode(
                self.spec_params_vars(),
                self.spec_params_bytes(),
            ),
        })
    }

    /// Append the payload of this message.
    pub fn encode_msg(&self, buf: &mut Vec<u8>, version: Version)
        requires
            self.wf(),
        ensures
            final(buf)@ == old(buf)@ + self.spec_encode_msg(version),
    {
        self.request_id.encode(buf);
        self.subscription_request_id.encode(buf);
        match version {
            Version::Draft14 => {
                self.start_location.encode(buf);
                encode_varint(buf, self.end_group);
                encode_u8(buf, self.subscriber_priority);
                encode_bool(buf, self.forward);
                encode_varint(buf, 0);
            },
            Version::Draft15 | Version::Draft16 => {
                let mut params = MessageParameters::new();
                params.set_subscriber_priority(self.subscriber_priority);
                params.set_forward(self.forward);
                params.set_subscription_filter(FilterType::LargestObject);
                proof {
                    assert(params.vars_v() == self.spec_params_vars());
                    assert(params.bytes_v() == self.spec_params_bytes());
                    lemma_store2(
                        PARAM_SUBSCRIBER_PRIORITY,
                        self.subscriber_priority as u64,
                        PARAM_FORWARD,
                        if self.forward {
                            1u64
                        } else {
                            0u64
                        },
                    );
                    lemma_store1_bytes(
                        PARAM_SUBSCRIPTION_FILTER,
                        spec_varint(FilterType::LargestObject.spec_value()),
                    );
                    assert(params.wf());
                }
                params.encode(buf);
            },
        }
        assert(buf@ =~= old(buf)@ + self.spec_encode_msg(version));
    }

    /// Decode a payload at cursor `i`.
    pub open spec fn sp_decode_msg(s: Seq<u8>, i: int, version: Version) -> Result<
        (SubscribeUpdate, int),
        DecodeError,
    > {
        match RequestId::sp_decode(s, i) {
            Err(e) => Err(e),
            Ok((rid, j)) => match RequestId::sp_decode(s, j) {
                Err(e) => Err(e),
                Ok((srid, j2)) => match version {
                    Version::Draft14 => match Location::sp_decode(s, j2) {
                        Err(e) => Err(e),
                        Ok((loc, j3)) => match sp_varint(s, j3) {
                            Err(e) => Err(e),
                            Ok((end_group, j4)) => match sp_u8(s, j4) {
                                Err(e) => Err(e),
                                Ok((prio, j5)) => match sp_bool(s, j5) {
                                    Err(e) => Err(e),
                                    Ok((forward, j6)) => match sp_table(s, j6) {
                                        Err(e) => Err(e),
                                        Ok((_, j7)) => Ok((
                                            SubscribeUpdate {
                                                request_id: rid,
                                                subscription_request_id: srid,
                                                start_location: loc,
                                                end_group,
                                                subscriber_priority: prio,
                                                forward,
                                            },
                                            j7,
                                        )),
                                    },
                                },
                            },
                        },
                    },
                    Version::Draft15 | Version::Draft16 => match sp_table(s, j2) {
                        Err(e) => Err(e),
                        Ok(((vars, _), j3)) => {
                            let prio = spec_priority_from_params(vars);
                            let forward = match spec_lookup(vars, PARAM_FORWARD) {
                                None => true,
                                Some(v) => v != 0,
                            };
                            Ok((
                                SubscribeUpdate {
                                    request_id: rid,
                                    subscription_request_id: srid,
                                    start_location: Location { group: 0, object: 0 },
                                    end_group: 0,
                                    subscriber_priority: prio,
                                    forward,
                                },
                                j3,
                            ))
                        },
                    },
                },
            },
        }
    }

    /// Read a payload at `*pos`.
    pub fn decode_msg(buf: &[u8], pos: &mut usize, version: Version) -> (r: Result<
        SubscribeUpdate,
        DecodeError,
    >)
        requires
            *old(pos) <= buf@.len(),
        ensures
            match r {
                Ok(v) => Self::sp_decode_msg(buf@, *old(pos) as int, version) == Ok::<
                    (SubscribeUpdate, int),
                    DecodeError,
                >((v, *final(pos) as int)) && *old(pos) <= *final(pos) <= buf@.len(),
                Err(e) => Self::sp_decode_msg(buf@, *old(pos) as int, version) == Err::<
                    (SubscribeUpdate, int),
                    DecodeError,
                >(e) && *final(pos) == *old(pos),
            },
    {
        let start = *pos;
        let request_id = match RequestId::decode(buf, pos) {
            Ok(v) => v,
            Err(e) => {
                return Err(e);
            },
        };
        let subscription_request_id = match RequestId::decode(buf, pos) {
            Ok(v) => v,
            Err(e) => {
                *pos = start;
                return Err(e);
            },
        };
        match version {
            Version::Draft14 => {
                let start_location = match Location::decode(buf, pos) {
                    Ok(v) => v,
                    Err(e) => {
                        *pos = start;
                        return Err(e);
                    },
                };
                let end_group = match decode_varint(buf, pos) {
                    Ok(v) => v,
                    Err(e) => {
                        *pos = start;
                        return Err(e);
                    },
                };
                let subscriber_priority = match decode_u8(buf, pos) {
                    Ok(v) => v,
                    Err(e) => {
                        *pos = start;
                        return Err(e);
                    },
                };
                let forward = match decode_bool(buf, pos) {
                    Ok(v) => v,
                    Err(e) => {
                        *pos = start;
                        return Err(e);
                    },
                };
                match Parameters::decode(buf, pos) {
                    Ok(_) => {},
                    Err(e) => {
                        *pos = start;
                        return Err(e);
                    },
                }
                Ok(SubscribeUpdate {
                    request_id,
                    subscription_request_id,
                    start_location,
                    end_group,
                    subscriber_priority,
                    forward,
                })
            },
            Version::Draft15 | Version::Draft16 => {
                let params = match MessageParameters::decode(buf, pos) {
                    Ok(v) => v,
                    Err(e) => {
                        *pos = start;
                        return Err(e);
                    },
                };
                let subscriber_priority = match params.subscriber_priority() {
                    Some(p) => p,
                    None => 128,
                };
                let forward = match params.forward() {
                    Some(f) => f,
                    None => true,
                };
                Ok(SubscribeUpdate {
                    request_id,
                    subscription_request_id,
                    start_location: Location { group: 0, object: 0 },
                    end_group: 0,
                    subscriber_priority,
                    forward,
                })
            },
        }
    }
}

} // verus!
