//! Track status queries.

use vstd::prelude::*;

use crate::coding::{
    decode_bool, decode_string, decode_u8, decode_varint, encode_bool, encode_string, encode_u8,
    encode_varint, sp_bool, sp_string, sp_u8, sp_varint, spec_bool, spec_string, spec_u8, spec_varint,
    VARINT_MAX,
};
use crate::error::DecodeError;
use crate::ietf::parameters::{sp_table, MessageParameters, Parameters};
use crate::ietf::request::RequestId;
use crate::ietf::{
    decode_namespace, encode_namespace, path_bytes, path_fits, sp_namespace, spec_namespace, FilterType,
    GroupOrder, Version,
};
use crate::path::Path;

verus! {

/// Asks for the status of a track.
#[derive(Clone, Debug)]
pub struct TrackStatus {
    pub request_id: RequestId,
    pub track_namespace: Path,
    pub track_name: String,
}

impl TrackStatus {
    /// The control message kind of this message.
    pub const ID: u64 = 0x0d;

    /// The payload fits on the wire.
    pub open spec fn wf(self) -> bool {
        &&& self.request_id.wf()
        &&& path_fits(self.track_namespace@)
        &&& vstd::utf8::encode_utf8(self.track_name@).len() <= VARINT_MAX
    }

    /// The wire form of the payload.
    pub open spec fn spec_encode_msg(self, version: Version) -> Seq<u8> {
        self.request_id.spec_encode() + spec_namespace(self.track_namespace@) + spec_string(
            self.track_name@,
        ) + (match version {
            Version::Draft14 => spec_u8(0) + spec_u8(GroupOrder::Descending.spec_value()) + spec_bool(false)
                + spec_varint(FilterType::LargestObject.spec_value()) + spec_varint(0),
            Version::Draft15 | Version::Draft16 => spec_varint(0),
        })
    }

    /// Append the payload of this message.
    pub fn encode_msg(&self, buf: &mut Vec<u8>, version: Version)
        requires
            self.wf(),
        ensures
            final(buf)@ == old(buf)@ + self.spec_encode_msg(version),
    {
        self.request_id.encode(buf);
        encode_namespace(buf, &self.track_namespace);
        encode_string(buf, self.track_name.as_str());
        match version {
            Version::Draft14 => {
                encode_u8(buf, 0);
                encode_u8(buf, GroupOrder::Descending.value());
                encode_bool(buf, false);
                encode_varint(buf, FilterType::LargestObject.value());
                encode_varint(buf, 0);
            },
            Version::Draft15 | Version::Draft16 => {
                let params = MessageParameters::new();
                proof {
                    assert(params.spec_encode() =~= spec_varint(0));
                }
                params.encode(buf);
            },
        }
        assert(buf@ =~= old(buf)@ + self.spec_encode_msg(version));
    }

    /// Decode a payload at cursor `i`; the fixed fields of the oldest
    /// draft are read and dropped.
    pub open spec fn sp_decode_msg(s: Seq<u8>, i: int, version: Version) -> Result<
        ((RequestId, Seq<Seq<u8>>, Seq<u8>), int),
        DecodeError,
    > {
        match RequestId::sp_decode(s, i) {
            Err(e) => Err(e),
            Ok((rid, j)) => match sp_namespace(s, j) {
                Err(e) => Err(e),
                Ok((ns, j2)) => match sp_string(s, j2) {
                    Err(e) => Err(e),
                    Ok((name, j3)) => match version {
                        Version::Draft14 => match sp_u8(s, j3) {
                            Err(e) => Err(e),
                            Ok((_, j4)) => match sp_u8(s, j4) {
                                Err(e) => Err(e),
                                Ok((ov, j5)) => match GroupOrder::spec_from_value(ov) {
                                    None => Err(DecodeError::InvalidValue),
                                    Some(_) => match sp_bool(s, j5) {
                                        Err(e) => Err(e),
                                        Ok((_, j6)) => match sp_varint(s, j6) {
                                            Err(e) => Err(e),
                                            Ok((_, j7)) => match sp_table(s, j7) {
                                                Err(e) => Err(e),
                                                Ok((_, j8)) => Ok(((rid, ns, name), j8)),
                                            },
                                        },
                                    },
                                },
                            },
                        },
                        Version::Draft15 | Version::Draft16 => match sp_table(s, j3) {
                            Err(e) => Err(e),
                            Ok((_, j4)) => Ok(((rid, ns, name), j4)),
                        },
                    },
                },
            },
        }
    }

    /// Read a payload at `*pos`.
    pub fn decode_msg(buf: &[u8], pos: &mut usize, version: Version) -> (r: Result<
        TrackStatus,
        DecodeError,
    >)
        requires
            *old(pos) <= buf@.len(),
        ensures
            match r {
                Ok(v) => Self::sp_decode_msg(buf@, *old(pos) as int, version) == Ok::<
                    ((RequestId, Seq<Seq<u8>>, Seq<u8>), int),
                    DecodeError,
                >((
                    (v.request_id, path_bytes(v.track_namespace@), vstd::utf8::encode_utf8(v.track_name@)),
                    *final(pos) as int,
                )) && *old(pos) <= *final(pos) <= buf@.len(),
                Err(e) => Self::sp_decode_msg(buf@, *old(pos) as int, version) == Err::<
                    ((RequestId, Seq<Seq<u8>>, Seq<u8>), int),
                    DecodeError,
                >(e) && *final(pos) == *old(pos),
            },
    {
        let start = *pos;
        let request_id = match RequestId::decode(buf, pos) {
            Ok(v) => v,
            Err(e) => {
                return Err(e);
            },
        };
        let track_namespace = match decode_namespace(buf, pos) {
            Ok(v) => v,
            Err(e) => {
                *pos = start;
                return Err(e);
            },
        };
        let track_name = match decode_string(buf, pos) {
            Ok(v) => v,
            Err(e) => {
                *pos = start;
                return Err(e);
            },
        };
        match version {
            Version::Draft14 => {
                match decode_u8(buf, pos) {
                    Ok(_) => {},
                    Err(e) => {
                        *pos = start;
                        return Err(e);
                    },
                }
                let ov = match decode_u8(buf, pos) {
                    Ok(v) => v,
                    Err(e) => {
                        *pos = start;
                        return Err(e);
                    },
                };
                match GroupOrder::from_value(ov) {
                    Some(_) => {},
                    None => {
                        *pos = start;
                        return Err(DecodeError::InvalidValue);
                    },
                }
                match decode_bool(buf, pos) {
                    Ok(_) => {},
                    Err(e) => {
                        *pos = start;
                        return Err(e);
                    },
                }
                match decode_varint(buf, pos) {
                    Ok(_) => {},
                    Err(e) => {
                        *pos = start;
                        return Err(e);
                    },
                }
                match Parameters::decode(buf, pos) {
                    Ok(_) => {},
                    Err(e) => {
                        *pos = start;
                        return Err(e);
                    },
                }
                Ok(TrackStatus { request_id, track_namespace, track_name })
            },
            Version::Draft15 | Version::Draft16 => {
                match MessageParameters::decode(buf, pos) {
                    Ok(_) => {},
                    Err(e) => {
                        *pos = start;
                        return Err(e);
                    },
                }
                Ok(TrackStatus { request_id, track_namespace, track_name })
            },
        }
    }
}

/// The status of a track.
#[derive(Clone, Copy, Debug, PartialEq, Eq, Structural)]
pub enum TrackStatusCode {
    InProgress,
    NotFound,
    NotAuthorized,
    Ended,
}

impl TrackStatusCode {
    /// The wire value of this status.
    pub open spec fn spec_value(self) -> u64 {
        match self {
            TrackStatusCode::InProgress => 0,
            TrackStatusCode::NotFound => 1,
            TrackStatusCode::NotAuthorized => 2,
            TrackStatusCode::Ended => 3,
        }
    }

    /// The wire value of this status.
    pub fn value(self) -> (r: u64)
        ensures
            r == self.spec_value(),
    {
        match self {
            TrackStatusCode::InProgress => 0,
            TrackStatusCode::NotFound => 1,
            TrackStatusCode::NotAuthorized => 2,
            TrackStatusCode::Ended => 3,
        }
    }

    /// The status with the given wire value, if any.
    pub open spec fn spec_from_value(v: u64) -> Option<TrackStatusCode> {
        if v == 0 {
            Some(TrackStatusCode::InProgress)
        } else if v == 1 {
            Some(TrackStatusCode::NotFound)
        } else if v == 2 {
            Some(TrackStatusCode::NotAuthorized)
        } else if v == 3 {
            Some(TrackStatusCode::Ended)
        } else {
            None
        }
    }

    /// The status with the given wire value, if any.
    pub fn from_value(v: u64) -> (r: Option<TrackStatusCode>)
        ensures
            r == Self::spec_from_value(v),
    {
        if v == 0 {
            Some(TrackStatusCode::InProgress)
        } else if v == 1 {
            Some(TrackStatusCode::NotFound)
        } else if v == 2 {
            Some(TrackStatusCode::NotAuthorized)
        } else if v == 3 {
            Some(TrackStatusCode::Ended)
        } else {
            None
        }
    }
}

} // verus!
