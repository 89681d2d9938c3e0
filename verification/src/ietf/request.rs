//! Request identifiers and the generic request responses.

use vstd::prelude::*;

use crate::coding::{
    decode_string, decode_varint, encode_string, encode_varint, sp_string, sp_varint, spec_string,
    spec_varint, VARINT_MAX,
};
use crate::error::DecodeError;
use crate::ietf::parameters::{sp_table, MessageParameters};
use crate::ietf::Version;

verus! {

/// A session-unique request identifier.  Each side increments by two, so
/// the parities never collide.
#[derive(Clone, Copy, Debug, PartialEq, Eq, Hash, PartialOrd, Ord, Structural)]
pub struct RequestId(pub u64);

impl RequestId {
    /// Take the current identifier and advance by two.
    pub fn increment(&mut self) -> (r: RequestId)
        requires
            old(self).0 + 2 <= u64::MAX,
        ensures
            r.0 == old(self).0,
            final(self).0 == old(self).0 + 2,
    {
        let prev = self.0;
        self.0 = self.0 + 2;
        RequestId(prev)
    }

    /// The identifier fits in a varint.
    pub open spec fn wf(self) -> bool {
        self.0 <= VARINT_MAX
    }

    /// The wire form: one varint.
    pub open spec fn spec_encode(self) -> Seq<u8> {
        spec_varint(self.0)
    }

    /// Append the wire form of this identifier.
    pub fn encode(&self, buf: &mut Vec<u8>)
        requires
            self.wf(),
        ensures
            final(buf)@ == old(buf)@ + self.spec_encode(),
    {
        encode_varint(buf, self.0);
    }

    /// Decode an identifier at cursor `i`.
    pub open spec fn sp_decode(s: Seq<u8>, i: int) -> Result<(RequestId, int), DecodeError> {
        match sp_varint(s, i) {
            Err(e) => Err(e),
            Ok((v, j)) => Ok((RequestId(v), j)),
        }
    }

    /// Read an identifier at `*pos`.
    pub fn decode(buf: &[u8], pos: &mut usize) -> (r: Result<RequestId, DecodeError>)
        requires
            *old(pos) <= buf@.len(),
        ensures
            match r {
                Ok(v) => Self::sp_decode(buf@, *old(pos) as int) == Ok::<(RequestId, int), DecodeError>((
                    v,
                    *final(pos) as int,
                )) && *old(pos) <= *final(pos) <= buf@.len(),
                Err(e) => Self::sp_decode(buf@, *old(pos) as int) == Err::<(RequestId, int), DecodeError>(e)
                    && *final(pos) == *old(pos),
            },
    {
        match decode_varint(buf, pos) {
            Ok(v) => Ok(RequestId(v)),
            Err(e) => Err(e),
        }
    }
}

/// Advertises the highest request identifier the sender will accept.
#[derive(Clone, Copy, Debug, PartialEq, Eq, Structural)]
pub struct MaxRequestId {
    pub request_id: RequestId,
}

impl MaxRequestId {
    /// The control message kind of this message.
    pub const ID: u64 = 0x15;

    /// The payload fits on the wire.
    pub open spec fn wf(self) -> bool {
        self.request_id.wf()
    }

    /// The wire form of the payload.
    pub open spec fn spec_encode_msg(self, version: Version) -> Seq<u8> {
        self.request_id.spec_encode()
    }

    /// Append the payload of this message.
    pub fn encode_msg(&self, buf: &mut Vec<u8>, version: Version)
        requires
            self.wf(),
        ensures
            final(buf)@ == old(buf)@ + self.spec_encode_msg(version),
    {
        self.request_id.encode(buf);
    }

    /// Decode a payload at cursor `i`.
    pub open spec fn sp_decode_msg(s: Seq<u8>, i: int, version: Version) -> Result<
        (MaxRequestId, int),
        DecodeError,
    > {
        match RequestId::sp_decode(s, i) {
            Err(e) => Err(e),
            Ok((request_id, j)) => Ok((MaxRequestId { request_id }, j)),
        }
    }

    /// Read a payload at `*pos`.
    pub fn decode_msg(buf: &[u8], pos: &mut usize, version: Version) -> (r: Result<
        MaxRequestId,
        DecodeError,
    >)
        requires
            *old(pos) <= buf@.len(),
        ensures
            match r {
                Ok(v) => Self::sp_decode_msg(buf@, *old(pos) as int, version) == Ok::<
                    (MaxRequestId, int),
                    DecodeError,
                >((v, *final(pos) as int)) && *old(pos) <= *final(pos) <= buf@.len(),
                Err(e) => Self::sp_decode_msg(buf@, *old(pos) as int, version) == Err::<
                    (MaxRequestId, int),
                    DecodeError,
                >(e) && *final(pos) == *old(pos),
            },
    {
        match RequestId::decode(buf, pos) {
            Ok(request_id) => Ok(MaxRequestId { request_id }),
            Err(e) => Err(e),
        }
    }
}

/// Tells the peer that the sender has run out of request identifiers.
#[derive(Clone, Copy, Debug, PartialEq, Eq, Structural)]
pub struct RequestsBlocked {
    pub request_id: RequestId,
}

impl RequestsBlocked {
    /// The control message kind of this message.
    pub const ID: u64 = 0x1a;

    /// The payload fits on the wire.
    pub open spec fn wf(self) -> bool {
        self.request_id.wf()
    }

    /// The wire form of the payload.
    pub open spec fn spec_encode_msg(self, version: Version) -> Seq<u8> {
        self.request_id.spec_encode()
    }

    /// Append the payload of this message.
    pub fn encode_msg(&self, buf: &mut Vec<u8>, version: Version)
        requires
            self.wf(),
        ensures
            final(buf)@ == old(buf)@ + self.spec_encode_msg(version),
    {
        self.request_id.encode(buf);
    }

    /// Decode a payload at cursor `i`.
    pub open spec fn sp_decode_msg(s: Seq<u8>, i: int, version: Version) -> Result<
        (RequestsBlocked, int),
        DecodeError,
    > {
        match RequestId::sp_decode(s, i) {
            Err(e) => Err(e),
            Ok((request_id, j)) => Ok((RequestsBlocked { request_id }, j)),
        }
    }

    /// Read a payload at `*pos`.
    pub fn decode_msg(buf: &[u8], pos: &mut usize, version: Version) -> (r: Result<
        RequestsBlocked,
        DecodeError,
    >)
        requires
            *old(pos) <= buf@.len(),
        ensures
            match r {
                Ok(v) => Self::sp_decode_msg(buf@, *old(pos) as int, version) == Ok::<
                    (RequestsBlocked, int),
                    DecodeError,
                >((v, *final(pos) as int)) && *old(pos) <= *final(pos) <= buf@.len(),
                Err(e) => Self::sp_decode_msg(buf@, *old(pos) as int, version) == Err::<
                    (RequestsBlocked, int),
                    DecodeError,
                >(e) && *final(pos) == *old(pos),
            },
    {
        match RequestId::decode(buf, pos) {
            Ok(request_id) => Ok(RequestsBlocked { request_id }),
            Err(e) => Err(e),
        }
    }
}

/// The generic success response to a request.
#[derive(Clone, Debug)]
pub struct RequestOk {
    pub request_id: RequestId,
    pub parameters: MessageParameters,
}

impl RequestOk {
    /// The control message kind of this message.
    pub const ID: u64 = 0x07;

    /// The payload fits on the wire.
    pub open spec fn wf(self) -> bool {
        self.request_id.wf() && self.parameters.wf()
    }

    /// The wire form of the payload.
    pub open spec fn spec_encode_msg(self, version: Version) -> Seq<u8> {
        self.request_id.spec_encode() + self.parameters.spec_encode()
    }

    /// Append the payload of this message.
    pub fn encode_msg(&self, buf: &mut Vec<u8>, version: Version)
        requires
            self.wf(),
        ensures
            final(buf)@ == old(buf)@ + self.spec_encode_msg(version),
    {
        self.request_id.encode(buf);
        self.parameters.encode(buf);
        assert(buf@ =~= old(buf)@ + self.spec_encode_msg(version));
    }

    /// Decode a payload at cursor `i`: the identifier, then the parameter
    /// table as mathematical pairs.
    pub open spec fn sp_decode_msg(s: Seq<u8>, i: int, version: Version) -> Result<
        ((RequestId, Seq<(u64, u64)>, Seq<(u64, Seq<u8>)>), int),
        DecodeError,
    > {
        match RequestId::sp_decode(s, i) {
            Err(e) => Err(e),
            Ok((request_id, j)) => match sp_table(s, j) {
                Err(e) => Err(e),
                Ok(((vars, bytes), j2)) => Ok(((request_id, vars, bytes), j2)),
            },
        }
    }

    /// Read a payload at `*pos`.
    pub fn decode_msg(buf: &[u8], pos: &mut usize, version: Version) -> (r: Result<
        RequestOk,
        DecodeError,
    >)
        requires
            *old(pos) <= buf@.len(),
        ensures
            match r {
                Ok(v) => Self::sp_decode_msg(buf@, *old(pos) as int, version) == Ok::<
                    ((RequestId, Seq<(u64, u64)>, Seq<(u64, Seq<u8>)>), int),
                    DecodeError,
                >(((v.request_id, v.parameters.vars_v(), v.parameters.bytes_v()), *final(pos) as int))
                    && *old(pos) <= *final(pos) <= buf@.len(),
                Err(e) => Self::sp_decode_msg(buf@, *old(pos) as int, version) == Err::<
                    ((RequestId, Seq<(u64, u64)>, Seq<(u64, Seq<u8>)>), int),
                    DecodeError,
                >(e) && *final(pos) == *old(pos),
            },
    {
        let start = *pos;
        let request_id = match RequestId::decode(buf, pos) {
            Ok(v) => v,
            Err(e) => {
                return Err(e);
            },
        };
        let parameters = match MessageParameters::decode(buf, pos) {
            Ok(v) => v,
            Err(e) => {
                *pos = start;
                return Err(e);
            },
        };
        Ok(RequestOk { request_id, parameters })
    }
}

/// The generic error response to a request.
#[derive(Clone, Debug)]
pub struct RequestError {
    pub request_id: RequestId,
    pub error_code: u64,
    pub reason_phrase: String,
}

impl RequestError {
    /// The control message kind of this message.
    pub const ID: u64 = 0x05;

    /// The payload fits on the wire.
    pub open spec fn wf(self) -> bool {
        &&& self.request_id.wf()
        &&& self.error_code <= VARINT_MAX
        &&& vstd::utf8::encode_utf8(self.reason_phrase@).len() <= VARINT_MAX
    }

    /// The wire form of the payload.
    pub open spec fn spec_encode_msg(self, version: Version) -> Seq<u8> {
        self.request_id.spec_encode() + spec_varint(self.error_code) + spec_string(self.reason_phrase@)
    }

    /// Append the payload of this message.
    pub fn encode_msg(&self, buf: &mut Vec<u8>, version: Version)
        requires
            self.wf(),
        ensures
            final(buf)@ == old(buf)@ + self.spec_encode_msg(version),
    {
        self.request_id.encode(buf);
        encode_varint(buf, self.error_code);
        encode_string(buf, self.reason_phrase.as_str());
        assert(buf@ =~= old(buf)@ + self.spec_encode_msg(version));
    }

    /// Decode a payload at cursor `i`: the identifier, the code, and the
    /// UTF-8 bytes of the reason phrase.
    pub open spec fn sp_decode_msg(s: Seq<u8>, i: int, version: Version) -> Result<
        ((RequestId, u64, Seq<u8>), int),
        DecodeError,
    > {
        match RequestId::sp_decode(s, i) {
            Err(e) => Err(e),
            Ok((request_id, j)) => match sp_varint(s, j) {
                Err(e) => Err(e),
                Ok((code, j2)) => match sp_string(s, j2) {
                    Err(e) => Err(e),
                    Ok((reason, j3)) => Ok(((request_id, code, reason), j3)),
                },
            },
        }
    }

    /// Read a payload at `*pos`.
    pub fn decode_msg(buf: &[u8], pos: &mut usize, version: Version) -> (r: Result<
        RequestError,
        DecodeError,
    >)
        requires
            *old(pos) <= buf@.len(),
        ensures
            match r {
                Ok(v) => Self::sp_decode_msg(buf@, *old(pos) as int, version) == Ok::<
                    ((RequestId, u64, Seq<u8>), int),
                    DecodeError,
                >((
                    (v.request_id, v.error_code, vstd::utf8::encode_utf8(v.reason_phrase@)),
                    *final(pos) as int,
                )) && *old(pos) <= *final(pos) <= buf@.len(),
                Err(e) => Self::sp_decode_msg(buf@, *old(pos) as int, version) == Err::<
                    ((RequestId, u64, Seq<u8>), int),
                    DecodeError,
                >(e) && *final(pos) == *old(pos),
            },
    {
        let start = *pos;
        let request_id = match RequestId::decode(buf, pos) {
            Ok(v) => v,
            Err(e) => {
                return Err(e);
            },
        };
        let error_code = match decode_varint(buf, pos) {
            Ok(v) => v,
            Err(e) => {
                *pos = start;
                return Err(e);
            },
        };
        let reason_phrase = match decode_string(buf, pos) {
            Ok(v) => v,
            Err(e) => {
                *pos = start;
                return Err(e);
            },
        };
        Ok(RequestError { request_id, error_code, reason_phrase })
    }
}

} // verus!
