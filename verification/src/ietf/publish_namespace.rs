//! Messages that announce and retract the availability of a namespace.

use vstd::prelude::*;

use crate::coding::{
    decode_string, decode_varint, encode_string, encode_varint, sp_string, sp_varint, spec_string,
    spec_varint, VARINT_MAX,
};
use crate::error::DecodeError;
use crate::ietf::parameters::sp_table;
use crate::ietf::request::RequestId;
use crate::ietf::{
    decode_namespace, encode_namespace, path_bytes, path_fits, sp_namespace, spec_namespace, Version,
};
use crate::path::Path;

verus! {

/// Announces that a namespace is being published.
#[derive(Clone, Debug)]
pub struct PublishNamespace {
    pub request_id: RequestId,
    pub track_namespace: Path,
}

impl PublishNamespace {
    /// The control message kind of this message.
    pub const ID: u64 = 0x06;

    /// The payload fits on the wire.
    pub open spec fn wf(self) -> bool {
        self.request_id.wf() && path_fits(self.track_namespace@)
    }

    /// The wire form: the identifier, the namespace, and an empty
    /// parameter table.
    pub open spec fn spec_encode_msg(self, version: Version) -> Seq<u8> {
        self.request_id.spec_encode() + spec_namespace(self.track_namespace@) + spec_varint(0)
    }

    /// Append the payload of this message.
    pub fn encode_msg(&self, buf: &mut Vec<u8>, version: Version)
        requires
            self.wf(),
        ensures
            final(buf)@ == old(buf)@ + self.spec_encode_msg(version),
    {
        self.request_id.encode(buf);
        encode_namespace(buf, &self.track_namespace);
        encode_varint(buf, 0);
        assert(buf@ =~= old(buf)@ + self.spec_encode_msg(version));
    }

    /// Decode a payload at cursor `i`: the identifier and the namespace
    /// segments; a trailing parameter table is read and dropped.
    pub open spec fn sp_decode_msg(s: Seq<u8>, i: int, version: Version) -> Result<
        ((RequestId, Seq<Seq<u8>>), int),
        DecodeError,
    > {
        match RequestId::sp_decode(s, i) {
            Err(e) => Err(e),
            Ok((request_id, j)) => match sp_namespace(s, j) {
                Err(e) => Err(e),
                Ok((ns, j2)) => match sp_table(s, j2) {
                    Err(e) => Err(e),
                    Ok((_, j3)) => Ok(((request_id, ns), j3)),
                },
            },
        }
    }

    /// Read a payload at `*pos`.
    pub fn decode_msg(buf: &[u8], pos: &mut usize, version: Version) -> (r: Result<
        PublishNamespace,
        DecodeError,
    >)
        requires
            *old(pos) <= buf@.len(),
        ensures
            match r {
                Ok(v) => Self::sp_decode_msg(buf@, *old(pos) as int, version) == Ok::<
                    ((RequestId, Seq<Seq<u8>>), int),
                    DecodeError,
                >(((v.request_id, path_bytes(v.track_namespace@)), *final(pos) as int)) && *old(pos)
                    <= *final(pos) <= buf@.len(),
                Err(e) => Self::sp_decode_msg(buf@, *old(pos) as int, version) == Err::<
                    ((RequestId, Seq<Seq<u8>>), int),
                    DecodeError,
                >(e) && *final(pos) == *old(pos),
            },
    {
        let start = *pos;
        let request_id = match RequestId::decode(buf, pos) {
            Ok(v) => v,
            Err(e) => {
                return Err(e);
            },
        };
        let track_namespace = match decode_namespace(buf, pos) {
            Ok(v) => v,
            Err(e) => {
                *pos = start;
                return Err(e);
            },
        };
        match crate::ietf::parameters::Parameters::decode(buf, pos) {
            Ok(_) => {},
            Err(e) => {
                *pos = start;
                return Err(e);
            },
        }
        Ok(PublishNamespace { request_id, track_namespace })
    }
}

/// Confirms a namespace announcement.
#[derive(Clone, Copy, Debug, PartialEq, Eq, Structural)]
pub struct PublishNamespaceOk {
    pub request_id: RequestId,
}

impl PublishNamespaceOk {
    /// The control message kind of this message.
    pub const ID: u64 = 0x07;

    /// The payload fits on the wire.
    pub open spec fn wf(self) -> bool {
        self.request_id.wf()
    }

    /// The wire form of the payload.
    pub open spec fn spec_encode_msg(self, version: Version) -> Seq<u8> {
        self.request_id.spec_encode()
    }

    /// Append the payload of this message.
    pub fn encode_msg(&self, buf: &mut Vec<u8>, version: Version)
        requires
            self.wf(),
        ensures
            final(buf)@ == old(buf)@ + self.spec_encode_msg(version),
    {
        self.request_id.encode(buf);
    }

    /// Decode a payload at cursor `i`.
    pub open spec fn sp_decode_msg(s: Seq<u8>, i: int, version: Version) -> Result<
        (PublishNamespaceOk, int),
        DecodeError,
    > {
        match RequestId::sp_decode(s, i) {
            Err(e) => Err(e),
            Ok((request_id, j)) => Ok((PublishNamespaceOk { request_id }, j)),
        }
    }

    /// Read a payload at `*pos`.
    pub fn decode_msg(buf: &[u8], pos: &mut usize, version: Version) -> (r: Result<
        PublishNamespaceOk,
        DecodeError,
    >)
        requires
            *old(pos) <= buf@.len(),
        ensures
            match r {
                Ok(v) => Self::sp_decode_msg(buf@, *old(pos) as int, version) == Ok::<
                    (PublishNamespaceOk, int),
                    DecodeError,
                >((v, *final(pos) as int)) && *old(pos) <= *final(pos) <= buf@.len(),
                Err(e) => Self::sp_decode_msg(buf@, *old(pos) as int, version) == Err::<
                    (PublishNamespaceOk, int),
                    DecodeError,
                >(e) && *final(pos) == *old(pos),
            },
    {
        match RequestId::decode(buf, pos) {
            Ok(request_id) => Ok(PublishNamespaceOk { request_id }),
            Err(e) => Err(e),
        }
    }
}

/// Rejects a namespace announcement.
#[derive(Clone, Debug)]
pub struct PublishNamespaceError {
    pub request_id: RequestId,
    pub error_code: u64,
    pub reason_phrase: String,
}

impl PublishNamespaceError {
    /// The control message kind of this message.
    pub const ID: u64 = 0x08;

    /// The payload fits on the wire.
    pub open spec fn wf(self) -> bool {
        &&& self.request_id.wf()
        &&& self.error_code <= VARINT_MAX
        &&& vstd::utf8::encode_utf8(self.reason_phrase@).len() <= VARINT_MAX
    }

    /// The wire form of the payload.
    pub open spec fn spec_encode_msg(self, version: Version) -> Seq<u8> {
        self.request_id.spec_encode() + spec_varint(self.error_code) + spec_string(self.reason_phrase@)
    }

    /// Append the payload of this message.
    pub fn encode_msg(&self, buf: &mut Vec<u8>, version: Version)
        requires
            self.wf(),
        ensures
            final(buf)@ == old(buf)@ + self.spec_encode_msg(version),
    {
        self.request_id.encode(buf);
        encode_varint(buf, self.error_code);
        encode_string(buf, self.reason_phrase.as_str());
        assert(buf@ =~= old(buf)@ + self.spec_encode_msg(version));
    }

    /// Decode a payload at cursor `i`.
    pub open spec fn sp_decode_msg(s: Seq<u8>, i: int, version: Version) -> Result<
        ((RequestId, u64, Seq<u8>), int),
        DecodeError,
    > {
        match RequestId::sp_decode(s, i) {
            Err(e) => Err(e),
            Ok((request_id, j)) => match sp_varint(s, j) {
                Err(e) => Err(e),
                Ok((code, j2)) => match sp_string(s, j2) {
                    Err(e) => Err(e),
                    Ok((reason, j3)) => Ok(((request_id, code, reason), j3)),
                },
            },
        }
    }

    /// Read a payload at `*pos`.
    pub fn decode_msg(buf: &[u8], pos: &mut usize, version: Version) -> (r: Result<
        PublishNamespaceError,
        DecodeError,
    >)
        requires
            *old(pos) <= buf@.len(),
        ensures
            match r {
                Ok(v) => Self::sp_decode_msg(buf@, *old(pos) as int, version) == Ok::<
                    ((RequestId, u64, Seq<u8>), int),
                    DecodeError,
                >((
                    (v.request_id, v.error_code, vstd::utf8::encode_utf8(v.reason_phrase@)),
                    *final(pos) as int,
                )) && *old(pos) <= *final(pos) <= buf@.len(),
                Err(e) => Self::sp_decode_msg(buf@, *old(pos) as int, version) == Err::<
                    ((RequestId, u64, Seq<u8>), int),
                    DecodeError,
                >(e) && *final(pos) == *old(pos),
            },
    {
        let start = *pos;
        let request_id = match RequestId::decode(buf, pos) {
            Ok(v) => v,
            Err(e) => {
                return Err(e);
            },
        };
        let error_code = match decode_varint(buf, pos) {
            Ok(v) => v,
            Err(e) => {
                *pos = start;
                return Err(e);
            },
        };
        let reason_phrase = match decode_string(buf, pos) {
            Ok(v) => v,
            Err(e) => {
                *pos = start;
                return Err(e);
            },
        };
        Ok(PublishNamespaceError { request_id, error_code, reason_phrase })
    }
}

/// Withdraws a published namespace.  Early drafts name the namespace;
/// the newest names the original request instead.
#[derive(Clone, Debug)]
pub struct PublishNamespaceDone {
    pub track_namespace: Path,
    pub request_id: RequestId,
}

impl PublishNamespaceDone {
    /// The control message kind of this message.
    pub const ID: u64 = 0x09;

    /// The payload fits on the wire.
    pub open spec fn wf(self) -> bool {
        self.request_id.wf() && path_fits(self.track_namespace@)
    }

    /// The wire form of the payload.
    pub open spec fn spec_encode_msg(self, version: Version) -> Seq<u8> {
        match version {
            Version::Draft14 | Version::Draft15 => spec_namespace(self.track_namespace@),
            Version::Draft16 => self.request_id.spec_encode(),
        }
    }

    /// Append the payload of this message.
    pub fn encode_msg(&self, buf: &mut Vec<u8>, version: Version)
        requires
            self.wf(),
        ensures
            final(buf)@ == old(buf)@ + self.spec_encode_msg(version),
    {
        match version {
            Version::Draft14 | Version::Draft15 => {
                encode_namespace(buf, &self.track_namespace);
            },
            Version::Draft16 => {
                self.request_id.encode(buf);
            },
        }
    }

    /// Decode a payload at cursor `i`: the namespace segments or the
    /// request identifier, by version.
    pub open spec fn sp_decode_msg(s: Seq<u8>, i: int, version: Version) -> Result<
        ((RequestId, Seq<Seq<u8>>), int),
        DecodeError,
    > {
        match version {
            Version::Draft14 | Version::Draft15 => match sp_namespace(s, i) {
                Err(e) => Err(e),
                Ok((ns, j)) => Ok(((RequestId(0), ns), j)),
            },
            Version::Draft16 => match RequestId::sp_decode(s, i) {
                Err(e) => Err(e),
                Ok((request_id, j)) => Ok(((request_id, Seq::empty()), j)),
            },
        }
    }

    /// Read a payload at `*pos`.
    pub fn decode_msg(buf: &[u8], pos: &mut usize, version: Version) -> (r: Result<
        PublishNamespaceDone,
        DecodeError,
    >)
        requires
            *old(pos) <= buf@.len(),
        ensures
            match r {
                Ok(v) => Self::sp_decode_msg(buf@, *old(pos) as int, version) == Ok::<
                    ((RequestId, Seq<Seq<u8>>), int),
                    DecodeError,
                >(((v.request_id, path_bytes(v.track_namespace@)), *final(pos) as int)) && *old(pos)
                    <= *final(pos) <= buf@.len(),
                Err(e) => Self::sp_decode_msg(buf@, *old(pos) as int, version) == Err::<
                    ((RequestId, Seq<Seq<u8>>), int),
                    DecodeError,
                >(e) && *final(pos) == *old(pos),
            },
    {
        match version {
            Version::Draft14 | Version::Draft15 => {
                let track_namespace = match decode_namespace(buf, pos) {
                    Ok(v) => v,
                    Err(e) => {
                        return Err(e);
                    },
                };
                Ok(PublishNamespaceDone { track_namespace, request_id: RequestId(0) })
            },
            Version::Draft16 => {
                let request_id = match RequestId::decode(buf, pos) {
                    Ok(v) => v,
                    Err(e) => {
                        return Err(e);
                    },
                };
                let track_namespace = Path::empty();
                proof {
                    assert(path_bytes(track_namespace@) =~= Seq::<Seq<u8>>::empty());
                }
                Ok(PublishNamespaceDone { track_namespace, request_id })
            },
        }
    }
}

/// Cancels a namespace announcement with a reason.
#[derive(Clone, Debug)]
pub struct PublishNamespaceCancel {
    pub track_namespace: Path,
    pub request_id: RequestId,
    pub error_code: u64,
    pub reason_phrase: String,
}

impl PublishNamespaceCancel {
    /// The control message kind of this message.
    pub const ID: u64 = 0x0c;

    /// The payload fits on the wire.
    pub open spec fn wf(self) -> bool {
        &&& self.request_id.wf()
        &&& path_fits(self.track_namespace@)
        &&& self.error_code <= VARINT_MAX
        &&& vstd::utf8::encode_utf8(self.reason_phrase@).len() <= VARINT_MAX
    }

    /// The wire form of the payload.
    pub open spec fn spec_encode_msg(self, version: Version) -> Seq<u8> {
        (match version {
            Version::Draft14 | Version::Draft15 => spec_namespace(self.track_namespace@),
            Version::Draft16 => self.request_id.spec_encode(),
        }) + spec_varint(self.error_code) + spec_string(self.reason_phrase@)
    }

    /// Append the payload of this message.
    pub fn encode_msg(&self, buf: &mut Vec<u8>, version: Version)
        requires
            self.wf(),
        ensures
            final(buf)@ == old(buf)@ + self.spec_encode_msg(version),
    {
        match version {
            Version::Draft14 | Version::Draft15 => {
                encode_namespace(buf, &self.track_namespace);
            },
            Version::Draft16 => {
                self.request_id.encode(buf);
            },
        }
        encode_varint(buf, self.error_code);
        encode_string(buf, self.reason_phrase.as_str());
        assert(buf@ =~= old(buf)@ + self.spec_encode_msg(version));
    }

    /// Decode a payload at cursor `i`.
    pub open spec fn sp_decode_msg(s: Seq<u8>, i: int, version: Version) -> Result<
        ((RequestId, Seq<Seq<u8>>, u64, Seq<u8>), int),
        DecodeError,
    > {
        let head = match version {
            Version::Draft14 | Version::Draft15 => match sp_namespace(s, i) {
                Err(e) => Err(e),
                Ok((ns, j)) => Ok(((RequestId(0), ns), j)),
            },
            Version::Draft16 => match RequestId::sp_decode(s, i) {
                Err(e) => Err(e),
                Ok((request_id, j)) => Ok(((request_id, Seq::<Seq<u8>>::empty()), j)),
            },
        };
        match head {
            Err(e) => Err(e),
            Ok(((request_id, ns), j)) => match sp_varint(s, j) {
                Err(e) => Err(e),
                Ok((code, j2)) => match sp_string(s, j2) {
                    Err(e) => Err(e),
                    Ok((reason, j3)) => Ok(((request_id, ns, code, reason), j3)),
                },
            },
        }
    }

    /// Read a payload at `*pos`.
    pub fn decode_msg(buf: &[u8], pos: &mut usize, version: Version) -> (r: Result<
        PublishNamespaceCancel,
        DecodeError,
    >)
        requires
            *old(pos) <= buf@.len(),
        ensures
            match r {
                Ok(v) => Self::sp_decode_msg(buf@, *old(pos) as int, version) == Ok::<
                    ((RequestId, Seq<Seq<u8>>, u64, Seq<u8>), int),
                    DecodeError,
                >((
                    (
                        v.request_id,
                        path_bytes(v.track_namespace@),
                        v.error_code,
                        vstd::utf8::encode_utf8(v.reason_phrase@),
                    ),
                    *final(pos) as int,
                )) && *old(pos) <= *final(pos) <= buf@.len(),
                Err(e) => Self::sp_decode_msg(buf@, *old(pos) as int, version) == Err::<
                    ((RequestId, Seq<Seq<u8>>, u64, Seq<u8>), int),
                    DecodeError,
                >(e) && *final(pos) == *old(pos),
            },
    {
        let start = *pos;
        let (track_namespace, request_id) = match version {
            Version::Draft14 | Version::Draft15 => {
                let track_namespace = match decode_namespace(buf, pos) {
                    Ok(v) => v,
                    Err(e) => {
                        return Err(e);
                    },
                };
                (track_namespace, RequestId(0))
            },
            Version::Draft16 => {
                let request_id = match RequestId::decode(buf, pos) {
                    Ok(v) => v,
                    Err(e) => {
                        return Err(e);
                    },
                };
                let p = Path::empty();
                proof {
                    assert(path_bytes(p@) =~= Seq::<Seq<u8>>::empty());
                }
                (p, request_id)
            },
        };
        let error_code = match decode_varint(buf, pos) {
            Ok(v) => v,
            Err(e) => {
                *pos = start;
                return Err(e);
            },
        };
        let reason_phrase = match decode_string(buf, pos) {
            Ok(v) => v,
            Err(e) => {
                *pos = start;
                return Err(e);
            },
        };
        Ok(PublishNamespaceCancel { track_namespace, request_id, error_code, reason_phrase })
    }
}

} // verus!
