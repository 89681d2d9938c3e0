//! Messages that subscribe to announcements under a namespace prefix.

use vstd::prelude::*;

use crate::coding::{
    decode_string, decode_varint, encode_string, encode_varint, sp_string, sp_varint, spec_string,
    spec_varint, VARINT_MAX,
};
use crate::error::DecodeError;
use crate::ietf::parameters::{sp_table, Parameters};
use crate::ietf::request::RequestId;
use crate::ietf::{
    decode_namespace, encode_namespace, path_bytes, path_fits, sp_namespace, spec_namespace, Version,
};
use crate::path::Path;

verus! {

/// Asks the peer to stream announcements under a prefix.
#[derive(Clone, Debug)]
pub struct SubscribeNamespace {
    pub request_id: RequestId,
    pub namespace: Path,
    pub subscribe_options: u64,
}

impl SubscribeNamespace {
    /// The control message kind of this message.
    pub const ID: u64 = 0x11;

    /// The payload fits on the wire.
    pub open spec fn wf(self) -> bool {
        self.request_id.wf() && path_fits(self.namespace@) && self.subscribe_options <= VARINT_MAX
    }

    /// The wire form: identifier, prefix, options on the newest draft, and
    /// an empty parameter table.
    pub open spec fn spec_encode_msg(self, version: Version) -> Seq<u8> {
        self.request_id.spec_encode() + spec_namespace(self.namespace@) + (if version is Draft16 {
            spec_varint(self.subscribe_options)
        } else {
            Seq::empty()
        }) + spec_varint(0)
    }

    /// Append the payload of this message.
    pub fn encode_msg(&self, buf: &mut Vec<u8>, version: Version)
        requires
            self.wf(),
        ensures
            final(buf)@ == old(buf)@ + self.spec_encode_msg(version),
    {
        self.request_id.encode(buf);
        encode_namespace(buf, &self.namespace);
        if matches!(version, Version::Draft16) {
            encode_varint(buf, self.subscribe_options);
        }
        encode_varint(buf, 0);
        assert(buf@ =~= old(buf)@ + self.spec_encode_msg(version));
    }

    /// Decode a payload at cursor `i`; a trailing parameter table is read
    /// and dropped.
    pub open spec fn sp_decode_msg(s: Seq<u8>, i: int, version: Version) -> Result<
        ((RequestId, Seq<Seq<u8>>, u64), int),
        DecodeError,
    > {
        match RequestId::sp_decode(s, i) {
            Err(e) => Err(e),
            Ok((request_id, j)) => match sp_namespace(s, j) {
                Err(e) => Err(e),
                Ok((ns, j2)) => {
                    let opts = if version is Draft16 {
                        sp_varint(s, j2)
                    } else {
                        Ok((1u64, j2))
                    };
                    match opts {
                        Err(e) => Err(e),
                        Ok((options, j3)) => match sp_table(s, j3) {
                            Err(e) => Err(e),
                            Ok((_, j4)) => Ok(((request_id, ns, options), j4)),
                        },
                    }
                },
            },
        }
    }

    /// Read a payload at `*pos`.
    pub fn decode_msg(buf: &[u8], pos: &mut usize, version: Version) -> (r: Result<
        SubscribeNamespace,
        DecodeError,
    >)
        requires
            *old(pos) <= buf@.len(),
        ensures
            match r {
                Ok(v) => Self::sp_decode_msg(buf@, *old(pos) as int, version) == Ok::<
                    ((RequestId, Seq<Seq<u8>>, u64), int),
                    DecodeError,
                >(((v.request_id, path_bytes(v.namespace@), v.subscribe_options), *final(pos) as int))
                    && *old(pos) <= *final(pos) <= buf@.len(),
                Err(e) => Self::sp_decode_msg(buf@, *old(pos) as int, version) == Err::<
                    ((RequestId, Seq<Seq<u8>>, u64), int),
                    DecodeError,
                >(e) && *final(pos) == *old(pos),
            },
    {
        let start = *pos;
        let request_id = match RequestId::decode(buf, pos) {
            Ok(v) => v,
            Err(e) => {
                return Err(e);
            },
        };
        let namespace = match decode_namespace(buf, pos) {
            Ok(v) => v,
            Err(e) => {
                *pos = start;
                return Err(e);
            },
        };
        let subscribe_options = if matches!(version, Version::Draft16) {
            match decode_varint(buf, pos) {
                Ok(v) => v,
                Err(e) => {
                    *pos = start;
                    return Err(e);
                },
            }
        } else {
            1
        };
        match Parameters::decode(buf, pos) {
            Ok(_) => {},
            Err(e) => {
                *pos = start;
                return Err(e);
            },
        }
        Ok(SubscribeNamespace { request_id, namespace, subscribe_options })
    }
}

/// Confirms a namespace subscription.
#[derive(Clone, Copy, Debug, PartialEq, Eq, Structural)]
pub struct SubscribeNamespaceOk {
    pub request_id: RequestId,
}

impl SubscribeNamespaceOk {
    /// The control message kind of this message.
    pub const ID: u64 = 0x12;

    /// The payload fits on the wire.
    pub open spec fn wf(self) -> bool {
        self.request_id.wf()
    }

    /// The wire form of the payload.
    pub open spec fn spec_encode_msg(self, version: Version) -> Seq<u8> {
        self.request_id.spec_encode()
    }

    /// Append the payload of this message.
    pub fn encode_msg(&self, buf: &mut Vec<u8>, version: Version)
        requires
            self.wf(),
        ensures
            final(buf)@ == old(buf)@ + self.spec_encode_msg(version),
    {
        self.request_id.encode(buf);
    }

    /// Decode a payload at cursor `i`.
    pub open spec fn sp_decode_msg(s: Seq<u8>, i: int, version: Version) -> Result<
        (SubscribeNamespaceOk, int),
        DecodeError,
    > {
        match RequestId::sp_decode(s, i) {
            Err(e) => Err(e),
            Ok((request_id, j)) => Ok((SubscribeNamespaceOk { request_id }, j)),
        }
    }

    /// Read a payload at `*pos`.
    pub fn decode_msg(buf: &[u8], pos: &mut usize, version: Version) -> (r: Result<
        SubscribeNamespaceOk,
        DecodeError,
    >)
        requires
            *old(pos) <= buf@.len(),
        ensures
            match r {
                Ok(v) => Self::sp_decode_msg(buf@, *old(pos) as int, version) == Ok::<
                    (SubscribeNamespaceOk, int),
                    DecodeError,
                >((v, *final(pos) as int)) && *old(pos) <= *final(pos) <= buf@.len(),
                Err(e) => Self::sp_decode_msg(buf@, *old(pos) as int, version) == Err::<
                    (SubscribeNamespaceOk, int),
                    DecodeError,
                >(e) && *final(pos) == *old(pos),
            },
    {
        match RequestId::decode(buf, pos) {
            Ok(request_id) => Ok(SubscribeNamespaceOk { request_id }),
            Err(e) => Err(e),
        }
    }
}

/// Rejects a namespace subscription.
#[derive(Clone, Debug)]
pub struct SubscribeNamespaceError {
    pub request_id: RequestId,
    pub error_code: u64,
    pub reason_phrase: String,
}

impl SubscribeNamespaceError {
    /// The control message kind of this message.
    pub const ID: u64 = 0x13;

    /// The payload fits on the wire.
    pub open spec fn wf(self) -> bool {
        &&& self.request_id.wf()
        &&& self.error_code <= VARINT_MAX
        &&& vstd::utf8::encode_utf8(self.reason_phrase@).len() <= VARINT_MAX
    }

    /// The wire form of the payload.
    pub open spec fn spec_encode_msg(self, version: Version) -> Seq<u8> {
        self.request_id.spec_encode() + spec_varint(self.error_code) + spec_string(self.reason_phrase@)
    }

    /// Append the payload of this message.
    pub fn encode_msg(&self, buf: &mut Vec<u8>, version: Version)
        requires
            self.wf(),
        ensures
            final(buf)@ == old(buf)@ + self.spec_encode_msg(version),
    {
        self.request_id.encode(buf);
        encode_varint(buf, self.error_code);
        encode_string(buf, self.reason_phrase.as_str());
        assert(buf@ =~= old(buf)@ + self.spec_encode_msg(version));
    }

    /// Decode a payload at cursor `i`.
    pub open spec fn sp_decode_msg(s: Seq<u8>, i: int, version: Version) -> Result<
        ((RequestId, u64, Seq<u8>), int),
        DecodeError,
    > {
        match RequestId::sp_decode(s, i) {
            Err(e) => Err(e),
            Ok((request_id, j)) => match sp_varint(s, j) {
                Err(e) => Err(e),
                Ok((code, j2)) => match sp_string(s, j2) {
                    Err(e) => Err(e),
                    Ok((reason, j3)) => Ok(((request_id, code, reason), j3)),
                },
            },
        }
    }

    /// Read a payload at `*pos`.
    pub fn decode_msg(buf: &[u8], pos: &mut usize, version: Version) -> (r: Result<
        SubscribeNamespaceError,
        DecodeError,
    >)
        requires
            *old(pos) <= buf@.len(),
        ensures
            match r {
                Ok(v) => Self::sp_decode_msg(buf@, *old(pos) as int, version) == Ok::<
                    ((RequestId, u64, Seq<u8>), int),
                    DecodeError,
                >((
                    (v.request_id, v.error_code, vstd::utf8::encode_utf8(v.reason_phrase@)),
                    *final(pos) as int,
                )) && *old(pos) <= *final(pos) <= buf@.len(),
                Err(e) => Self::sp_decode_msg(buf@, *old(pos) as int, version) == Err::<
                    ((RequestId, u64, Seq<u8>), int),
                    DecodeError,
                >(e) && *final(pos) == *old(pos),
            },
    {
        let start = *pos;
        let request_id = match RequestId::decode(buf, pos) {
            Ok(v) => v,
            Err(e) => {
                return Err(e);
            },
        };
        let error_code = match decode_varint(buf, pos) {
            Ok(v) => v,
            Err(e) => {
                *pos = start;
                return Err(e);
            },
        };
        let reason_phrase = match decode_string(buf, pos) {
            Ok(v) => v,
            Err(e) => {
                *pos = start;
                return Err(e);
            },
        };
        Ok(SubscribeNamespaceError { request_id, error_code, reason_phrase })
    }
}

/// Ends a namespace subscription.
#[derive(Clone, Copy, Debug, PartialEq, Eq, Structural)]
pub struct UnsubscribeNamespace {
    pub request_id: RequestId,
}

impl UnsubscribeNamespace {
    /// The control message kind of this message.
    pub const ID: u64 = 0x14;

    /// The payload fits on the wire.
    pub open spec fn wf(self) -> bool {
        self.request_id.wf()
    }

    /// The wire form of the payload.
    pub open spec fn spec_encode_msg(self, version: Version) -> Seq<u8> {
        self.request_id.spec_encode()
    }

    /// Append the payload of this message.
    pub fn encode_msg(&self, buf: &mut Vec<u8>, version: Version)
        requires
            self.wf(),
        ensures
            final(buf)@ == old(buf)@ + self.spec_encode_msg(version),
    {
        self.request_id.encode(buf);
    }

    /// Decode a payload at cursor `i`.
    pub open spec fn sp_decode_msg(s: Seq<u8>, i: int, version: Version) -> Result<
        (UnsubscribeNamespace, int),
        DecodeError,
    > {
        match RequestId::sp_decode(s, i) {
            Err(e) => Err(e),
            Ok((request_id, j)) => Ok((UnsubscribeNamespace { request_id }, j)),
        }
    }

    /// Read a payload at `*pos`.
    pub fn decode_msg(buf: &[u8], pos: &mut usize, version: Version) -> (r: Result<
        UnsubscribeNamespace,
        DecodeError,
    >)
        requires
            *old(pos) <= buf@.len(),
        ensures
            match r {
                Ok(v) => Self::sp_decode_msg(buf@, *old(pos) as int, version) == Ok::<
                    (UnsubscribeNamespace, int),
                    DecodeError,
                >((v, *final(pos) as int)) && *old(pos) <= *final(pos) <= buf@.len(),
                Err(e) => Self::sp_decode_msg(buf@, *old(pos) as int, version) == Err::<
                    (UnsubscribeNamespace, int),
                    DecodeError,
                >(e) && *final(pos) == *old(pos),
            },
    {
        match RequestId::decode(buf, pos) {
            Ok(request_id) => Ok(UnsubscribeNamespace { request_id }),
            Err(e) => Err(e),
        }
    }
}

/// Announces a namespace suffix matching a subscribed prefix.
#[derive(Clone, Debug)]
pub struct Namespace {
    pub suffix: Path,
}

impl Namespace {
    /// The control message kind of this message.
    pub const ID: u64 = 0x08;

    /// The payload fits on the wire.
    pub open spec fn wf(self) -> bool {
        path_fits(self.suffix@)
    }

    /// The wire form of the payload.
    pub open spec fn spec_encode_msg(self, version: Version) -> Seq<u8> {
        spec_namespace(self.suffix@)
    }

    /// Append the payload of this message.
    pub fn encode_msg(&self, buf: &mut Vec<u8>, version: Version)
        requires
            self.wf(),
        ensures
            final(buf)@ == old(buf)@ + self.spec_encode_msg(version),
    {
        encode_namespace(buf, &self.suffix);
    }

    /// Decode a payload at cursor `i`.
    pub open spec fn sp_decode_msg(s: Seq<u8>, i: int, version: Version) -> Result<
        (Seq<Seq<u8>>, int),
        DecodeError,
    > {
        sp_namespace(s, i)
    }

    /// Read a payload at `*pos`.
    pub fn decode_msg(buf: &[u8], pos: &mut usize, version: Version) -> (r: Result<
        Namespace,
        DecodeError,
    >)
        requires
            *old(pos) <= buf@.len(),
        ensures
            match r {
                Ok(v) => Self::sp_decode_msg(buf@, *old(pos) as int, version) == Ok::<
                    (Seq<Seq<u8>>, int),
                    DecodeError,
                >((path_bytes(v.suffix@), *final(pos) as int)) && *old(pos) <= *final(pos) <= buf@.len(),
                Err(e) => Self::sp_decode_msg(buf@, *old(pos) as int, version) == Err::<
                    (Seq<Seq<u8>>, int),
                    DecodeError,
                >(e) && *final(pos) == *old(pos),
            },
    {
        match decode_namespace(buf, pos) {
            Ok(suffix) => Ok(Namespace { suffix }),
            Err(e) => Err(e),
        }
    }
}

/// Retracts a namespace suffix matching a subscribed prefix.
#[derive(Clone, Debug)]
pub struct NamespaceDone {
    pub suffix: Path,
}

impl NamespaceDone {
    /// The control message kind of this message.
    pub const ID: u64 = 0x0e;

    /// The payload fits on the wire.
    pub open spec fn wf(self) -> bool {
        path_fits(self.suffix@)
    }

    /// The wire form of the payload.
    pub open spec fn spec_encode_msg(self, version: Version) -> Seq<u8> {
        spec_namespace(self.suffix@)
    }

    /// Append the payload of this message.
    pub fn encode_msg(&self, buf: &mut Vec<u8>, version: Version)
        requires
            self.wf(),
        ensures
            final(buf)@ == old(buf)@ + self.spec_encode_msg(version),
    {
        encode_namespace(buf, &self.suffix);
    }

    /// Decode a payload at cursor `i`.
    pub open spec fn sp_decode_msg(s: Seq<u8>, i: int, version: Version) -> Result<
        (Seq<Seq<u8>>, int),
        DecodeError,
    > {
        sp_namespace(s, i)
    }

    /// Read a payload at `*pos`.
    pub fn decode_msg(buf: &[u8], pos: &mut usize, version: Version) -> (r: Result<
        NamespaceDone,
        DecodeError,
    >)
        requires
            *old(pos) <= buf@.len(),
        ensures
            match r {
                Ok(v) => Self::sp_decode_msg(buf@, *old(pos) as int, version) == Ok::<
                    (Seq<Seq<u8>>, int),
                    DecodeError,
                >((path_bytes(v.suffix@), *final(pos) as int)) && *old(pos) <= *final(pos) <= buf@.len(),
                Err(e) => Self::sp_decode_msg(buf@, *old(pos) as int, version) == Err::<
                    (Seq<Seq<u8>>, int),
                    DecodeError,
                >(e) && *final(pos) == *old(pos),
            },
    {
        match decode_namespace(buf, pos) {
            Ok(suffix) => Ok(NamespaceDone { suffix }),
            Err(e) => Err(e),
        }
    }
}

} // verus!
