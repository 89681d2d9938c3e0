//! The lite protocol family: draft versions, stream types, and the group
//! stream header.
//!
//! In this family a path travels as a single slash-joined string, and each
//! control message is framed by a varint length.

pub mod announce;
pub mod fetch;
pub mod info;
pub mod probe;
pub mod subscribe;

use vstd::prelude::*;

use crate::coding::{
    decode_string, decode_varint, encode_string, encode_varint, sp_string, sp_varint, spec_string,
    spec_varint, VARINT_MAX,
};
use crate::error::DecodeError;
use crate::path::{spec_join, Path};

verus! {

/// The ALPN string shared by the drafts that negotiate in SETUP.
pub const ALPN: &'static str = "moql";

/// The ALPN string of the draft that negotiates by ALPN alone.
pub const ALPN_03: &'static str = "moq-lite-03";

/// A draft of the lite protocol family.
#[derive(Clone, Copy, Debug, PartialEq, Eq, Hash, Structural)]
pub enum Version {
    Draft01,
    Draft02,
    Draft03,
}

impl Version {
    /// The 32-bit wire identifier of this draft.
    pub open spec fn spec_value(self) -> u64 {
        match self {
            Version::Draft01 => 0xff0dad01,
            Version::Draft02 => 0xff0dad02,
            Version::Draft03 => 0xff0dad03,
        }
    }

    /// The 32-bit wire identifier of this draft.
    pub fn value(self) -> (r: u64)
        ensures
            r == self.spec_value(),
    {
        match self {
            Version::Draft01 => 0xff0dad01,
            Version::Draft02 => 0xff0dad02,
            Version::Draft03 => 0xff0dad03,
        }
    }

    /// The draft with the given wire identifier, if any.
    pub open spec fn spec_from_value(v: u64) -> Option<Version> {
        if v == 0xff0dad01 {
            Some(Version::Draft01)
        } else if v == 0xff0dad02 {
            Some(Version::Draft02)
        } else if v == 0xff0dad03 {
            Some(Version::Draft03)
        } else {
            None
        }
    }

    /// The draft with the given wire identifier, if any.
    pub fn from_value(v: u64) -> (r: Option<Version>)
        ensures
            r == Self::spec_from_value(v),
    {
        if v == 0xff0dad01 {
            Some(Version::Draft01)
        } else if v == 0xff0dad02 {
            Some(Version::Draft02)
        } else if v == 0xff0dad03 {
            Some(Version::Draft03)
        } else {
            None
        }
    }

    /// The coding form of this draft: its wire identifier.
    pub fn coding(self) -> (r: u64)
        ensures
            r == self.spec_value(),
    {
        self.value()
    }
}

/// What a bidirectional control stream carries.
#[derive(Clone, Copy, Debug, PartialEq, Eq, Structural)]
pub enum ControlType {
    Session,
    Announce,
    Subscribe,
    Fetch,
    Probe,
}

impl ControlType {
    /// The wire value of this stream type.
    pub open spec fn spec_value(self) -> u64 {
        match self {
            ControlType::Session => 0,
            ControlType::Announce => 1,
            ControlType::Subscribe => 2,
            ControlType::Fetch => 3,
            ControlType::Probe => 4,
        }
    }

    /// The wire value of this stream type.
    pub fn value(self) -> (r: u64)
        ensures
            r == self.spec_value(),
    {
        match self {
            ControlType::Session => 0,
            ControlType::Announce => 1,
            ControlType::Subscribe => 2,
            ControlType::Fetch => 3,
            ControlType::Probe => 4,
        }
    }

    /// The stream type with the given wire value, if any.
    pub open spec fn spec_from_value(v: u64) -> Option<ControlType> {
        if v == 0 {
            Some(ControlType::Session)
        } else if v == 1 {
            Some(ControlType::Announce)
        } else if v == 2 {
            Some(ControlType::Subscribe)
        } else if v == 3 {
            Some(ControlType::Fetch)
        } else if v == 4 {
            Some(ControlType::Probe)
        } else {
            None
        }
    }

    /// The stream type with the given wire value, if any.
    pub fn from_value(v: u64) -> (r: Option<ControlType>)
        ensures
            r == Self::spec_from_value(v),
    {
        if v == 0 {
            Some(ControlType::Session)
        } else if v == 1 {
            Some(ControlType::Announce)
        } else if v == 2 {
            Some(ControlType::Subscribe)
        } else if v == 3 {
            Some(ControlType::Fetch)
        } else if v == 4 {
            Some(ControlType::Probe)
        } else {
            None
        }
    }
}

/// What a unidirectional data stream carries.
#[derive(Clone, Copy, Debug, PartialEq, Eq, Structural)]
pub enum DataType {
    Group,
}

impl DataType {
    /// The wire value of this stream type.
    pub open spec fn spec_value(self) -> u64 {
        0
    }

    /// The wire value of this stream type.
    pub fn value(self) -> (r: u64)
        ensures
            r == self.spec_value(),
    {
        0
    }

    /// The stream type with the given wire value, if any.
    pub open spec fn spec_from_value(v: u64) -> Option<DataType> {
        if v == 0 {
            Some(DataType::Group)
        } else {
            None
        }
    }

    /// The stream type with the given wire value, if any.
    pub fn from_value(v: u64) -> (r: Option<DataType>)
        ensures
            r == Self::spec_from_value(v),
    {
        if v == 0 {
            Some(DataType::Group)
        } else {
            None
        }
    }
}

/// The header of a group data stream: the subscription it belongs to and
/// the group's sequence number.
#[derive(Clone, Copy, Debug, PartialEq, Eq, Structural)]
pub struct Group {
    pub subscribe: u64,
    pub sequence: u64,
}

impl Group {
    /// The header fits on the wire.
    pub open spec fn wf(self) -> bool {
        self.subscribe <= VARINT_MAX && self.sequence <= VARINT_MAX
    }

    /// The wire form: two varints.
    pub open spec fn spec_encode_msg(self, version: Version) -> Seq<u8> {
        spec_varint(self.subscribe) + spec_varint(self.sequence)
    }

    /// Append the payload of this message.
    pub fn encode_msg(&self, buf: &mut Vec<u8>, version: Version)
        requires
            self.wf(),
        ensures
            final(buf)@ == old(buf)@ + self.spec_encode_msg(version),
    {
        encode_varint(buf, self.subscribe);
        encode_varint(buf, self.sequence);
        assert(buf@ =~= old(buf)@ + self.spec_encode_msg(version));
    }

    /// Decode a payload at cursor `i`.
    pub open spec fn sp_decode_msg(s: Seq<u8>, i: int, version: Version) -> Result<
        (Group, int),
        DecodeError,
    > {
        match sp_varint(s, i) {
            Err(e) => Err(e),
            Ok((subscribe, j)) => match sp_varint(s, j) {
                Err(e) => Err(e),
                Ok((sequence, j2)) => Ok((Group { subscribe, sequence }, j2)),
            },
        }
    }

    /// Read a payload at `*pos`.
    pub fn decode_msg(buf: &[u8], pos: &mut usize, version: Version) -> (r: Result<Group, DecodeError>)
        requires
            *old(pos) <= buf@.len(),
        ensures
            match r {
                Ok(v) => Self::sp_decode_msg(buf@, *old(pos) as int, version) == Ok::<
                    (Group, int),
                    DecodeError,
                >((v, *final(pos) as int)) && *old(pos) <= *final(pos) <= buf@.len(),
                Err(e) => Self::sp_decode_msg(buf@, *old(pos) as int, version) == Err::<
                    (Group, int),
                    DecodeError,
                >(e) && *final(pos) == *old(pos),
            },
    {
        let start = *pos;
        let subscribe = match decode_varint(buf, pos) {
            Ok(v) => v,
            Err(e) => {
                return Err(e);
            },
        };
        let sequence = match decode_varint(buf, pos) {
            Ok(v) => v,
            Err(e) => {
                *pos = start;
                return Err(e);
            },
        };
        Ok(Group { subscribe, sequence })
    }
}

/// A path on the wire in this family: one slash-joined string.
pub open spec fn spec_lite_path(segs: Seq<Seq<char>>) -> Seq<u8> {
    spec_string(spec_join(segs))
}

/// A path fits on a lite wire.
pub open spec fn lite_path_fits(segs: Seq<Seq<char>>) -> bool {
    vstd::utf8::encode_utf8(spec_join(segs)).len() <= VARINT_MAX
}

/// Append the slash-joined form of `path`.
pub fn encode_lite_path(buf: &mut Vec<u8>, path: &Path)
    requires
        lite_path_fits(path@),
    ensures
        final(buf)@ == old(buf)@ + spec_lite_path(path@),
{
    let joined = path.as_str();
    encode_string(buf, joined.as_str());
}

/// Decode a path at cursor `i`: a string, then split on `/`.  The result
/// is the UTF-8 bytes of the joined form.
pub open spec fn sp_lite_path(s: Seq<u8>, i: int) -> Result<(Seq<u8>, int), DecodeError> {
    sp_string(s, i)
}

/// Read a path at `*pos`.
pub fn decode_lite_path(buf: &[u8], pos: &mut usize) -> (r: Result<Path, DecodeError>)
    requires
        *old(pos) <= buf@.len(),
    ensures
        match r {
            Ok(p) => (exists|chars: Seq<char>|
                sp_lite_path(buf@, *old(pos) as int) == Ok::<(Seq<u8>, int), DecodeError>((
                    vstd::utf8::encode_utf8(chars),
                    *final(pos) as int,
                )) && p@ == crate::path::spec_split(chars)) && *old(pos) <= *final(pos) <= buf@.len()
                && p.wf(),
            Err(e) => sp_lite_path(buf@, *old(pos) as int) == Err::<(Seq<u8>, int), DecodeError>(e)
                && *final(pos) == *old(pos),
        },
{
    let st = match decode_string(buf, pos) {
        Ok(v) => v,
        Err(e) => {
            return Err(e);
        },
    };
    let p = Path::new(st.as_str());
    proof {
        let chars = st@;
        assert(sp_lite_path(buf@, *old(pos) as int) == Ok::<(Seq<u8>, int), DecodeError>((
            vstd::utf8::encode_utf8(chars),
            *pos as int,
        )) && p@ == crate::path::spec_split(chars));
    }
    Ok(p)
}

} // verus!
