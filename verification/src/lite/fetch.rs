//! The fetch message of the newest lite draft: requesting one specific
//! group of a track.

use vstd::prelude::*;

use crate::coding::{
    decode_string, decode_u8, decode_varint, encode_string, encode_u8, encode_varint, sp_string, sp_u8,
    sp_varint, spec_string, spec_u8, spec_varint, VARINT_MAX,
};
use crate::error::DecodeError;
use crate::lite::{
    decode_lite_path, encode_lite_path, lite_path_fits, sp_lite_path, spec_lite_path, Version,
};
use crate::path::{spec_split, Path};

verus! {

/// Asks the publisher for one specific group of a track.
#[derive(Clone, Debug)]
pub struct Fetch {
    pub broadcast: Path,
    pub track: String,
    pub priority: u8,
    pub group: u64,
}

impl Fetch {
    /// The payload fits on the wire.
    pub open spec fn wf(self) -> bool {
        &&& lite_path_fits(self.broadcast@)
        &&& vstd::utf8::encode_utf8(self.track@).len() <= VARINT_MAX
        &&& self.group <= VARINT_MAX
    }

    /// The wire form of the payload.
    pub open spec fn spec_encode_msg(self, version: Version) -> Seq<u8> {
        spec_lite_path(self.broadcast@) + spec_string(self.track@) + spec_u8(self.priority) + spec_varint(
            self.group,
        )
    }

    /// Append the payload of this message.  Only the newest draft
    /// carries it.
    pub fn encode_msg(&self, buf: &mut Vec<u8>, version: Version)
        requires
            self.wf(),
            version is Draft03,
        ensures
            final(buf)@ == old(buf)@ + self.spec_encode_msg(version),
    {
        encode_lite_path(buf, &self.broadcast);
        encode_string(buf, self.track.as_str());
        encode_u8(buf, self.priority);
        encode_varint(buf, self.group);
        assert(buf@ =~= old(buf)@ + self.spec_encode_msg(version));
    }

    /// Decode a payload at cursor `i`.
    pub open spec fn sp_decode_msg(s: Seq<u8>, i: int, version: Version) -> Result<
        ((Seq<u8>, Seq<u8>, u8, u64), int),
        DecodeError,
    > {
        match sp_lite_path(s, i) {
            Err(e) => Err(e),
            Ok((bp, j)) => match sp_string(s, j) {
                Err(e) => Err(e),
                Ok((track, j2)) => match sp_u8(s, j2) {
                    Err(e) => Err(e),
                    Ok((prio, j3)) => match sp_varint(s, j3) {
                        Err(e) => Err(e),
                        Ok((group, j4)) => Ok(((bp, track, prio, group), j4)),
                    },
                },
            },
        }
    }

    /// Read a payload at `*pos`.
    pub fn decode_msg(buf: &[u8], pos: &mut usize, version: Version) -> (r: Result<Fetch, DecodeError>)
        requires
            *old(pos) <= buf@.len(),
            version is Draft03,
        ensures
            match r {
                Ok(v) => (exists|chars: Seq<char>|
                    Self::sp_decode_msg(buf@, *old(pos) as int, version) == Ok::<
                        ((Seq<u8>, Seq<u8>, u8, u64), int),
                        DecodeError,
                    >((
                        (
                            vstd::utf8::encode_utf8(chars),
                            vstd::utf8::encode_utf8(v.track@),
                            v.priority,
                            v.group,
                        ),
                        *final(pos) as int,
                    )) && v.broadcast@ == spec_split(chars)) && *old(pos) <= *final(pos) <= buf@.len(),
                Err(e) => Self::sp_decode_msg(buf@, *old(pos) as int, version) == Err::<
                    ((Seq<u8>, Seq<u8>, u8, u64), int),
                    DecodeError,
                >(e) && *final(pos) == *old(pos),
            },
    {
        let start = *pos;
        let broadcast = match decode_lite_path(buf, pos) {
            Ok(v) => v,
            Err(e) => {
                return Err(e);
            },
        };
        let track = match decode_string(buf, pos) {
            Ok(v) => v,
            Err(e) => {
                *pos = start;
                return Err(e);
            },
        };
        let priority = match decode_u8(buf, pos) {
            Ok(v) => v,
            Err(e) => {
                *pos = start;
                return Err(e);
            },
        };
        let group = match decode_varint(buf, pos) {
            Ok(v) => v,
            Err(e) => {
                *pos = start;
                return Err(e);
            },
        };
        Ok(Fetch { broadcast, track, priority, group })
    }
}

} // verus!
