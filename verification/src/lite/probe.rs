//! Bitrate probes of the newest lite draft.

use vstd::prelude::*;

use crate::coding::{decode_varint, encode_varint, sp_varint, spec_varint, VARINT_MAX};
use crate::error::DecodeError;
use crate::lite::Version;

verus! {

/// A probe of the available bitrate.
#[derive(Clone, Copy, Debug, PartialEq, Eq, Structural)]
pub struct Probe {
    pub bitrate: u64,
}

impl Probe {
    /// The payload fits on the wire.
    pub open spec fn wf(self) -> bool {
        self.bitrate <= VARINT_MAX
    }

    /// The wire form of the payload.
    pub open spec fn spec_encode_msg(self, version: Version) -> Seq<u8> {
        spec_varint(self.bitrate)
    }

    /// Append the payload of this message.  Only the newest draft
    /// carries it.
    pub fn encode_msg(&self, buf: &mut Vec<u8>, version: Version)
        requires
            self.wf(),
            version is Draft03,
        ensures
            final(buf)@ == old(buf)@ + self.spec_encode_msg(version),
    {
        encode_varint(buf, self.bitrate);
    }

    /// Decode a payload at cursor `i`.
    pub open spec fn sp_decode_msg(s: Seq<u8>, i: int, version: Version) -> Result<
        (Probe, int),
        DecodeError,
    > {
        match sp_varint(s, i) {
            Err(e) => Err(e),
            Ok((bitrate, j)) => Ok((Probe { bitrate }, j)),
        }
    }

    /// Read a payload at `*pos`.
    pub fn decode_msg(buf: &[u8], pos: &mut usize, version: Version) -> (r: Result<Probe, DecodeError>)
        requires
            *old(pos) <= buf@.len(),
            version is Draft03,
        ensures
            match r {
                Ok(v) => Self::sp_decode_msg(buf@, *old(pos) as int, version) == Ok::<
                    (Probe, int),
                    DecodeError,
                >((v, *final(pos) as int)) && *old(pos) <= *final(pos) <= buf@.len(),
                Err(e) => Self::sp_decode_msg(buf@, *old(pos) as int, version) == Err::<
                    (Probe, int),
                    DecodeError,
                >(e) && *final(pos) == *old(pos),
            },
    {
        match decode_varint(buf, pos) {
            Ok(bitrate) => Ok(Probe { bitrate }),
            Err(e) => Err(e),
        }
    }
}

} // verus!
