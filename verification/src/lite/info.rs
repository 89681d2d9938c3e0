//! Session information exchanged after setup on the older drafts.

use vstd::prelude::*;

use crate::coding::{decode_varint, encode_varint, sp_varint, spec_varint, VARINT_MAX};
use crate::error::DecodeError;
use crate::lite::Version;

verus! {

/// The session's estimated bitrate, if known.
#[derive(Clone, Copy, Debug, PartialEq, Eq, Structural)]
pub struct SessionInfo {
    pub bitrate: Option<u64>,
}

impl SessionInfo {
    /// The payload fits on the wire; a zero bitrate stands for unknown.
    pub open spec fn wf(self) -> bool {
        match self.bitrate {
            None => true,
            Some(b) => 0 < b <= VARINT_MAX,
        }
    }

    /// The wire form: the bitrate, zero when unknown.
    pub open spec fn spec_encode_msg(self, version: Version) -> Seq<u8> {
        match self.bitrate {
            None => spec_varint(0),
            Some(b) => spec_varint(b),
        }
    }

    /// Append the payload of this message.  The newest draft replaces it
    /// with probes.
    pub fn encode_msg(&self, buf: &mut Vec<u8>, version: Version)
        requires
            self.wf(),
            !(version is Draft03),
        ensures
            final(buf)@ == old(buf)@ + self.spec_encode_msg(version),
    {
        match self.bitrate {
            None => encode_varint(buf, 0),
            Some(b) => encode_varint(buf, b),
        }
    }

    /// Decode a payload at cursor `i`.
    pub open spec fn sp_decode_msg(s: Seq<u8>, i: int, version: Version) -> Result<
        (SessionInfo, int),
        DecodeError,
    > {
        match sp_varint(s, i) {
            Err(e) => Err(e),
            Ok((v, j)) => {
                if v == 0 {
                    Ok((SessionInfo { bitrate: None }, j))
                } else {
                    Ok((SessionInfo { bitrate: Some(v) }, j))
                }
            },
        }
    }

    /// Read a payload at `*pos`.
    pub fn decode_msg(buf: &[u8], pos: &mut usize, version: Version) -> (r: Result<
        SessionInfo,
        DecodeError,
    >)
        requires
            *old(pos) <= buf@.len(),
            !(version is Draft03),
        ensures
            match r {
                Ok(v) => Self::sp_decode_msg(buf@, *old(pos) as int, version) == Ok::<
                    (SessionInfo, int),
                    DecodeError,
                >((v, *final(pos) as int)) && *old(pos) <= *final(pos) <= buf@.len(),
                Err(e) => Self::sp_decode_msg(buf@, *old(pos) as int, version) == Err::<
                    (SessionInfo, int),
                    DecodeError,
                >(e) && *final(pos) == *old(pos),
            },
    {
        match decode_varint(buf, pos) {
            Ok(v) => {
                if v == 0 {
                    Ok(SessionInfo { bitrate: None })
                } else {
                    Ok(SessionInfo { bitrate: Some(v) })
                }
            },
            Err(e) => Err(e),
        }
    }
}

} // verus!
