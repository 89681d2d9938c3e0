//! Group data streams: the flag set carried in the stream type and the
//! group header.

use vstd::prelude::*;

use crate::coding::{
    decode_u8, decode_varint, encode_u8, encode_varint, sp_u8, sp_varint, spec_u8, spec_varint,
    VARINT_MAX,
};
use crate::error::DecodeError;

verus! {

/// The flag set encoded in a group stream's type value.
#[derive(Clone, Debug, PartialEq, Eq, Structural)]
pub struct GroupFlags {
    /// The group carries extension headers.
    pub has_extensions: bool,
    /// An explicit subgroup identifier is on the wire.
    pub has_subgroup: bool,
    /// The first object identifier doubles as the subgroup identifier.
    /// Not compatible with `has_subgroup`.
    pub has_subgroup_object: bool,
    /// Closing the stream marks the end of the group.
    pub has_end: bool,
    /// The header carries an explicit priority byte; when absent, the
    /// priority of the control message is inherited.
    pub has_priority: bool,
}

/// The lowest stream type with an explicit priority.
pub const GROUP_FLAGS_START: u64 = 0x10;

/// The highest stream type with an explicit priority.
pub const GROUP_FLAGS_END: u64 = 0x1d;

/// The lowest stream type without a priority byte.
pub const GROUP_FLAGS_START_NO_PRIORITY: u64 = 0x30;

/// The highest stream type without a priority byte.
pub const GROUP_FLAGS_END_NO_PRIORITY: u64 = 0x3d;

impl GroupFlags {
    /// The two subgroup modes are mutually exclusive.
    pub open spec fn wf(self) -> bool {
        !(self.has_subgroup && self.has_subgroup_object)
    }

    /// The stream type value that carries this flag set.
    pub open spec fn spec_encode(self) -> u64 {
        (((if self.has_priority {
            GROUP_FLAGS_START
        } else {
            GROUP_FLAGS_START_NO_PRIORITY
        }) + (if self.has_extensions {
            1int
        } else {
            0int
        }) + (if self.has_subgroup_object {
            2int
        } else {
            0int
        }) + (if self.has_subgroup {
            4int
        } else {
            0int
        }) + (if self.has_end {
            8int
        } else {
            0int
        })) as u64)
    }

    /// The stream type value that carries this flag set.
    pub fn encode(&self) -> (r: u64)
        requires
            self.wf(),
        ensures
            r == self.spec_encode(),
    {
        let base: u64 = if self.has_priority {
            GROUP_FLAGS_START
        } else {
            GROUP_FLAGS_START_NO_PRIORITY
        };
        let mut id: u64 = base;
        if self.has_extensions {
            id = id + 1;
        }
        if self.has_subgroup_object {
            id = id + 2;
        }
        if self.has_subgroup {
            id = id + 4;
        }
        if self.has_end {
            id = id + 8;
        }
        id
    }

    /// The flag set a stream type value carries, if it is in range and
    /// consistent.
    pub open spec fn spec_decode(id: u64) -> Result<GroupFlags, DecodeError> {
        let has_priority = GROUP_FLAGS_START <= id <= GROUP_FLAGS_END;
        let base_id = if has_priority {
            id
        } else {
            (id - 0x20) as u64
        };
        if !(GROUP_FLAGS_START <= id <= GROUP_FLAGS_END || GROUP_FLAGS_START_NO_PRIORITY <= id
            <= GROUP_FLAGS_END_NO_PRIORITY) {
            Err(DecodeError::InvalidValue)
        } else {
            let has_extensions = base_id % 2 == 1;
            let has_subgroup_object = (base_id / 2) % 2 == 1;
            let has_subgroup = (base_id / 4) % 2 == 1;
            let has_end = (base_id / 8) % 2 == 1;
            if has_subgroup && has_subgroup_object {
                Err(DecodeError::InvalidValue)
            } else {
                Ok(GroupFlags { has_extensions, has_subgroup, has_subgroup_object, has_end, has_priority })
            }
        }
    }

    /// The flag set of a stream type value.
    pub fn decode(id: u64) -> (r: Result<GroupFlags, DecodeError>)
        ensures
            r == Self::spec_decode(id),
            r matches Ok(f) ==> f.wf(),
    {
        let has_priority = GROUP_FLAGS_START <= id && id <= GROUP_FLAGS_END;
        if !(GROUP_FLAGS_START <= id && id <= GROUP_FLAGS_END) && !(GROUP_FLAGS_START_NO_PRIORITY <= id
            && id <= GROUP_FLAGS_END_NO_PRIORITY) {
            return Err(DecodeError::InvalidValue);
        }
        let base_id = if has_priority {
            id
        } else {
            id - 0x20
        };
        let has_extensions = base_id % 2 == 1;
        let has_subgroup_object = (base_id / 2) % 2 == 1;
        let has_subgroup = (base_id / 4) % 2 == 1;
        let has_end = (base_id / 8) % 2 == 1;
        if has_subgroup && has_subgroup_object {
            return Err(DecodeError::InvalidValue);
        }
        Ok(GroupFlags { has_extensions, has_subgroup, has_subgroup_object, has_end, has_priority })
    }
}

impl Default for GroupFlags {
    /// The default flags: an end marker and an explicit priority.
    fn default() -> (r: GroupFlags)
        ensures
            r == (GroupFlags {
                has_extensions: false,
                has_subgroup: false,
                has_subgroup_object: false,
                has_end: true,
                has_priority: true,
            }),
    {
        GroupFlags {
            has_extensions: false,
            has_subgroup: false,
            has_subgroup_object: false,
            has_end: true,
            has_priority: true,
        }
    }
}

/// Decoding an encoded flag set yields the flags back.
pub proof fn lemma_group_flags_round_trip(f: GroupFlags)
    requires
        f.wf(),
    ensures
        GroupFlags::spec_decode(f.spec_encode()) == Ok::<GroupFlags, DecodeError>(f),
{
}

/// The header of a group data stream.
#[derive(Clone, Debug, PartialEq, Eq, Structural)]
pub struct GroupHeader {
    pub track_alias: u64,
    pub group_id: u64,
    pub sub_group_id: u64,
    pub publisher_priority: u8,
    pub flags: GroupFlags,
}

impl GroupHeader {
    /// The header fits on the wire: without an explicit subgroup the
    /// subgroup identifier must be zero.
    pub open spec fn wf(self) -> bool {
        &&& self.track_alias <= VARINT_MAX
        &&& self.group_id <= VARINT_MAX
        &&& self.sub_group_id <= VARINT_MAX
        &&& self.flags.wf()
        &&& !self.flags.has_subgroup ==> self.sub_group_id == 0
    }

    /// The wire form: the flags as a varint, the alias and group, then the
    /// optional subgroup and priority.
    pub open spec fn spec_encode(self) -> Seq<u8> {
        spec_varint(self.flags.spec_encode()) + spec_varint(self.track_alias) + spec_varint(self.group_id)
            + (if self.flags.has_subgroup {
            spec_varint(self.sub_group_id)
        } else {
            Seq::empty()
        }) + (if self.flags.has_priority {
            spec_u8(self.publisher_priority)
        } else {
            Seq::empty()
        })
    }

    /// Append the wire form of this header.
    pub fn encode(&self, buf: &mut Vec<u8>)
        requires
            self.wf(),
        ensures
            final(buf)@ == old(buf)@ + self.spec_encode(),
    {
        encode_varint(buf, self.flags.encode());
        encode_varint(buf, self.track_alias);
        encode_varint(buf, self.group_id);
        if self.flags.has_subgroup {
            encode_varint(buf, self.sub_group_id);
        }
        if self.flags.has_priority {
            encode_u8(buf, self.publisher_priority);
        }
        assert(buf@ =~= old(buf)@ + self.spec_encode());
    }

    /// Decode a header at cursor `i`.  An absent subgroup reads as zero;
    /// an absent priority reads as 128.
    pub open spec fn sp_decode(s: Seq<u8>, i: int) -> Result<(GroupHeader, int), DecodeError> {
        match sp_varint(s, i) {
            Err(e) => Err(e),
            Ok((fid, j)) => match GroupFlags::spec_decode(fid) {
                Err(e) => Err(e),
                Ok(flags) => match sp_varint(s, j) {
                    Err(e) => Err(e),
                    Ok((track_alias, j2)) => match sp_varint(s, j2) {
                        Err(e) => Err(e),
                        Ok((group_id, j3)) => {
                            let sub = if flags.has_subgroup {
                                sp_varint(s, j3)
                            } else {
                                Ok((0u64, j3))
                            };
                            match sub {
                                Err(e) => Err(e),
                                Ok((sub_group_id, j4)) => {
                                    let prio = if flags.has_priority {
                                        sp_u8(s, j4)
                                    } else {
                                        Ok((128u8, j4))
                                    };
                                    match prio {
                                        Err(e) => Err(e),
                                        Ok((publisher_priority, j5)) => Ok((
                                            GroupHeader {
                                                track_alias,
                                                group_id,
                                                sub_group_id,
                                                publisher_priority,
                                                flags,
                                            },
                                            j5,
                                        )),
                                    }
                                },
                            }
                        },
                    },
                },
            },
        }
    }

    /// Read a header at `*pos`.
    pub fn decode(buf: &[u8], pos: &mut usize) -> (r: Result<GroupHeader, DecodeError>)
        requires
            *old(pos) <= buf@.len(),
        ensures
            match r {
                Ok(v) => Self::sp_decode(buf@, *old(pos) as int) == Ok::<(GroupHeader, int), DecodeError>((
                    v,
                    *final(pos) as int,
                )) && *old(pos) <= *final(pos) <= buf@.len(),
                Err(e) => Self::sp_decode(buf@, *old(pos) as int) == Err::<(GroupHeader, int), DecodeError>(
                    e,
                ) && *final(pos) == *old(pos),
            },
    {
        let start = *pos;
        let fid = match decode_varint(buf, pos) {
            Ok(v) => v,
            Err(e) => {
                return Err(e);
            },
        };
        let flags = match GroupFlags::decode(fid) {
            Ok(v) => v,
            Err(e) => {
                *pos = start;
                return Err(e);
            },
        };
        let track_alias = match decode_varint(buf, pos) {
            Ok(v) => v,
            Err(e) => {
                *pos = start;
                return Err(e);
            },
        };
        let group_id = match decode_varint(buf, pos) {
            Ok(v) => v,
            Err(e) => {
                *pos = start;
                return Err(e);
            },
        };
        let sub_group_id = if flags.has_subgroup {
            match decode_varint(buf, pos) {
                Ok(v) => v,
                Err(e) => {
                    *pos = start;
                    return Err(e);
                },
            }
        } else {
            0
        };
        let publisher_priority = if flags.has_priority {
            match decode_u8(buf, pos) {
                Ok(v) => v,
                Err(e) => {
                    *pos = start;
                    return Err(e);
                },
            }
        } else {
            128
        };
        Ok(GroupHeader { track_alias, group_id, sub_group_id, publisher_priority, flags })
    }
}

} // verus!
