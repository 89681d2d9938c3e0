//! The catalog: a JSON document describing a broadcast's renditions,
//! republished whole on every change.

pub mod audio;
pub mod json;
pub mod root;
pub mod text;
pub mod video;

use vstd::prelude::*;

use crate::catalog::json::{decode_dec, is_digit, lemma_dec_round_trip, sp_dec, spec_dec};
use crate::catalog::text::{
    expect_cmaf_track_id, expect_kind_cmaf, expect_kind_legacy, expect_obj_close, lit_cmaf_track_id,
    lit_kind_cmaf, lit_kind_legacy, lit_obj_close, push_cmaf_track_id, push_kind_cmaf,
    push_kind_legacy, push_obj_close,
};
use crate::coding::bytes_at;
use crate::error::DecodeError;

verus! {

/// The container of a rendition's frames: the varint-framed legacy form,
/// or complete fragmented-container segments with a timescale and track
/// identifier.
#[derive(Clone, Copy, Debug, PartialEq, Eq, Structural)]
pub enum Container {
    Legacy,
    Cmaf { timescale: u64, track_id: u64 },
}

impl Container {
    /// The default container form.
    pub fn legacy() -> (r: Container)
        ensures
            r == Container::Legacy,
    {
        Container::Legacy
    }
}

impl Default for Container {
    /// The default container form.
    fn default() -> (r: Container)
        ensures
            r == Container::Legacy,
    {
        Container::Legacy
    }
}

impl Container {
    /// The canonical JSON text of this container.
    pub open spec fn spec_ser(self) -> Seq<u8> {
        match self {
            Container::Legacy => lit_kind_legacy(),
            Container::Cmaf { timescale, track_id } => lit_kind_cmaf() + spec_dec(timescale)
                + lit_cmaf_track_id() + spec_dec(track_id) + lit_obj_close(),
        }
    }

    /// Append the canonical JSON text of this container.
    pub fn serialize(&self, buf: &mut Vec<u8>)
        ensures
            final(buf)@ == old(buf)@ + self.spec_ser(),
    {
        match self {
            Container::Legacy => {
                push_kind_legacy(buf);
            },
            Container::Cmaf { timescale, track_id } => {
                push_kind_cmaf(buf);
                crate::catalog::json::encode_dec(buf, *timescale);
                push_cmaf_track_id(buf);
                crate::catalog::json::encode_dec(buf, *track_id);
                push_obj_close(buf);
            },
        }
        assert(buf@ =~= old(buf)@ + self.spec_ser());
    }

    /// Parse a container at cursor `i`: the legacy form, else the
    /// fragmented form.
    pub open spec fn sp_parse(s: Seq<u8>, i: int) -> Result<(Container, int), DecodeError> {
        if bytes_at(s, i, lit_kind_legacy()) {
            Ok((Container::Legacy, i + lit_kind_legacy().len()))
        } else if bytes_at(s, i, lit_kind_cmaf()) {
            match sp_dec(s, i + lit_kind_cmaf().len()) {
                Err(e) => Err(e),
                Ok((timescale, j)) => {
                    if bytes_at(s, j, lit_cmaf_track_id()) {
                        match sp_dec(s, j + lit_cmaf_track_id().len()) {
                            Err(e) => Err(e),
                            Ok((track_id, j2)) => {
                                if bytes_at(s, j2, lit_obj_close()) {
                                    Ok((Container::Cmaf { timescale, track_id }, j2 + 1))
                                } else {
                                    Err(DecodeError::InvalidValue)
                                }
                            },
                        }
                    } else {
                        Err(DecodeError::InvalidValue)
                    }
                },
            }
        } else {
            Err(DecodeError::InvalidValue)
        }
    }

    /// Read a container at `*pos`.
    pub fn parse(buf: &[u8], pos: &mut usize) -> (r: Result<Container, DecodeError>)
        requires
            *old(pos) <= buf@.len(),
        ensures
            match r {
                Ok(v) => Self::sp_parse(buf@, *old(pos) as int) == Ok::<(Container, int), DecodeError>((
                    v,
                    *final(pos) as int,
                )) && *old(pos) <= *final(pos) <= buf@.len(),
                Err(e) => Self::sp_parse(buf@, *old(pos) as int) == Err::<(Container, int), DecodeError>(
                    e,
                ) && *final(pos) == *old(pos),
            },
    {
        let start = *pos;
        match expect_kind_legacy(buf, pos) {
            Ok(()) => {
                return Ok(Container::Legacy);
            },
            Err(_) => {},
        }
        match expect_kind_cmaf(buf, pos) {
            Ok(()) => {},
            Err(e) => {
                return Err(e);
            },
        }
        let timescale = match decode_dec(buf, pos) {
            Ok(v) => v,
            Err(e) => {
                *pos = start;
                return Err(e);
            },
        };
        match expect_cmaf_track_id(buf, pos) {
            Ok(()) => {},
            Err(e) => {
                *pos = start;
                return Err(e);
            },
        }
        let track_id = match decode_dec(buf, pos) {
            Ok(v) => v,
            Err(e) => {
                *pos = start;
                return Err(e);
            },
        };
        match expect_obj_close(buf, pos) {
            Ok(()) => {},
            Err(e) => {
                *pos = start;
                return Err(e);
            },
        }
        Ok(Container::Cmaf { timescale, track_id })
    }
}

/// Reading back a written container yields it.
pub proof fn lemma_container_round_trip(s: Seq<u8>, i: int, c: Container)
    requires
        bytes_at(s, i, c.spec_ser()),
        i + c.spec_ser().len() == s.len() || !is_digit(s[i + c.spec_ser().len()]),
    ensures
        Container::sp_parse(s, i) == Ok::<(Container, int), DecodeError>((c, i + c.spec_ser().len())),
{
    match c {
        Container::Legacy => {
            assert(bytes_at(s, i, lit_kind_legacy()));
        },
        Container::Cmaf { timescale, track_id } => {
            let l1 = lit_kind_cmaf().len() as int;
            let d1 = spec_dec(timescale).len() as int;
            let l2 = lit_cmaf_track_id().len() as int;
            let d2 = spec_dec(track_id).len() as int;
            assert forall|k: int| 0 <= k < l1 implies s[i + k] == #[trigger] lit_kind_cmaf()[k] by {
                assert(s[i + k] == c.spec_ser()[k]);
            };
            assert(bytes_at(s, i, lit_kind_cmaf()));
            assert(!bytes_at(s, i, lit_kind_legacy())) by {
                assert(s[i + 9] == c.spec_ser()[9]);
                assert(c.spec_ser()[9] == lit_kind_cmaf()[9]);
            };
            assert forall|k: int| 0 <= k < d1 implies s[i + l1 + k] == #[trigger] spec_dec(timescale)[k]
                by {
                assert(s[i + (l1 + k)] == c.spec_ser()[l1 + k]);
            };
            assert(bytes_at(s, i + l1, spec_dec(timescale)));
            assert(s[i + l1 + d1] == c.spec_ser()[l1 + d1]);
            assert(s[i + l1 + d1] == lit_cmaf_track_id()[0]);
            lemma_dec_round_trip(s, i + l1, timescale);
            assert forall|k: int| 0 <= k < l2 implies s[i + l1 + d1 + k] == #[trigger] lit_cmaf_track_id()[k]
                by {
                assert(s[i + (l1 + d1 + k)] == c.spec_ser()[l1 + d1 + k]);
            };
            assert(bytes_at(s, i + l1 + d1, lit_cmaf_track_id()));
            assert forall|k: int| 0 <= k < d2 implies s[i + l1 + d1 + l2 + k] == #[trigger] spec_dec(
                track_id,
            )[k] by {
                assert(s[i + (l1 + d1 + l2 + k)] == c.spec_ser()[l1 + d1 + l2 + k]);
            };
            assert(bytes_at(s, i + l1 + d1 + l2, spec_dec(track_id)));
            assert(s[i + l1 + d1 + l2 + d2] == c.spec_ser()[l1 + d1 + l2 + d2]);
            assert(s[i + l1 + d1 + l2 + d2] == lit_obj_close()[0]);
            lemma_dec_round_trip(s, i + l1 + d1 + l2, track_id);
            assert(bytes_at(s, i + l1 + d1 + l2 + d2, lit_obj_close()));
        },
    }
}

} // verus!
