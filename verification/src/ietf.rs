//! The IETF protocol family: draft versions, shared field types, and the
//! namespace tuple encoding used by its control messages.

pub mod fetch;
pub mod group;
pub mod parameters;
pub mod publish_namespace;
pub mod request;
pub mod setup;
pub mod subscribe;
pub mod subscribe_namespace;
pub mod track;

use vstd::prelude::*;

use crate::coding::{
    decode_string, decode_varint, encode_string, encode_varint, sp_string, sp_varint, spec_string,
    spec_varint, VARINT_MAX,
};
use crate::error::DecodeError;
use crate::path::Path;

verus! {

/// The ALPN string for the draft that `Version::Draft14` implements.
pub const ALPN_14: &'static str = "moq-00";

/// The ALPN string for the draft that `Version::Draft15` implements.
pub const ALPN_15: &'static str = "moqt-15";

/// The ALPN string for the draft that `Version::Draft16` implements.
pub const ALPN_16: &'static str = "moqt-16";

/// A draft of the IETF protocol family.
#[derive(Clone, Copy, Debug, PartialEq, Eq, Hash, Structural)]
pub enum Version {
    Draft14,
    Draft15,
    Draft16,
}

impl Version {
    /// The 32-bit wire identifier of this draft.
    pub open spec fn spec_value(self) -> u64 {
        match self {
            Version::Draft14 => 0xff00000e,
            Version::Draft15 => 0xff00000f,
            Version::Draft16 => 0xff000010,
        }
    }

    /// The 32-bit wire identifier of this draft.
    pub fn value(self) -> (r: u64)
        ensures
            r == self.spec_value(),
    {
        match self {
            Version::Draft14 => 0xff00000e,
            Version::Draft15 => 0xff00000f,
            Version::Draft16 => 0xff000010,
        }
    }

    /// The draft with the given wire identifier, if any.
    pub fn from_value(v: u64) -> (r: Option<Version>)
        ensures
            r == Self::spec_from_value(v),
    {
        if v == 0xff00000e {
            Some(Version::Draft14)
        } else if v == 0xff00000f {
            Some(Version::Draft15)
        } else if v == 0xff000010 {
            Some(Version::Draft16)
        } else {
            None
        }
    }

    /// The draft with the given wire identifier, if any.
    pub open spec fn spec_from_value(v: u64) -> Option<Version> {
        if v == 0xff00000e {
            Some(Version::Draft14)
        } else if v == 0xff00000f {
            Some(Version::Draft15)
        } else if v == 0xff000010 {
            Some(Version::Draft16)
        } else {
            None
        }
    }
}

/// A position within a track: a group and an object within it.
#[derive(Clone, Copy, Debug, PartialEq, Eq, Structural)]
pub struct Location {
    pub group: u64,
    pub object: u64,
}

impl Location {
    /// Both coordinates fit in a varint.
    pub open spec fn wf(self) -> bool {
        self.group <= VARINT_MAX && self.object <= VARINT_MAX
    }

    /// The wire form: two varints.
    pub open spec fn spec_encode(self) -> Seq<u8> {
        spec_varint(self.group) + spec_varint(self.object)
    }

    /// Append the wire form of this location.
    pub fn encode(&self, buf: &mut Vec<u8>)
        requires
            self.wf(),
        ensures
            final(buf)@ == old(buf)@ + self.spec_encode(),
    {
        encode_varint(buf, self.group);
        encode_varint(buf, self.object);
        assert(buf@ =~= old(buf)@ + self.spec_encode());
    }

    /// Decode a location at cursor `i`.
    pub open spec fn sp_decode(s: Seq<u8>, i: int) -> Result<(Location, int), DecodeError> {
        match sp_varint(s, i) {
            Err(e) => Err(e),
            Ok((group, j)) => match sp_varint(s, j) {
                Err(e) => Err(e),
                Ok((object, j2)) => Ok((Location { group, object }, j2)),
            },
        }
    }

    /// Read a location at `*pos`.
    pub fn decode(buf: &[u8], pos: &mut usize) -> (r: Result<Location, DecodeError>)
        requires
            *old(pos) <= buf@.len(),
        ensures
            match r {
                Ok(v) => Self::sp_decode(buf@, *old(pos) as int) == Ok::<(Location, int), DecodeError>((
                    v,
                    *final(pos) as int,
                )) && *old(pos) <= *final(pos) <= buf@.len(),
                Err(e) => Self::sp_decode(buf@, *old(pos) as int) == Err::<(Location, int), DecodeError>(e)
                    && *final(pos) == *old(pos),
            },
    {
        let start = *pos;
        let group = match decode_varint(buf, pos) {
            Ok(v) => v,
            Err(e) => {
                return Err(e);
            },
        };
        let object = match decode_varint(buf, pos) {
            Ok(v) => v,
            Err(e) => {
                *pos = start;
                return Err(e);
            },
        };
        Ok(Location { group, object })
    }
}

/// The order in which a publisher sends groups.
#[derive(Clone, Copy, Debug, PartialEq, Eq, Structural)]
pub enum GroupOrder {
    Any,
    Ascending,
    Descending,
}

impl GroupOrder {
    /// The wire value of this order.
    pub open spec fn spec_value(self) -> u8 {
        match self {
            GroupOrder::Any => 0,
            GroupOrder::Ascending => 1,
            GroupOrder::Descending => 2,
        }
    }

    /// The wire value of this order.
    pub fn value(self) -> (r: u8)
        ensures
            r == self.spec_value(),
    {
        match self {
            GroupOrder::Any => 0,
            GroupOrder::Ascending => 1,
            GroupOrder::Descending => 2,
        }
    }

    /// The order with the given wire value, if any.
    pub open spec fn spec_from_value(v: u8) -> Option<GroupOrder> {
        if v == 0 {
            Some(GroupOrder::Any)
        } else if v == 1 {
            Some(GroupOrder::Ascending)
        } else if v == 2 {
            Some(GroupOrder::Descending)
        } else {
            None
        }
    }

    /// The order with the given wire value, if any.
    pub fn from_value(v: u8) -> (r: Option<GroupOrder>)
        ensures
            r == Self::spec_from_value(v),
    {
        if v == 0 {
            Some(GroupOrder::Any)
        } else if v == 1 {
            Some(GroupOrder::Ascending)
        } else if v == 2 {
            Some(GroupOrder::Descending)
        } else {
            None
        }
    }

    /// Map `Any` to `Descending`, leaving other values unchanged.
    pub fn any_to_descending(self) -> (r: GroupOrder)
        ensures
            r == (if self is Any {
                GroupOrder::Descending
            } else {
                self
            }),
    {
        match self {
            GroupOrder::Any => GroupOrder::Descending,
            other => other,
        }
    }
}

/// How a subscription chooses its starting group.
#[derive(Clone, Copy, Debug, PartialEq, Eq, Structural)]
pub enum FilterType {
    NextGroup,
    LargestObject,
    AbsoluteStart,
    AbsoluteRange,
}

impl FilterType {
    /// The wire value of this filter.
    pub open spec fn spec_value(self) -> u64 {
        match self {
            FilterType::NextGroup => 1,
            FilterType::LargestObject => 2,
            FilterType::AbsoluteStart => 3,
            FilterType::AbsoluteRange => 4,
        }
    }

    /// The wire value of this filter.
    pub fn value(self) -> (r: u64)
        ensures
            r == self.spec_value(),
    {
        match self {
            FilterType::NextGroup => 1,
            FilterType::LargestObject => 2,
            FilterType::AbsoluteStart => 3,
            FilterType::AbsoluteRange => 4,
        }
    }

    /// The filter with the given wire value, if any.
    pub open spec fn spec_from_value(v: u64) -> Option<FilterType> {
        if v == 1 {
            Some(FilterType::NextGroup)
        } else if v == 2 {
            Some(FilterType::LargestObject)
        } else if v == 3 {
            Some(FilterType::AbsoluteStart)
        } else if v == 4 {
            Some(FilterType::AbsoluteRange)
        } else {
            None
        }
    }

    /// The filter with the given wire value, if any.
    pub fn from_value(v: u64) -> (r: Option<FilterType>)
        ensures
            r == Self::spec_from_value(v),
    {
        if v == 1 {
            Some(FilterType::NextGroup)
        } else if v == 2 {
            Some(FilterType::LargestObject)
        } else if v == 3 {
            Some(FilterType::AbsoluteStart)
        } else if v == 4 {
            Some(FilterType::AbsoluteRange)
        } else {
            None
        }
    }
}

// ---------------------------------------------------------------------------
// Namespaces
// ---------------------------------------------------------------------------

/// The UTF-8 bytes of each segment of a path.
pub open spec fn path_bytes(segs: Seq<Seq<char>>) -> Seq<Seq<u8>> {
    segs.map_values(|seg: Seq<char>| vstd::utf8::encode_utf8(seg))
}

/// A path fits on the wire: few enough segments, each short enough.
pub open spec fn path_fits(segs: Seq<Seq<char>>) -> bool {
    &&& segs.len() <= VARINT_MAX
    &&& forall|k: int|
        0 <= k < segs.len() ==> #[trigger] vstd::utf8::encode_utf8(segs[k]).len() <= VARINT_MAX
}

/// The encodings of the segments from index `k` on, concatenated.
pub open spec fn spec_namespace_tail(segs: Seq<Seq<char>>, k: int) -> Seq<u8>
    decreases segs.len() - k,
{
    if k < 0 || k >= segs.len() {
        Seq::empty()
    } else {
        spec_string(segs[k]) + spec_namespace_tail(segs, k + 1)
    }
}

/// The encodings of the first `k` segments, concatenated.
pub open spec fn spec_namespace_prefix(segs: Seq<Seq<char>>, k: int) -> Seq<u8>
    decreases k,
{
    if k <= 0 || k > segs.len() {
        Seq::empty()
    } else {
        spec_namespace_prefix(segs, k - 1) + spec_string(segs[k - 1])
    }
}

/// The first `k` segments followed by the rest make the whole.
pub proof fn lemma_namespace_prefix_tail(segs: Seq<Seq<char>>, k: int)
    requires
        0 <= k <= segs.len(),
    ensures
        spec_namespace_prefix(segs, k) + spec_namespace_tail(segs, k) == spec_namespace_tail(segs, 0),
    decreases k,
{
    if k == 0 {
        assert(spec_namespace_prefix(segs, 0) + spec_namespace_tail(segs, 0) =~= spec_namespace_tail(
            segs,
            0,
        ));
    } else {
        lemma_namespace_prefix_tail(segs, k - 1);
        assert(spec_namespace_tail(segs, k - 1) == spec_string(segs[k - 1]) + spec_namespace_tail(segs, k));
        assert(spec_namespace_prefix(segs, k) + spec_namespace_tail(segs, k) =~= spec_namespace_prefix(
            segs,
            k - 1,
        ) + spec_namespace_tail(segs, k - 1));
    }
}

/// The wire form of a namespace: a varint segment count, then each segment
/// as a length-prefixed string.
pub open spec fn spec_namespace(segs: Seq<Seq<char>>) -> Seq<u8> {
    spec_varint(segs.len() as u64) + spec_namespace_tail(segs, 0)
}

/// Append the wire form of `path` as a namespace tuple.
pub fn encode_namespace(buf: &mut Vec<u8>, path: &Path)
    requires
        path_fits(path@),
    ensures
        final(buf)@ == old(buf)@ + spec_namespace(path@),
{
    let n = path.len();
    encode_varint(buf, n as u64);
    let ghost base = buf@;
    let mut k: usize = 0;
    while k < n
        invariant
            k <= n,
            n == path@.len(),
            path_fits(path@),
            path@.len() == path.segments@.len(),
            buf@ == base + spec_namespace_prefix(path@, k as int),
        decreases n - k,
    {
        let seg: &str = path.segments[k].as_str();
        proof {
            assert(seg@ == path@[k as int]);
            assert(vstd::utf8::encode_utf8(path@[k as int]).len() <= VARINT_MAX);
        }
        encode_string(buf, seg);
        k = k + 1;
        proof {
            assert(buf@ =~= base + spec_namespace_prefix(path@, k as int));
        }
    }
    proof {
        lemma_namespace_prefix_tail(path@, n as int);
        assert(spec_namespace_tail(path@, n as int) =~= Seq::<u8>::empty());
        assert(spec_namespace_prefix(path@, n as int) =~= spec_namespace_prefix(path@, n as int)
            + spec_namespace_tail(path@, n as int));
        assert(buf@ =~= old(buf)@ + spec_namespace(path@));
    }
}

/// Decode `n` namespace segments at cursor `i`.  An empty segment is
/// rejected as invalid.
pub open spec fn sp_namespace_items(s: Seq<u8>, i: int, n: nat) -> Result<(Seq<Seq<u8>>, int), DecodeError>
    decreases n,
{
    if n == 0 {
        Ok((Seq::empty(), i))
    } else {
        match sp_string(s, i) {
            Err(e) => Err(e),
            Ok((b, j)) => {
                if b.len() == 0 {
                    Err(DecodeError::InvalidValue)
                } else {
                    match sp_namespace_items(s, j, (n - 1) as nat) {
                        Err(e) => Err(e),
                        Ok((rest, j2)) => Ok((seq![b] + rest, j2)),
                    }
                }
            },
        }
    }
}

/// Decode a namespace at cursor `i`: a varint count, then that many
/// non-empty segments.
pub open spec fn sp_namespace(s: Seq<u8>, i: int) -> Result<(Seq<Seq<u8>>, int), DecodeError> {
    match sp_varint(s, i) {
        Err(e) => Err(e),
        Ok((n, j)) => sp_namespace_items(s, j, n as nat),
    }
}

/// The UTF-8 encoding of a character sequence is empty exactly when the
/// sequence is.
pub proof fn lemma_encode_utf8_len_zero(chars: Seq<char>)
    ensures
        (vstd::utf8::encode_utf8(chars).len() == 0) <==> (chars.len() == 0),
{
    if chars.len() > 0 {
        assert(vstd::utf8::encode_utf8(chars) == vstd::utf8::encode_scalar(chars[0] as u32)
            + vstd::utf8::encode_utf8(chars.drop_first()));
        assert(vstd::utf8::encode_scalar(chars[0] as u32).len() >= 1);
    }
}

/// Read a namespace at `*pos`.
pub fn decode_namespace(buf: &[u8], pos: &mut usize) -> (r: Result<Path, DecodeError>)
    requires
        *old(pos) <= buf@.len(),
    ensures
        match r {
            Ok(p) => sp_namespace(buf@, *old(pos) as int) == Ok::<(Seq<Seq<u8>>, int), DecodeError>((
                path_bytes(p@),
                *final(pos) as int,
            )) && *old(pos) <= *final(pos) <= buf@.len(),
            Err(e) => sp_namespace(buf@, *old(pos) as int) == Err::<(Seq<Seq<u8>>, int), DecodeError>(e)
                && *final(pos) == *old(pos),
        },
{
    let start = *pos;
    let n = match decode_varint(buf, pos) {
        Ok(v) => v,
        Err(e) => {
            return Err(e);
        },
    };
    let ghost i0: int = *pos as int;
    let mut segments: Vec<String> = Vec::new();
    let mut k: u64 = 0;
    while k < n
        invariant
            k <= n,
            *pos <= buf@.len(),
            start == *old(pos),
            start <= *pos,
            start <= buf@.len(),
            sp_varint(buf@, start as int) == Ok::<(u64, int), DecodeError>((n, i0)),
            path_bytes(segments.deep_view()).len() == k,
            sp_namespace_items(buf@, i0, n as nat) == (match sp_namespace_items(
                buf@,
                *pos as int,
                (n - k) as nat,
            ) {
                Ok((rest, j)) => Ok::<(Seq<Seq<u8>>, int), DecodeError>((
                    path_bytes(segments.deep_view()) + rest,
                    j,
                )),
                Err(e) => Err(e),
            }),
        decreases n - k,
    {
        let ghost pre = segments.deep_view();
        let ghost pre_len = segments@.len();
        let ghost pre_pos: int = *pos as int;
        let st = match decode_string(buf, pos) {
            Ok(v) => v,
            Err(e) => {
                proof {
                    assert(k < n);
                    assert(sp_namespace_items(buf@, pre_pos, (n - k) as nat) == Err::<
                        (Seq<Seq<u8>>, int),
                        DecodeError,
                    >(e));
                    assert(sp_namespace_items(buf@, i0, n as nat) == Err::<(Seq<Seq<u8>>, int), DecodeError>(
                        e,
                    ));
                    assert(sp_namespace(buf@, start as int) == Err::<(Seq<Seq<u8>>, int), DecodeError>(e));
                }
                *pos = start;
                return Err(e);
            },
        };
        proof {
            lemma_encode_utf8_len_zero(st@);
        }
        if vstd::string::StrSliceExecFns::unicode_len(st.as_str()) == 0 {
            proof {
                assert(k < n);
                assert(sp_namespace_items(buf@, pre_pos, (n - k) as nat) == Err::<
                    (Seq<Seq<u8>>, int),
                    DecodeError,
                >(DecodeError::InvalidValue));
                assert(sp_namespace_items(buf@, i0, n as nat) == Err::<(Seq<Seq<u8>>, int), DecodeError>(
                    DecodeError::InvalidValue,
                ));
                assert(sp_namespace(buf@, start as int) == Err::<(Seq<Seq<u8>>, int), DecodeError>(
                    DecodeError::InvalidValue,
                ));
            }
            *pos = start;
            return Err(DecodeError::InvalidValue);
        }
        segments.push(st);
        k = k + 1;
        proof {
            assert(pre.len() == pre_len);
            assert(segments.deep_view() =~~= pre.push(segments@[pre_len as int]@));
            let b = vstd::utf8::encode_utf8(segments@[pre_len as int]@);
            assert(path_bytes(segments.deep_view()) =~= path_bytes(pre).push(b));
            assert(path_bytes(pre).push(b) =~= path_bytes(pre) + seq![b]);
            match sp_namespace_items(buf@, *pos as int, (n - k) as nat) {
                Ok((rest, j)) => {
                    assert(path_bytes(pre) + (seq![b] + rest) =~= (path_bytes(pre) + seq![b]) + rest);
                },
                Err(_) => {},
            }
        }
    }
    proof {
        assert(sp_namespace_items(buf@, *pos as int, 0) == Ok::<(Seq<Seq<u8>>, int), DecodeError>((
            Seq::empty(),
            *pos as int,
        )));
        assert(path_bytes(segments.deep_view()) + Seq::<Seq<u8>>::empty() =~= path_bytes(
            segments.deep_view(),
        ));
        assert(sp_namespace_items(buf@, i0, n as nat) == Ok::<(Seq<Seq<u8>>, int), DecodeError>((
            path_bytes(segments.deep_view()),
            *pos as int,
        )));
        assert(sp_namespace(buf@, start as int) == Ok::<(Seq<Seq<u8>>, int), DecodeError>((
            path_bytes(segments.deep_view()),
            *pos as int,
        )));
    }
    let r = Path { segments };
    Ok(r)
}
} // verus!
