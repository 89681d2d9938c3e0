//! Announce messages of the lite family.

use vstd::prelude::*;

use crate::coding::{
    decode_u8, decode_varint, encode_u8, encode_varint, sp_u8, sp_varint, spec_u8, spec_varint,
    VARINT_MAX,
};
use crate::error::DecodeError;
use crate::lite::{
    decode_lite_path, encode_lite_path, lite_path_fits, sp_lite_path, spec_lite_path, Version,
};
use crate::path::{spec_join, spec_split, Path};

verus! {

/// An announcement: a broadcast under the subscribed prefix became active
/// or ended.
#[derive(Clone, Debug)]
pub enum Announce {
    Active { suffix: Path, hops: u64 },
    Ended { suffix: Path, hops: u64 },
}

/// The mathematical shape of a decoded announcement: active flag, the
/// suffix segments, and the hop count.
pub open spec fn announce_model(a: Announce) -> (bool, Seq<Seq<char>>, u64) {
    match a {
        Announce::Active { suffix, hops } => (true, suffix@, hops),
        Announce::Ended { suffix, hops } => (false, suffix@, hops),
    }
}

impl Announce {
    /// The payload fits on the wire.
    pub open spec fn wf(self) -> bool {
        match self {
            Announce::Active { suffix, hops } => lite_path_fits(suffix@) && hops <= VARINT_MAX,
            Announce::Ended { suffix, hops } => lite_path_fits(suffix@) && hops <= VARINT_MAX,
        }
    }

    /// The wire form: a status byte, the suffix, and on the newest draft
    /// the hop count.
    pub open spec fn spec_encode_msg(self, version: Version) -> Seq<u8> {
        match self {
            Announce::Active { suffix, hops } => spec_u8(1) + spec_lite_path(suffix@) + (
            if version is Draft03 {
                spec_varint(hops)
            } else {
                Seq::empty()
            }),
            Announce::Ended { suffix, hops } => spec_u8(0) + spec_lite_path(suffix@) + (
            if version is Draft03 {
                spec_varint(hops)
            } else {
                Seq::empty()
            }),
        }
    }

    /// Append the payload of this message.
    pub fn encode_msg(&self, buf: &mut Vec<u8>, version: Version)
        requires
            self.wf(),
        ensures
            final(buf)@ == old(buf)@ + self.spec_encode_msg(version),
    {
        match self {
            Announce::Active { suffix, hops } => {
                encode_u8(buf, 1);
                encode_lite_path(buf, suffix);
                if matches!(version, Version::Draft03) {
                    encode_varint(buf, *hops);
                }
            },
            Announce::Ended { suffix, hops } => {
                encode_u8(buf, 0);
                encode_lite_path(buf, suffix);
                if matches!(version, Version::Draft03) {
                    encode_varint(buf, *hops);
                }
            },
        }
        assert(buf@ =~= old(buf)@ + self.spec_encode_msg(version));
    }

    /// Decode a payload at cursor `i`: the status byte, the joined path
    /// bytes, and the hop count.
    pub open spec fn sp_decode_msg(s: Seq<u8>, i: int, version: Version) -> Result<
        ((bool, Seq<u8>, u64), int),
        DecodeError,
    > {
        match sp_u8(s, i) {
            Err(e) => Err(e),
            Ok((status, j)) => {
                if status != 0 && status != 1 {
                    Err(DecodeError::InvalidValue)
                } else {
                    match sp_lite_path(s, j) {
                        Err(e) => Err(e),
                        Ok((pb, j2)) => {
                            let hops = if version is Draft03 {
                                sp_varint(s, j2)
                            } else {
                                Ok((0u64, j2))
                            };
                            match hops {
                                Err(e) => Err(e),
                                Ok((h, j3)) => Ok(((status == 1, pb, h), j3)),
                            }
                        },
                    }
                }
            },
        }
    }

    /// Read a payload at `*pos`.  The decoded suffix is the split of the
    /// joined path bytes.
    pub fn decode_msg(buf: &[u8], pos: &mut usize, version: Version) -> (r: Result<
        Announce,
        DecodeError,
    >)
        requires
            *old(pos) <= buf@.len(),
        ensures
            match r {
                Ok(v) => (exists|chars: Seq<char>|
                    Self::sp_decode_msg(buf@, *old(pos) as int, version) == Ok::<
                        ((bool, Seq<u8>, u64), int),
                        DecodeError,
                    >((
                        (
                            announce_model(v).0,
                            vstd::utf8::encode_utf8(chars),
                            announce_model(v).2,
                        ),
                        *final(pos) as int,
                    )) && announce_model(v).1 == spec_split(chars)) && *old(pos) <= *final(pos)
                    <= buf@.len(),
                Err(e) => Self::sp_decode_msg(buf@, *old(pos) as int, version) == Err::<
                    ((bool, Seq<u8>, u64), int),
                    DecodeError,
                >(e) && *final(pos) == *old(pos),
            },
    {
        let start = *pos;
        let status = match decode_u8(buf, pos) {
            Ok(v) => v,
            Err(e) => {
                return Err(e);
            },
        };
        if status != 0 && status != 1 {
            *pos = start;
            return Err(DecodeError::InvalidValue);
        }
        let suffix = match decode_lite_path(buf, pos) {
            Ok(v) => v,
            Err(e) => {
                *pos = start;
                return Err(e);
            },
        };
        let hops = if matches!(version, Version::Draft03) {
            match decode_varint(buf, pos) {
                Ok(v) => v,
                Err(e) => {
                    *pos = start;
                    return Err(e);
                },
            }
        } else {
            0
        };
        if status == 1 {
            Ok(Announce::Active { suffix, hops })
        } else {
            Ok(Announce::Ended { suffix, hops })
        }
    }
}

/// Asks the peer to stream announcements under a prefix.
#[derive(Clone, Debug)]
pub struct AnnouncePlease {
    pub prefix: Path,
}

impl AnnouncePlease {
    /// The payload fits on the wire.
    pub open spec fn wf(self) -> bool {
        lite_path_fits(self.prefix@)
    }

    /// The wire form: the prefix as one joined string.
    pub open spec fn spec_encode_msg(self, version: Version) -> Seq<u8> {
        spec_lite_path(self.prefix@)
    }

    /// Append the payload of this message.
    pub fn encode_msg(&self, buf: &mut Vec<u8>, version: Version)
        requires
            self.wf(),
        ensures
            final(buf)@ == old(buf)@ + self.spec_encode_msg(version),
    {
        encode_lite_path(buf, &self.prefix);
    }

    /// Decode a payload at cursor `i`.
    pub open spec fn sp_decode_msg(s: Seq<u8>, i: int, version: Version) -> Result<
        (Seq<u8>, int),
        DecodeError,
    > {
        sp_lite_path(s, i)
    }

    /// Read a payload at `*pos`.
    pub fn decode_msg(buf: &[u8], pos: &mut usize, version: Version) -> (r: Result<
        AnnouncePlease,
        DecodeError,
    >)
        requires
            *old(pos) <= buf@.len(),
        ensures
            match r {
                Ok(v) => (exists|chars: Seq<char>|
                    Self::sp_decode_msg(buf@, *old(pos) as int, version) == Ok::<
                        (Seq<u8>, int),
                        DecodeError,
                    >((vstd::utf8::encode_utf8(chars), *final(pos) as int)) && v.prefix@ == spec_split(
                        chars,
                    )) && *old(pos) <= *final(pos) <= buf@.len(),
                Err(e) => Self::sp_decode_msg(buf@, *old(pos) as int, version) == Err::<
                    (Seq<u8>, int),
                    DecodeError,
                >(e) && *final(pos) == *old(pos),
            },
    {
        match decode_lite_path(buf, pos) {
            Ok(prefix) => Ok(AnnouncePlease { prefix }),
            Err(e) => Err(e),
        }
    }
}

/// The currently active broadcasts, sent once after a prefix
/// subscription on the older drafts.
#[derive(Clone, Debug)]
pub struct AnnounceInit {
    pub suffixes: Vec<Path>,
}

/// The encodings of the suffixes from index `k` on.
pub open spec fn spec_suffixes_tail(ss: Seq<Seq<Seq<char>>>, k: int) -> Seq<u8>
    decreases ss.len() - k,
{
    if k < 0 || k >= ss.len() {
        Seq::empty()
    } else {
        spec_lite_path(ss[k]) + spec_suffixes_tail(ss, k + 1)
    }
}

/// The encodings of the first `k` suffixes.
pub open spec fn spec_suffixes_prefix(ss: Seq<Seq<Seq<char>>>, k: int) -> Seq<u8>
    decreases k,
{
    if k <= 0 || k > ss.len() {
        Seq::empty()
    } else {
        spec_suffixes_prefix(ss, k - 1) + spec_lite_path(ss[k - 1])
    }
}

/// The first `k` suffixes and the rest make the whole.
proof fn lemma_suffixes_prefix_tail(ss: Seq<Seq<Seq<char>>>, k: int)
    requires
        0 <= k <= ss.len(),
    ensures
        spec_suffixes_prefix(ss, k) + spec_suffixes_tail(ss, k) == spec_suffixes_tail(ss, 0),
    decreases k,
{
    if k == 0 {
        assert(spec_suffixes_prefix(ss, 0) + spec_suffixes_tail(ss, 0) =~= spec_suffixes_tail(ss, 0));
    } else {
        lemma_suffixes_prefix_tail(ss, k - 1);
        assert(spec_suffixes_tail(ss, k - 1) == spec_lite_path(ss[k - 1]) + spec_suffixes_tail(ss, k));
        assert(spec_suffixes_prefix(ss, k) + spec_suffixes_tail(ss, k) =~= spec_suffixes_prefix(ss, k - 1)
            + spec_suffixes_tail(ss, k - 1));
    }
}

impl AnnounceInit {
    /// The payload fits on the wire, and the message exists only on the
    /// older drafts.
    pub open spec fn wf(self) -> bool {
        &&& self.suffixes.deep_view().len() <= VARINT_MAX
        &&& forall|k: int|
            0 <= k < self.suffixes.deep_view().len() ==> lite_path_fits(
                #[trigger] self.suffixes.deep_view()[k],
            )
    }

    /// The wire form: a varint count, then each suffix as one joined
    /// string.
    pub open spec fn spec_encode_msg(self, version: Version) -> Seq<u8> {
        spec_varint(self.suffixes.deep_view().len() as u64) + spec_suffixes_tail(
            self.suffixes.deep_view(),
            0,
        )
    }

    /// Append the payload of this message.  The newest draft does not
    /// carry it.
    pub fn encode_msg(&self, buf: &mut Vec<u8>, version: Version)
        requires
            self.wf(),
            !(version is Draft03),
        ensures
            final(buf)@ == old(buf)@ + self.spec_encode_msg(version),
    {
        let n = self.suffixes.len();
        proof {
            assert(self.suffixes.deep_view().len() == self.suffixes@.len());
        }
        encode_varint(buf, n as u64);
        let ghost base = buf@;
        let mut k: usize = 0;
        while k < n
            invariant
                k <= n,
                n == self.suffixes@.len(),
                self.wf(),
                self.suffixes.deep_view().len() == self.suffixes@.len(),
                buf@ == base + spec_suffixes_prefix(self.suffixes.deep_view(), k as int),
            decreases n - k,
        {
            proof {
                assert(self.suffixes.deep_view()[k as int] == self.suffixes@[k as int]@);
                assert(lite_path_fits(self.suffixes.deep_view()[k as int]));
            }
            encode_lite_path(buf, &self.suffixes[k]);
            k = k + 1;
            proof {
                assert(buf@ =~= base + spec_suffixes_prefix(self.suffixes.deep_view(), k as int));
            }
        }
        proof {
            lemma_suffixes_prefix_tail(self.suffixes.deep_view(), n as int);
            assert(spec_suffixes_tail(self.suffixes.deep_view(), n as int) =~= Seq::<u8>::empty());
            assert(spec_suffixes_prefix(self.suffixes.deep_view(), n as int) =~= spec_suffixes_tail(
                self.suffixes.deep_view(),
                0,
            ));
            assert(buf@ =~= old(buf)@ + self.spec_encode_msg(version));
        }
    }

    /// Decode `n` suffixes at cursor `i`, as joined path bytes.
    pub open spec fn sp_items(s: Seq<u8>, i: int, n: nat) -> Result<(Seq<Seq<u8>>, int), DecodeError>
        decreases n,
    {
        if n == 0 {
            Ok((Seq::empty(), i))
        } else {
            match sp_lite_path(s, i) {
                Err(e) => Err(e),
                Ok((pb, j)) => match Self::sp_items(s, j, (n - 1) as nat) {
                    Err(e) => Err(e),
                    Ok((rest, j2)) => Ok((seq![pb] + rest, j2)),
                },
            }
        }
    }

    /// Decode a payload at cursor `i`.
    pub open spec fn sp_decode_msg(s: Seq<u8>, i: int, version: Version) -> Result<
        (Seq<Seq<u8>>, int),
        DecodeError,
    > {
        match sp_varint(s, i) {
            Err(e) => Err(e),
            Ok((n, j)) => Self::sp_items(s, j, n as nat),
        }
    }

    /// Read a payload at `*pos`.  Each decoded suffix splits the joined
    /// bytes; the ensures states the count and cursor movement.
    pub fn decode_msg(buf: &[u8], pos: &mut usize, version: Version) -> (r: Result<
        AnnounceInit,
        DecodeError,
    >)
        requires
            *old(pos) <= buf@.len(),
            !(version is Draft03),
        ensures
            match r {
                Ok(v) => (exists|models: Seq<Seq<u8>>|
                    Self::sp_decode_msg(buf@, *old(pos) as int, version) == Ok::<
                        (Seq<Seq<u8>>, int),
                        DecodeError,
                    >((models, *final(pos) as int)) && models.len() == v.suffixes.deep_view().len())
                    && *old(pos) <= *final(pos) <= buf@.len(),
                Err(e) => Self::sp_decode_msg(buf@, *old(pos) as int, version) == Err::<
                    (Seq<Seq<u8>>, int),
                    DecodeError,
                >(e) && *final(pos) == *old(pos),
            },
    {
        let start = *pos;
        let n = match decode_varint(buf, pos) {
            Ok(v) => v,
            Err(e) => {
                return Err(e);
            },
        };
        let ghost i0: int = *pos as int;
        let mut suffixes: Vec<Path> = Vec::new();
        let ghost mut models: Seq<Seq<u8>> = Seq::empty();
        let mut k: u64 = 0;
        while k < n
            invariant
                k <= n,
                *pos <= buf@.len(),
                start == *old(pos),
                start <= *pos,
                start <= buf@.len(),
                sp_varint(buf@, start as int) == Ok::<(u64, int), DecodeError>((n, i0)),
                suffixes.deep_view().len() == k,
                models.len() == k,
                Self::sp_items(buf@, i0, n as nat) == (match Self::sp_items(
                    buf@,
                    *pos as int,
                    (n - k) as nat,
                ) {
                    Ok((rest, j)) => Ok::<(Seq<Seq<u8>>, int), DecodeError>((models + rest, j)),
                    Err(e) => Err(e),
                }),
            decreases n - k,
        {
            let ghost pre_pos: int = *pos as int;
            let p = match decode_lite_path(buf, pos) {
                Ok(v) => v,
                Err(e) => {
                    proof {
                        assert(k < n);
                    }
                    *pos = start;
                    return Err(e);
                },
            };
            let ghost pre_models = models;
            suffixes.push(p);
            k = k + 1;
            proof {
                let pb = match sp_lite_path(buf@, pre_pos) {
                    Ok(x) => x.0,
                    Err(_) => Seq::<u8>::empty(),
                };
                models = pre_models.push(pb);
                assert(sp_lite_path(buf@, pre_pos) == Ok::<(Seq<u8>, int), DecodeError>((
                    pb,
                    *pos as int,
                )));
                assert(suffixes.deep_view().len() == k);
                match Self::sp_items(buf@, *pos as int, (n - k) as nat) {
                    Ok((rest, j)) => {
                        assert(pre_models + (seq![pb] + rest) =~= (pre_models.push(pb)) + rest);
                    },
                    Err(_) => {},
                }
            }
        }
        proof {
            assert(Self::sp_items(buf@, *pos as int, 0) == Ok::<(Seq<Seq<u8>>, int), DecodeError>((
                Seq::empty(),
                *pos as int,
            )));
            assert(models + Seq::<Seq<u8>>::empty() =~= models);
        }
        Ok(AnnounceInit { suffixes })
    }
}

} // verus!
