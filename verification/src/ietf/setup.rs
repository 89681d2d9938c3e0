//! The setup exchange of the IETF family: version lists and parameters.

use vstd::prelude::*;

use crate::coding::{decode_varint, encode_varint, sp_varint, spec_varint, VARINT_MAX};
use crate::error::DecodeError;
use crate::ietf::parameters::{sp_table, Parameters};
use crate::ietf::Version;

verus! {

/// A list of protocol version identifiers, in preference order.
#[derive(Clone, Debug, PartialEq, Eq)]
pub struct Versions {
    pub values: Vec<u64>,
}

/// The encodings of the version identifiers from index `k` on.
pub open spec fn spec_versions_tail(vs: Seq<u64>, k: int) -> Seq<u8>
    decreases vs.len() - k,
{
    if k < 0 || k >= vs.len() {
        Seq::empty()
    } else {
        spec_varint(vs[k]) + spec_versions_tail(vs, k + 1)
    }
}

/// The encodings of the first `k` version identifiers.
pub open spec fn spec_versions_prefix(vs: Seq<u64>, k: int) -> Seq<u8>
    decreases k,
{
    if k <= 0 || k > vs.len() {
        Seq::empty()
    } else {
        spec_versions_prefix(vs, k - 1) + spec_varint(vs[k - 1])
    }
}

/// The first `k` identifiers and the rest make the whole.
proof fn lemma_versions_prefix_tail(vs: Seq<u64>, k: int)
    requires
        0 <= k <= vs.len(),
    ensures
        spec_versions_prefix(vs, k) + spec_versions_tail(vs, k) == spec_versions_tail(vs, 0),
    decreases k,
{
    if k == 0 {
        assert(spec_versions_prefix(vs, 0) + spec_versions_tail(vs, 0) =~= spec_versions_tail(vs, 0));
    } else {
        lemma_versions_prefix_tail(vs, k - 1);
        assert(spec_versions_tail(vs, k - 1) == spec_varint(vs[k - 1]) + spec_versions_tail(vs, k));
        assert(spec_versions_prefix(vs, k) + spec_versions_tail(vs, k) =~= spec_versions_prefix(vs, k - 1)
            + spec_versions_tail(vs, k - 1));
    }
}

/// Decode `n` version identifiers at cursor `i`.
pub open spec fn sp_versions_items(s: Seq<u8>, i: int, n: nat) -> Result<(Seq<u64>, int), DecodeError>
    decreases n,
{
    if n == 0 {
        Ok((Seq::empty(), i))
    } else {
        match sp_varint(s, i) {
            Err(e) => Err(e),
            Ok((v, j)) => match sp_versions_items(s, j, (n - 1) as nat) {
                Err(e) => Err(e),
                Ok((rest, j2)) => Ok((seq![v] + rest, j2)),
            },
        }
    }
}

/// Decode a version list at cursor `i`: a varint count, then the
/// identifiers.
pub open spec fn sp_versions(s: Seq<u8>, i: int) -> Result<(Seq<u64>, int), DecodeError> {
    match sp_varint(s, i) {
        Err(e) => Err(e),
        Ok((n, j)) => sp_versions_items(s, j, n as nat),
    }
}

impl Versions {
    /// Every identifier fits on the wire.
    pub open spec fn wf(self) -> bool {
        &&& self.values@.len() <= VARINT_MAX
        &&& forall|k: int| 0 <= k < self.values@.len() ==> #[trigger] self.values@[k] <= VARINT_MAX
    }

    /// The wire form: a varint count, then the identifiers.
    pub open spec fn spec_encode(self) -> Seq<u8> {
        spec_varint(self.values@.len() as u64) + spec_versions_tail(self.values@, 0)
    }

    /// Append the wire form of this list.
    pub fn encode(&self, buf: &mut Vec<u8>)
        requires
            self.wf(),
        ensures
            final(buf)@ == old(buf)@ + self.spec_encode(),
    {
        encode_varint(buf, self.values.len() as u64);
        let ghost base = buf@;
        let mut k: usize = 0;
        while k < self.values.len()
            invariant
                k <= self.values@.len(),
                self.wf(),
                buf@ == base + spec_versions_prefix(self.values@, k as int),
            decreases self.values@.len() - k,
        {
            encode_varint(buf, self.values[k]);
            k = k + 1;
            proof {
                assert(buf@ =~= base + spec_versions_prefix(self.values@, k as int));
            }
        }
        proof {
            lemma_versions_prefix_tail(self.values@, self.values@.len() as int);
            assert(spec_versions_tail(self.values@, self.values@.len() as int) =~= Seq::<u8>::empty());
            assert(spec_versions_prefix(self.values@, self.values@.len() as int) =~= spec_versions_tail(
                self.values@,
                0,
            ));
            assert(buf@ =~= old(buf)@ + self.spec_encode());
        }
    }

    /// Read a version list at `*pos`.
    pub fn decode(buf: &[u8], pos: &mut usize) -> (r: Result<Versions, DecodeError>)
        requires
            *old(pos) <= buf@.len(),
        ensures
            match r {
                Ok(v) => sp_versions(buf@, *old(pos) as int) == Ok::<(Seq<u64>, int), DecodeError>((
                    v.values@,
                    *final(pos) as int,
                )) && *old(pos) <= *final(pos) <= buf@.len(),
                Err(e) => sp_versions(buf@, *old(pos) as int) == Err::<(Seq<u64>, int), DecodeError>(e)
                    && *final(pos) == *old(pos),
            },
    {
        let start = *pos;
        let n = match decode_varint(buf, pos) {
            Ok(v) => v,
            Err(e) => {
                return Err(e);
            },
        };
        let ghost i0: int = *pos as int;
        let mut values: Vec<u64> = Vec::new();
        let mut k: u64 = 0;
        proof {
            assert(values@ =~= Seq::<u64>::empty());
        }
        while k < n
            invariant
                k <= n,
                *pos <= buf@.len(),
                start == *old(pos),
                start <= *pos,
                start <= buf@.len(),
                values@.len() == k,
                sp_varint(buf@, start as int) == Ok::<(u64, int), DecodeError>((n, i0)),
                sp_versions_items(buf@, i0, n as nat) == (match sp_versions_items(
                    buf@,
                    *pos as int,
                    (n - k) as nat,
                ) {
                    Ok((rest, j)) => Ok::<(Seq<u64>, int), DecodeError>((values@ + rest, j)),
                    Err(e) => Err(e),
                }),
            decreases n - k,
        {
            let ghost pre = values@;
            let v = match decode_varint(buf, pos) {
                Ok(v) => v,
                Err(e) => {
                    proof {
                        assert(k < n);
                    }
                    *pos = start;
                    return Err(e);
                },
            };
            values.push(v);
            k = k + 1;
            proof {
                assert(values@ =~= pre.push(v));
                assert(pre.push(v) =~= pre + seq![v]);
                match sp_versions_items(buf@, *pos as int, (n - k) as nat) {
                    Ok((rest, j)) => {
                        assert(pre + (seq![v] + rest) =~= (pre + seq![v]) + rest);
                    },
                    Err(_) => {},
                }
            }
        }
        proof {
            assert(sp_versions_items(buf@, *pos as int, 0) == Ok::<(Seq<u64>, int), DecodeError>((
                Seq::empty(),
                *pos as int,
            )));
            assert(values@ + Seq::<u64>::empty() =~= values@);
        }
        Ok(Versions { values })
    }
}

/// The client's half of the setup exchange.
#[derive(Clone, Debug)]
pub struct ClientSetup {
    /// The supported versions, most preferred first.
    pub versions: Versions,
    /// Extension parameters.
    pub parameters: Parameters,
}

impl ClientSetup {
    /// The control message kind of this message.
    pub const ID: u64 = 0x20;

    /// The payload fits on the wire.
    pub open spec fn wf(self) -> bool {
        self.versions.wf() && self.parameters.wf()
    }

    /// The wire form: the version list on the oldest draft, then the
    /// parameters.
    pub open spec fn spec_encode_msg(self, version: Version) -> Seq<u8> {
        (match version {
            Version::Draft14 => self.versions.spec_encode(),
            Version::Draft15 | Version::Draft16 => Seq::empty(),
        }) + self.parameters.spec_encode()
    }

    /// Append the payload of this message.
    pub fn encode_msg(&self, buf: &mut Vec<u8>, version: Version)
        requires
            self.wf(),
        ensures
            final(buf)@ == old(buf)@ + self.spec_encode_msg(version),
    {
        match version {
            Version::Draft14 => {
                self.versions.encode(buf);
            },
            Version::Draft15 | Version::Draft16 => {},
        }
        self.parameters.encode(buf);
        assert(buf@ =~= old(buf)@ + self.spec_encode_msg(version));
    }

    /// Decode a payload at cursor `i`.  The newest drafts carry no
    /// version list; the negotiated version is implied.
    pub open spec fn sp_decode_msg(s: Seq<u8>, i: int, version: Version) -> Result<
        ((Seq<u64>, Seq<(u64, u64)>, Seq<(u64, Seq<u8>)>), int),
        DecodeError,
    > {
        let head = match version {
            Version::Draft14 => sp_versions(s, i),
            Version::Draft15 | Version::Draft16 => Ok((seq![version.spec_value()], i)),
        };
        match head {
            Err(e) => Err(e),
            Ok((vs, j)) => match sp_table(s, j) {
                Err(e) => Err(e),
                Ok(((vars, bytes), j2)) => Ok(((vs, vars, bytes), j2)),
            },
        }
    }

    /// Read a payload at `*pos`.
    pub fn decode_msg(buf: &[u8], pos: &mut usize, version: Version) -> (r: Result<
        ClientSetup,
        DecodeError,
    >)
        requires
            *old(pos) <= buf@.len(),
        ensures
            match r {
                Ok(v) => Self::sp_decode_msg(buf@, *old(pos) as int, version) == Ok::<
                    ((Seq<u64>, Seq<(u64, u64)>, Seq<(u64, Seq<u8>)>), int),
                    DecodeError,
                >((
                    (v.versions.values@, v.parameters.vars_v(), v.parameters.bytes_v()),
                    *final(pos) as int,
                )) && *old(pos) <= *final(pos) <= buf@.len(),
                Err(e) => Self::sp_decode_msg(buf@, *old(pos) as int, version) == Err::<
                    ((Seq<u64>, Seq<(u64, u64)>, Seq<(u64, Seq<u8>)>), int),
                    DecodeError,
                >(e) && *final(pos) == *old(pos),
            },
    {
        let start = *pos;
        let versions = match version {
            Version::Draft14 => {
                match Versions::decode(buf, pos) {
                    Ok(v) => v,
                    Err(e) => {
                        return Err(e);
                    },
                }
            },
            Version::Draft15 | Version::Draft16 => {
                let mut values: Vec<u64> = Vec::new();
                values.push(version.value());
                let vs = Versions { values };
                proof {
                    assert(vs.values@ =~= seq![version.spec_value()]);
                }
                vs
            },
        };
        let parameters = match Parameters::decode(buf, pos) {
            Ok(v) => v,
            Err(e) => {
                *pos = start;
                return Err(e);
            },
        };
        Ok(ClientSetup { versions, parameters })
    }
}

/// The server's half of the setup exchange.
#[derive(Clone, Debug)]
pub struct ServerSetup {
    /// The selected version identifier.
    pub version: u64,
    /// Extension parameters.
    pub parameters: Parameters,
}

impl ServerSetup {
    /// The control message kind of this message.
    pub const ID: u64 = 0x21;

    /// The payload fits on the wire.
    pub open spec fn wf(self) -> bool {
        self.version <= VARINT_MAX && self.parameters.wf()
    }

    /// The wire form: the selected version on the oldest draft, then the
    /// parameters.
    pub open spec fn spec_encode_msg(self, version: Version) -> Seq<u8> {
        (match version {
            Version::Draft14 => spec_varint(self.version),
            Version::Draft15 | Version::Draft16 => Seq::empty(),
        }) + self.parameters.spec_encode()
    }

    /// Append the payload of this message.
    pub fn encode_msg(&self, buf: &mut Vec<u8>, version: Version)
        requires
            self.wf(),
        ensures
            final(buf)@ == old(buf)@ + self.spec_encode_msg(version),
    {
        match version {
            Version::Draft14 => {
                encode_varint(buf, self.version);
            },
            Version::Draft15 | Version::Draft16 => {},
        }
        self.parameters.encode(buf);
        assert(buf@ =~= old(buf)@ + self.spec_encode_msg(version));
    }

    /// Decode a payload at cursor `i`.
    pub open spec fn sp_decode_msg(s: Seq<u8>, i: int, version: Version) -> Result<
        ((u64, Seq<(u64, u64)>, Seq<(u64, Seq<u8>)>), int),
        DecodeError,
    > {
        let head = match version {
            Version::Draft14 => sp_varint(s, i),
            Version::Draft15 | Version::Draft16 => Ok((version.spec_value(), i)),
        };
        match head {
            Err(e) => Err(e),
            Ok((v, j)) => match sp_table(s, j) {
                Err(e) => Err(e),
                Ok(((vars, bytes), j2)) => Ok(((v, vars, bytes), j2)),
            },
        }
    }

    /// Read a payload at `*pos`.
    pub fn decode_msg(buf: &[u8], pos: &mut usize, version: Version) -> (r: Result<
        ServerSetup,
        DecodeError,
    >)
        requires
            *old(pos) <= buf@.len(),
        ensures
            match r {
                Ok(v) => Self::sp_decode_msg(buf@, *old(pos) as int, version) == Ok::<
                    ((u64, Seq<(u64, u64)>, Seq<(u64, Seq<u8>)>), int),
                    DecodeError,
                >(((v.version, v.parameters.vars_v(), v.parameters.bytes_v()), *final(pos) as int))
                    && *old(pos) <= *final(pos) <= buf@.len(),
                Err(e) => Self::sp_decode_msg(buf@, *old(pos) as int, version) == Err::<
                    ((u64, Seq<(u64, u64)>, Seq<(u64, Seq<u8>)>), int),
                    DecodeError,
                >(e) && *final(pos) == *old(pos),
            },
    {
        let start = *pos;
        let selected = match version {
            Version::Draft14 => {
                match decode_varint(buf, pos) {
                    Ok(v) => v,
                    Err(e) => {
                        return Err(e);
                    },
                }
            },
            Version::Draft15 | Version::Draft16 => version.value(),
        };
        let parameters = match Parameters::decode(buf, pos) {
            Ok(v) => v,
            Err(e) => {
                *pos = start;
                return Err(e);
            },
        };
        Ok(ServerSetup { version: selected, parameters })
    }
}

} // verus!
