//! Key/value parameter tables carried by setup and request messages.
//!
//! Even keys carry varint values, odd keys carry byte strings.  A table
//! holds each key at most once; decoding rejects duplicates and caps the
//! entry count.

use vstd::prelude::*;

use crate::coding::{
    decode_bytes, decode_varint, encode_bytes, encode_varint, sp_bytes, sp_varint, spec_bytes,
    spec_varint, VARINT_MAX,
};
use crate::error::DecodeError;

verus! {

/// The most entries a parameter table may carry on the wire.
pub const MAX_PARAMS: u64 = 64;

/// A well-known varint (even) parameter key of the setup messages.
#[derive(Clone, Copy, Debug, PartialEq, Eq, Hash, Structural)]
pub enum ParameterVarInt {
    MaxRequestId,
    MaxAuthTokenCacheSize,
    Unknown(u64),
}

impl ParameterVarInt {
    /// The wire key of this parameter.
    pub open spec fn spec_key(self) -> u64 {
        match self {
            ParameterVarInt::MaxRequestId => 2,
            ParameterVarInt::MaxAuthTokenCacheSize => 4,
            ParameterVarInt::Unknown(k) => k,
        }
    }

    /// The wire key of this parameter.
    pub fn key(self) -> (r: u64)
        ensures
            r == self.spec_key(),
    {
        match self {
            ParameterVarInt::MaxRequestId => 2,
            ParameterVarInt::MaxAuthTokenCacheSize => 4,
            ParameterVarInt::Unknown(k) => k,
        }
    }
}

/// A well-known byte-string (odd) parameter key of the setup messages.
#[derive(Clone, Copy, Debug, PartialEq, Eq, Hash, Structural)]
pub enum ParameterBytes {
    Path,
    AuthorizationToken,
    Authority,
    Implementation,
    Unknown(u64),
}

impl ParameterBytes {
    /// The wire key of this parameter.
    pub open spec fn spec_key(self) -> u64 {
        match self {
            ParameterBytes::Path => 1,
            ParameterBytes::AuthorizationToken => 3,
            ParameterBytes::Authority => 5,
            ParameterBytes::Implementation => 7,
            ParameterBytes::Unknown(k) => k,
        }
    }

    /// The wire key of this parameter.
    pub fn key(self) -> (r: u64)
        ensures
            r == self.spec_key(),
    {
        match self {
            ParameterBytes::Path => 1,
            ParameterBytes::AuthorizationToken => 3,
            ParameterBytes::Authority => 5,
            ParameterBytes::Implementation => 7,
            ParameterBytes::Unknown(k) => k,
        }
    }
}

// ---------------------------------------------------------------------------
// Association-list helpers
// ---------------------------------------------------------------------------

/// The first value stored under `k`, if any.
pub open spec fn spec_lookup<T>(pairs: Seq<(u64, T)>, k: u64) -> Option<T>
    decreases pairs.len(),
{
    if pairs.len() == 0 {
        None
    } else if pairs[0].0 == k {
        Some(pairs[0].1)
    } else {
        spec_lookup(pairs.drop_first(), k)
    }
}

/// Replace the value under `k`, or append the pair if `k` is new.
pub open spec fn spec_store<T>(pairs: Seq<(u64, T)>, k: u64, v: T) -> Seq<(u64, T)>
    decreases pairs.len(),
{
    if pairs.len() == 0 {
        seq![(k, v)]
    } else if pairs[0].0 == k {
        seq![(k, v)] + pairs.drop_first()
    } else {
        seq![pairs[0]] + spec_store(pairs.drop_first(), k, v)
    }
}

/// Look `k` up in an association vector of varint values.
fn lookup_var(pairs: &Vec<(u64, u64)>, k: u64) -> (r: Option<u64>)
    ensures
        r == spec_lookup(pairs@, k),
{
    let mut i: usize = 0;
    proof {
        assert(pairs@.skip(0) =~= pairs@);
    }
    while i < pairs.len()
        invariant
            i <= pairs@.len(),
            spec_lookup(pairs@, k) == spec_lookup(pairs@.skip(i as int), k),
        decreases pairs@.len() - i,
    {
        proof {
            assert(pairs@.skip(i as int)[0] == pairs@[i as int]);
            assert(pairs@.skip(i as int).drop_first() =~= pairs@.skip(i as int + 1));
        }
        if pairs[i].0 == k {
            return Some(pairs[i].1);
        }
        i = i + 1;
    }
    proof {
        assert(pairs@.skip(i as int).len() == 0);
    }
    None
}

/// Store `(k, v)` in an association vector of varint values.
fn store_var(pairs: &mut Vec<(u64, u64)>, k: u64, v: u64)
    ensures
        final(pairs)@ == spec_store(old(pairs)@, k, v),
{
    let mut i: usize = 0;
    while i < pairs.len()
        invariant
            i <= pairs@.len(),
            pairs@ == old(pairs)@,
            forall|m: int| 0 <= m < i ==> (#[trigger] pairs@[m]).0 != k,
        decreases pairs@.len() - i,
    {
        if pairs[i].0 == k {
            pairs[i] = (k, v);
            proof {
                lemma_store_at(old(pairs)@, k, v, i as int);
                assert(pairs@ =~= spec_store(old(pairs)@, k, v));
            }
            return ;
        }
        i = i + 1;
    }
    pairs.push((k, v));
    proof {
        lemma_store_missing(old(pairs)@, k, v);
        assert(pairs@ =~= spec_store(old(pairs)@, k, v));
    }
}

/// Storing under a key that sits at position `i` replaces that entry.
pub proof fn lemma_store_at<T>(pairs: Seq<(u64, T)>, k: u64, v: T, i: int)
    requires
        0 <= i < pairs.len(),
        pairs[i].0 == k,
        forall|m: int| 0 <= m < i ==> (#[trigger] pairs[m]).0 != k,
    ensures
        spec_store(pairs, k, v) == pairs.update(i, (k, v)),
    decreases i,
{
    if i == 0 {
        assert(spec_store(pairs, k, v) =~= pairs.update(0, (k, v)));
    } else {
        assert(pairs[0].0 != k);
        lemma_store_at(pairs.drop_first(), k, v, i - 1);
        assert(pairs.drop_first().update(i - 1, (k, v)) =~= pairs.update(i, (k, v)).drop_first());
        assert(spec_store(pairs, k, v) =~= pairs.update(i, (k, v)));
    }
}

/// Storing under a fresh key appends the entry.
pub proof fn lemma_store_missing<T>(pairs: Seq<(u64, T)>, k: u64, v: T)
    requires
        forall|m: int| 0 <= m < pairs.len() ==> (#[trigger] pairs[m]).0 != k,
    ensures
        spec_store(pairs, k, v) == pairs.push((k, v)),
    decreases pairs.len(),
{
    if pairs.len() == 0 {
        assert(spec_store(pairs, k, v) =~= pairs.push((k, v)));
    } else {
        assert(pairs[0].0 != k);
        assert(forall|m: int|
            0 <= m < pairs.drop_first().len() ==> (#[trigger] pairs.drop_first()[m]).0 != k);
        lemma_store_missing(pairs.drop_first(), k, v);
        assert(spec_store(pairs, k, v) =~= pairs.push((k, v)));
    }
}

/// Looking up a stored key yields the stored value.
pub proof fn lemma_lookup_store<T>(pairs: Seq<(u64, T)>, k: u64, v: T)
    ensures
        spec_lookup(spec_store(pairs, k, v), k) == Some(v),
    decreases pairs.len(),
{
    if pairs.len() == 0 {
    } else if pairs[0].0 == k {
        assert(spec_store(pairs, k, v)[0] == (k, v));
    } else {
        lemma_lookup_store(pairs.drop_first(), k, v);
        assert(spec_store(pairs, k, v)[0] == pairs[0]);
        assert(spec_store(pairs, k, v).drop_first() =~= spec_store(pairs.drop_first(), k, v));
    }
}

/// Storing one key leaves every other key's value alone.
pub proof fn lemma_lookup_store_other<T>(pairs: Seq<(u64, T)>, k: u64, v: T, k2: u64)
    requires
        k2 != k,
    ensures
        spec_lookup(spec_store(pairs, k, v), k2) == spec_lookup(pairs, k2),
    decreases pairs.len(),
{
    let st = spec_store(pairs, k, v);
    if pairs.len() == 0 {
        assert(st == seq![(k, v)]);
        assert(st[0].0 != k2);
        assert(st.drop_first() =~= Seq::<(u64, T)>::empty());
        assert(spec_lookup(st, k2) == spec_lookup(st.drop_first(), k2));
    } else if pairs[0].0 == k {
        assert(st[0] == (k, v));
        assert(st.drop_first() =~= pairs.drop_first());
        assert(spec_lookup(st, k2) == spec_lookup(st.drop_first(), k2));
        assert(spec_lookup(pairs, k2) == spec_lookup(pairs.drop_first(), k2));
    } else {
        lemma_lookup_store_other(pairs.drop_first(), k, v, k2);
        assert(st[0] == pairs[0]);
        assert(st.drop_first() =~= spec_store(pairs.drop_first(), k, v));
        assert(st.len() > 0);
        if pairs[0].0 == k2 {
            assert(spec_lookup(st, k2) == Some(st[0].1));
            assert(spec_lookup(pairs, k2) == Some(pairs[0].1));
        } else {
            assert(spec_lookup(st, k2) == spec_lookup(st.drop_first(), k2));
            assert(spec_lookup(pairs, k2) == spec_lookup(pairs.drop_first(), k2));
        }
    }
}


/// The byte-string pairs as mathematical values.
pub open spec fn bytes_view(pairs: Seq<(u64, Vec<u8>)>) -> Seq<(u64, Seq<u8>)> {
    pairs.map_values(|p: (u64, Vec<u8>)| (p.0, p.1@))
}

/// Look `k` up in an association vector of byte strings.
fn lookup_bytes(pairs: &Vec<(u64, Vec<u8>)>, k: u64) -> (r: Option<Vec<u8>>)
    ensures
        match r {
            Some(v) => spec_lookup(bytes_view(pairs@), k) == Some(v@),
            None => spec_lookup(bytes_view(pairs@), k) is None,
        },
{
    let mut i: usize = 0;
    proof {
        assert(bytes_view(pairs@).skip(0) =~= bytes_view(pairs@));
    }
    while i < pairs.len()
        invariant
            i <= pairs@.len(),
            spec_lookup(bytes_view(pairs@), k) == spec_lookup(bytes_view(pairs@).skip(i as int), k),
        decreases pairs@.len() - i,
    {
        proof {
            assert(bytes_view(pairs@).skip(i as int)[0] == bytes_view(pairs@)[i as int]);
            assert(bytes_view(pairs@)[i as int] == (pairs@[i as int].0, pairs@[i as int].1@));
            assert(bytes_view(pairs@).skip(i as int).drop_first() =~= bytes_view(pairs@).skip(i as int + 1));
        }
        if pairs[i].0 == k {
            let v = pairs[i].1.clone();
            proof {
                assert(v@ =~= pairs@[i as int].1@);
            }
            return Some(v);
        }
        i = i + 1;
    }
    proof {
        assert(bytes_view(pairs@).skip(i as int).len() == 0);
    }
    None
}

/// Store `(k, v)` in an association vector of byte strings.
fn store_bytes(pairs: &mut Vec<(u64, Vec<u8>)>, k: u64, v: Vec<u8>)
    ensures
        bytes_view(final(pairs)@) == spec_store(bytes_view(old(pairs)@), k, v@),
{
    let ghost vv = v@;
    let mut i: usize = 0;
    while i < pairs.len()
        invariant
            i <= pairs@.len(),
            pairs@ == old(pairs)@,
            v@ == vv,
            forall|m: int| 0 <= m < i ==> (#[trigger] pairs@[m]).0 != k,
        decreases pairs@.len() - i,
    {
        if pairs[i].0 == k {
            pairs[i] = (k, v);
            proof {
                assert(bytes_view(old(pairs)@).len() == old(pairs)@.len());
                assert forall|m: int|
                    0 <= m < i implies (#[trigger] bytes_view(old(pairs)@)[m]).0 != k by {
                    assert(bytes_view(old(pairs)@)[m] == (old(pairs)@[m].0, old(pairs)@[m].1@));
                };
                assert(bytes_view(old(pairs)@)[i as int] == (old(pairs)@[i as int].0, old(
                    pairs,
                )@[i as int].1@));
                lemma_store_at(bytes_view(old(pairs)@), k, vv, i as int);
                let target = bytes_view(old(pairs)@).update(i as int, (k, vv));
                assert(pairs@.len() == old(pairs)@.len());
                assert(bytes_view(pairs@).len() == pairs@.len());
                assert forall|m: int| 0 <= m < target.len() implies bytes_view(pairs@)[m] == target[m] by {
                    assert(bytes_view(pairs@)[m] == (pairs@[m].0, pairs@[m].1@));
                    if m != i {
                        assert(pairs@[m] == old(pairs)@[m]);
                        assert(target[m] == bytes_view(old(pairs)@)[m]);
                        assert(bytes_view(old(pairs)@)[m] == (old(pairs)@[m].0, old(pairs)@[m].1@));
                        assert(bytes_view(pairs@)[m] == (old(pairs)@[m].0, old(pairs)@[m].1@));
                    } else {
                        assert(pairs@[m].0 == k);
                        assert(pairs@[m].1@ == vv);
                        assert(bytes_view(pairs@)[m] == (k, vv));
                        assert(target[m] == (k, vv));
                    }
                };
                assert(bytes_view(pairs@) =~= target);
            }
            return ;
        }
        i = i + 1;
    }
    pairs.push((k, v));
    proof {
        assert(bytes_view(old(pairs)@).len() == old(pairs)@.len());
        assert forall|m: int|
            0 <= m < old(pairs)@.len() implies (#[trigger] bytes_view(old(pairs)@)[m]).0 != k by {
            assert(bytes_view(old(pairs)@)[m] == (old(pairs)@[m].0, old(pairs)@[m].1@));
        };
        lemma_store_missing(bytes_view(old(pairs)@), k, vv);
        let target = bytes_view(old(pairs)@).push((k, vv));
        assert forall|m: int| 0 <= m < target.len() implies bytes_view(pairs@)[m] == target[m] by {
            assert(bytes_view(pairs@)[m] == (pairs@[m].0, pairs@[m].1@));
            if m < old(pairs)@.len() {
                assert(bytes_view(old(pairs)@)[m] == (old(pairs)@[m].0, old(pairs)@[m].1@));
            }
        };
        assert(bytes_view(pairs@) =~= target);
    }
}

// ---------------------------------------------------------------------------
// The wire form of a table
// ---------------------------------------------------------------------------

/// The encodings of the varint pairs from index `k` on.
pub open spec fn spec_vars_tail(vars: Seq<(u64, u64)>, k: int) -> Seq<u8>
    decreases vars.len() - k,
{
    if k < 0 || k >= vars.len() {
        Seq::empty()
    } else {
        spec_varint(vars[k].0) + spec_varint(vars[k].1) + spec_vars_tail(vars, k + 1)
    }
}

/// The encodings of the byte-string pairs from index `k` on.
pub open spec fn spec_bytes_tail(bytes: Seq<(u64, Seq<u8>)>, k: int) -> Seq<u8>
    decreases bytes.len() - k,
{
    if k < 0 || k >= bytes.len() {
        Seq::empty()
    } else {
        spec_varint(bytes[k].0) + spec_bytes(bytes[k].1) + spec_bytes_tail(bytes, k + 1)
    }
}

/// The wire form of a table: the entry count, the varint pairs, then the
/// byte-string pairs.
pub open spec fn spec_table_encode(vars: Seq<(u64, u64)>, bytes: Seq<(u64, Seq<u8>)>) -> Seq<u8> {
    spec_varint((vars.len() + bytes.len()) as u64) + spec_vars_tail(vars, 0) + spec_bytes_tail(bytes, 0)
}

/// Every key and value of the table fits on the wire, keys have the parity
/// their kind demands, each key appears once, and the table is small enough.
pub open spec fn table_wf(vars: Seq<(u64, u64)>, bytes: Seq<(u64, Seq<u8>)>) -> bool {
    &&& vars.len() + bytes.len() <= MAX_PARAMS
    &&& forall|m: int|
        0 <= m < vars.len() ==> (#[trigger] vars[m]).0 <= VARINT_MAX && vars[m].0 % 2 == 0 && vars[m].1
            <= VARINT_MAX
    &&& forall|m: int|
        0 <= m < bytes.len() ==> (#[trigger] bytes[m]).0 <= VARINT_MAX && bytes[m].0 % 2 == 1
            && bytes[m].1.len() <= VARINT_MAX
}

/// The prefix form of `spec_vars_tail`, for loop proofs.
pub open spec fn spec_vars_prefix(vars: Seq<(u64, u64)>, k: int) -> Seq<u8>
    decreases k,
{
    if k <= 0 || k > vars.len() {
        Seq::empty()
    } else {
        spec_vars_prefix(vars, k - 1) + spec_varint(vars[k - 1].0) + spec_varint(vars[k - 1].1)
    }
}

/// The prefix form of `spec_bytes_tail`, for loop proofs.
pub open spec fn spec_bytes_prefix(bytes: Seq<(u64, Seq<u8>)>, k: int) -> Seq<u8>
    decreases k,
{
    if k <= 0 || k > bytes.len() {
        Seq::empty()
    } else {
        spec_bytes_prefix(bytes, k - 1) + spec_varint(bytes[k - 1].0) + spec_bytes(bytes[k - 1].1)
    }
}

/// The first `k` varint pairs and the rest make the whole.
proof fn lemma_vars_prefix_tail(vars: Seq<(u64, u64)>, k: int)
    requires
        0 <= k <= vars.len(),
    ensures
        spec_vars_prefix(vars, k) + spec_vars_tail(vars, k) == spec_vars_tail(vars, 0),
    decreases k,
{
    if k == 0 {
        assert(spec_vars_prefix(vars, 0) + spec_vars_tail(vars, 0) =~= spec_vars_tail(vars, 0));
    } else {
        lemma_vars_prefix_tail(vars, k - 1);
        assert(spec_vars_tail(vars, k - 1) == spec_varint(vars[k - 1].0) + spec_varint(vars[k - 1].1)
            + spec_vars_tail(vars, k));
        assert(spec_vars_prefix(vars, k) + spec_vars_tail(vars, k) =~= spec_vars_prefix(vars, k - 1)
            + spec_vars_tail(vars, k - 1));
    }
}

/// The first `k` byte-string pairs and the rest make the whole.
proof fn lemma_bytes_prefix_tail(bytes: Seq<(u64, Seq<u8>)>, k: int)
    requires
        0 <= k <= bytes.len(),
    ensures
        spec_bytes_prefix(bytes, k) + spec_bytes_tail(bytes, k) == spec_bytes_tail(bytes, 0),
    decreases k,
{
    if k == 0 {
        assert(spec_bytes_prefix(bytes, 0) + spec_bytes_tail(bytes, 0) =~= spec_bytes_tail(bytes, 0));
    } else {
        lemma_bytes_prefix_tail(bytes, k - 1);
        assert(spec_bytes_tail(bytes, k - 1) == spec_varint(bytes[k - 1].0) + spec_bytes(bytes[k - 1].1)
            + spec_bytes_tail(bytes, k));
        assert(spec_bytes_prefix(bytes, k) + spec_bytes_tail(bytes, k) =~= spec_bytes_prefix(bytes, k - 1)
            + spec_bytes_tail(bytes, k - 1));
    }
}

/// Append the wire form of a table.
fn encode_table(buf: &mut Vec<u8>, vars: &Vec<(u64, u64)>, bytes: &Vec<(u64, Vec<u8>)>)
    requires
        table_wf(vars@, bytes_view(bytes@)),
    ensures
        final(buf)@ == old(buf)@ + spec_table_encode(vars@, bytes_view(bytes@)),
{
    let count = vars.len() as u64 + bytes.len() as u64;
    proof {
        assert(bytes_view(bytes@).len() == bytes@.len());
    }
    encode_varint(buf, count);
    let ghost base = buf@;
    let mut k: usize = 0;
    while k < vars.len()
        invariant
            k <= vars@.len(),
            table_wf(vars@, bytes_view(bytes@)),
            buf@ == base + spec_vars_prefix(vars@, k as int),
        decreases vars@.len() - k,
    {
        encode_varint(buf, vars[k].0);
        encode_varint(buf, vars[k].1);
        k = k + 1;
        proof {
            assert(buf@ =~= base + spec_vars_prefix(vars@, k as int));
        }
    }
    proof {
        lemma_vars_prefix_tail(vars@, vars@.len() as int);
        assert(spec_vars_tail(vars@, vars@.len() as int) =~= Seq::<u8>::empty());
        assert(spec_vars_prefix(vars@, vars@.len() as int) =~= spec_vars_tail(vars@, 0));
    }
    let ghost base2 = buf@;
    let mut m: usize = 0;
    while m < bytes.len()
        invariant
            m <= bytes@.len(),
            bytes_view(bytes@).len() == bytes@.len(),
            table_wf(vars@, bytes_view(bytes@)),
            buf@ == base2 + spec_bytes_prefix(bytes_view(bytes@), m as int),
        decreases bytes@.len() - m,
    {
        proof {
            assert(bytes_view(bytes@)[m as int] == (bytes@[m as int].0, bytes@[m as int].1@));
        }
        encode_varint(buf, bytes[m].0);
        encode_bytes(buf, bytes[m].1.as_slice());
        m = m + 1;
        proof {
            assert(buf@ =~= base2 + spec_bytes_prefix(bytes_view(bytes@), m as int));
        }
    }
    proof {
        lemma_bytes_prefix_tail(bytes_view(bytes@), bytes_view(bytes@).len() as int);
        assert(spec_bytes_tail(bytes_view(bytes@), bytes_view(bytes@).len() as int) =~= Seq::<u8>::empty());
        assert(spec_bytes_prefix(bytes_view(bytes@), bytes_view(bytes@).len() as int) =~= spec_bytes_tail(
            bytes_view(bytes@),
            0,
        ));
        assert(buf@ =~= old(buf)@ + spec_table_encode(vars@, bytes_view(bytes@)));
    }
}

/// Decode `n` table entries at cursor `i`, the pairs in `vars` and `bytes`
/// already read.  A repeated key is a duplicate error.
pub open spec fn sp_table_items(
    s: Seq<u8>,
    i: int,
    n: nat,
    vars: Seq<(u64, u64)>,
    bytes: Seq<(u64, Seq<u8>)>,
) -> Result<((Seq<(u64, u64)>, Seq<(u64, Seq<u8>)>), int), DecodeError>
    decreases n,
{
    if n == 0 {
        Ok(((vars, bytes), i))
    } else {
        match sp_varint(s, i) {
            Err(e) => Err(e),
            Ok((kind, j)) => {
                if kind % 2 == 0 {
                    if spec_lookup(vars, kind) is Some {
                        Err(DecodeError::Duplicate)
                    } else {
                        match sp_varint(s, j) {
                            Err(e) => Err(e),
                            Ok((val, j2)) => sp_table_items(s, j2, (n - 1) as nat, vars.push((kind, val)), bytes),
                        }
                    }
                } else {
                    if spec_lookup(bytes, kind) is Some {
                        Err(DecodeError::Duplicate)
                    } else {
                        match sp_bytes(s, j) {
                            Err(e) => Err(e),
                            Ok((b, j2)) => sp_table_items(s, j2, (n - 1) as nat, vars, bytes.push((kind, b))),
                        }
                    }
                }
            },
        }
    }
}

/// Decode a table at cursor `i`: the entry count, then the entries.
pub open spec fn sp_table(s: Seq<u8>, i: int) -> Result<
    ((Seq<(u64, u64)>, Seq<(u64, Seq<u8>)>), int),
    DecodeError,
> {
    match sp_varint(s, i) {
        Err(e) => Err(e),
        Ok((n, j)) => {
            if n > MAX_PARAMS {
                Err(DecodeError::TooMany)
            } else {
                sp_table_items(s, j, n as nat, Seq::empty(), Seq::empty())
            }
        },
    }
}

/// Read a table at `*pos`.
fn decode_table(buf: &[u8], pos: &mut usize) -> (r: Result<(Vec<(u64, u64)>, Vec<(u64, Vec<u8>)>), DecodeError>)
    requires
        *old(pos) <= buf@.len(),
    ensures
        match r {
            Ok(t) => sp_table(buf@, *old(pos) as int) == Ok::<
                ((Seq<(u64, u64)>, Seq<(u64, Seq<u8>)>), int),
                DecodeError,
            >(((t.0@, bytes_view(t.1@)), *final(pos) as int)) && *old(pos) <= *final(pos) <= buf@.len(),
            Err(e) => sp_table(buf@, *old(pos) as int) == Err::<
                ((Seq<(u64, u64)>, Seq<(u64, Seq<u8>)>), int),
                DecodeError,
            >(e) && *final(pos) == *old(pos),
        },
{
    let start = *pos;
    let n = match decode_varint(buf, pos) {
        Ok(v) => v,
        Err(e) => {
            return Err(e);
        },
    };
    if n > MAX_PARAMS {
        *pos = start;
        return Err(DecodeError::TooMany);
    }
    let ghost i0: int = *pos as int;
    let mut vars: Vec<(u64, u64)> = Vec::new();
    let mut bytes: Vec<(u64, Vec<u8>)> = Vec::new();
    let mut k: u64 = 0;
    proof {
        assert(vars@ =~= Seq::<(u64, u64)>::empty());
        assert(bytes_view(bytes@) =~= Seq::<(u64, Seq<u8>)>::empty());
    }
    while k < n
        invariant
            k <= n,
            n <= MAX_PARAMS,
            *pos <= buf@.len(),
            start == *old(pos),
            start <= *pos,
            start <= buf@.len(),
            sp_varint(buf@, start as int) == Ok::<(u64, int), DecodeError>((n, i0)),
            sp_table_items(buf@, i0, n as nat, Seq::empty(), Seq::empty()) == sp_table_items(
                buf@,
                *pos as int,
                (n - k) as nat,
                vars@,
                bytes_view(bytes@),
            ),
        decreases n - k,
    {
        let ghost pre_pos: int = *pos as int;
        let kind = match decode_varint(buf, pos) {
            Ok(v) => v,
            Err(e) => {
                *pos = start;
                return Err(e);
            },
        };
        if kind % 2 == 0 {
            match lookup_var(&vars, kind) {
                Some(_) => {
                    *pos = start;
                    return Err(DecodeError::Duplicate);
                },
                None => {},
            }
            let val = match decode_varint(buf, pos) {
                Ok(v) => v,
                Err(e) => {
                    *pos = start;
                    return Err(e);
                },
            };
            vars.push((kind, val));
            k = k + 1;
        } else {
            match lookup_bytes(&bytes, kind) {
                Some(_) => {
                    *pos = start;
                    return Err(DecodeError::Duplicate);
                },
                None => {},
            }
            let b = match decode_bytes(buf, pos) {
                Ok(v) => v,
                Err(e) => {
                    *pos = start;
                    return Err(e);
                },
            };
            let ghost bv = b@;
            let ghost pre_bytes = bytes@;
            bytes.push((kind, b));
            k = k + 1;
            proof {
                let target = bytes_view(pre_bytes).push((kind, bv));
                assert(bytes_view(pre_bytes).len() == pre_bytes.len());
                assert forall|m: int| 0 <= m < target.len() implies bytes_view(bytes@)[m] == target[m] by {
                    assert(bytes_view(bytes@)[m] == (bytes@[m].0, bytes@[m].1@));
                    if m < pre_bytes.len() {
                        assert(bytes_view(pre_bytes)[m] == (pre_bytes[m].0, pre_bytes[m].1@));
                    }
                };
                assert(bytes_view(bytes@) =~= target);
            }
        }
    }
    proof {
        assert(sp_table_items(buf@, *pos as int, 0, vars@, bytes_view(bytes@)) == Ok::<
            ((Seq<(u64, u64)>, Seq<(u64, Seq<u8>)>), int),
            DecodeError,
        >(((vars@, bytes_view(bytes@)), *pos as int)));
    }
    Ok((vars, bytes))
}


// ---------------------------------------------------------------------------
// Setup parameters
// ---------------------------------------------------------------------------

/// The parameter table of the setup messages.
#[derive(Debug, Clone)]
pub struct Parameters {
    vars: Vec<(u64, u64)>,
    bytes: Vec<(u64, Vec<u8>)>,
}

impl Parameters {
    /// The varint entries, in insertion order.
    pub closed spec fn vars_v(self) -> Seq<(u64, u64)> {
        self.vars@
    }

    /// The byte-string entries, in insertion order.
    pub closed spec fn bytes_v(self) -> Seq<(u64, Seq<u8>)> {
        bytes_view(self.bytes@)
    }

    /// The table fits on the wire.
    pub open spec fn wf(self) -> bool {
        table_wf(self.vars_v(), self.bytes_v())
    }

    /// An empty table.
    pub fn new() -> (r: Parameters)
        ensures
            r.vars_v() == Seq::<(u64, u64)>::empty(),
            r.bytes_v() == Seq::<(u64, Seq<u8>)>::empty(),
            r.wf(),
    {
        let r = Parameters { vars: Vec::new(), bytes: Vec::new() };
        proof {
            assert(r.vars_v() =~= Seq::<(u64, u64)>::empty());
            assert(r.bytes_v() =~= Seq::<(u64, Seq<u8>)>::empty());
        }
        r
    }

    /// The value stored under the given varint key.
    pub fn get_varint(&self, kind: ParameterVarInt) -> (r: Option<u64>)
        ensures
            r == spec_lookup(self.vars_v(), kind.spec_key()),
    {
        lookup_var(&self.vars, kind.key())
    }

    /// Store a value under the given varint key, replacing any old value.
    pub fn set_varint(&mut self, kind: ParameterVarInt, value: u64)
        ensures
            final(self).vars_v() == spec_store(old(self).vars_v(), kind.spec_key(), value),
            final(self).bytes_v() == old(self).bytes_v(),
    {
        store_var(&mut self.vars, kind.key(), value);
    }

    /// The bytes stored under the given byte-string key.
    pub fn get_bytes(&self, kind: ParameterBytes) -> (r: Option<Vec<u8>>)
        ensures
            match r {
                Some(v) => spec_lookup(self.bytes_v(), kind.spec_key()) == Some(v@),
                None => spec_lookup(self.bytes_v(), kind.spec_key()) is None,
            },
    {
        lookup_bytes(&self.bytes, kind.key())
    }

    /// Store bytes under the given byte-string key, replacing any old value.
    pub fn set_bytes(&mut self, kind: ParameterBytes, value: Vec<u8>)
        ensures
            final(self).bytes_v() == spec_store(old(self).bytes_v(), kind.spec_key(), value@),
            final(self).vars_v() == old(self).vars_v(),
    {
        store_bytes(&mut self.bytes, kind.key(), value);
    }

    /// The wire form of this table.
    pub open spec fn spec_encode(self) -> Seq<u8> {
        spec_table_encode(self.vars_v(), self.bytes_v())
    }

    /// Append the wire form of this table.
    pub fn encode(&self, buf: &mut Vec<u8>)
        requires
            self.wf(),
        ensures
            final(buf)@ == old(buf)@ + self.spec_encode(),
    {
        encode_table(buf, &self.vars, &self.bytes);
    }

    /// Read a table at `*pos`.
    pub fn decode(buf: &[u8], pos: &mut usize) -> (r: Result<Parameters, DecodeError>)
        requires
            *old(pos) <= buf@.len(),
        ensures
            match r {
                Ok(t) => sp_table(buf@, *old(pos) as int) == Ok::<
                    ((Seq<(u64, u64)>, Seq<(u64, Seq<u8>)>), int),
                    DecodeError,
                >(((t.vars_v(), t.bytes_v()), *final(pos) as int)) && *old(pos) <= *final(pos) <= buf@.len(),
                Err(e) => sp_table(buf@, *old(pos) as int) == Err::<
                    ((Seq<(u64, u64)>, Seq<(u64, Seq<u8>)>), int),
                    DecodeError,
                >(e) && *final(pos) == *old(pos),
            },
    {
        match decode_table(buf, pos) {
            Ok((vars, bytes)) => Ok(Parameters { vars, bytes }),
            Err(e) => Err(e),
        }
    }
}

impl Default for Parameters {
    /// An empty table.
    fn default() -> (r: Parameters)
        ensures
            r.vars_v() == Seq::<(u64, u64)>::empty(),
            r.bytes_v() == Seq::<(u64, Seq<u8>)>::empty(),
            r.wf(),
    {
        Parameters::new()
    }
}

// ---------------------------------------------------------------------------
// Message parameters
// ---------------------------------------------------------------------------

/// The parameter table of the request messages, keyed by raw identifiers.
#[derive(Debug, Clone)]
pub struct MessageParameters {
    vars: Vec<(u64, u64)>,
    bytes: Vec<(u64, Vec<u8>)>,
}

/// The varint key of the delivery timeout parameter.
pub const PARAM_DELIVERY_TIMEOUT: u64 = 0x02;

/// The varint key of the cache duration parameter.
pub const PARAM_MAX_CACHE_DURATION: u64 = 0x04;

/// The varint key of the expiry parameter.
pub const PARAM_EXPIRES: u64 = 0x08;

/// The varint key of the publisher priority parameter.
pub const PARAM_PUBLISHER_PRIORITY: u64 = 0x0e;

/// The varint key of the forward parameter.
pub const PARAM_FORWARD: u64 = 0x10;

/// The varint key of the subscriber priority parameter.
pub const PARAM_SUBSCRIBER_PRIORITY: u64 = 0x20;

/// The varint key of the group order parameter.
pub const PARAM_GROUP_ORDER: u64 = 0x22;

/// The byte-string key of the largest object parameter.
pub const PARAM_LARGEST_OBJECT: u64 = 0x09;

/// The byte-string key of the subscription filter parameter.
pub const PARAM_SUBSCRIPTION_FILTER: u64 = 0x21;

impl MessageParameters {
    /// The varint entries, in insertion order.
    pub closed spec fn vars_v(self) -> Seq<(u64, u64)> {
        self.vars@
    }

    /// The byte-string entries, in insertion order.
    pub closed spec fn bytes_v(self) -> Seq<(u64, Seq<u8>)> {
        bytes_view(self.bytes@)
    }

    /// The table fits on the wire.
    pub open spec fn wf(self) -> bool {
        table_wf(self.vars_v(), self.bytes_v())
    }

    /// An empty table.
    pub fn new() -> (r: MessageParameters)
        ensures
            r.vars_v() == Seq::<(u64, u64)>::empty(),
            r.bytes_v() == Seq::<(u64, Seq<u8>)>::empty(),
            r.wf(),
    {
        let r = MessageParameters { vars: Vec::new(), bytes: Vec::new() };
        proof {
            assert(r.vars_v() =~= Seq::<(u64, u64)>::empty());
            assert(r.bytes_v() =~= Seq::<(u64, Seq<u8>)>::empty());
        }
        r
    }

    /// The delivery timeout, if present.
    pub fn delivery_timeout(&self) -> (r: Option<u64>)
        ensures
            r == spec_lookup(self.vars_v(), PARAM_DELIVERY_TIMEOUT),
    {
        lookup_var(&self.vars, PARAM_DELIVERY_TIMEOUT)
    }

    /// Set the delivery timeout.
    pub fn set_delivery_timeout(&mut self, v: u64)
        ensures
            final(self).vars_v() == spec_store(old(self).vars_v(), PARAM_DELIVERY_TIMEOUT, v),
            final(self).bytes_v() == old(self).bytes_v(),
    {
        store_var(&mut self.vars, PARAM_DELIVERY_TIMEOUT, v);
    }

    /// The cache duration, if present.
    pub fn max_cache_duration(&self) -> (r: Option<u64>)
        ensures
            r == spec_lookup(self.vars_v(), PARAM_MAX_CACHE_DURATION),
    {
        lookup_var(&self.vars, PARAM_MAX_CACHE_DURATION)
    }

    /// Set the cache duration.
    pub fn set_max_cache_duration(&mut self, v: u64)
        ensures
            final(self).vars_v() == spec_store(old(self).vars_v(), PARAM_MAX_CACHE_DURATION, v),
            final(self).bytes_v() == old(self).bytes_v(),
    {
        store_var(&mut self.vars, PARAM_MAX_CACHE_DURATION, v);
    }

    /// The expiry, if present.
    pub fn expires(&self) -> (r: Option<u64>)
        ensures
            r == spec_lookup(self.vars_v(), PARAM_EXPIRES),
    {
        lookup_var(&self.vars, PARAM_EXPIRES)
    }

    /// Set the expiry.
    pub fn set_expires(&mut self, v: u64)
        ensures
            final(self).vars_v() == spec_store(old(self).vars_v(), PARAM_EXPIRES, v),
            final(self).bytes_v() == old(self).bytes_v(),
    {
        store_var(&mut self.vars, PARAM_EXPIRES, v);
    }

    /// The publisher priority, if present; only its low byte is kept.
    pub fn publisher_priority(&self) -> (r: Option<u8>)
        ensures
            r == (match spec_lookup(self.vars_v(), PARAM_PUBLISHER_PRIORITY) {
                Some(v) => Some((v % 0x100) as u8),
                None => None::<u8>,
            }),
    {
        match lookup_var(&self.vars, PARAM_PUBLISHER_PRIORITY) {
            Some(v) => Some((v % 0x100) as u8),
            None => None,
        }
    }

    /// Set the publisher priority.
    pub fn set_publisher_priority(&mut self, v: u8)
        ensures
            final(self).vars_v() == spec_store(old(self).vars_v(), PARAM_PUBLISHER_PRIORITY, v as u64),
            final(self).bytes_v() == old(self).bytes_v(),
    {
        store_var(&mut self.vars, PARAM_PUBLISHER_PRIORITY, v as u64);
    }

    /// Whether forwarding is requested, if present.
    pub fn forward(&self) -> (r: Option<bool>)
        ensures
            r == (match spec_lookup(self.vars_v(), PARAM_FORWARD) {
                Some(v) => Some(v != 0),
                None => None::<bool>,
            }),
    {
        match lookup_var(&self.vars, PARAM_FORWARD) {
            Some(v) => Some(v != 0),
            None => None,
        }
    }

    /// Set the forward flag.
    pub fn set_forward(&mut self, v: bool)
        ensures
            final(self).vars_v() == spec_store(old(self).vars_v(), PARAM_FORWARD, if v {
                1u64
            } else {
                0u64
            }),
            final(self).bytes_v() == old(self).bytes_v(),
    {
        store_var(&mut self.vars, PARAM_FORWARD, if v { 1 } else { 0 });
    }

    /// The subscriber priority, if present; only its low byte is kept.
    pub fn subscriber_priority(&self) -> (r: Option<u8>)
        ensures
            r == (match spec_lookup(self.vars_v(), PARAM_SUBSCRIBER_PRIORITY) {
                Some(v) => Some((v % 0x100) as u8),
                None => None::<u8>,
            }),
    {
        match lookup_var(&self.vars, PARAM_SUBSCRIBER_PRIORITY) {
            Some(v) => Some((v % 0x100) as u8),
            None => None,
        }
    }

    /// Set the subscriber priority.
    pub fn set_subscriber_priority(&mut self, v: u8)
        ensures
            final(self).vars_v() == spec_store(old(self).vars_v(), PARAM_SUBSCRIBER_PRIORITY, v as u64),
            final(self).bytes_v() == old(self).bytes_v(),
    {
        store_var(&mut self.vars, PARAM_SUBSCRIBER_PRIORITY, v as u64);
    }

    /// The group order, if present.
    pub fn group_order(&self) -> (r: Option<u64>)
        ensures
            r == spec_lookup(self.vars_v(), PARAM_GROUP_ORDER),
    {
        lookup_var(&self.vars, PARAM_GROUP_ORDER)
    }

    /// Set the group order.
    pub fn set_group_order(&mut self, v: u64)
        ensures
            final(self).vars_v() == spec_store(old(self).vars_v(), PARAM_GROUP_ORDER, v),
            final(self).bytes_v() == old(self).bytes_v(),
    {
        store_var(&mut self.vars, PARAM_GROUP_ORDER, v);
    }

    /// What the largest object parameter holds: two varints, a group and an
    /// object.
    pub open spec fn spec_largest_object(self) -> Option<crate::ietf::Location> {
        match spec_lookup(self.bytes_v(), PARAM_LARGEST_OBJECT) {
            None => None,
            Some(b) => match crate::ietf::Location::sp_decode(b, 0) {
                Ok((loc, _)) => Some(loc),
                Err(_) => None,
            },
        }
    }

    /// The largest object location, if present and well-formed.
    pub fn largest_object(&self) -> (r: Option<crate::ietf::Location>)
        ensures
            r == self.spec_largest_object(),
    {
        let b = match lookup_bytes(&self.bytes, PARAM_LARGEST_OBJECT) {
            Some(b) => b,
            None => {
                return None;
            },
        };
        let mut p: usize = 0;
        match crate::ietf::Location::decode(b.as_slice(), &mut p) {
            Ok(loc) => Some(loc),
            Err(_) => None,
        }
    }

    /// Set the largest object location.
    pub fn set_largest_object(&mut self, loc: &crate::ietf::Location)
        requires
            loc.wf(),
        ensures
            final(self).bytes_v() == spec_store(
                old(self).bytes_v(),
                PARAM_LARGEST_OBJECT,
                loc.spec_encode(),
            ),
            final(self).vars_v() == old(self).vars_v(),
    {
        let mut b: Vec<u8> = Vec::new();
        loc.encode(&mut b);
        proof {
            assert(b@ =~= loc.spec_encode());
        }
        store_bytes(&mut self.bytes, PARAM_LARGEST_OBJECT, b);
    }

    /// What the subscription filter parameter holds: a filter type varint.
    pub open spec fn spec_subscription_filter(self) -> Option<crate::ietf::FilterType> {
        match spec_lookup(self.bytes_v(), PARAM_SUBSCRIPTION_FILTER) {
            None => None,
            Some(b) => match sp_varint(b, 0) {
                Ok((v, _)) => crate::ietf::FilterType::spec_from_value(v),
                Err(_) => None,
            },
        }
    }

    /// The subscription filter, if present and well-formed.
    pub fn subscription_filter(&self) -> (r: Option<crate::ietf::FilterType>)
        ensures
            r == self.spec_subscription_filter(),
    {
        let b = match lookup_bytes(&self.bytes, PARAM_SUBSCRIPTION_FILTER) {
            Some(b) => b,
            None => {
                return None;
            },
        };
        let mut p: usize = 0;
        match decode_varint(b.as_slice(), &mut p) {
            Ok(v) => crate::ietf::FilterType::from_value(v),
            Err(_) => None,
        }
    }

    /// Set the subscription filter.
    pub fn set_subscription_filter(&mut self, ft: crate::ietf::FilterType)
        ensures
            final(self).bytes_v() == spec_store(
                old(self).bytes_v(),
                PARAM_SUBSCRIPTION_FILTER,
                spec_varint(ft.spec_value()),
            ),
            final(self).vars_v() == old(self).vars_v(),
    {
        let mut b: Vec<u8> = Vec::new();
        encode_varint(&mut b, ft.value());
        proof {
            assert(b@ =~= spec_varint(ft.spec_value()));
        }
        store_bytes(&mut self.bytes, PARAM_SUBSCRIPTION_FILTER, b);
    }

    /// The wire form of this table.
    pub open spec fn spec_encode(self) -> Seq<u8> {
        spec_table_encode(self.vars_v(), self.bytes_v())
    }

    /// Append the wire form of this table.
    pub fn encode(&self, buf: &mut Vec<u8>)
        requires
            self.wf(),
        ensures
            final(buf)@ == old(buf)@ + self.spec_encode(),
    {
        encode_table(buf, &self.vars, &self.bytes);
    }

    /// Read a table at `*pos`.
    pub fn decode(buf: &[u8], pos: &mut usize) -> (r: Result<MessageParameters, DecodeError>)
        requires
            *old(pos) <= buf@.len(),
        ensures
            match r {
                Ok(t) => sp_table(buf@, *old(pos) as int) == Ok::<
                    ((Seq<(u64, u64)>, Seq<(u64, Seq<u8>)>), int),
                    DecodeError,
                >(((t.vars_v(), t.bytes_v()), *final(pos) as int)) && *old(pos) <= *final(pos) <= buf@.len(),
                Err(e) => sp_table(buf@, *old(pos) as int) == Err::<
                    ((Seq<(u64, u64)>, Seq<(u64, Seq<u8>)>), int),
                    DecodeError,
                >(e) && *final(pos) == *old(pos),
            },
    {
        match decode_table(buf, pos) {
            Ok((vars, bytes)) => Ok(MessageParameters { vars, bytes }),
            Err(e) => Err(e),
        }
    }
}

impl Default for MessageParameters {
    /// An empty table.
    fn default() -> (r: MessageParameters)
        ensures
            r.vars_v() == Seq::<(u64, u64)>::empty(),
            r.bytes_v() == Seq::<(u64, Seq<u8>)>::empty(),
            r.wf(),
    {
        MessageParameters::new()
    }
}

} // verus!
