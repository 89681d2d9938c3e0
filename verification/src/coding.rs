//! The wire codec: QUIC variable-length integers, fixed-width integers,
//! booleans, and length-prefixed byte strings.
//!
//! Every decoder is written in a state-passing style: the specification
//! functions (`sp_*`) take the whole buffer and a cursor and return either
//! the decoded value with the new cursor, or the error.  The executable
//! functions advance a `usize` cursor and are proved to agree with the
//! specification exactly, on success and on failure.

use vstd::prelude::*;

use crate::error::DecodeError;

verus! {

/// The largest value a QUIC variable-length integer can carry.
pub const VARINT_MAX: u64 = 0x3fff_ffff_ffff_ffff;

// ---------------------------------------------------------------------------
// Specification: serialization
// ---------------------------------------------------------------------------

/// The bytes of `v` as a QUIC variable-length integer (shortest form).
///
/// The two top bits of the first byte give the total length (1, 2, 4 or 8
/// bytes); the remaining bits hold the value in big-endian order.
pub open spec fn spec_varint(v: u64) -> Seq<u8> {
    if v < 0x40 {
        seq![v as u8]
    } else if v < 0x4000 {
        seq![(0x40 + v / 0x100) as u8, (v % 0x100) as u8]
    } else if v < 0x4000_0000 {
        seq![
            (0x80 + v / 0x100_0000) as u8,
            ((v / 0x1_0000) % 0x100) as u8,
            ((v / 0x100) % 0x100) as u8,
            (v % 0x100) as u8,
        ]
    } else {
        seq![
            (0xc0 + v / 0x100_0000_0000_0000) as u8,
            ((v / 0x1_0000_0000_0000) % 0x100) as u8,
            ((v / 0x100_0000_0000) % 0x100) as u8,
            ((v / 0x1_0000_0000) % 0x100) as u8,
            ((v / 0x100_0000) % 0x100) as u8,
            ((v / 0x1_0000) % 0x100) as u8,
            ((v / 0x100) % 0x100) as u8,
            (v % 0x100) as u8,
        ]
    }
}

/// A single byte.
pub open spec fn spec_u8(v: u8) -> Seq<u8> {
    seq![v]
}

/// A big-endian 16-bit integer.
pub open spec fn spec_u16(v: u16) -> Seq<u8> {
    seq![(v / 0x100) as u8, (v % 0x100) as u8]
}

/// A boolean as one byte, 0 or 1.
pub open spec fn spec_bool(v: bool) -> Seq<u8> {
    if v {
        seq![1u8]
    } else {
        seq![0u8]
    }
}

/// A byte string: varint length, then the raw bytes.
pub open spec fn spec_bytes(b: Seq<u8>) -> Seq<u8> {
    spec_varint(b.len() as u64) + b
}

// ---------------------------------------------------------------------------
// Specification: parsing
// ---------------------------------------------------------------------------

/// Decode a varint at cursor `i`.
pub open spec fn sp_varint(s: Seq<u8>, i: int) -> Result<(u64, int), DecodeError> {
    if i < 0 || i >= s.len() {
        Err(DecodeError::Short)
    } else {
        let b0 = s[i];
        if b0 < 0x40 {
            Ok((b0 as u64, i + 1))
        } else if b0 < 0x80 {
            if i + 2 <= s.len() {
                Ok(((((b0 - 0x40) * 0x100 + s[i + 1]) as u64), i + 2))
            } else {
                Err(DecodeError::Short)
            }
        } else if b0 < 0xc0 {
            if i + 4 <= s.len() {
                Ok((
                    (((b0 - 0x80) * 0x100_0000 + s[i + 1] * 0x1_0000 + s[i + 2] * 0x100 + s[i + 3]) as u64),
                    i + 4,
                ))
            } else {
                Err(DecodeError::Short)
            }
        } else {
            if i + 8 <= s.len() {
                Ok((
                    (((b0 - 0xc0) * 0x100_0000_0000_0000 + s[i + 1] * 0x1_0000_0000_0000
                        + s[i + 2] * 0x100_0000_0000 + s[i + 3] * 0x1_0000_0000
                        + s[i + 4] * 0x100_0000 + s[i + 5] * 0x1_0000
                        + s[i + 6] * 0x100 + s[i + 7]) as u64),
                    i + 8,
                ))
            } else {
                Err(DecodeError::Short)
            }
        }
    }
}

/// Decode one byte at cursor `i`.
pub open spec fn sp_u8(s: Seq<u8>, i: int) -> Result<(u8, int), DecodeError> {
    if 0 <= i < s.len() {
        Ok((s[i], i + 1))
    } else {
        Err(DecodeError::Short)
    }
}

/// Decode a big-endian 16-bit integer at cursor `i`.
pub open spec fn sp_u16(s: Seq<u8>, i: int) -> Result<(u16, int), DecodeError> {
    if 0 <= i && i + 2 <= s.len() {
        Ok((((s[i] * 0x100 + s[i + 1]) as u16), i + 2))
    } else {
        Err(DecodeError::Short)
    }
}

/// Decode a boolean at cursor `i`: 0 is false, 1 is true, all else invalid.
pub open spec fn sp_bool(s: Seq<u8>, i: int) -> Result<(bool, int), DecodeError> {
    if 0 <= i < s.len() {
        if s[i] == 0 {
            Ok((false, i + 1))
        } else if s[i] == 1 {
            Ok((true, i + 1))
        } else {
            Err(DecodeError::InvalidValue)
        }
    } else {
        Err(DecodeError::Short)
    }
}

/// Decode a length-prefixed byte string at cursor `i`.
pub open spec fn sp_bytes(s: Seq<u8>, i: int) -> Result<(Seq<u8>, int), DecodeError> {
    match sp_varint(s, i) {
        Err(e) => Err(e),
        Ok((len, j)) => {
            if j + len <= s.len() {
                Ok((s.subrange(j, j + len as int), j + len as int))
            } else {
                Err(DecodeError::Short)
            }
        },
    }
}

// ---------------------------------------------------------------------------
// Executable encoders
// ---------------------------------------------------------------------------

/// Append the varint form of `v` to `buf`.
pub fn encode_varint(buf: &mut Vec<u8>, v: u64)
    requires
        v <= VARINT_MAX,
    ensures
        final(buf)@ == old(buf)@ + spec_varint(v),
{
    if v < 0x40 {
        buf.push(v as u8);
    } else if v < 0x4000 {
        buf.push((0x40 + v / 0x100) as u8);
        buf.push((v % 0x100) as u8);
    } else if v < 0x4000_0000 {
        buf.push((0x80 + v / 0x100_0000) as u8);
        buf.push(((v / 0x1_0000) % 0x100) as u8);
        buf.push(((v / 0x100) % 0x100) as u8);
        buf.push((v % 0x100) as u8);
    } else {
        buf.push((0xc0 + v / 0x100_0000_0000_0000) as u8);
        buf.push(((v / 0x1_0000_0000_0000) % 0x100) as u8);
        buf.push(((v / 0x100_0000_0000) % 0x100) as u8);
        buf.push(((v / 0x1_0000_0000) % 0x100) as u8);
        buf.push(((v / 0x100_0000) % 0x100) as u8);
        buf.push(((v / 0x1_0000) % 0x100) as u8);
        buf.push(((v / 0x100) % 0x100) as u8);
        buf.push((v % 0x100) as u8);
    }
    assert(buf@ =~= old(buf)@ + spec_varint(v));
}

/// Append one byte.
pub fn encode_u8(buf: &mut Vec<u8>, v: u8)
    ensures
        final(buf)@ == old(buf)@ + spec_u8(v),
{
    buf.push(v);
    assert(buf@ =~= old(buf)@ + spec_u8(v));
}

/// Append a big-endian 16-bit integer.
pub fn encode_u16(buf: &mut Vec<u8>, v: u16)
    ensures
        final(buf)@ == old(buf)@ + spec_u16(v),
{
    buf.push((v / 0x100) as u8);
    buf.push((v % 0x100) as u8);
    assert(buf@ =~= old(buf)@ + spec_u16(v));
}

/// Append a boolean as one byte.
pub fn encode_bool(buf: &mut Vec<u8>, v: bool)
    ensures
        final(buf)@ == old(buf)@ + spec_bool(v),
{
    buf.push(if v { 1u8 } else { 0u8 });
    assert(buf@ =~= old(buf)@ + spec_bool(v));
}

/// Append a length-prefixed byte string.
pub fn encode_bytes(buf: &mut Vec<u8>, b: &[u8])
    requires
        b@.len() <= VARINT_MAX,
    ensures
        final(buf)@ == old(buf)@ + spec_bytes(b@),
{
    encode_varint(buf, b.len() as u64);
    let ghost mid = buf@;
    let mut k: usize = 0;
    while k < b.len()
        invariant
            k <= b@.len(),
            buf@ == mid + b@.subrange(0, k as int),
        decreases b@.len() - k,
    {
        buf.push(b[k]);
        k = k + 1;
        assert(buf@ =~= mid + b@.subrange(0, k as int));
    }
    assert(b@.subrange(0, b@.len() as int) =~= b@);
    assert(buf@ =~= old(buf)@ + spec_bytes(b@));
}

// ---------------------------------------------------------------------------
// Executable decoders
// ---------------------------------------------------------------------------

/// Read a varint at `*pos`, advancing the cursor on success.
pub fn decode_varint(buf: &[u8], pos: &mut usize) -> (r: Result<u64, DecodeError>)
    requires
        *old(pos) <= buf@.len(),
    ensures
        match r {
            Ok(v) => sp_varint(buf@, *old(pos) as int) == Ok::<(u64, int), DecodeError>((v, *final(pos) as int))
                && *old(pos) < *final(pos) <= buf@.len(),
            Err(e) => sp_varint(buf@, *old(pos) as int) == Err::<(u64, int), DecodeError>(e)
                && *final(pos) == *old(pos),
        },
{
    let i = *pos;
    if i >= buf.len() {
        return Err(DecodeError::Short);
    }
    let rem = buf.len() - i;
    let b0 = buf[i];
    if b0 < 0x40 {
        *pos = i + 1;
        Ok(b0 as u64)
    } else if b0 < 0x80 {
        if rem >= 2 {
            let v = ((b0 - 0x40) as u64) * 0x100 + buf[i + 1] as u64;
            *pos = i + 2;
            Ok(v)
        } else {
            Err(DecodeError::Short)
        }
    } else if b0 < 0xc0 {
        if rem >= 4 {
            let v = ((b0 - 0x80) as u64) * 0x100_0000 + (buf[i + 1] as u64) * 0x1_0000
                + (buf[i + 2] as u64) * 0x100 + buf[i + 3] as u64;
            *pos = i + 4;
            Ok(v)
        } else {
            Err(DecodeError::Short)
        }
    } else {
        if rem >= 8 {
            let v = ((b0 - 0xc0) as u64) * 0x100_0000_0000_0000 + (buf[i + 1] as u64) * 0x1_0000_0000_0000
                + (buf[i + 2] as u64) * 0x100_0000_0000 + (buf[i + 3] as u64) * 0x1_0000_0000
                + (buf[i + 4] as u64) * 0x100_0000 + (buf[i + 5] as u64) * 0x1_0000
                + (buf[i + 6] as u64) * 0x100 + buf[i + 7] as u64;
            *pos = i + 8;
            Ok(v)
        } else {
            Err(DecodeError::Short)
        }
    }
}

/// Read one byte at `*pos`.
pub fn decode_u8(buf: &[u8], pos: &mut usize) -> (r: Result<u8, DecodeError>)
    requires
        *old(pos) <= buf@.len(),
    ensures
        match r {
            Ok(v) => sp_u8(buf@, *old(pos) as int) == Ok::<(u8, int), DecodeError>((v, *final(pos) as int))
                && *old(pos) < *final(pos) <= buf@.len(),
            Err(e) => sp_u8(buf@, *old(pos) as int) == Err::<(u8, int), DecodeError>(e)
                && *final(pos) == *old(pos),
        },
{
    let i = *pos;
    if i >= buf.len() {
        return Err(DecodeError::Short);
    }
    let v = buf[i];
    *pos = i + 1;
    Ok(v)
}

/// Read a big-endian 16-bit integer at `*pos`.
pub fn decode_u16(buf: &[u8], pos: &mut usize) -> (r: Result<u16, DecodeError>)
    requires
        *old(pos) <= buf@.len(),
    ensures
        match r {
            Ok(v) => sp_u16(buf@, *old(pos) as int) == Ok::<(u16, int), DecodeError>((v, *final(pos) as int))
                && *old(pos) < *final(pos) <= buf@.len(),
            Err(e) => sp_u16(buf@, *old(pos) as int) == Err::<(u16, int), DecodeError>(e)
                && *final(pos) == *old(pos),
        },
{
    let i = *pos;
    if buf.len() - i < 2 {
        return Err(DecodeError::Short);
    }
    let v = (buf[i] as u16) * 0x100 + buf[i + 1] as u16;
    *pos = i + 2;
    Ok(v)
}

/// Read a boolean at `*pos`.
pub fn decode_bool(buf: &[u8], pos: &mut usize) -> (r: Result<bool, DecodeError>)
    requires
        *old(pos) <= buf@.len(),
    ensures
        match r {
            Ok(v) => sp_bool(buf@, *old(pos) as int) == Ok::<(bool, int), DecodeError>((v, *final(pos) as int))
                && *old(pos) < *final(pos) <= buf@.len(),
            Err(e) => sp_bool(buf@, *old(pos) as int) == Err::<(bool, int), DecodeError>(e)
                && *final(pos) == *old(pos),
        },
{
    let i = *pos;
    if i >= buf.len() {
        return Err(DecodeError::Short);
    }
    let b = buf[i];
    if b == 0 {
        *pos = i + 1;
        Ok(false)
    } else if b == 1 {
        *pos = i + 1;
        Ok(true)
    } else {
        Err(DecodeError::InvalidValue)
    }
}

/// Read a length-prefixed byte string at `*pos`.
pub fn decode_bytes(buf: &[u8], pos: &mut usize) -> (r: Result<Vec<u8>, DecodeError>)
    requires
        *old(pos) <= buf@.len(),
    ensures
        match r {
            Ok(v) => sp_bytes(buf@, *old(pos) as int) == Ok::<(Seq<u8>, int), DecodeError>((v@, *final(pos) as int))
                && *old(pos) < *final(pos) <= buf@.len(),
            Err(e) => sp_bytes(buf@, *old(pos) as int) == Err::<(Seq<u8>, int), DecodeError>(e)
                && *final(pos) == *old(pos),
        },
{
    let start = *pos;
    let len = match decode_varint(buf, pos) {
        Ok(v) => v,
        Err(e) => {
            return Err(e);
        },
    };
    let j = *pos;
    if len > (buf.len() - j) as u64 {
        *pos = start;
        return Err(DecodeError::Short);
    }
    let len = len as usize;
    let mut out: Vec<u8> = Vec::new();
    let mut k: usize = 0;
    while k < len
        invariant
            k <= len,
            j + len <= buf@.len(),
            j + len <= usize::MAX,
            out@ == buf@.subrange(j as int, j + k as int),
        decreases len - k,
    {
        out.push(buf[j + k]);
        k = k + 1;
        assert(out@ =~= buf@.subrange(j as int, j + k as int));
    }
    *pos = j + len;
    Ok(out)
}

// ---------------------------------------------------------------------------
// Strings
// ---------------------------------------------------------------------------

/// A string on the wire: varint byte length, then the UTF-8 bytes.
pub open spec fn spec_string(chars: Seq<char>) -> Seq<u8> {
    spec_bytes(vstd::utf8::encode_utf8(chars))
}

/// Decode a string at cursor `i`: a length-prefixed byte string whose bytes
/// must be valid UTF-8.  The result is given as the UTF-8 bytes.
pub open spec fn sp_string(s: Seq<u8>, i: int) -> Result<(Seq<u8>, int), DecodeError> {
    match sp_bytes(s, i) {
        Ok((b, j)) => {
            if vstd::utf8::valid_utf8(b) {
                Ok((b, j))
            } else {
                Err(DecodeError::InvalidValue)
            }
        },
        Err(e) => Err(e),
    }
}

/// Relies on `String::from_utf8`: it returns `Ok` exactly when the bytes are
/// valid UTF-8, and the returned string holds exactly those bytes.
#[verifier::external_body]
fn string_from_utf8(v: Vec<u8>) -> (r: Option<String>)
    ensures
        r is Some <==> vstd::utf8::valid_utf8(v@),
        r matches Some(st) ==> vstd::utf8::encode_utf8(st@) == v@,
{
    String::from_utf8(v).ok()
}

/// Append a length-prefixed string.
pub fn encode_string(buf: &mut Vec<u8>, s: &str)
    requires
        vstd::utf8::encode_utf8(s@).len() <= VARINT_MAX,
    ensures
        final(buf)@ == old(buf)@ + spec_string(s@),
{
    let b = s.as_bytes();
    encode_bytes(buf, b);
}

/// Read a length-prefixed string at `*pos`.
pub fn decode_string(buf: &[u8], pos: &mut usize) -> (r: Result<String, DecodeError>)
    requires
        *old(pos) <= buf@.len(),
    ensures
        match r {
            Ok(st) => sp_string(buf@, *old(pos) as int) == Ok::<(Seq<u8>, int), DecodeError>((
                vstd::utf8::encode_utf8(st@),
                *final(pos) as int,
            )) && *old(pos) < *final(pos) <= buf@.len(),
            Err(e) => sp_string(buf@, *old(pos) as int) == Err::<(Seq<u8>, int), DecodeError>(e)
                && *final(pos) == *old(pos),
        },
{
    let start = *pos;
    let b = match decode_bytes(buf, pos) {
        Ok(v) => v,
        Err(e) => {
            return Err(e);
        },
    };
    match string_from_utf8(b) {
        Some(st) => Ok(st),
        None => {
            *pos = start;
            Err(DecodeError::InvalidValue)
        },
    }
}

/// Decoding an encoded string yields its UTF-8 bytes back.
pub proof fn lemma_string_round_trip(s: Seq<u8>, i: int, chars: Seq<char>)
    requires
        vstd::utf8::encode_utf8(chars).len() <= VARINT_MAX,
        bytes_at(s, i, spec_string(chars)),
    ensures
        sp_string(s, i) == Ok::<(Seq<u8>, int), DecodeError>((
            vstd::utf8::encode_utf8(chars),
            i + spec_string(chars).len(),
        )),
{
    lemma_bytes_round_trip(s, i, vstd::utf8::encode_utf8(chars));
    vstd::utf8::encode_utf8_valid_utf8(chars);
}

// ---------------------------------------------------------------------------
// Round trips
// ---------------------------------------------------------------------------

/// Whether the bytes of `piece` occur in `s` starting at `i`.
pub open spec fn bytes_at(s: Seq<u8>, i: int, piece: Seq<u8>) -> bool {
    &&& 0 <= i
    &&& i + piece.len() <= s.len()
    &&& forall|k: int| 0 <= k < piece.len() ==> s[i + k] == piece[k]
}

/// Decoding an encoded varint yields the value back, wherever it sits in a
/// larger buffer.
pub proof fn lemma_varint_round_trip(s: Seq<u8>, i: int, v: u64)
    requires
        v <= VARINT_MAX,
        bytes_at(s, i, spec_varint(v)),
    ensures
        sp_varint(s, i) == Ok::<(u64, int), DecodeError>((v, i + spec_varint(v).len())),
{
    if v < 0x40 {
        assert(s[i] == spec_varint(v)[0]);
    } else if v < 0x4000 {
        assert(s[i] == spec_varint(v)[0]);
        assert(s[i + 1] == spec_varint(v)[1]);
        assert(((s[i] - 0x40) as u64) * 0x100 + s[i + 1] as u64 == v) by {
            assert(s[i] == (0x40 + v / 0x100) as u8);
            assert(s[i + 1] == (v % 0x100) as u8);
        };
    } else if v < 0x4000_0000 {
        assert(s[i] == spec_varint(v)[0]);
        assert(s[i + 1] == spec_varint(v)[1]);
        assert(s[i + 2] == spec_varint(v)[2]);
        assert(s[i + 3] == spec_varint(v)[3]);
        assert(((s[i] - 0x80) as u64) * 0x100_0000 + (s[i + 1] as u64) * 0x1_0000 + (s[i + 2] as u64) * 0x100
            + s[i + 3] as u64 == v) by {
            assert(s[i] == (0x80 + v / 0x100_0000) as u8);
            assert(s[i + 1] == ((v / 0x1_0000) % 0x100) as u8);
            assert(s[i + 2] == ((v / 0x100) % 0x100) as u8);
            assert(s[i + 3] == (v % 0x100) as u8);
            assert((v / 0x100_0000) * 0x100_0000 + ((v / 0x1_0000) % 0x100) * 0x1_0000 + ((v / 0x100) % 0x100)
                * 0x100 + v % 0x100 == v) by (nonlinear_arith)
                requires
                    v < 0x4000_0000,
            ;
        };
    } else {
        assert(s[i] == spec_varint(v)[0]);
        assert(s[i + 1] == spec_varint(v)[1]);
        assert(s[i + 2] == spec_varint(v)[2]);
        assert(s[i + 3] == spec_varint(v)[3]);
        assert(s[i + 4] == spec_varint(v)[4]);
        assert(s[i + 5] == spec_varint(v)[5]);
        assert(s[i + 6] == spec_varint(v)[6]);
        assert(s[i + 7] == spec_varint(v)[7]);
        assert(((s[i] - 0xc0) as u64) * 0x100_0000_0000_0000 + (s[i + 1] as u64) * 0x1_0000_0000_0000
            + (s[i + 2] as u64) * 0x100_0000_0000 + (s[i + 3] as u64) * 0x1_0000_0000
            + (s[i + 4] as u64) * 0x100_0000 + (s[i + 5] as u64) * 0x1_0000
            + (s[i + 6] as u64) * 0x100 + s[i + 7] as u64 == v) by {
            assert(s[i] == (0xc0 + v / 0x100_0000_0000_0000) as u8);
            assert(s[i + 1] == ((v / 0x1_0000_0000_0000) % 0x100) as u8);
            assert(s[i + 2] == ((v / 0x100_0000_0000) % 0x100) as u8);
            assert(s[i + 3] == ((v / 0x1_0000_0000) % 0x100) as u8);
            assert(s[i + 4] == ((v / 0x100_0000) % 0x100) as u8);
            assert(s[i + 5] == ((v / 0x1_0000) % 0x100) as u8);
            assert(s[i + 6] == ((v / 0x100) % 0x100) as u8);
            assert(s[i + 7] == (v % 0x100) as u8);
            assert(((v / 0x100) % 0x100) * 0x100 + v % 0x100 == v % 0x1_0000) by (nonlinear_arith);
            assert(((v / 0x1_0000) % 0x100) * 0x1_0000 + v % 0x1_0000 == v % 0x100_0000) by (nonlinear_arith);
            assert(((v / 0x100_0000) % 0x100) * 0x100_0000 + v % 0x100_0000 == v % 0x1_0000_0000)
                by (nonlinear_arith);
            assert(((v / 0x1_0000_0000) % 0x100) * 0x1_0000_0000 + v % 0x1_0000_0000 == v % 0x100_0000_0000)
                by (nonlinear_arith);
            assert(((v / 0x100_0000_0000) % 0x100) * 0x100_0000_0000 + v % 0x100_0000_0000
                == v % 0x1_0000_0000_0000) by (nonlinear_arith);
            assert(((v / 0x1_0000_0000_0000) % 0x100) * 0x1_0000_0000_0000 + v % 0x1_0000_0000_0000
                == v % 0x100_0000_0000_0000) by (nonlinear_arith);
            assert((v / 0x100_0000_0000_0000) * 0x100_0000_0000_0000 + v % 0x100_0000_0000_0000 == v)
                by (nonlinear_arith);
        };
    }
}

/// Decoding an encoded byte string yields the bytes back.
pub proof fn lemma_bytes_round_trip(s: Seq<u8>, i: int, b: Seq<u8>)
    requires
        b.len() <= VARINT_MAX,
        bytes_at(s, i, spec_bytes(b)),
    ensures
        sp_bytes(s, i) == Ok::<(Seq<u8>, int), DecodeError>((b, i + spec_bytes(b).len())),
{
    let lenenc = spec_varint(b.len() as u64);
    assert forall|k: int| 0 <= k < lenenc.len() implies s[i + k] == lenenc[k] by {
        assert(s[i + k] == spec_bytes(b)[k]);
        assert(spec_bytes(b)[k] == lenenc[k]);
    };
    assert(bytes_at(s, i, lenenc));
    lemma_varint_round_trip(s, i, b.len() as u64);
    let j = i + lenenc.len();
    assert forall|k: int| 0 <= k < b.len() implies s.subrange(j, j + b.len() as int)[k] == b[k] by {
        let m = lenenc.len() + k;
        assert(s[i + m] == spec_bytes(b)[m]);
        assert(spec_bytes(b)[m] == b[k]);
    };
    assert(s.subrange(j, j + b.len() as int) =~= b);
}

/// Decoding an encoded byte yields it back.
pub proof fn lemma_u8_round_trip(s: Seq<u8>, i: int, v: u8)
    requires
        bytes_at(s, i, spec_u8(v)),
    ensures
        sp_u8(s, i) == Ok::<(u8, int), DecodeError>((v, i + 1)),
{
    assert(s[i] == spec_u8(v)[0]);
}

/// Decoding an encoded boolean yields it back.
pub proof fn lemma_bool_round_trip(s: Seq<u8>, i: int, v: bool)
    requires
        bytes_at(s, i, spec_bool(v)),
    ensures
        sp_bool(s, i) == Ok::<(bool, int), DecodeError>((v, i + 1)),
{
    assert(s[i] == spec_bool(v)[0]);
}

/// Decoding an encoded 16-bit integer yields it back.
pub proof fn lemma_u16_round_trip(s: Seq<u8>, i: int, v: u16)
    requires
        bytes_at(s, i, spec_u16(v)),
    ensures
        sp_u16(s, i) == Ok::<(u16, int), DecodeError>((v, i + 2)),
{
    assert(s[i] == spec_u16(v)[0]);
    assert(s[i + 1] == spec_u16(v)[1]);
}

} // verus!
