//! The textual building blocks of the catalog's JSON form: decimal
//! numbers, plain quoted strings, and literal text, each with an exact
//! parser and a round trip.
//!
//! The serializer is canonical: no spaces, keys in a fixed order.  The
//! parser reads exactly that canonical grammar.

use vstd::prelude::*;

use crate::coding::bytes_at;
use crate::error::DecodeError;

verus! {

/// Whether a byte is a decimal digit.
pub open spec fn is_digit(b: u8) -> bool {
    0x30 <= b <= 0x39
}

/// The decimal form of `v`.
pub open spec fn spec_dec(v: u64) -> Seq<u8>
    decreases v,
{
    if v < 10 {
        seq![(0x30 + v) as u8]
    } else {
        spec_dec(v / 10).push((0x30 + v % 10) as u8)
    }
}

/// Every byte of a decimal form is a digit.
pub proof fn lemma_dec_digits(v: u64)
    ensures
        spec_dec(v).len() >= 1,
        forall|k: int| 0 <= k < spec_dec(v).len() ==> is_digit(#[trigger] spec_dec(v)[k]),
    decreases v,
{
    if v >= 10 {
        lemma_dec_digits(v / 10);
        assert forall|k: int| 0 <= k < spec_dec(v).len() implies is_digit(#[trigger] spec_dec(v)[k]) by {
            if k < spec_dec(v / 10).len() {
                assert(spec_dec(v)[k] == spec_dec(v / 10)[k]);
            } else {
                assert(spec_dec(v)[k] == (0x30 + v % 10) as u8);
            }
        };
    }
}

/// Append the decimal form of `v`.
pub fn encode_dec(buf: &mut Vec<u8>, v: u64)
    ensures
        final(buf)@ == old(buf)@ + spec_dec(v),
    decreases v,
{
    if v < 10 {
        buf.push((0x30 + v) as u8);
        assert(buf@ =~= old(buf)@ + spec_dec(v));
    } else {
        encode_dec(buf, v / 10);
        buf.push((0x30 + v % 10) as u8);
        assert(buf@ =~= old(buf)@ + spec_dec(v));
    }
}

/// The value of a digit run read from `i`, greedily: the accumulated
/// value, or an overflow error; at least one digit is required.
pub open spec fn sp_dec(s: Seq<u8>, i: int) -> Result<(u64, int), DecodeError> {
    if 0 <= i < s.len() && is_digit(s[i]) {
        sp_dec_loop(s, i, 0)
    } else {
        Err(DecodeError::InvalidValue)
    }
}

/// Accumulate digits from `i` onto `acc` until a non-digit or the end.
pub open spec fn sp_dec_loop(s: Seq<u8>, i: int, acc: u64) -> Result<(u64, int), DecodeError>
    decreases s.len() - i,
{
    if i < 0 || i >= s.len() || !is_digit(s[i]) {
        Ok((acc, i))
    } else {
        let d = (s[i] - 0x30) as u64;
        if acc > (u64::MAX - d) / 10 {
            Err(DecodeError::InvalidValue)
        } else {
            sp_dec_loop(s, i + 1, (acc * 10 + d) as u64)
        }
    }
}

/// Read a decimal number at `*pos`.
pub fn decode_dec(buf: &[u8], pos: &mut usize) -> (r: Result<u64, DecodeError>)
    requires
        *old(pos) <= buf@.len(),
    ensures
        match r {
            Ok(v) => sp_dec(buf@, *old(pos) as int) == Ok::<(u64, int), DecodeError>((
                v,
                *final(pos) as int,
            )) && *old(pos) < *final(pos) <= buf@.len(),
            Err(e) => sp_dec(buf@, *old(pos) as int) == Err::<(u64, int), DecodeError>(e)
                && *final(pos) == *old(pos),
        },
{
    let start = *pos;
    let mut i = *pos;
    if i >= buf.len() || !(0x30 <= buf[i] && buf[i] <= 0x39) {
        return Err(DecodeError::InvalidValue);
    }
    let mut acc: u64 = 0;
    loop
        invariant
            start <= i <= buf@.len(),
            start == *old(pos),
            *pos == start,
            sp_dec(buf@, start as int) == sp_dec_loop(buf@, i as int, acc),
        ensures
            *pos == start,
            start <= i <= buf@.len(),
            sp_dec(buf@, start as int) == sp_dec_loop(buf@, i as int, acc),
            i >= buf@.len() || !is_digit(buf@[i as int]),
        decreases buf@.len() - i,
    {
        if i >= buf.len() {
            break;
        }
        let b = buf[i];
        if !(0x30 <= b && b <= 0x39) {
            break;
        }
        let d = (b - 0x30) as u64;
        if acc > (u64::MAX - d) / 10 {
            return Err(DecodeError::InvalidValue);
        }
        acc = acc * 10 + d;
        i = i + 1;
    }
    *pos = i;
    Ok(acc)
}

/// Reading back a written decimal, with no digit after it, yields the
/// value.
pub proof fn lemma_dec_round_trip(s: Seq<u8>, i: int, v: u64)
    requires
        bytes_at(s, i, spec_dec(v)),
        i + spec_dec(v).len() == s.len() || !is_digit(s[i + spec_dec(v).len()]),
    ensures
        sp_dec(s, i) == Ok::<(u64, int), DecodeError>((v, i + spec_dec(v).len())),
{
    lemma_dec_digits(v);
    assert(is_digit(s[i])) by {
        assert(s[i] == spec_dec(v)[0]);
    };
    assert(pow10(spec_dec(v).len() as nat) >= 1) by {
        lemma_pow10_pos(spec_dec(v).len() as nat);
    };
    lemma_dec_partial(s, i, v, 0);
    let j = i + spec_dec(v).len();
    assert(0int * pow10(spec_dec(v).len() as nat) + v == v);
    assert(sp_dec_loop(s, i, 0) == sp_dec_loop(s, j, v));
    assert(sp_dec_loop(s, j, v) == Ok::<(u64, int), DecodeError>((v, j)));
}

/// Helper: reading the digit block of `v` with accumulator `acc` leaves
/// the loop just past it, with `acc` shifted left by `v`'s digit count
/// plus `v`, whenever that total fits in 64 bits.
proof fn lemma_dec_partial(s: Seq<u8>, i: int, v: u64, acc: u64)
    requires
        bytes_at(s, i, spec_dec(v)),
        acc as int * pow10(spec_dec(v).len() as nat) + v <= u64::MAX,
    ensures
        sp_dec_loop(s, i, acc) == sp_dec_loop(
            s,
            i + spec_dec(v).len(),
            (acc as int * pow10(spec_dec(v).len() as nat) + v) as u64,
        ),
    decreases v,
{
    lemma_dec_digits(v);
    assert(s[i] == spec_dec(v)[0]);
    if v < 10 {
        assert(s[i] == (0x30 + v) as u8);
        let d = v;
        assert(pow10(0) == 1);
        assert(pow10(1) == pow10(0) * 10) by {
            lemma_pow10_unfold(0);
        };
        assert(acc as int * 10 + v <= u64::MAX);
        assert(acc <= (u64::MAX - d) / 10) by {
            assert(acc as int * 10 <= u64::MAX - d);
        };
        assert(sp_dec_loop(s, i, acc) == sp_dec_loop(s, i + 1, (acc * 10 + d) as u64));
    } else {
        let hi = v / 10;
        let lo = v % 10;
        let n = spec_dec(hi).len() as int;
        assert(spec_dec(v) == spec_dec(hi).push((0x30 + lo) as u8));
        assert(spec_dec(v).len() == n + 1);
        assert forall|k: int| 0 <= k < n implies s[i + k] == #[trigger] spec_dec(hi)[k] by {
            assert(s[i + k] == spec_dec(v)[k]);
            assert(spec_dec(v)[k] == spec_dec(hi)[k]);
        };
        assert(bytes_at(s, i, spec_dec(hi)));
        assert(s[i + n] == spec_dec(v)[n]);
        assert(s[i + n] == (0x30 + lo) as u8);
        assert(is_digit(s[i + n]));
        assert(pow10((n + 1) as nat) == pow10(n as nat) * 10) by {
            lemma_pow10_unfold(n as nat);
        };
        assert(pow10(n as nat) >= 1) by {
            lemma_pow10_pos(n as nat);
        };
        assert(acc as int * pow10(n as nat) + hi <= u64::MAX) by {
            assert(acc as int * pow10((n + 1) as nat) == (acc as int * pow10(n as nat)) * 10)
                by (nonlinear_arith)
                requires
                    pow10((n + 1) as nat) == pow10(n as nat) * 10,
            ;
            assert((acc as int * pow10(n as nat)) * 10 + 10 * hi + lo == acc as int * pow10(
                (n + 1) as nat,
            ) + v) by (nonlinear_arith)
                requires
                    acc as int * pow10((n + 1) as nat) == (acc as int * pow10(n as nat)) * 10,
                    v == 10 * hi + lo,
            ;
        };
        lemma_dec_partial(s, i, hi, acc);
        let mid = (acc as int * pow10(n as nat) + hi) as u64;
        assert(sp_dec_loop(s, i, acc) == sp_dec_loop(s, i + n, mid));
        let d = lo;
        assert(mid as int * 10 + d == acc as int * pow10((n + 1) as nat) + v) by (nonlinear_arith)
            requires
                mid == acc as int * pow10(n as nat) + hi,
                pow10((n + 1) as nat) == pow10(n as nat) * 10,
                v == 10 * hi + lo,
                d == lo,
        ;
        assert(mid <= (u64::MAX - d) / 10) by {
            assert(mid as int * 10 <= u64::MAX - d);
        };
        assert(sp_dec_loop(s, i + n, mid) == sp_dec_loop(s, i + n + 1, (mid * 10 + d) as u64));
    }
}

/// Ten to the `n`.
pub open spec fn pow10(n: nat) -> int
    decreases n,
{
    if n == 0 {
        1
    } else {
        pow10((n - 1) as nat) * 10
    }
}

/// Unfolding a power of ten from above.
proof fn lemma_pow10_unfold(n: nat)
    ensures
        pow10(n + 1) == pow10(n) * 10,
{
}

/// Powers of ten are positive.
proof fn lemma_pow10_pos(n: nat)
    ensures
        pow10(n) >= 1,
    decreases n,
{
    if n > 0 {
        lemma_pow10_pos((n - 1) as nat);
    }
}

// ---------------------------------------------------------------------------
// Plain strings and literal text
// ---------------------------------------------------------------------------

/// A byte that may stand unescaped inside a quoted string: not a quote,
/// not a backslash, not a control byte.
pub open spec fn is_plain(b: u8) -> bool {
    b >= 0x20 && b != 0x22 && b != 0x5c
}

/// A byte sequence of plain bytes only.
pub open spec fn all_plain(s: Seq<u8>) -> bool {
    forall|k: int| 0 <= k < s.len() ==> is_plain(#[trigger] s[k])
}

/// The plain bytes from `i` up to the first quote, which must come
/// before the end; a backslash or control byte is refused.
pub open spec fn sp_jstr_body(s: Seq<u8>, i: int) -> Result<(Seq<u8>, int), DecodeError>
    decreases s.len() - i,
{
    if i < 0 || i >= s.len() {
        Err(DecodeError::Short)
    } else if s[i] == 0x22 {
        Ok((Seq::empty(), i + 1))
    } else if !is_plain(s[i]) {
        Err(DecodeError::InvalidValue)
    } else {
        match sp_jstr_body(s, i + 1) {
            Err(e) => Err(e),
            Ok((rest, j)) => Ok((seq![s[i]] + rest, j)),
        }
    }
}

/// Helper: from any offset into the body, the rest reads back.
proof fn lemma_jstr_body_round_trip(s: Seq<u8>, i: int, b: Seq<u8>, k: int)
    requires
        all_plain(b),
        0 <= k <= b.len(),
        0 <= i,
        i + (b.len() - k) + 1 <= s.len(),
        forall|m: int| k <= m < b.len() ==> s[i + (m - k)] == #[trigger] b[m],
        s[i + (b.len() - k)] == 0x22,
    ensures
        sp_jstr_body(s, i) == Ok::<(Seq<u8>, int), DecodeError>((b.skip(k), i + (b.len() - k) + 1)),
    decreases b.len() - k,
{
    if k == b.len() {
        assert(s[i] == 0x22);
        assert(b.skip(k) =~= Seq::<u8>::empty());
    } else {
        assert(s[i] == b[k]);
        assert(is_plain(b[k]));
        assert(s[i] != 0x22 && is_plain(s[i]));
        lemma_jstr_body_round_trip(s, i + 1, b, k + 1);
        assert(seq![s[i]] + b.skip(k + 1) =~= b.skip(k));
    }
}

/// Relies on `String::from_utf8`: it returns `Ok` exactly when the bytes
/// are valid UTF-8, and the returned string holds exactly those bytes.
#[verifier::external_body]
pub fn bytes_to_string(v: Vec<u8>) -> (r: Option<String>)
    ensures
        r is Some <==> vstd::utf8::valid_utf8(v@),
        r matches Some(st) ==> vstd::utf8::encode_utf8(st@) == v@,
{
    String::from_utf8(v).ok()
}

/// Public face of the body round trip, for the structured parsers.
pub proof fn lemma_jstr_body_round_trip_pub(s: Seq<u8>, i: int, b: Seq<u8>, k: int)
    requires
        all_plain(b),
        0 <= k <= b.len(),
        0 <= i,
        i + (b.len() - k) + 1 <= s.len(),
        forall|m: int| k <= m < b.len() ==> s[i + (m - k)] == #[trigger] b[m],
        s[i + (b.len() - k)] == 0x22,
    ensures
        sp_jstr_body(s, i) == Ok::<(Seq<u8>, int), DecodeError>((b.skip(k), i + (b.len() - k) + 1)),
{
    lemma_jstr_body_round_trip(s, i, b, k);
}

/// Whether the bytes of `piece` sit at `i` in `s`; the parser's notion
/// of expecting literal text.
pub open spec fn sp_lit(s: Seq<u8>, i: int, piece: Seq<u8>) -> bool {
    bytes_at(s, i, piece)
}

/// Append literal text.
pub fn encode_lit(buf: &mut Vec<u8>, piece: &[u8])
    ensures
        final(buf)@ == old(buf)@ + piece@,
{
    let ghost mid = buf@;
    let mut k: usize = 0;
    while k < piece.len()
        invariant
            k <= piece@.len(),
            buf@ == mid + piece@.subrange(0, k as int),
        decreases piece@.len() - k,
    {
        buf.push(piece[k]);
        k = k + 1;
        assert(buf@ =~= mid + piece@.subrange(0, k as int));
    }
    proof {
        assert(piece@.subrange(0, piece@.len() as int) =~= piece@);
        assert(buf@ =~= old(buf)@ + piece@);
    }
}

/// Expect literal text at `*pos`, advancing past it.
pub fn expect_lit(buf: &[u8], pos: &mut usize, piece: &[u8]) -> (r: Result<(), DecodeError>)
    requires
        *old(pos) <= buf@.len(),
    ensures
        match r {
            Ok(()) => sp_lit(buf@, *old(pos) as int, piece@) && *final(pos) == *old(pos)
                + piece@.len() && *final(pos) <= buf@.len(),
            Err(e) => !sp_lit(buf@, *old(pos) as int, piece@) && *final(pos) == *old(pos) && e
                == DecodeError::InvalidValue,
        },
{
    let start = *pos;
    if piece.len() > buf.len() - start {
        return Err(DecodeError::InvalidValue);
    }
    let mut k: usize = 0;
    while k < piece.len()
        invariant
            k <= piece@.len(),
            start == *old(pos),
            *pos == start,
            start + piece@.len() <= buf@.len(),
            start + piece@.len() <= usize::MAX,
            forall|m: int| 0 <= m < k ==> buf@[start + m] == #[trigger] piece@[m],
        decreases piece@.len() - k,
    {
        if buf[start + k] != piece[k] {
            proof {
                assert(buf@[start as int + k] != piece@[k as int]);
            }
            return Err(DecodeError::InvalidValue);
        }
        k = k + 1;
    }
    *pos = start + piece.len();
    Ok(())
}

// ---------------------------------------------------------------------------
// Hex strings
// ---------------------------------------------------------------------------

/// The lowercase hex digit of a value below sixteen.
pub open spec fn hex_digit(d: u8) -> u8 {
    if d < 10 {
        (0x30 + d) as u8
    } else {
        (0x57 + d) as u8
    }
}

/// The value of a hex digit byte, if it is one.
pub open spec fn hex_value(b: u8) -> Option<u8> {
    if 0x30 <= b <= 0x39 {
        Some((b - 0x30) as u8)
    } else if 0x61 <= b <= 0x66 {
        Some((b - 0x57) as u8)
    } else {
        None
    }
}

/// The lowercase hex form of a byte string: two digits per byte.
pub open spec fn spec_hex(b: Seq<u8>) -> Seq<u8>
    decreases b.len(),
{
    if b.len() == 0 {
        Seq::empty()
    } else {
        spec_hex(b.drop_last()).push(hex_digit(b.last() / 16)).push(hex_digit(b.last() % 16))
    }
}

/// Hex text is twice as long as its bytes.
pub proof fn lemma_hex_len(b: Seq<u8>)
    ensures
        spec_hex(b).len() == 2 * b.len(),
    decreases b.len(),
{
    if b.len() > 0 {
        lemma_hex_len(b.drop_last());
    }
}

/// Append the hex form of `b`.
pub fn encode_hex(buf: &mut Vec<u8>, b: &[u8])
    ensures
        final(buf)@ == old(buf)@ + spec_hex(b@),
{
    let ghost base = buf@;
    let mut k: usize = 0;
    while k < b.len()
        invariant
            k <= b@.len(),
            buf@ == base + spec_hex(b@.take(k as int)),
        decreases b@.len() - k,
    {
        let v = b[k];
        let hi = v / 16;
        let lo = v % 16;
        buf.push(if hi < 10 { 0x30 + hi } else { 0x57 + hi });
        buf.push(if lo < 10 { 0x30 + lo } else { 0x57 + lo });
        k = k + 1;
        proof {
            assert(b@.take(k as int).drop_last() =~= b@.take(k as int - 1));
            assert(b@.take(k as int).last() == b@[k - 1]);
            assert(buf@ =~= base + spec_hex(b@.take(k as int)));
        }
    }
    proof {
        assert(b@.take(b@.len() as int) =~= b@);
    }
}

/// Decode hex text back to bytes: pairs of digits until a non-digit.
/// An odd run of digits is invalid.
pub open spec fn sp_hex(s: Seq<u8>, i: int, acc: Seq<u8>) -> Result<(Seq<u8>, int), DecodeError>
    decreases s.len() - i,
{
    if i < 0 || i >= s.len() || hex_value(s[i]) is None {
        Ok((acc, i))
    } else if i + 1 >= s.len() || hex_value(s[i + 1]) is None {
        Err(DecodeError::InvalidValue)
    } else {
        let hi = hex_value(s[i]).unwrap();
        let lo = hex_value(s[i + 1]).unwrap();
        sp_hex(s, i + 2, acc.push((hi * 16 + lo) as u8))
    }
}

/// Read hex text at `*pos`.
pub fn decode_hex(buf: &[u8], pos: &mut usize) -> (r: Result<Vec<u8>, DecodeError>)
    requires
        *old(pos) <= buf@.len(),
    ensures
        match r {
            Ok(v) => sp_hex(buf@, *old(pos) as int, Seq::empty()) == Ok::<(Seq<u8>, int), DecodeError>((
                v@,
                *final(pos) as int,
            )) && *old(pos) <= *final(pos) <= buf@.len(),
            Err(e) => sp_hex(buf@, *old(pos) as int, Seq::empty()) == Err::<(Seq<u8>, int), DecodeError>(
                e,
            ) && *final(pos) == *old(pos),
        },
{
    let start = *pos;
    let mut i = *pos;
    let mut out: Vec<u8> = Vec::new();
    proof {
        assert(out@ =~= Seq::<u8>::empty());
    }
    loop
        invariant
            start <= i <= buf@.len(),
            start == *old(pos),
            *pos == start,
            sp_hex(buf@, start as int, Seq::empty()) == sp_hex(buf@, i as int, out@),
        ensures
            *pos == start,
            start <= i <= buf@.len(),
            sp_hex(buf@, start as int, Seq::empty()) == sp_hex(buf@, i as int, out@),
            i >= buf@.len() || hex_value(buf@[i as int]) is None,
        decreases buf@.len() - i,
    {
        if i >= buf.len() {
            break;
        }
        let b0 = buf[i];
        let h = hex_value_exec(b0);
        let hi = match h {
            Some(v) => v,
            None => {
                break;
            },
        };
        if i + 1 >= buf.len() {
            return Err(DecodeError::InvalidValue);
        }
        let lo = match hex_value_exec(buf[i + 1]) {
            Some(v) => v,
            None => {
                return Err(DecodeError::InvalidValue);
            },
        };
        let ghost pre = out@;
        out.push(hi * 16 + lo);
        i = i + 2;
        proof {
            assert(out@ =~= pre.push((hi * 16 + lo) as u8));
        }
    }
    *pos = i;
    Ok(out)
}

/// The value of a hex digit byte, if it is one.
fn hex_value_exec(b: u8) -> (r: Option<u8>)
    ensures
        r == hex_value(b),
{
    if 0x30 <= b && b <= 0x39 {
        Some(b - 0x30)
    } else if 0x61 <= b && b <= 0x66 {
        Some(b - 0x57)
    } else {
        None
    }
}

/// Reading back written hex, followed by a non-digit or the end, yields
/// the bytes.
pub proof fn lemma_hex_round_trip(s: Seq<u8>, i: int, b: Seq<u8>)
    requires
        bytes_at(s, i, spec_hex(b)),
        i + spec_hex(b).len() == s.len() || hex_value(s[i + spec_hex(b).len()]) is None,
    ensures
        sp_hex(s, i, Seq::empty()) == Ok::<(Seq<u8>, int), DecodeError>((b, i + spec_hex(b).len())),
{
    lemma_hex_len(b);
    lemma_hex_partial(s, i, b, 0);
    assert(b.take(0) =~= Seq::<u8>::empty());
    assert(b.take(b.len() as int) =~= b);
}

/// Helper: from byte `k` of `b` on, the loop accumulates the rest.
proof fn lemma_hex_partial(s: Seq<u8>, i: int, b: Seq<u8>, k: int)
    requires
        0 <= k <= b.len(),
        bytes_at(s, i - 2 * k, spec_hex(b)),
        i == (i - 2 * k) + 2 * k,
        (i - 2 * k) + spec_hex(b).len() == s.len() || hex_value(
            s[(i - 2 * k) + spec_hex(b).len()],
        ) is None,
    ensures
        sp_hex(s, i, b.take(k)) == Ok::<(Seq<u8>, int), DecodeError>((
            b,
            (i - 2 * k) + spec_hex(b).len(),
        )),
    decreases b.len() - k,
{
    lemma_hex_len(b);
    let i0 = i - 2 * k;
    if k == b.len() {
        assert(b.take(k) =~= b);
        if i < s.len() {
            assert(hex_value(s[i]) is None);
        }
    } else {
        assert(s[i0 + 2 * k] == spec_hex(b)[2 * k]);
        assert(s[i0 + 2 * k + 1] == spec_hex(b)[2 * k + 1]);
        lemma_hex_at(b, k);
        assert(hex_value(s[i]) == Some((b[k] / 16) as u8)) by {
            lemma_hex_digit_value((b[k] / 16) as u8);
        };
        assert(hex_value(s[i + 1]) == Some((b[k] % 16) as u8)) by {
            lemma_hex_digit_value((b[k] % 16) as u8);
        };
        assert(i + 1 < s.len());
        assert(b.take(k).push(((b[k] / 16) * 16 + b[k] % 16) as u8) =~= b.take(k + 1));
        lemma_hex_partial(s, i + 2, b, k + 1);
    }
}

/// The two hex characters of byte `k`.
proof fn lemma_hex_at(b: Seq<u8>, k: int)
    requires
        0 <= k < b.len(),
    ensures
        spec_hex(b)[2 * k] == hex_digit(b[k] / 16),
        spec_hex(b)[2 * k + 1] == hex_digit(b[k] % 16),
    decreases b.len(),
{
    lemma_hex_len(b);
    if k == b.len() - 1 {
        lemma_hex_len(b.drop_last());
    } else {
        lemma_hex_at(b.drop_last(), k);
        lemma_hex_len(b.drop_last());
        assert(b.drop_last()[k] == b[k]);
        assert(spec_hex(b)[2 * k] == spec_hex(b.drop_last())[2 * k]);
        assert(spec_hex(b)[2 * k + 1] == spec_hex(b.drop_last())[2 * k + 1]);
    }
}

/// A digit character reads back as its value.
proof fn lemma_hex_digit_value(d: u8)
    requires
        d < 16,
    ensures
        hex_value(hex_digit(d)) == Some(d),
{
}

// ---------------------------------------------------------------------------
// Optional fields
// ---------------------------------------------------------------------------

/// The text of the JSON null literal.
pub open spec fn null_text() -> Seq<u8> {
    seq![0x6eu8, 0x75u8, 0x6cu8, 0x6cu8]
}

/// An optional number: `null` or its decimal form.
pub open spec fn spec_opt_dec(v: Option<u64>) -> Seq<u8> {
    match v {
        None => null_text(),
        Some(n) => spec_dec(n),
    }
}

/// Append an optional number.
pub fn encode_opt_dec(buf: &mut Vec<u8>, v: Option<u64>)
    ensures
        final(buf)@ == old(buf)@ + spec_opt_dec(v),
{
    match v {
        None => {
            buf.push(0x6e);
            buf.push(0x75);
            buf.push(0x6c);
            buf.push(0x6c);
            assert(buf@ =~= old(buf)@ + null_text());
        },
        Some(n) => {
            encode_dec(buf, n);
        },
    }
}

/// Decode an optional number at cursor `i`: `null`, or digits.
pub open spec fn sp_opt_dec(s: Seq<u8>, i: int) -> Result<(Option<u64>, int), DecodeError> {
    if 0 <= i < s.len() && s[i] == 0x6e {
        if bytes_at(s, i, null_text()) {
            Ok((None, i + 4))
        } else {
            Err(DecodeError::InvalidValue)
        }
    } else {
        match sp_dec(s, i) {
            Err(e) => Err(e),
            Ok((v, j)) => Ok((Some(v), j)),
        }
    }
}

/// Read an optional number at `*pos`.
pub fn decode_opt_dec(buf: &[u8], pos: &mut usize) -> (r: Result<Option<u64>, DecodeError>)
    requires
        *old(pos) <= buf@.len(),
    ensures
        match r {
            Ok(v) => sp_opt_dec(buf@, *old(pos) as int) == Ok::<(Option<u64>, int), DecodeError>((
                v,
                *final(pos) as int,
            )) && *old(pos) <= *final(pos) <= buf@.len(),
            Err(e) => sp_opt_dec(buf@, *old(pos) as int) == Err::<(Option<u64>, int), DecodeError>(e)
                && *final(pos) == *old(pos),
        },
{
    let i = *pos;
    if i < buf.len() && buf[i] == 0x6e {
        let mut nul: Vec<u8> = Vec::new();
        nul.push(0x6e);
        nul.push(0x75);
        nul.push(0x6c);
        nul.push(0x6c);
        proof {
            assert(nul@ =~= null_text());
        }
        match expect_lit(buf, pos, nul.as_slice()) {
            Ok(()) => Ok(None),
            Err(e) => Err(e),
        }
    } else {
        match decode_dec(buf, pos) {
            Ok(v) => Ok(Some(v)),
            Err(e) => Err(e),
        }
    }
}

/// Reading back a written optional number, not followed by a digit,
/// yields the value.
pub proof fn lemma_opt_dec_round_trip(s: Seq<u8>, i: int, v: Option<u64>)
    requires
        bytes_at(s, i, spec_opt_dec(v)),
        i + spec_opt_dec(v).len() == s.len() || !is_digit(s[i + spec_opt_dec(v).len()]),
    ensures
        sp_opt_dec(s, i) == Ok::<(Option<u64>, int), DecodeError>((v, i + spec_opt_dec(v).len())),
{
    match v {
        None => {
            assert(s[i] == null_text()[0]);
        },
        Some(n) => {
            lemma_dec_digits(n);
            assert(s[i] == spec_dec(n)[0]);
            assert(s[i] != 0x6e);
            lemma_dec_round_trip(s, i, n);
        },
    }
}

/// An optional byte string: `null`, or its hex form in quotes.
pub open spec fn spec_opt_hexstr(v: Option<Seq<u8>>) -> Seq<u8> {
    match v {
        None => null_text(),
        Some(b) => seq![0x22u8] + spec_hex(b) + seq![0x22u8],
    }
}

/// Append an optional hex string.
pub fn encode_opt_hexstr(buf: &mut Vec<u8>, v: &Option<Vec<u8>>)
    ensures
        final(buf)@ == old(buf)@ + spec_opt_hexstr(match v {
            Some(b) => Some(b@),
            None => None,
        }),
{
    match v {
        None => {
            buf.push(0x6e);
            buf.push(0x75);
            buf.push(0x6c);
            buf.push(0x6c);
            assert(buf@ =~= old(buf)@ + null_text());
        },
        Some(b) => {
            buf.push(0x22);
            encode_hex(buf, b.as_slice());
            buf.push(0x22);
            assert(buf@ =~= old(buf)@ + spec_opt_hexstr(Some(b@)));
        },
    }
}

/// Decode an optional hex string at cursor `i`.
pub open spec fn sp_opt_hexstr(s: Seq<u8>, i: int) -> Result<(Option<Seq<u8>>, int), DecodeError> {
    if 0 <= i < s.len() && s[i] == 0x6e {
        if bytes_at(s, i, null_text()) {
            Ok((None, i + 4))
        } else {
            Err(DecodeError::InvalidValue)
        }
    } else if 0 <= i < s.len() && s[i] == 0x22 {
        match sp_hex(s, i + 1, Seq::empty()) {
            Err(e) => Err(e),
            Ok((b, j)) => {
                if j < s.len() && s[j] == 0x22 {
                    Ok((Some(b), j + 1))
                } else {
                    Err(DecodeError::InvalidValue)
                }
            },
        }
    } else {
        Err(DecodeError::InvalidValue)
    }
}

/// Read an optional hex string at `*pos`.
pub fn decode_opt_hexstr(buf: &[u8], pos: &mut usize) -> (r: Result<Option<Vec<u8>>, DecodeError>)
    requires
        *old(pos) <= buf@.len(),
    ensures
        match r {
            Ok(v) => sp_opt_hexstr(buf@, *old(pos) as int) == Ok::<
                (Option<Seq<u8>>, int),
                DecodeError,
            >((
                match v {
                    Some(b) => Some(b@),
                    None => None,
                },
                *final(pos) as int,
            )) && *old(pos) <= *final(pos) <= buf@.len(),
            Err(e) => sp_opt_hexstr(buf@, *old(pos) as int) == Err::<(Option<Seq<u8>>, int), DecodeError>(
                e,
            ) && *final(pos) == *old(pos),
        },
{
    let start = *pos;
    let i = *pos;
    if i < buf.len() && buf[i] == 0x6e {
        let mut nul: Vec<u8> = Vec::new();
        nul.push(0x6e);
        nul.push(0x75);
        nul.push(0x6c);
        nul.push(0x6c);
        proof {
            assert(nul@ =~= null_text());
        }
        match expect_lit(buf, pos, nul.as_slice()) {
            Ok(()) => Ok(None),
            Err(e) => Err(e),
        }
    } else if i < buf.len() && buf[i] == 0x22 {
        *pos = i + 1;
        let b = match decode_hex(buf, pos) {
            Ok(v) => v,
            Err(e) => {
                *pos = start;
                return Err(e);
            },
        };
        let j = *pos;
        if j < buf.len() && buf[j] == 0x22 {
            *pos = j + 1;
            Ok(Some(b))
        } else {
            *pos = start;
            Err(DecodeError::InvalidValue)
        }
    } else {
        Err(DecodeError::InvalidValue)
    }
}

/// Reading back a written optional hex string yields the bytes.
pub proof fn lemma_opt_hexstr_round_trip(s: Seq<u8>, i: int, v: Option<Seq<u8>>)
    requires
        bytes_at(s, i, spec_opt_hexstr(v)),
    ensures
        sp_opt_hexstr(s, i) == Ok::<(Option<Seq<u8>>, int), DecodeError>((
            v,
            i + spec_opt_hexstr(v).len(),
        )),
{
    match v {
        None => {
            assert(s[i] == null_text()[0]);
        },
        Some(b) => {
            lemma_hex_len(b);
            assert(s[i] == spec_opt_hexstr(Some(b))[0]);
            assert(s[i] == 0x22);
            assert(s[i] != 0x6e);
            assert forall|k: int| 0 <= k < spec_hex(b).len() implies s[i + 1 + k] == #[trigger] spec_hex(
                b,
            )[k] by {
                assert(s[i + (k + 1)] == spec_opt_hexstr(Some(b))[k + 1]);
            };
            assert(bytes_at(s, i + 1, spec_hex(b)));
            let j = i + 1 + spec_hex(b).len();
            assert(s[j] == spec_opt_hexstr(Some(b))[spec_hex(b).len() as int + 1]);
            assert(s[j] == 0x22);
            assert(hex_value(0x22) is None);
            lemma_hex_round_trip(s, i + 1, b);
        },
    }
}

} // verus!
