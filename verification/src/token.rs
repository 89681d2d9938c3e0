//! The token key set: the named keys a relay may verify or sign with,
//! read from a JSON key-set document.
//!
//! Only the capability interface lives here: finding a key by name or by
//! supported operation, and deriving the public half of a set.  The
//! signing and verifying of tokens themselves is outside work.

use vstd::prelude::*;

use crate::catalog::json::bytes_to_string;
use crate::error::DecodeError;

verus! {

/// What a key may be used for.
#[derive(Clone, Copy, Debug, PartialEq, Eq, Structural)]
pub enum KeyOperation {
    Sign,
    Verify,
    Other,
}

/// One key of the set.
#[derive(Clone, Debug)]
pub struct Key {
    /// The key type, such as `oct`.
    pub kty: String,
    /// The key material, if present.
    pub k: Option<String>,
    /// The algorithm name, such as `HS256`.
    pub alg: Option<String>,
    /// The allowed operations.
    pub operations: Vec<KeyOperation>,
    /// The key identifier, if any.
    pub kid: Option<String>,
}

impl Key {
    /// Whether this key supports `operation`.
    pub fn supports(&self, operation: KeyOperation) -> (r: bool)
        ensures
            r == self.operations@.contains(operation),
    {
        let mut k: usize = 0;
        while k < self.operations.len()
            invariant
                k <= self.operations@.len(),
                forall|m: int| 0 <= m < k ==> self.operations@[m] != operation,
            decreases self.operations@.len() - k,
        {
            if self.operations[k] == operation {
                assert(self.operations@[k as int] == operation);
                return true;
            }
            k = k + 1;
        }
        assert(!self.operations@.contains(operation));
        false
    }

    /// The public half of this key: the material and the signing right
    /// are dropped.  A symmetric key has no public half.
    pub fn to_public(&self) -> (r: Option<Key>)
        ensures
            match r {
                Some(p) => p.k is None && !p.operations@.contains(KeyOperation::Sign) && p.kid
                    == self.kid,
                None => true,
            },
    {
        let oct = tok_oct();
        if string_eq_bytes(&self.kty, oct.as_slice()) {
            return None;
        }
        let mut operations: Vec<KeyOperation> = Vec::new();
        let mut k: usize = 0;
        while k < self.operations.len()
            invariant
                k <= self.operations@.len(),
                forall|m: int| 0 <= m < operations@.len() ==> operations@[m] != KeyOperation::Sign,
            decreases self.operations@.len() - k,
        {
            let op = self.operations[k];
            if op != KeyOperation::Sign {
                operations.push(op);
            }
            k = k + 1;
        }
        assert(!operations@.contains(KeyOperation::Sign));
        Some(Key {
            kty: self.kty.clone(),
            k: None,
            alg: match &self.alg {
                Some(a) => Some(a.clone()),
                None => None,
            },
            operations,
            kid: match &self.kid {
                Some(id) => Some(id.clone()),
                None => None,
            },
        })
    }
}

/// Whether a string's characters are exactly the given ASCII bytes.
fn string_eq_bytes(s: &String, bytes: &[u8]) -> (r: bool)
    ensures
        r == (vstd::utf8::encode_utf8(s@) == bytes@),
{
    let sb = s.as_str().as_bytes();
    if sb.len() != bytes.len() {
        proof {
            assert(vstd::utf8::encode_utf8(s@).len() != bytes@.len());
        }
        return false;
    }
    let mut k: usize = 0;
    while k < sb.len()
        invariant
            k <= sb@.len(),
            sb@.len() == bytes@.len(),
            sb@ == vstd::utf8::encode_utf8(s@),
            forall|m: int| 0 <= m < k ==> sb@[m] == bytes@[m],
        decreases sb@.len() - k,
    {
        if sb[k] != bytes[k] {
            proof {
                assert(vstd::utf8::encode_utf8(s@)[k as int] != bytes@[k as int]);
            }
            return false;
        }
        k = k + 1;
    }
    proof {
        assert(vstd::utf8::encode_utf8(s@) =~= bytes@);
    }
    true
}

/// A set of named keys.
#[derive(Clone, Debug)]
pub struct KeySet {
    pub keys: Vec<Key>,
}

impl KeySet {
    /// An empty set.
    pub fn new() -> (r: KeySet)
        ensures
            r.keys@.len() == 0,
    {
        KeySet { keys: Vec::new() }
    }

    /// The first key whose identifier is `kid`, if any.  A key with no
    /// identifier never matches.
    pub fn find_key(&self, kid: &str) -> (r: Option<Key>)
        ensures
            match r {
                Some(key) => exists|m: int|
                    0 <= m < self.keys@.len() && ((#[trigger] self.keys@[m]).kid matches Some(id)
                        && id@ == kid@),
                None => forall|m: int|
                    0 <= m < self.keys@.len() ==> !((#[trigger] self.keys@[m]).kid matches Some(id) && id@
                        == kid@),
            },
    {
        let mut k: usize = 0;
        while k < self.keys.len()
            invariant
                k <= self.keys@.len(),
                forall|m: int|
                    0 <= m < k ==> !((#[trigger] self.keys@[m]).kid matches Some(id) && id@ == kid@),
            decreases self.keys@.len() - k,
        {
            let hit = match &self.keys[k].kid {
                Some(id) => str_eq(id.as_str(), kid),
                None => false,
            };
            if hit {
                proof {
                    assert((self.keys@[k as int]).kid matches Some(id) && id@ == kid@);
                }
                return Some(self.keys[k].clone());
            }
            k = k + 1;
        }
        None
    }

    /// The first key that supports `operation`, if any.
    pub fn find_supported_key(&self, operation: KeyOperation) -> (r: Option<Key>)
        ensures
            match r {
                Some(key) => exists|m: int|
                    0 <= m < self.keys@.len() && (#[trigger] self.keys@[m]).operations@.contains(
                        operation,
                    ),
                None => forall|m: int|
                    0 <= m < self.keys@.len() ==> !(#[trigger] self.keys@[m]).operations@.contains(
                        operation,
                    ),
            },
    {
        let mut k: usize = 0;
        while k < self.keys.len()
            invariant
                k <= self.keys@.len(),
                forall|m: int| 0 <= m < k ==> !(#[trigger] self.keys@[m]).operations@.contains(operation),
            decreases self.keys@.len() - k,
        {
            if self.keys[k].supports(operation) {
                return Some(self.keys[k].clone());
            }
            k = k + 1;
        }
        None
    }

    /// The public half of the set: every key stripped of its material
    /// and signing right.  Fails if any key is symmetric.
    pub fn to_public_set(&self) -> (r: Option<KeySet>)
        ensures
            match r {
                Some(p) => p.keys@.len() == self.keys@.len() && forall|m: int|
                    0 <= m < p.keys@.len() ==> (#[trigger] p.keys@[m]).k is None
                        && !p.keys@[m].operations@.contains(KeyOperation::Sign),
                None => true,
            },
    {
        let mut keys: Vec<Key> = Vec::new();
        let mut k: usize = 0;
        while k < self.keys.len()
            invariant
                k <= self.keys@.len(),
                keys@.len() == k,
                forall|m: int|
                    0 <= m < keys@.len() ==> (#[trigger] keys@[m]).k is None
                        && !keys@[m].operations@.contains(KeyOperation::Sign),
            decreases self.keys@.len() - k,
        {
            match self.keys[k].to_public() {
                Some(p) => {
                    keys.push(p);
                },
                None => {
                    return None;
                },
            }
            k = k + 1;
        }
        Some(KeySet { keys })
    }

    /// Parse a key-set document: `keys` holding a list of key objects,
    /// each with its type, material, algorithm, operations and
    /// identifier in that order.  Any other text is refused.
    pub fn from_str(s: &str) -> (r: Result<KeySet, DecodeError>)
        ensures
            r matches Ok(set) ==> set.keys@.len() <= vstd::utf8::encode_utf8(s@).len(),
    {
        let buf = s.as_bytes();
        let mut pos: usize = 0;
        let opening = tok_open();
        match expect_bytes(buf, &mut pos, opening.as_slice()) {
            Ok(()) => {},
            Err(e) => {
                return Err(e);
            },
        }
        let mut keys: Vec<Key> = Vec::new();
        if pos < buf.len() && buf[pos] == 0x5d {
            pos = pos + 1;
            let closing = tok_close();
            match expect_bytes(buf, &mut pos, closing.as_slice()) {
                Ok(()) => {},
                Err(e) => {
                    return Err(e);
                },
            }
            return Ok(KeySet { keys });
        }
        loop
            invariant
                pos <= buf@.len(),
                keys@.len() <= pos,
                buf@ == vstd::utf8::encode_utf8(s@),
            decreases buf@.len() - pos,
        {
            let before = pos;
            let key = match parse_key(buf, &mut pos) {
                Ok(k) => k,
                Err(e) => {
                    return Err(e);
                },
            };
            keys.push(key);
            if pos < buf.len() && buf[pos] == 0x2c {
                pos = pos + 1;
            } else if pos < buf.len() && buf[pos] == 0x5d {
                pos = pos + 1;
                let closing = tok_close();
                match expect_bytes(buf, &mut pos, closing.as_slice()) {
                    Ok(()) => {},
                    Err(e) => {
                        return Err(e);
                    },
                }
                return Ok(KeySet { keys });
            } else {
                return Err(DecodeError::InvalidValue);
            }
            if pos <= before {
                return Err(DecodeError::InvalidValue);
            }
        }
    }
}

/// The bytes of one fixed piece of the key-set text.
fn tok_oct() -> (v: Vec<u8>)
    ensures
        v@ == seq![0x6fu8, 0x63u8, 0x74u8],
{
    let mut v: Vec<u8> = Vec::new();
    v.push(0x6f);
    v.push(0x63);
    v.push(0x74);
    proof {
        assert(v@ =~= seq![0x6fu8, 0x63u8, 0x74u8]);
    }
    v
}

/// The bytes of one fixed piece of the key-set text.
fn tok_open() -> (v: Vec<u8>)
    ensures
        v@ == seq![0x7bu8, 0x22u8, 0x6bu8, 0x65u8, 0x79u8, 0x73u8, 0x22u8, 0x3au8, 0x5bu8],
{
    let mut v: Vec<u8> = Vec::new();
    v.push(0x7b);
    v.push(0x22);
    v.push(0x6b);
    v.push(0x65);
    v.push(0x79);
    v.push(0x73);
    v.push(0x22);
    v.push(0x3a);
    v.push(0x5b);
    proof {
        assert(v@ =~= seq![0x7bu8, 0x22u8, 0x6bu8, 0x65u8, 0x79u8, 0x73u8, 0x22u8, 0x3au8, 0x5bu8]);
    }
    v
}

/// The bytes of one fixed piece of the key-set text.
fn tok_close() -> (v: Vec<u8>)
    ensures
        v@ == seq![0x7du8],
{
    let mut v: Vec<u8> = Vec::new();
    v.push(0x7d);
    proof {
        assert(v@ =~= seq![0x7du8]);
    }
    v
}

/// The bytes of one fixed piece of the key-set text.
fn tok_quote() -> (v: Vec<u8>)
    ensures
        v@ == seq![0x22u8],
{
    let mut v: Vec<u8> = Vec::new();
    v.push(0x22);
    proof {
        assert(v@ =~= seq![0x22u8]);
    }
    v
}

/// The bytes of one fixed piece of the key-set text.
fn tok_kty() -> (v: Vec<u8>)
    ensures
        v@ == seq![0x7bu8, 0x22u8, 0x6bu8, 0x74u8, 0x79u8, 0x22u8, 0x3au8],
{
    let mut v: Vec<u8> = Vec::new();
    v.push(0x7b);
    v.push(0x22);
    v.push(0x6b);
    v.push(0x74);
    v.push(0x79);
    v.push(0x22);
    v.push(0x3a);
    proof {
        assert(v@ =~= seq![0x7bu8, 0x22u8, 0x6bu8, 0x74u8, 0x79u8, 0x22u8, 0x3au8]);
    }
    v
}

/// The bytes of one fixed piece of the key-set text.
fn tok_k() -> (v: Vec<u8>)
    ensures
        v@ == seq![0x2cu8, 0x22u8, 0x6bu8, 0x22u8, 0x3au8],
{
    let mut v: Vec<u8> = Vec::new();
    v.push(0x2c);
    v.push(0x22);
    v.push(0x6b);
    v.push(0x22);
    v.push(0x3a);
    proof {
        assert(v@ =~= seq![0x2cu8, 0x22u8, 0x6bu8, 0x22u8, 0x3au8]);
    }
    v
}

/// The bytes of one fixed piece of the key-set text.
fn tok_alg() -> (v: Vec<u8>)
    ensures
        v@ == seq![0x2cu8, 0x22u8, 0x61u8, 0x6cu8, 0x67u8, 0x22u8, 0x3au8],
{
    let mut v: Vec<u8> = Vec::new();
    v.push(0x2c);
    v.push(0x22);
    v.push(0x61);
    v.push(0x6c);
    v.push(0x67);
    v.push(0x22);
    v.push(0x3a);
    proof {
        assert(v@ =~= seq![0x2cu8, 0x22u8, 0x61u8, 0x6cu8, 0x67u8, 0x22u8, 0x3au8]);
    }
    v
}

/// The bytes of one fixed piece of the key-set text.
fn tok_ops() -> (v: Vec<u8>)
    ensures
        v@ == seq![0x2cu8, 0x22u8, 0x6bu8, 0x65u8, 0x79u8, 0x5fu8, 0x6fu8, 0x70u8, 0x73u8, 0x22u8, 0x3au8, 0x5bu8],
{
    let mut v: Vec<u8> = Vec::new();
    v.push(0x2c);
    v.push(0x22);
    v.push(0x6b);
    v.push(0x65);
    v.push(0x79);
    v.push(0x5f);
    v.push(0x6f);
    v.push(0x70);
    v.push(0x73);
    v.push(0x22);
    v.push(0x3a);
    v.push(0x5b);
    proof {
        assert(v@ =~= seq![0x2cu8, 0x22u8, 0x6bu8, 0x65u8, 0x79u8, 0x5fu8, 0x6fu8, 0x70u8, 0x73u8, 0x22u8, 0x3au8, 0x5bu8]);
    }
    v
}

/// The bytes of one fixed piece of the key-set text.
fn tok_kid() -> (v: Vec<u8>)
    ensures
        v@ == seq![0x2cu8, 0x22u8, 0x6bu8, 0x69u8, 0x64u8, 0x22u8, 0x3au8],
{
    let mut v: Vec<u8> = Vec::new();
    v.push(0x2c);
    v.push(0x22);
    v.push(0x6b);
    v.push(0x69);
    v.push(0x64);
    v.push(0x22);
    v.push(0x3a);
    proof {
        assert(v@ =~= seq![0x2cu8, 0x22u8, 0x6bu8, 0x69u8, 0x64u8, 0x22u8, 0x3au8]);
    }
    v
}

/// The bytes of one fixed piece of the key-set text.
fn tok_sign() -> (v: Vec<u8>)
    ensures
        v@ == seq![0x73u8, 0x69u8, 0x67u8, 0x6eu8],
{
    let mut v: Vec<u8> = Vec::new();
    v.push(0x73);
    v.push(0x69);
    v.push(0x67);
    v.push(0x6e);
    proof {
        assert(v@ =~= seq![0x73u8, 0x69u8, 0x67u8, 0x6eu8]);
    }
    v
}

/// The bytes of one fixed piece of the key-set text.
fn tok_verify() -> (v: Vec<u8>)
    ensures
        v@ == seq![0x76u8, 0x65u8, 0x72u8, 0x69u8, 0x66u8, 0x79u8],
{
    let mut v: Vec<u8> = Vec::new();
    v.push(0x76);
    v.push(0x65);
    v.push(0x72);
    v.push(0x69);
    v.push(0x66);
    v.push(0x79);
    proof {
        assert(v@ =~= seq![0x76u8, 0x65u8, 0x72u8, 0x69u8, 0x66u8, 0x79u8]);
    }
    v
}

/// Expect the given bytes at `*pos`.
fn expect_bytes(buf: &[u8], pos: &mut usize, piece: &[u8]) -> (r: Result<(), DecodeError>)
    requires
        *old(pos) <= buf@.len(),
    ensures
        r is Ok ==> *old(pos) <= *final(pos) <= buf@.len() && *final(pos) == *old(pos) + piece@.len(),
        r is Err ==> *final(pos) == *old(pos),
{
    match crate::catalog::json::expect_lit(buf, pos, piece) {
        Ok(()) => Ok(()),
        Err(e) => Err(e),
    }
}

/// Read a quoted string at `*pos` (after an expected opening quote) into
/// a string value.
fn parse_string_field(buf: &[u8], pos: &mut usize) -> (r: Result<String, DecodeError>)
    requires
        *old(pos) <= buf@.len(),
    ensures
        r is Ok ==> *old(pos) < *final(pos) <= buf@.len(),
        r is Err ==> *final(pos) == *old(pos),
{
    let start = *pos;
    let q = tok_quote();
    match expect_bytes(buf, pos, q.as_slice()) {
        Ok(()) => {},
        Err(e) => {
            return Err(e);
        },
    }
    let body = match crate::catalog::video::decode_jstr_body(buf, pos) {
        Ok(v) => v,
        Err(e) => {
            *pos = start;
            return Err(e);
        },
    };
    match bytes_to_string(body) {
        Some(st) => Ok(st),
        None => {
            *pos = start;
            Err(DecodeError::InvalidValue)
        },
    }
}

/// Read one key object at `*pos`: its fields in canonical order, with
/// the algorithm and identifier optional.
fn parse_key(buf: &[u8], pos: &mut usize) -> (r: Result<Key, DecodeError>)
    requires
        *old(pos) <= buf@.len(),
    ensures
        r is Ok ==> *old(pos) < *final(pos) <= buf@.len(),
        r is Err ==> *final(pos) == *old(pos),
{
    let start = *pos;
    let blen = buf.len();
    proof {
        assert(buf@.len() <= usize::MAX);
    }
    // `{"kty":`
    let ktylit = tok_kty();
    match expect_bytes(buf, pos, ktylit.as_slice()) {
        Ok(()) => {},
        Err(e) => {
            return Err(e);
        },
    }
    let kty = match parse_string_field(buf, pos) {
        Ok(v) => v,
        Err(e) => {
            *pos = start;
            return Err(e);
        },
    };
    // `,"k":`
    let klit = tok_k();
    let k = if expect_ahead(buf, *pos, klit.as_slice()) {
        *pos = *pos + klit.len();
        match parse_string_field(buf, pos) {
            Ok(v) => Some(v),
            Err(e) => {
                *pos = start;
                return Err(e);
            },
        }
    } else {
        None
    };
    // `,"alg":`
    let alglit = tok_alg();
    let alg = if expect_ahead(buf, *pos, alglit.as_slice()) {
        *pos = *pos + alglit.len();
        match parse_string_field(buf, pos) {
            Ok(v) => Some(v),
            Err(e) => {
                *pos = start;
                return Err(e);
            },
        }
    } else {
        None
    };
    // `,"key_ops":[`
    let mut operations: Vec<KeyOperation> = Vec::new();
    let opslit = tok_ops();
    if expect_ahead(buf, *pos, opslit.as_slice()) {
        *pos = *pos + opslit.len();
        if *pos < buf.len() && buf[*pos] == 0x5d {
            *pos = *pos + 1;
        } else {
            loop
                invariant
                    *pos <= buf@.len(),
                    start <= *pos,
                    start == *old(pos),
                    buf@.len() <= usize::MAX,
                decreases buf@.len() - *pos,
            {
                let before = *pos;
                let op = match parse_string_field(buf, pos) {
                    Ok(v) => v,
                    Err(e) => {
                        *pos = start;
                        return Err(e);
                    },
                };
                let signlit = tok_sign();
                let veriflit = tok_verify();
                if string_eq_bytes(&op, signlit.as_slice()) {
                    operations.push(KeyOperation::Sign);
                } else if string_eq_bytes(&op, veriflit.as_slice()) {
                    operations.push(KeyOperation::Verify);
                } else {
                    operations.push(KeyOperation::Other);
                }
                if *pos < buf.len() && buf[*pos] == 0x2c {
                    *pos = *pos + 1;
                } else if *pos < buf.len() && buf[*pos] == 0x5d {
                    *pos = *pos + 1;
                    break;
                } else {
                    *pos = start;
                    return Err(DecodeError::InvalidValue);
                }
                if *pos <= before {
                    *pos = start;
                    return Err(DecodeError::InvalidValue);
                }
            }
        }
    }
    // `,"kid":`
    let kidlit = tok_kid();
    let kid = if expect_ahead(buf, *pos, kidlit.as_slice()) {
        *pos = *pos + kidlit.len();
        match parse_string_field(buf, pos) {
            Ok(v) => Some(v),
            Err(e) => {
                *pos = start;
                return Err(e);
            },
        }
    } else {
        None
    };
    // `}`
    let closelit = tok_close();
    match expect_bytes(buf, pos, closelit.as_slice()) {
        Ok(()) => {},
        Err(e) => {
            *pos = start;
            return Err(e);
        },
    }
    if *pos <= start {
        *pos = start;
        return Err(DecodeError::InvalidValue);
    }
    Ok(Key { kty, k, alg, operations, kid })
}

/// Whether the given bytes sit at position `at`.
fn expect_ahead(buf: &[u8], at: usize, piece: &[u8]) -> (r: bool)
    requires
        at <= buf@.len(),
    ensures
        r ==> at + piece@.len() <= buf@.len(),
{
    if piece.len() > buf.len() - at {
        return false;
    }
    let mut k: usize = 0;
    while k < piece.len()
        invariant
            k <= piece@.len(),
            at + piece@.len() <= buf@.len(),
            at + piece@.len() <= usize::MAX,
        decreases piece@.len() - k,
    {
        if buf[at + k] != piece[k] {
            return false;
        }
        k = k + 1;
    }
    true
}

/// Whether two strings hold the same characters.
fn str_eq(a: &str, b: &str) -> (r: bool)
    ensures
        r == (a@ == b@),
{
    let ab = a.as_bytes();
    let bb = b.as_bytes();
    if ab.len() != bb.len() {
        proof {
            lemma_encode_utf8_eq(a@, b@);
        }
        return false;
    }
    let mut k: usize = 0;
    while k < ab.len()
        invariant
            k <= ab@.len(),
            ab@.len() == bb@.len(),
            ab@ == vstd::utf8::encode_utf8(a@),
            bb@ == vstd::utf8::encode_utf8(b@),
            forall|m: int| 0 <= m < k ==> ab@[m] == bb@[m],
        decreases ab@.len() - k,
    {
        if ab[k] != bb[k] {
            proof {
                lemma_encode_utf8_eq(a@, b@);
            }
            return false;
        }
        k = k + 1;
    }
    proof {
        assert(ab@ =~= bb@);
        lemma_encode_utf8_eq(a@, b@);
    }
    true
}

/// Two character sequences are equal exactly when their UTF-8 bytes are.
proof fn lemma_encode_utf8_eq(a: Seq<char>, b: Seq<char>)
    ensures
        (vstd::utf8::encode_utf8(a) == vstd::utf8::encode_utf8(b)) <==> (a == b),
{
    if vstd::utf8::encode_utf8(a) == vstd::utf8::encode_utf8(b) {
        vstd::utf8::encode_utf8_decode_utf8(a);
        vstd::utf8::encode_utf8_decode_utf8(b);
    }
}

} // verus!
