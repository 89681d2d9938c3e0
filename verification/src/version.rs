//! The negotiated wire versions: the two protocol families, and the
//! selection rule of the setup exchange.

use vstd::prelude::*;

use crate::error::Error;
use crate::ietf;
use crate::lite;

verus! {

/// A wire version of either protocol family.
#[derive(Clone, Copy, Debug, PartialEq, Eq, Hash, Structural)]
pub enum Version {
    Ietf(ietf::Version),
    Lite(lite::Version),
}

impl Version {
    /// Whether this is a version of the IETF family.
    pub fn is_ietf(self) -> (r: bool)
        ensures
            r == (self is Ietf),
    {
        matches!(self, Version::Ietf(_))
    }

    /// Whether this is a version of the lite family.
    pub fn is_lite(self) -> (r: bool)
        ensures
            r == (self is Lite),
    {
        matches!(self, Version::Lite(_))
    }

    /// The 32-bit wire identifier of this version.
    pub open spec fn spec_value(self) -> u64 {
        match self {
            Version::Ietf(v) => v.spec_value(),
            Version::Lite(v) => v.spec_value(),
        }
    }

    /// The 32-bit wire identifier of this version.
    pub fn value(self) -> (r: u64)
        ensures
            r == self.spec_value(),
    {
        match self {
            Version::Ietf(v) => v.value(),
            Version::Lite(v) => v.value(),
        }
    }

    /// The version with the given wire identifier, if any; the IETF
    /// family is tried first.
    pub open spec fn spec_from_value(v: u64) -> Option<Version> {
        match ietf::Version::spec_from_value(v) {
            Some(iv) => Some(Version::Ietf(iv)),
            None => match lite::Version::spec_from_value(v) {
                Some(lv) => Some(Version::Lite(lv)),
                None => None,
            },
        }
    }

    /// The version with the given wire identifier, if any.
    pub fn from_value(v: u64) -> (r: Option<Version>)
        ensures
            r == Self::spec_from_value(v),
    {
        match ietf::Version::from_value(v) {
            Some(iv) => Some(Version::Ietf(iv)),
            None => match lite::Version::from_value(v) {
                Some(lv) => Some(Version::Lite(lv)),
                None => None,
            },
        }
    }
}

/// The versions negotiated over a SETUP exchange, in preference order.
pub fn negotiated() -> (r: Vec<Version>)
    ensures
        r@ == seq![
            Version::Lite(lite::Version::Draft02),
            Version::Lite(lite::Version::Draft01),
            Version::Ietf(ietf::Version::Draft14),
        ],
{
    let mut r: Vec<Version> = Vec::new();
    r.push(Version::Lite(lite::Version::Draft02));
    r.push(Version::Lite(lite::Version::Draft01));
    r.push(Version::Ietf(ietf::Version::Draft14));
    proof {
        assert(r@ =~= seq![
            Version::Lite(lite::Version::Draft02),
            Version::Lite(lite::Version::Draft01),
            Version::Ietf(ietf::Version::Draft14),
        ]);
    }
    r
}

/// The ALPN strings of the supported versions.
pub fn alpns() -> (r: Vec<&'static str>)
    ensures
        r@.len() == 3,
{
    let mut r: Vec<&'static str> = Vec::new();
    r.push(lite::ALPN);
    r.push(ietf::ALPN_14);
    r.push(ietf::ALPN_15);
    r
}

/// Whether `supported` contains `v`.
pub open spec fn spec_supports(supported: Seq<Version>, v: Version) -> bool {
    exists|k: int| 0 <= k < supported.len() && supported[k] == v
}

/// The version the handshake selects: the first identifier the client
/// offered that names a version the server supports.  Unknown identifiers
/// are passed over.
pub open spec fn spec_select(offered: Seq<u64>, supported: Seq<Version>) -> Option<Version>
    decreases offered.len(),
{
    if offered.len() == 0 {
        None
    } else {
        match Version::spec_from_value(offered[0]) {
            Some(v) => {
                if spec_supports(supported, v) {
                    Some(v)
                } else {
                    spec_select(offered.drop_first(), supported)
                }
            },
            None => spec_select(offered.drop_first(), supported),
        }
    }
}

/// Whether the version list contains `v`.
fn supports(supported: &Vec<Version>, v: Version) -> (r: bool)
    ensures
        r == spec_supports(supported@, v),
{
    let mut k: usize = 0;
    while k < supported.len()
        invariant
            k <= supported@.len(),
            forall|m: int| 0 <= m < k ==> supported@[m] != v,
        decreases supported@.len() - k,
    {
        if supported[k] == v {
            return true;
        }
        k = k + 1;
    }
    false
}

/// Select the wire version of a session: the first identifier the client
/// offered that the server supports, or a negotiation failure.
///
/// On failure no streams are opened; the session ends with a distinct
/// error kind.
pub fn select_version(offered: &Vec<u64>, supported: &Vec<Version>) -> (r: Result<Version, Error>)
    ensures
        match r {
            Ok(v) => spec_select(offered@, supported@) == Some(v),
            Err(e) => spec_select(offered@, supported@) is None && e == Error::Version,
        },
{
    let mut k: usize = 0;
    proof {
        assert(offered@.skip(0) =~= offered@);
    }
    while k < offered.len()
        invariant
            k <= offered@.len(),
            spec_select(offered@, supported@) == spec_select(offered@.skip(k as int), supported@),
        decreases offered@.len() - k,
    {
        proof {
            assert(offered@.skip(k as int)[0] == offered@[k as int]);
            assert(offered@.skip(k as int).drop_first() =~= offered@.skip(k as int + 1));
        }
        match Version::from_value(offered[k]) {
            Some(v) => {
                if supports(supported, v) {
                    return Ok(v);
                }
            },
            None => {},
        }
        k = k + 1;
    }
    proof {
        assert(offered@.skip(k as int).len() == 0);
    }
    Err(Error::Version)
}

} // verus!
