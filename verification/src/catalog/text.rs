//! The literal pieces of the catalog's canonical JSON text, as explicit
//! byte sequences with matching writers and readers.

use vstd::prelude::*;

use crate::catalog::json::{expect_lit, sp_lit};
use crate::error::DecodeError;

verus! {

/// The text `{\"codec\":\"`.
pub open spec fn lit_cfg_open() -> Seq<u8> {
    seq![0x7bu8, 0x22u8, 0x63u8, 0x6fu8, 0x64u8, 0x65u8, 0x63u8, 0x22u8, 0x3au8, 0x22u8]
}

/// Append the text `{\"codec\":\"`.
pub fn push_cfg_open(buf: &mut Vec<u8>)
    ensures
        final(buf)@ == old(buf)@ + lit_cfg_open(),
{
    buf.push(0x7b);
    buf.push(0x22);
    buf.push(0x63);
    buf.push(0x6f);
    buf.push(0x64);
    buf.push(0x65);
    buf.push(0x63);
    buf.push(0x22);
    buf.push(0x3a);
    buf.push(0x22);
    assert(buf@ =~= old(buf)@ + lit_cfg_open());
}

/// Expect the text `{\"codec\":\"` at `*pos`.
pub fn expect_cfg_open(buf: &[u8], pos: &mut usize) -> (r: Result<(), DecodeError>)
    requires
        *old(pos) <= buf@.len(),
    ensures
        match r {
            Ok(()) => sp_lit(buf@, *old(pos) as int, lit_cfg_open()) && *final(pos) == *old(pos)
                + lit_cfg_open().len() && *final(pos) <= buf@.len(),
            Err(e) => !sp_lit(buf@, *old(pos) as int, lit_cfg_open()) && *final(pos) == *old(pos) && e
                == DecodeError::InvalidValue,
        },
{
    let mut v: Vec<u8> = Vec::new();
    v.push(0x7b);
    v.push(0x22);
    v.push(0x63);
    v.push(0x6f);
    v.push(0x64);
    v.push(0x65);
    v.push(0x63);
    v.push(0x22);
    v.push(0x3a);
    v.push(0x22);
    proof {
        assert(v@ =~= lit_cfg_open());
    }
    expect_lit(buf, pos, v.as_slice())
}

/// The text `\"`.
pub open spec fn lit_quote() -> Seq<u8> {
    seq![0x22u8]
}

/// Append the text `\"`.
pub fn push_quote(buf: &mut Vec<u8>)
    ensures
        final(buf)@ == old(buf)@ + lit_quote(),
{
    buf.push(0x22);
    assert(buf@ =~= old(buf)@ + lit_quote());
}

/// Expect the text `\"` at `*pos`.
pub fn expect_quote(buf: &[u8], pos: &mut usize) -> (r: Result<(), DecodeError>)
    requires
        *old(pos) <= buf@.len(),
    ensures
        match r {
            Ok(()) => sp_lit(buf@, *old(pos) as int, lit_quote()) && *final(pos) == *old(pos)
                + lit_quote().len() && *final(pos) <= buf@.len(),
            Err(e) => !sp_lit(buf@, *old(pos) as int, lit_quote()) && *final(pos) == *old(pos) && e
                == DecodeError::InvalidValue,
        },
{
    let mut v: Vec<u8> = Vec::new();
    v.push(0x22);
    proof {
        assert(v@ =~= lit_quote());
    }
    expect_lit(buf, pos, v.as_slice())
}


/// The text `,\"description\":`.
pub open spec fn lit_cfg_description() -> Seq<u8> {
    seq![0x2cu8, 0x22u8, 0x64u8, 0x65u8, 0x73u8, 0x63u8, 0x72u8, 0x69u8, 0x70u8, 0x74u8, 0x69u8, 0x6fu8, 0x6eu8, 0x22u8, 0x3au8]
}

/// Append the text `,\"description\":`.
pub fn push_cfg_description(buf: &mut Vec<u8>)
    ensures
        final(buf)@ == old(buf)@ + lit_cfg_description(),
{
    buf.push(0x2c);
    buf.push(0x22);
    buf.push(0x64);
    buf.push(0x65);
    buf.push(0x73);
    buf.push(0x63);
    buf.push(0x72);
    buf.push(0x69);
    buf.push(0x70);
    buf.push(0x74);
    buf.push(0x69);
    buf.push(0x6f);
    buf.push(0x6e);
    buf.push(0x22);
    buf.push(0x3a);
    assert(buf@ =~= old(buf)@ + lit_cfg_description());
}

/// Expect the text `,\"description\":` at `*pos`.
pub fn expect_cfg_description(buf: &[u8], pos: &mut usize) -> (r: Result<(), DecodeError>)
    requires
        *old(pos) <= buf@.len(),
    ensures
        match r {
            Ok(()) => sp_lit(buf@, *old(pos) as int, lit_cfg_description()) && *final(pos) == *old(pos)
                + lit_cfg_description().len() && *final(pos) <= buf@.len(),
            Err(e) => !sp_lit(buf@, *old(pos) as int, lit_cfg_description()) && *final(pos) == *old(pos) && e
                == DecodeError::InvalidValue,
        },
{
    let mut v: Vec<u8> = Vec::new();
    v.push(0x2c);
    v.push(0x22);
    v.push(0x64);
    v.push(0x65);
    v.push(0x73);
    v.push(0x63);
    v.push(0x72);
    v.push(0x69);
    v.push(0x70);
    v.push(0x74);
    v.push(0x69);
    v.push(0x6f);
    v.push(0x6e);
    v.push(0x22);
    v.push(0x3a);
    proof {
        assert(v@ =~= lit_cfg_description());
    }
    expect_lit(buf, pos, v.as_slice())
}

/// The text `,\"codedWidth\":`.
pub open spec fn lit_cfg_coded_width() -> Seq<u8> {
    seq![0x2cu8, 0x22u8, 0x63u8, 0x6fu8, 0x64u8, 0x65u8, 0x64u8, 0x57u8, 0x69u8, 0x64u8, 0x74u8, 0x68u8, 0x22u8, 0x3au8]
}

/// Append the text `,\"codedWidth\":`.
pub fn push_cfg_coded_width(buf: &mut Vec<u8>)
    ensures
        final(buf)@ == old(buf)@ + lit_cfg_coded_width(),
{
    buf.push(0x2c);
    buf.push(0x22);
    buf.push(0x63);
    buf.push(0x6f);
    buf.push(0x64);
    buf.push(0x65);
    buf.push(0x64);
    buf.push(0x57);
    buf.push(0x69);
    buf.push(0x64);
    buf.push(0x74);
    buf.push(0x68);
    buf.push(0x22);
    buf.push(0x3a);
    assert(buf@ =~= old(buf)@ + lit_cfg_coded_width());
}

/// Expect the text `,\"codedWidth\":` at `*pos`.
pub fn expect_cfg_coded_width(buf: &[u8], pos: &mut usize) -> (r: Result<(), DecodeError>)
    requires
        *old(pos) <= buf@.len(),
    ensures
        match r {
            Ok(()) => sp_lit(buf@, *old(pos) as int, lit_cfg_coded_width()) && *final(pos) == *old(pos)
                + lit_cfg_coded_width().len() && *final(pos) <= buf@.len(),
            Err(e) => !sp_lit(buf@, *old(pos) as int, lit_cfg_coded_width()) && *final(pos) == *old(pos) && e
                == DecodeError::InvalidValue,
        },
{
    let mut v: Vec<u8> = Vec::new();
    v.push(0x2c);
    v.push(0x22);
    v.push(0x63);
    v.push(0x6f);
    v.push(0x64);
    v.push(0x65);
    v.push(0x64);
    v.push(0x57);
    v.push(0x69);
    v.push(0x64);
    v.push(0x74);
    v.push(0x68);
    v.push(0x22);
    v.push(0x3a);
    proof {
        assert(v@ =~= lit_cfg_coded_width());
    }
    expect_lit(buf, pos, v.as_slice())
}

/// The text `,\"codedHeight\":`.
pub open spec fn lit_cfg_coded_height() -> Seq<u8> {
    seq![0x2cu8, 0x22u8, 0x63u8, 0x6fu8, 0x64u8, 0x65u8, 0x64u8, 0x48u8, 0x65u8, 0x69u8, 0x67u8, 0x68u8, 0x74u8, 0x22u8, 0x3au8]
}

/// Append the text `,\"codedHeight\":`.
pub fn push_cfg_coded_height(buf: &mut Vec<u8>)
    ensures
        final(buf)@ == old(buf)@ + lit_cfg_coded_height(),
{
    buf.push(0x2c);
    buf.push(0x22);
    buf.push(0x63);
    buf.push(0x6f);
    buf.push(0x64);
    buf.push(0x65);
    buf.push(0x64);
    buf.push(0x48);
    buf.push(0x65);
    buf.push(0x69);
    buf.push(0x67);
    buf.push(0x68);
    buf.push(0x74);
    buf.push(0x22);
    buf.push(0x3a);
    assert(buf@ =~= old(buf)@ + lit_cfg_coded_height());
}

/// Expect the text `,\"codedHeight\":` at `*pos`.
pub fn expect_cfg_coded_height(buf: &[u8], pos: &mut usize) -> (r: Result<(), DecodeError>)
    requires
        *old(pos) <= buf@.len(),
    ensures
        match r {
            Ok(()) => sp_lit(buf@, *old(pos) as int, lit_cfg_coded_height()) && *final(pos) == *old(pos)
                + lit_cfg_coded_height().len() && *final(pos) <= buf@.len(),
            Err(e) => !sp_lit(buf@, *old(pos) as int, lit_cfg_coded_height()) && *final(pos) == *old(pos) && e
                == DecodeError::InvalidValue,
        },
{
    let mut v: Vec<u8> = Vec::new();
    v.push(0x2c);
    v.push(0x22);
    v.push(0x63);
    v.push(0x6f);
    v.push(0x64);
    v.push(0x65);
    v.push(0x64);
    v.push(0x48);
    v.push(0x65);
    v.push(0x69);
    v.push(0x67);
    v.push(0x68);
    v.push(0x74);
    v.push(0x22);
    v.push(0x3a);
    proof {
        assert(v@ =~= lit_cfg_coded_height());
    }
    expect_lit(buf, pos, v.as_slice())
}

/// The text `,\"bitrate\":`.
pub open spec fn lit_cfg_bitrate() -> Seq<u8> {
    seq![0x2cu8, 0x22u8, 0x62u8, 0x69u8, 0x74u8, 0x72u8, 0x61u8, 0x74u8, 0x65u8, 0x22u8, 0x3au8]
}

/// Append the text `,\"bitrate\":`.
pub fn push_cfg_bitrate(buf: &mut Vec<u8>)
    ensures
        final(buf)@ == old(buf)@ + lit_cfg_bitrate(),
{
    buf.push(0x2c);
    buf.push(0x22);
    buf.push(0x62);
    buf.push(0x69);
    buf.push(0x74);
    buf.push(0x72);
    buf.push(0x61);
    buf.push(0x74);
    buf.push(0x65);
    buf.push(0x22);
    buf.push(0x3a);
    assert(buf@ =~= old(buf)@ + lit_cfg_bitrate());
}

/// Expect the text `,\"bitrate\":` at `*pos`.
pub fn expect_cfg_bitrate(buf: &[u8], pos: &mut usize) -> (r: Result<(), DecodeError>)
    requires
        *old(pos) <= buf@.len(),
    ensures
        match r {
            Ok(()) => sp_lit(buf@, *old(pos) as int, lit_cfg_bitrate()) && *final(pos) == *old(pos)
                + lit_cfg_bitrate().len() && *final(pos) <= buf@.len(),
            Err(e) => !sp_lit(buf@, *old(pos) as int, lit_cfg_bitrate()) && *final(pos) == *old(pos) && e
                == DecodeError::InvalidValue,
        },
{
    let mut v: Vec<u8> = Vec::new();
    v.push(0x2c);
    v.push(0x22);
    v.push(0x62);
    v.push(0x69);
    v.push(0x74);
    v.push(0x72);
    v.push(0x61);
    v.push(0x74);
    v.push(0x65);
    v.push(0x22);
    v.push(0x3a);
    proof {
        assert(v@ =~= lit_cfg_bitrate());
    }
    expect_lit(buf, pos, v.as_slice())
}

/// The text `,\"framerate\":`.
pub open spec fn lit_cfg_framerate() -> Seq<u8> {
    seq![0x2cu8, 0x22u8, 0x66u8, 0x72u8, 0x61u8, 0x6du8, 0x65u8, 0x72u8, 0x61u8, 0x74u8, 0x65u8, 0x22u8, 0x3au8]
}

/// Append the text `,\"framerate\":`.
pub fn push_cfg_framerate(buf: &mut Vec<u8>)
    ensures
        final(buf)@ == old(buf)@ + lit_cfg_framerate(),
{
    buf.push(0x2c);
    buf.push(0x22);
    buf.push(0x66);
    buf.push(0x72);
    buf.push(0x61);
    buf.push(0x6d);
    buf.push(0x65);
    buf.push(0x72);
    buf.push(0x61);
    buf.push(0x74);
    buf.push(0x65);
    buf.push(0x22);
    buf.push(0x3a);
    assert(buf@ =~= old(buf)@ + lit_cfg_framerate());
}

/// Expect the text `,\"framerate\":` at `*pos`.
pub fn expect_cfg_framerate(buf: &[u8], pos: &mut usize) -> (r: Result<(), DecodeError>)
    requires
        *old(pos) <= buf@.len(),
    ensures
        match r {
            Ok(()) => sp_lit(buf@, *old(pos) as int, lit_cfg_framerate()) && *final(pos) == *old(pos)
                + lit_cfg_framerate().len() && *final(pos) <= buf@.len(),
            Err(e) => !sp_lit(buf@, *old(pos) as int, lit_cfg_framerate()) && *final(pos) == *old(pos) && e
                == DecodeError::InvalidValue,
        },
{
    let mut v: Vec<u8> = Vec::new();
    v.push(0x2c);
    v.push(0x22);
    v.push(0x66);
    v.push(0x72);
    v.push(0x61);
    v.push(0x6d);
    v.push(0x65);
    v.push(0x72);
    v.push(0x61);
    v.push(0x74);
    v.push(0x65);
    v.push(0x22);
    v.push(0x3a);
    proof {
        assert(v@ =~= lit_cfg_framerate());
    }
    expect_lit(buf, pos, v.as_slice())
}

/// The text `,\"container\":`.
pub open spec fn lit_cfg_container() -> Seq<u8> {
    seq![0x2cu8, 0x22u8, 0x63u8, 0x6fu8, 0x6eu8, 0x74u8, 0x61u8, 0x69u8, 0x6eu8, 0x65u8, 0x72u8, 0x22u8, 0x3au8]
}

/// Append the text `,\"container\":`.
pub fn push_cfg_container(buf: &mut Vec<u8>)
    ensures
        final(buf)@ == old(buf)@ + lit_cfg_container(),
{
    buf.push(0x2c);
    buf.push(0x22);
    buf.push(0x63);
    buf.push(0x6f);
    buf.push(0x6e);
    buf.push(0x74);
    buf.push(0x61);
    buf.push(0x69);
    buf.push(0x6e);
    buf.push(0x65);
    buf.push(0x72);
    buf.push(0x22);
    buf.push(0x3a);
    assert(buf@ =~= old(buf)@ + lit_cfg_container());
}

/// Expect the text `,\"container\":` at `*pos`.
pub fn expect_cfg_container(buf: &[u8], pos: &mut usize) -> (r: Result<(), DecodeError>)
    requires
        *old(pos) <= buf@.len(),
    ensures
        match r {
            Ok(()) => sp_lit(buf@, *old(pos) as int, lit_cfg_container()) && *final(pos) == *old(pos)
                + lit_cfg_container().len() && *final(pos) <= buf@.len(),
            Err(e) => !sp_lit(buf@, *old(pos) as int, lit_cfg_container()) && *final(pos) == *old(pos) && e
                == DecodeError::InvalidValue,
        },
{
    let mut v: Vec<u8> = Vec::new();
    v.push(0x2c);
    v.push(0x22);
    v.push(0x63);
    v.push(0x6f);
    v.push(0x6e);
    v.push(0x74);
    v.push(0x61);
    v.push(0x69);
    v.push(0x6e);
    v.push(0x65);
    v.push(0x72);
    v.push(0x22);
    v.push(0x3a);
    proof {
        assert(v@ =~= lit_cfg_container());
    }
    expect_lit(buf, pos, v.as_slice())
}

/// The text `,\"jitter\":`.
pub open spec fn lit_cfg_jitter() -> Seq<u8> {
    seq![0x2cu8, 0x22u8, 0x6au8, 0x69u8, 0x74u8, 0x74u8, 0x65u8, 0x72u8, 0x22u8, 0x3au8]
}

/// Append the text `,\"jitter\":`.
pub fn push_cfg_jitter(buf: &mut Vec<u8>)
    ensures
        final(buf)@ == old(buf)@ + lit_cfg_jitter(),
{
    buf.push(0x2c);
    buf.push(0x22);
    buf.push(0x6a);
    buf.push(0x69);
    buf.push(0x74);
    buf.push(0x74);
    buf.push(0x65);
    buf.push(0x72);
    buf.push(0x22);
    buf.push(0x3a);
    assert(buf@ =~= old(buf)@ + lit_cfg_jitter());
}

/// Expect the text `,\"jitter\":` at `*pos`.
pub fn expect_cfg_jitter(buf: &[u8], pos: &mut usize) -> (r: Result<(), DecodeError>)
    requires
        *old(pos) <= buf@.len(),
    ensures
        match r {
            Ok(()) => sp_lit(buf@, *old(pos) as int, lit_cfg_jitter()) && *final(pos) == *old(pos)
                + lit_cfg_jitter().len() && *final(pos) <= buf@.len(),
            Err(e) => !sp_lit(buf@, *old(pos) as int, lit_cfg_jitter()) && *final(pos) == *old(pos) && e
                == DecodeError::InvalidValue,
        },
{
    let mut v: Vec<u8> = Vec::new();
    v.push(0x2c);
    v.push(0x22);
    v.push(0x6a);
    v.push(0x69);
    v.push(0x74);
    v.push(0x74);
    v.push(0x65);
    v.push(0x72);
    v.push(0x22);
    v.push(0x3a);
    proof {
        assert(v@ =~= lit_cfg_jitter());
    }
    expect_lit(buf, pos, v.as_slice())
}

/// The text `,\"sampleRate\":`.
pub open spec fn lit_aud_sample_rate() -> Seq<u8> {
    seq![0x2cu8, 0x22u8, 0x73u8, 0x61u8, 0x6du8, 0x70u8, 0x6cu8, 0x65u8, 0x52u8, 0x61u8, 0x74u8, 0x65u8, 0x22u8, 0x3au8]
}

/// Append the text `,\"sampleRate\":`.
pub fn push_aud_sample_rate(buf: &mut Vec<u8>)
    ensures
        final(buf)@ == old(buf)@ + lit_aud_sample_rate(),
{
    buf.push(0x2c);
    buf.push(0x22);
    buf.push(0x73);
    buf.push(0x61);
    buf.push(0x6d);
    buf.push(0x70);
    buf.push(0x6c);
    buf.push(0x65);
    buf.push(0x52);
    buf.push(0x61);
    buf.push(0x74);
    buf.push(0x65);
    buf.push(0x22);
    buf.push(0x3a);
    assert(buf@ =~= old(buf)@ + lit_aud_sample_rate());
}

/// Expect the text `,\"sampleRate\":` at `*pos`.
pub fn expect_aud_sample_rate(buf: &[u8], pos: &mut usize) -> (r: Result<(), DecodeError>)
    requires
        *old(pos) <= buf@.len(),
    ensures
        match r {
            Ok(()) => sp_lit(buf@, *old(pos) as int, lit_aud_sample_rate()) && *final(pos) == *old(pos)
                + lit_aud_sample_rate().len() && *final(pos) <= buf@.len(),
            Err(e) => !sp_lit(buf@, *old(pos) as int, lit_aud_sample_rate()) && *final(pos) == *old(pos) && e
                == DecodeError::InvalidValue,
        },
{
    let mut v: Vec<u8> = Vec::new();
    v.push(0x2c);
    v.push(0x22);
    v.push(0x73);
    v.push(0x61);
    v.push(0x6d);
    v.push(0x70);
    v.push(0x6c);
    v.push(0x65);
    v.push(0x52);
    v.push(0x61);
    v.push(0x74);
    v.push(0x65);
    v.push(0x22);
    v.push(0x3a);
    proof {
        assert(v@ =~= lit_aud_sample_rate());
    }
    expect_lit(buf, pos, v.as_slice())
}

/// The text `,\"numberOfChannels\":`.
pub open spec fn lit_aud_channels() -> Seq<u8> {
    seq![0x2cu8, 0x22u8, 0x6eu8, 0x75u8, 0x6du8, 0x62u8, 0x65u8, 0x72u8, 0x4fu8, 0x66u8, 0x43u8, 0x68u8, 0x61u8, 0x6eu8, 0x6eu8, 0x65u8, 0x6cu8, 0x73u8, 0x22u8, 0x3au8]
}

/// Append the text `,\"numberOfChannels\":`.
pub fn push_aud_channels(buf: &mut Vec<u8>)
    ensures
        final(buf)@ == old(buf)@ + lit_aud_channels(),
{
    buf.push(0x2c);
    buf.push(0x22);
    buf.push(0x6e);
    buf.push(0x75);
    buf.push(0x6d);
    buf.push(0x62);
    buf.push(0x65);
    buf.push(0x72);
    buf.push(0x4f);
    buf.push(0x66);
    buf.push(0x43);
    buf.push(0x68);
    buf.push(0x61);
    buf.push(0x6e);
    buf.push(0x6e);
    buf.push(0x65);
    buf.push(0x6c);
    buf.push(0x73);
    buf.push(0x22);
    buf.push(0x3a);
    assert(buf@ =~= old(buf)@ + lit_aud_channels());
}

/// Expect the text `,\"numberOfChannels\":` at `*pos`.
pub fn expect_aud_channels(buf: &[u8], pos: &mut usize) -> (r: Result<(), DecodeError>)
    requires
        *old(pos) <= buf@.len(),
    ensures
        match r {
            Ok(()) => sp_lit(buf@, *old(pos) as int, lit_aud_channels()) && *final(pos) == *old(pos)
                + lit_aud_channels().len() && *final(pos) <= buf@.len(),
            Err(e) => !sp_lit(buf@, *old(pos) as int, lit_aud_channels()) && *final(pos) == *old(pos) && e
                == DecodeError::InvalidValue,
        },
{
    let mut v: Vec<u8> = Vec::new();
    v.push(0x2c);
    v.push(0x22);
    v.push(0x6e);
    v.push(0x75);
    v.push(0x6d);
    v.push(0x62);
    v.push(0x65);
    v.push(0x72);
    v.push(0x4f);
    v.push(0x66);
    v.push(0x43);
    v.push(0x68);
    v.push(0x61);
    v.push(0x6e);
    v.push(0x6e);
    v.push(0x65);
    v.push(0x6c);
    v.push(0x73);
    v.push(0x22);
    v.push(0x3a);
    proof {
        assert(v@ =~= lit_aud_channels());
    }
    expect_lit(buf, pos, v.as_slice())
}

/// The text `{\"kind\":\"legacy\"}`.
pub open spec fn lit_kind_legacy() -> Seq<u8> {
    seq![0x7bu8, 0x22u8, 0x6bu8, 0x69u8, 0x6eu8, 0x64u8, 0x22u8, 0x3au8, 0x22u8, 0x6cu8, 0x65u8, 0x67u8, 0x61u8, 0x63u8, 0x79u8, 0x22u8, 0x7du8]
}

/// Append the text `{\"kind\":\"legacy\"}`.
pub fn push_kind_legacy(buf: &mut Vec<u8>)
    ensures
        final(buf)@ == old(buf)@ + lit_kind_legacy(),
{
    buf.push(0x7b);
    buf.push(0x22);
    buf.push(0x6b);
    buf.push(0x69);
    buf.push(0x6e);
    buf.push(0x64);
    buf.push(0x22);
    buf.push(0x3a);
    buf.push(0x22);
    buf.push(0x6c);
    buf.push(0x65);
    buf.push(0x67);
    buf.push(0x61);
    buf.push(0x63);
    buf.push(0x79);
    buf.push(0x22);
    buf.push(0x7d);
    assert(buf@ =~= old(buf)@ + lit_kind_legacy());
}

/// Expect the text `{\"kind\":\"legacy\"}` at `*pos`.
pub fn expect_kind_legacy(buf: &[u8], pos: &mut usize) -> (r: Result<(), DecodeError>)
    requires
        *old(pos) <= buf@.len(),
    ensures
        match r {
            Ok(()) => sp_lit(buf@, *old(pos) as int, lit_kind_legacy()) && *final(pos) == *old(pos)
                + lit_kind_legacy().len() && *final(pos) <= buf@.len(),
            Err(e) => !sp_lit(buf@, *old(pos) as int, lit_kind_legacy()) && *final(pos) == *old(pos) && e
                == DecodeError::InvalidValue,
        },
{
    let mut v: Vec<u8> = Vec::new();
    v.push(0x7b);
    v.push(0x22);
    v.push(0x6b);
    v.push(0x69);
    v.push(0x6e);
    v.push(0x64);
    v.push(0x22);
    v.push(0x3a);
    v.push(0x22);
    v.push(0x6c);
    v.push(0x65);
    v.push(0x67);
    v.push(0x61);
    v.push(0x63);
    v.push(0x79);
    v.push(0x22);
    v.push(0x7d);
    proof {
        assert(v@ =~= lit_kind_legacy());
    }
    expect_lit(buf, pos, v.as_slice())
}

/// The text `{\"kind\":\"cmaf\",\"timescale\":`.
pub open spec fn lit_kind_cmaf() -> Seq<u8> {
    seq![0x7bu8, 0x22u8, 0x6bu8, 0x69u8, 0x6eu8, 0x64u8, 0x22u8, 0x3au8, 0x22u8, 0x63u8, 0x6du8, 0x61u8, 0x66u8, 0x22u8, 0x2cu8, 0x22u8, 0x74u8, 0x69u8, 0x6du8, 0x65u8, 0x73u8, 0x63u8, 0x61u8, 0x6cu8, 0x65u8, 0x22u8, 0x3au8]
}

/// Append the text `{\"kind\":\"cmaf\",\"timescale\":`.
pub fn push_kind_cmaf(buf: &mut Vec<u8>)
    ensures
        final(buf)@ == old(buf)@ + lit_kind_cmaf(),
{
    buf.push(0x7b);
    buf.push(0x22);
    buf.push(0x6b);
    buf.push(0x69);
    buf.push(0x6e);
    buf.push(0x64);
    buf.push(0x22);
    buf.push(0x3a);
    buf.push(0x22);
    buf.push(0x63);
    buf.push(0x6d);
    buf.push(0x61);
    buf.push(0x66);
    buf.push(0x22);
    buf.push(0x2c);
    buf.push(0x22);
    buf.push(0x74);
    buf.push(0x69);
    buf.push(0x6d);
    buf.push(0x65);
    buf.push(0x73);
    buf.push(0x63);
    buf.push(0x61);
    buf.push(0x6c);
    buf.push(0x65);
    buf.push(0x22);
    buf.push(0x3a);
    assert(buf@ =~= old(buf)@ + lit_kind_cmaf());
}

/// Expect the text `{\"kind\":\"cmaf\",\"timescale\":` at `*pos`.
pub fn expect_kind_cmaf(buf: &[u8], pos: &mut usize) -> (r: Result<(), DecodeError>)
    requires
        *old(pos) <= buf@.len(),
    ensures
        match r {
            Ok(()) => sp_lit(buf@, *old(pos) as int, lit_kind_cmaf()) && *final(pos) == *old(pos)
                + lit_kind_cmaf().len() && *final(pos) <= buf@.len(),
            Err(e) => !sp_lit(buf@, *old(pos) as int, lit_kind_cmaf()) && *final(pos) == *old(pos) && e
                == DecodeError::InvalidValue,
        },
{
    let mut v: Vec<u8> = Vec::new();
    v.push(0x7b);
    v.push(0x22);
    v.push(0x6b);
    v.push(0x69);
    v.push(0x6e);
    v.push(0x64);
    v.push(0x22);
    v.push(0x3a);
    v.push(0x22);
    v.push(0x63);
    v.push(0x6d);
    v.push(0x61);
    v.push(0x66);
    v.push(0x22);
    v.push(0x2c);
    v.push(0x22);
    v.push(0x74);
    v.push(0x69);
    v.push(0x6d);
    v.push(0x65);
    v.push(0x73);
    v.push(0x63);
    v.push(0x61);
    v.push(0x6c);
    v.push(0x65);
    v.push(0x22);
    v.push(0x3a);
    proof {
        assert(v@ =~= lit_kind_cmaf());
    }
    expect_lit(buf, pos, v.as_slice())
}

/// The text `,\"trackId\":`.
pub open spec fn lit_cmaf_track_id() -> Seq<u8> {
    seq![0x2cu8, 0x22u8, 0x74u8, 0x72u8, 0x61u8, 0x63u8, 0x6bu8, 0x49u8, 0x64u8, 0x22u8, 0x3au8]
}

/// Append the text `,\"trackId\":`.
pub fn push_cmaf_track_id(buf: &mut Vec<u8>)
    ensures
        final(buf)@ == old(buf)@ + lit_cmaf_track_id(),
{
    buf.push(0x2c);
    buf.push(0x22);
    buf.push(0x74);
    buf.push(0x72);
    buf.push(0x61);
    buf.push(0x63);
    buf.push(0x6b);
    buf.push(0x49);
    buf.push(0x64);
    buf.push(0x22);
    buf.push(0x3a);
    assert(buf@ =~= old(buf)@ + lit_cmaf_track_id());
}

/// Expect the text `,\"trackId\":` at `*pos`.
pub fn expect_cmaf_track_id(buf: &[u8], pos: &mut usize) -> (r: Result<(), DecodeError>)
    requires
        *old(pos) <= buf@.len(),
    ensures
        match r {
            Ok(()) => sp_lit(buf@, *old(pos) as int, lit_cmaf_track_id()) && *final(pos) == *old(pos)
                + lit_cmaf_track_id().len() && *final(pos) <= buf@.len(),
            Err(e) => !sp_lit(buf@, *old(pos) as int, lit_cmaf_track_id()) && *final(pos) == *old(pos) && e
                == DecodeError::InvalidValue,
        },
{
    let mut v: Vec<u8> = Vec::new();
    v.push(0x2c);
    v.push(0x22);
    v.push(0x74);
    v.push(0x72);
    v.push(0x61);
    v.push(0x63);
    v.push(0x6b);
    v.push(0x49);
    v.push(0x64);
    v.push(0x22);
    v.push(0x3a);
    proof {
        assert(v@ =~= lit_cmaf_track_id());
    }
    expect_lit(buf, pos, v.as_slice())
}

/// The text `{\"renditions\":`.
pub open spec fn lit_renditions_open() -> Seq<u8> {
    seq![0x7bu8, 0x22u8, 0x72u8, 0x65u8, 0x6eu8, 0x64u8, 0x69u8, 0x74u8, 0x69u8, 0x6fu8, 0x6eu8, 0x73u8, 0x22u8, 0x3au8]
}

/// Append the text `{\"renditions\":`.
pub fn push_renditions_open(buf: &mut Vec<u8>)
    ensures
        final(buf)@ == old(buf)@ + lit_renditions_open(),
{
    buf.push(0x7b);
    buf.push(0x22);
    buf.push(0x72);
    buf.push(0x65);
    buf.push(0x6e);
    buf.push(0x64);
    buf.push(0x69);
    buf.push(0x74);
    buf.push(0x69);
    buf.push(0x6f);
    buf.push(0x6e);
    buf.push(0x73);
    buf.push(0x22);
    buf.push(0x3a);
    assert(buf@ =~= old(buf)@ + lit_renditions_open());
}

/// Expect the text `{\"renditions\":` at `*pos`.
pub fn expect_renditions_open(buf: &[u8], pos: &mut usize) -> (r: Result<(), DecodeError>)
    requires
        *old(pos) <= buf@.len(),
    ensures
        match r {
            Ok(()) => sp_lit(buf@, *old(pos) as int, lit_renditions_open()) && *final(pos) == *old(pos)
                + lit_renditions_open().len() && *final(pos) <= buf@.len(),
            Err(e) => !sp_lit(buf@, *old(pos) as int, lit_renditions_open()) && *final(pos) == *old(pos) && e
                == DecodeError::InvalidValue,
        },
{
    let mut v: Vec<u8> = Vec::new();
    v.push(0x7b);
    v.push(0x22);
    v.push(0x72);
    v.push(0x65);
    v.push(0x6e);
    v.push(0x64);
    v.push(0x69);
    v.push(0x74);
    v.push(0x69);
    v.push(0x6f);
    v.push(0x6e);
    v.push(0x73);
    v.push(0x22);
    v.push(0x3a);
    proof {
        assert(v@ =~= lit_renditions_open());
    }
    expect_lit(buf, pos, v.as_slice())
}

/// The text `{\"video\":`.
pub open spec fn lit_catalog_video() -> Seq<u8> {
    seq![0x7bu8, 0x22u8, 0x76u8, 0x69u8, 0x64u8, 0x65u8, 0x6fu8, 0x22u8, 0x3au8]
}

/// Append the text `{\"video\":`.
pub fn push_catalog_video(buf: &mut Vec<u8>)
    ensures
        final(buf)@ == old(buf)@ + lit_catalog_video(),
{
    buf.push(0x7b);
    buf.push(0x22);
    buf.push(0x76);
    buf.push(0x69);
    buf.push(0x64);
    buf.push(0x65);
    buf.push(0x6f);
    buf.push(0x22);
    buf.push(0x3a);
    assert(buf@ =~= old(buf)@ + lit_catalog_video());
}

/// Expect the text `{\"video\":` at `*pos`.
pub fn expect_catalog_video(buf: &[u8], pos: &mut usize) -> (r: Result<(), DecodeError>)
    requires
        *old(pos) <= buf@.len(),
    ensures
        match r {
            Ok(()) => sp_lit(buf@, *old(pos) as int, lit_catalog_video()) && *final(pos) == *old(pos)
                + lit_catalog_video().len() && *final(pos) <= buf@.len(),
            Err(e) => !sp_lit(buf@, *old(pos) as int, lit_catalog_video()) && *final(pos) == *old(pos) && e
                == DecodeError::InvalidValue,
        },
{
    let mut v: Vec<u8> = Vec::new();
    v.push(0x7b);
    v.push(0x22);
    v.push(0x76);
    v.push(0x69);
    v.push(0x64);
    v.push(0x65);
    v.push(0x6f);
    v.push(0x22);
    v.push(0x3a);
    proof {
        assert(v@ =~= lit_catalog_video());
    }
    expect_lit(buf, pos, v.as_slice())
}

/// The text `,\"audio\":`.
pub open spec fn lit_catalog_audio() -> Seq<u8> {
    seq![0x2cu8, 0x22u8, 0x61u8, 0x75u8, 0x64u8, 0x69u8, 0x6fu8, 0x22u8, 0x3au8]
}

/// Append the text `,\"audio\":`.
pub fn push_catalog_audio(buf: &mut Vec<u8>)
    ensures
        final(buf)@ == old(buf)@ + lit_catalog_audio(),
{
    buf.push(0x2c);
    buf.push(0x22);
    buf.push(0x61);
    buf.push(0x75);
    buf.push(0x64);
    buf.push(0x69);
    buf.push(0x6f);
    buf.push(0x22);
    buf.push(0x3a);
    assert(buf@ =~= old(buf)@ + lit_catalog_audio());
}

/// Expect the text `,\"audio\":` at `*pos`.
pub fn expect_catalog_audio(buf: &[u8], pos: &mut usize) -> (r: Result<(), DecodeError>)
    requires
        *old(pos) <= buf@.len(),
    ensures
        match r {
            Ok(()) => sp_lit(buf@, *old(pos) as int, lit_catalog_audio()) && *final(pos) == *old(pos)
                + lit_catalog_audio().len() && *final(pos) <= buf@.len(),
            Err(e) => !sp_lit(buf@, *old(pos) as int, lit_catalog_audio()) && *final(pos) == *old(pos) && e
                == DecodeError::InvalidValue,
        },
{
    let mut v: Vec<u8> = Vec::new();
    v.push(0x2c);
    v.push(0x22);
    v.push(0x61);
    v.push(0x75);
    v.push(0x64);
    v.push(0x69);
    v.push(0x6f);
    v.push(0x22);
    v.push(0x3a);
    proof {
        assert(v@ =~= lit_catalog_audio());
    }
    expect_lit(buf, pos, v.as_slice())
}

/// The text `{`.
pub open spec fn lit_obj_open() -> Seq<u8> {
    seq![0x7bu8]
}

/// Append the text `{`.
pub fn push_obj_open(buf: &mut Vec<u8>)
    ensures
        final(buf)@ == old(buf)@ + lit_obj_open(),
{
    buf.push(0x7b);
    assert(buf@ =~= old(buf)@ + lit_obj_open());
}

/// Expect the text `{` at `*pos`.
pub fn expect_obj_open(buf: &[u8], pos: &mut usize) -> (r: Result<(), DecodeError>)
    requires
        *old(pos) <= buf@.len(),
    ensures
        match r {
            Ok(()) => sp_lit(buf@, *old(pos) as int, lit_obj_open()) && *final(pos) == *old(pos)
                + lit_obj_open().len() && *final(pos) <= buf@.len(),
            Err(e) => !sp_lit(buf@, *old(pos) as int, lit_obj_open()) && *final(pos) == *old(pos) && e
                == DecodeError::InvalidValue,
        },
{
    let mut v: Vec<u8> = Vec::new();
    v.push(0x7b);
    proof {
        assert(v@ =~= lit_obj_open());
    }
    expect_lit(buf, pos, v.as_slice())
}

/// The text `}`.
pub open spec fn lit_obj_close() -> Seq<u8> {
    seq![0x7du8]
}

/// Append the text `}`.
pub fn push_obj_close(buf: &mut Vec<u8>)
    ensures
        final(buf)@ == old(buf)@ + lit_obj_close(),
{
    buf.push(0x7d);
    assert(buf@ =~= old(buf)@ + lit_obj_close());
}

/// Expect the text `}` at `*pos`.
pub fn expect_obj_close(buf: &[u8], pos: &mut usize) -> (r: Result<(), DecodeError>)
    requires
        *old(pos) <= buf@.len(),
    ensures
        match r {
            Ok(()) => sp_lit(buf@, *old(pos) as int, lit_obj_close()) && *final(pos) == *old(pos)
                + lit_obj_close().len() && *final(pos) <= buf@.len(),
            Err(e) => !sp_lit(buf@, *old(pos) as int, lit_obj_close()) && *final(pos) == *old(pos) && e
                == DecodeError::InvalidValue,
        },
{
    let mut v: Vec<u8> = Vec::new();
    v.push(0x7d);
    proof {
        assert(v@ =~= lit_obj_close());
    }
    expect_lit(buf, pos, v.as_slice())
}

/// The text `,`.
pub open spec fn lit_comma() -> Seq<u8> {
    seq![0x2cu8]
}

/// Append the text `,`.
pub fn push_comma(buf: &mut Vec<u8>)
    ensures
        final(buf)@ == old(buf)@ + lit_comma(),
{
    buf.push(0x2c);
    assert(buf@ =~= old(buf)@ + lit_comma());
}

/// Expect the text `,` at `*pos`.
pub fn expect_comma(buf: &[u8], pos: &mut usize) -> (r: Result<(), DecodeError>)
    requires
        *old(pos) <= buf@.len(),
    ensures
        match r {
            Ok(()) => sp_lit(buf@, *old(pos) as int, lit_comma()) && *final(pos) == *old(pos)
                + lit_comma().len() && *final(pos) <= buf@.len(),
            Err(e) => !sp_lit(buf@, *old(pos) as int, lit_comma()) && *final(pos) == *old(pos) && e
                == DecodeError::InvalidValue,
        },
{
    let mut v: Vec<u8> = Vec::new();
    v.push(0x2c);
    proof {
        assert(v@ =~= lit_comma());
    }
    expect_lit(buf, pos, v.as_slice())
}

/// The text `:`.
pub open spec fn lit_colon() -> Seq<u8> {
    seq![0x3au8]
}

/// Append the text `:`.
pub fn push_colon(buf: &mut Vec<u8>)
    ensures
        final(buf)@ == old(buf)@ + lit_colon(),
{
    buf.push(0x3a);
    assert(buf@ =~= old(buf)@ + lit_colon());
}

/// Expect the text `:` at `*pos`.
pub fn expect_colon(buf: &[u8], pos: &mut usize) -> (r: Result<(), DecodeError>)
    requires
        *old(pos) <= buf@.len(),
    ensures
        match r {
            Ok(()) => sp_lit(buf@, *old(pos) as int, lit_colon()) && *final(pos) == *old(pos)
                + lit_colon().len() && *final(pos) <= buf@.len(),
            Err(e) => !sp_lit(buf@, *old(pos) as int, lit_colon()) && *final(pos) == *old(pos) && e
                == DecodeError::InvalidValue,
        },
{
    let mut v: Vec<u8> = Vec::new();
    v.push(0x3a);
    proof {
        assert(v@ =~= lit_colon());
    }
    expect_lit(buf, pos, v.as_slice())
}

} // verus!
