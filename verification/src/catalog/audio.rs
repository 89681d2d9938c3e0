//! Audio renditions: decoder configuration and the name-keyed rendition
//! map.

use vstd::prelude::*;

use crate::catalog::json::{
    all_plain, decode_opt_dec, decode_opt_hexstr, lemma_opt_dec_round_trip,
    lemma_opt_hexstr_round_trip, sp_jstr_body, sp_opt_dec, sp_opt_hexstr, spec_opt_dec,
    spec_opt_hexstr,
};
use crate::catalog::text::{
    expect_cfg_bitrate, expect_cfg_coded_height, expect_cfg_coded_width, expect_cfg_container,
    expect_cfg_description, expect_cfg_framerate, expect_cfg_jitter, expect_cfg_open,
    expect_obj_close, expect_obj_open, lit_cfg_bitrate, lit_cfg_coded_height, lit_cfg_coded_width,
    lit_cfg_container, lit_cfg_description, lit_cfg_framerate, lit_cfg_jitter, lit_cfg_open,
    lit_comma, lit_obj_close, lit_obj_open, lit_quote, push_cfg_bitrate, push_cfg_coded_height,
    push_cfg_coded_width, push_cfg_container, push_cfg_description, push_cfg_framerate,
    push_cfg_jitter, push_cfg_open, push_comma, push_obj_close, push_obj_open, push_quote,
};
use crate::catalog::Container;
use crate::coding::bytes_at;
use crate::error::DecodeError;

verus! {

broadcast use vstd::utf8::encode_utf8_decode_utf8;

/// The decoder configuration of one audio rendition.
#[derive(Clone, Debug, PartialEq, Eq)]
pub struct AudioConfig {
    pub codec: String,
    pub sample_rate: u64,
    pub channel_count: u64,
    pub bitrate: Option<u64>,
    pub description: Option<Vec<u8>>,
    pub container: Container,
    pub jitter: Option<u64>,
}

/// The mathematical shape of a video configuration.
pub open spec fn audio_config_model(c: AudioConfig) -> (Seq<char>, u64, u64, Option<u64>, Option<Seq<u8>>, Container, Option<u64>) {
    (
        c.codec@,
        c.sample_rate,
        c.channel_count,
        c.bitrate,
        match c.description {
            Some(d) => Some(d@),
            None => None,
        },
        c.container,
        c.jitter,
    )
}

impl AudioConfig {
    /// The codec string can stand unescaped in JSON.
    pub open spec fn wf(self) -> bool {
        all_plain(vstd::utf8::encode_utf8(self.codec@))
    }

    /// The description as a mathematical option.
    pub open spec fn spec_description(self) -> Option<Seq<u8>> {
        match self.description {
            Some(d) => Some(d@),
            None => None,
        }
    }

    /// The canonical JSON text of this configuration.
    pub open spec fn spec_ser(self) -> Seq<u8> {
        lit_cfg_open() + vstd::utf8::encode_utf8(self.codec@) + lit_quote()
            + crate::catalog::text::lit_aud_sample_rate() + crate::catalog::json::spec_dec(
            self.sample_rate,
        ) + crate::catalog::text::lit_aud_channels() + crate::catalog::json::spec_dec(
            self.channel_count,
        ) + lit_cfg_bitrate() + spec_opt_dec(self.bitrate) + lit_cfg_description() + spec_opt_hexstr(
            self.spec_description(),
        ) + lit_cfg_container() + self.container.spec_ser() + lit_cfg_jitter() + spec_opt_dec(
            self.jitter,
        ) + lit_obj_close()
    }

    /// Append the canonical JSON text of this configuration.
    pub fn serialize(&self, buf: &mut Vec<u8>)
        requires
            self.wf(),
        ensures
            final(buf)@ == old(buf)@ + self.spec_ser(),
    {
        push_cfg_open(buf);
        crate::catalog::json::encode_lit(buf, self.codec.as_str().as_bytes());
        push_quote(buf);
        crate::catalog::text::push_aud_sample_rate(buf);
        crate::catalog::json::encode_dec(buf, self.sample_rate);
        crate::catalog::text::push_aud_channels(buf);
        crate::catalog::json::encode_dec(buf, self.channel_count);
        push_cfg_bitrate(buf);
        crate::catalog::json::encode_opt_dec(buf, self.bitrate);
        push_cfg_description(buf);
        crate::catalog::json::encode_opt_hexstr(buf, &self.description);
        push_cfg_container(buf);
        self.container.serialize(buf);
        push_cfg_jitter(buf);
        crate::catalog::json::encode_opt_dec(buf, self.jitter);
        push_obj_close(buf);
        assert(buf@ =~= old(buf)@ + self.spec_ser());
    }

    /// Parse a configuration at cursor `i`: the fixed field layout of
    /// the canonical text.
    pub open spec fn sp_parse(s: Seq<u8>, i: int) -> Result<
        ((Seq<u8>, u64, u64, Option<u64>, Option<Seq<u8>>, Container, Option<u64>), int),
        DecodeError,
    > {
        if !bytes_at(s, i, lit_cfg_open()) {
            Err(DecodeError::InvalidValue)
        } else {
            match sp_jstr_body(s, i + lit_cfg_open().len()) {
                Err(e) => Err(e),
                Ok((codec, j)) => {
                    if !vstd::utf8::valid_utf8(codec) {
                        Err(DecodeError::InvalidValue)
                    } else if !bytes_at(s, j, crate::catalog::text::lit_aud_sample_rate()) {
                        Err(DecodeError::InvalidValue)
                    } else {
                        match crate::catalog::json::sp_dec(
                            s,
                            j + crate::catalog::text::lit_aud_sample_rate().len(),
                        ) {
                            Err(e) => Err(e),
                            Ok((sample_rate, j2)) => {
                                if !bytes_at(s, j2, crate::catalog::text::lit_aud_channels()) {
                                    Err(DecodeError::InvalidValue)
                                } else {
                                    match crate::catalog::json::sp_dec(
                                        s,
                                        j2 + crate::catalog::text::lit_aud_channels().len(),
                                    ) {
                                        Err(e) => Err(e),
                                        Ok((channel_count, j3)) => {
                                            if !bytes_at(s, j3, lit_cfg_bitrate()) {
                                                Err(DecodeError::InvalidValue)
                                            } else {
                                                match sp_opt_dec(s, j3 + lit_cfg_bitrate().len()) {
                                                    Err(e) => Err(e),
                                                    Ok((bitrate, j4)) => Self::sp_parse_tail(
                                                        s,
                                                        j4,
                                                        codec,
                                                        sample_rate,
                                                        channel_count,
                                                        bitrate,
                                                    ),
                                                }
                                            }
                                        },
                                    }
                                }
                            },
                        }
                    }
                },
            }
        }
    }

    /// The second half of the fixed field layout.
    pub open spec fn sp_parse_tail(
        s: Seq<u8>,
        i: int,
        codec: Seq<u8>,
        sample_rate: u64,
        channel_count: u64,
        bitrate: Option<u64>,
    ) -> Result<
        ((Seq<u8>, u64, u64, Option<u64>, Option<Seq<u8>>, Container, Option<u64>), int),
        DecodeError,
    > {
        if !bytes_at(s, i, lit_cfg_description()) {
            Err(DecodeError::InvalidValue)
        } else {
            match sp_opt_hexstr(s, i + lit_cfg_description().len()) {
                Err(e) => Err(e),
                Ok((description, j)) => {
                    if !bytes_at(s, j, lit_cfg_container()) {
                        Err(DecodeError::InvalidValue)
                    } else {
                        match Container::sp_parse(s, j + lit_cfg_container().len()) {
                            Err(e) => Err(e),
                            Ok((container, j2)) => {
                                if !bytes_at(s, j2, lit_cfg_jitter()) {
                                    Err(DecodeError::InvalidValue)
                                } else {
                                    match sp_opt_dec(s, j2 + lit_cfg_jitter().len()) {
                                        Err(e) => Err(e),
                                        Ok((jitter, j3)) => {
                                            if !bytes_at(s, j3, lit_obj_close()) {
                                                Err(DecodeError::InvalidValue)
                                            } else {
                                                Ok((
                                                    (
                                                        codec,
                                                        sample_rate,
                                                        channel_count,
                                                        bitrate,
                                                        description,
                                                        container,
                                                        jitter,
                                                    ),
                                                    j3 + 1,
                                                ))
                                            }
                                        },
                                    }
                                }
                            },
                        }
                    }
                },
            }
        }
    }

    /// Read a configuration at `*pos`.
    pub fn parse(buf: &[u8], pos: &mut usize) -> (r: Result<AudioConfig, DecodeError>)
        requires
            *old(pos) <= buf@.len(),
        ensures
            match r {
                Ok(v) => Self::sp_parse(buf@, *old(pos) as int) matches Ok(m) && m.1
                    == *final(pos) as int && m.0 == (
                    vstd::utf8::encode_utf8(v.codec@),
                    v.sample_rate,
                    v.channel_count,
                    v.bitrate,
                    v.spec_description(),
                    v.container,
                    v.jitter,
                ) && *old(pos) <= *final(pos) <= buf@.len(),
                Err(e) => Self::sp_parse(buf@, *old(pos) as int) == Err::<
                    ((Seq<u8>, u64, u64, Option<u64>, Option<Seq<u8>>, Container, Option<u64>), int),
                    DecodeError,
                >(e) && *final(pos) == *old(pos),
            },
    {
        let start = *pos;
        match expect_cfg_open(buf, pos) {
            Ok(()) => {},
            Err(e) => {
                return Err(e);
            },
        }
        let codec_bytes = match audio_jstr_body(buf, pos) {
            Ok(v) => v,
            Err(e) => {
                *pos = start;
                return Err(e);
            },
        };
        let codec = match crate::catalog::json::bytes_to_string(codec_bytes) {
            Some(st) => st,
            None => {
                *pos = start;
                return Err(DecodeError::InvalidValue);
            },
        };
        match crate::catalog::text::expect_aud_sample_rate(buf, pos) {
            Ok(()) => {},
            Err(e) => {
                *pos = start;
                return Err(e);
            },
        }
        let sample_rate = match crate::catalog::json::decode_dec(buf, pos) {
            Ok(v) => v,
            Err(e) => {
                *pos = start;
                return Err(e);
            },
        };
        match crate::catalog::text::expect_aud_channels(buf, pos) {
            Ok(()) => {},
            Err(e) => {
                *pos = start;
                return Err(e);
            },
        }
        let channel_count = match crate::catalog::json::decode_dec(buf, pos) {
            Ok(v) => v,
            Err(e) => {
                *pos = start;
                return Err(e);
            },
        };
        match expect_cfg_bitrate(buf, pos) {
            Ok(()) => {},
            Err(e) => {
                *pos = start;
                return Err(e);
            },
        }
        let bitrate = match decode_opt_dec(buf, pos) {
            Ok(v) => v,
            Err(e) => {
                *pos = start;
                return Err(e);
            },
        };
        match expect_cfg_description(buf, pos) {
            Ok(()) => {},
            Err(e) => {
                *pos = start;
                return Err(e);
            },
        }
        let description = match decode_opt_hexstr(buf, pos) {
            Ok(v) => v,
            Err(e) => {
                *pos = start;
                return Err(e);
            },
        };
        match expect_cfg_container(buf, pos) {
            Ok(()) => {},
            Err(e) => {
                *pos = start;
                return Err(e);
            },
        }
        let container = match Container::parse(buf, pos) {
            Ok(v) => v,
            Err(e) => {
                *pos = start;
                return Err(e);
            },
        };
        match expect_cfg_jitter(buf, pos) {
            Ok(()) => {},
            Err(e) => {
                *pos = start;
                return Err(e);
            },
        }
        let jitter = match decode_opt_dec(buf, pos) {
            Ok(v) => v,
            Err(e) => {
                *pos = start;
                return Err(e);
            },
        };
        match expect_obj_close(buf, pos) {
            Ok(()) => {},
            Err(e) => {
                *pos = start;
                return Err(e);
            },
        }
        Ok(AudioConfig { codec, sample_rate, channel_count, bitrate, description, container, jitter })
    }
}

/// Read a string body (bytes up to an unescaped quote) at `*pos`.
fn audio_jstr_body(buf: &[u8], pos: &mut usize) -> (r: Result<Vec<u8>, DecodeError>)
    requires
        *old(pos) <= buf@.len(),
    ensures
        match r {
            Ok(v) => sp_jstr_body(buf@, *old(pos) as int) == Ok::<(Seq<u8>, int), DecodeError>((
                v@,
                *final(pos) as int,
            )) && *old(pos) <= *final(pos) <= buf@.len() && all_plain(v@),
            Err(e) => sp_jstr_body(buf@, *old(pos) as int) == Err::<(Seq<u8>, int), DecodeError>(e)
                && *final(pos) == *old(pos),
        },
{
    let start = *pos;
    let mut i = *pos;
    let mut out: Vec<u8> = Vec::new();
    loop
        invariant
            start <= i <= buf@.len(),
            start == *old(pos),
            *pos == start,
            all_plain(out@),
            sp_jstr_body(buf@, start as int) == (match sp_jstr_body(buf@, i as int) {
                Ok((rest, j)) => Ok::<(Seq<u8>, int), DecodeError>((out@ + rest, j)),
                Err(e) => Err(e),
            }),
        decreases buf@.len() - i,
    {
        if i >= buf.len() {
            return Err(DecodeError::Short);
        }
        let b = buf[i];
        if b == 0x22 {
            i = i + 1;
            *pos = i;
            proof {
                assert(out@ + Seq::<u8>::empty() =~= out@);
            }
            return Ok(out);
        }
        if !(b >= 0x20 && b != 0x22 && b != 0x5c) {
            return Err(DecodeError::InvalidValue);
        }
        let ghost pre = out@;
        out.push(b);
        i = i + 1;
        proof {
            assert(out@ =~= pre.push(b));
            match sp_jstr_body(buf@, i as int) {
                Ok((rest, j)) => {
                    assert(pre + (seq![b] + rest) =~= pre.push(b) + rest);
                },
                Err(_) => {},
            }
        }
    }
}

/// Reading back a written configuration yields its model.
#[verifier::rlimit(100)]
pub proof fn lemma_audio_config_round_trip(s: Seq<u8>, i: int, c: AudioConfig)
    requires
        c.wf(),
        bytes_at(s, i, c.spec_ser()),
    ensures
        AudioConfig::sp_parse(s, i) == Ok::<
            ((Seq<u8>, u64, u64, Option<u64>, Option<Seq<u8>>, Container, Option<u64>), int),
            DecodeError,
        >((
            (
                vstd::utf8::encode_utf8(c.codec@),
                c.sample_rate,
                c.channel_count,
                c.bitrate,
                c.spec_description(),
                c.container,
                c.jitter,
            ),
            i + c.spec_ser().len(),
        )),
{
    let cb = vstd::utf8::encode_utf8(c.codec@);
    let a1 = lit_cfg_open() + cb;
    let a2 = a1 + lit_quote();
    let a3 = a2 + crate::catalog::text::lit_aud_sample_rate();
    let a4 = a3 + crate::catalog::json::spec_dec(c.sample_rate);
    let a5 = a4 + crate::catalog::text::lit_aud_channels();
    let a6 = a5 + crate::catalog::json::spec_dec(c.channel_count);
    let a7 = a6 + lit_cfg_bitrate();
    let a8 = a7 + spec_opt_dec(c.bitrate);
    let a9 = a8 + lit_cfg_description();
    let a10 = a9 + spec_opt_hexstr(c.spec_description());
    let a11 = a10 + lit_cfg_container();
    let a12 = a11 + c.container.spec_ser();
    let a13 = a12 + lit_cfg_jitter();
    let a14 = a13 + spec_opt_dec(c.jitter);
    let a15 = a14 + lit_obj_close();
    assert(c.spec_ser() == a15);
    crate::catalog::video::lemma_bytes_at_split(s, i, a14, lit_obj_close());
    crate::catalog::video::lemma_bytes_at_split(s, i, a13, spec_opt_dec(c.jitter));
    crate::catalog::video::lemma_bytes_at_split(s, i, a12, lit_cfg_jitter());
    crate::catalog::video::lemma_bytes_at_split(s, i, a11, c.container.spec_ser());
    crate::catalog::video::lemma_bytes_at_split(s, i, a10, lit_cfg_container());
    crate::catalog::video::lemma_bytes_at_split(s, i, a9, spec_opt_hexstr(c.spec_description()));
    crate::catalog::video::lemma_bytes_at_split(s, i, a8, lit_cfg_description());
    crate::catalog::video::lemma_bytes_at_split(s, i, a7, spec_opt_dec(c.bitrate));
    crate::catalog::video::lemma_bytes_at_split(s, i, a6, lit_cfg_bitrate());
    crate::catalog::video::lemma_bytes_at_split(
        s,
        i,
        a5,
        crate::catalog::json::spec_dec(c.channel_count),
    );
    crate::catalog::video::lemma_bytes_at_split(s, i, a4, crate::catalog::text::lit_aud_channels());
    crate::catalog::video::lemma_bytes_at_split(
        s,
        i,
        a3,
        crate::catalog::json::spec_dec(c.sample_rate),
    );
    crate::catalog::video::lemma_bytes_at_split(s, i, a2, crate::catalog::text::lit_aud_sample_rate());
    crate::catalog::video::lemma_bytes_at_split(s, i, a1, lit_quote());
    crate::catalog::video::lemma_bytes_at_split(s, i, lit_cfg_open(), cb);
    let o1 = lit_cfg_open().len() as int;
    assert forall|m: int| 0 <= m < cb.len() implies s[(i + o1) + (m - 0)] == #[trigger] cb[m] by {
        assert(s[i + o1 + m] == cb[m]);
    };
    assert(s[(i + o1) + (cb.len() - 0)] == 0x22) by {
        assert(s[i + a1.len()] == lit_quote()[0]);
    };
    crate::catalog::json::lemma_jstr_body_round_trip_pub(s, i + o1, cb, 0);
    assert(cb.skip(0) =~= cb);
    assert(vstd::utf8::valid_utf8(cb)) by {
        vstd::utf8::encode_utf8_valid_utf8(c.codec@);
    };
    assert(s[i + a4.len()] == crate::catalog::text::lit_aud_channels()[0]);
    crate::catalog::json::lemma_dec_round_trip(s, i + a3.len(), c.sample_rate);
    assert(s[i + a6.len()] == lit_cfg_bitrate()[0]);
    crate::catalog::json::lemma_dec_round_trip(s, i + a5.len(), c.channel_count);
    assert(s[i + a8.len()] == lit_cfg_description()[0]);
    lemma_opt_dec_round_trip(s, i + a7.len(), c.bitrate);
    lemma_opt_hexstr_round_trip(s, i + a9.len(), c.spec_description());
    assert(s[i + a12.len()] == lit_cfg_jitter()[0]);
    crate::catalog::lemma_container_round_trip(s, i + a11.len(), c.container);
    assert(s[i + a14.len()] == lit_obj_close()[0]);
    lemma_opt_dec_round_trip(s, i + a13.len(), c.jitter);
}

// ---------------------------------------------------------------------------
// The rendition map
// ---------------------------------------------------------------------------

/// The canonical text of one rendition entry: the quoted name, a colon,
/// and the configuration.
pub open spec fn spec_audio_ent(name: Seq<char>, cfg: AudioConfig) -> Seq<u8> {
    lit_quote() + vstd::utf8::encode_utf8(name) + lit_quote() + crate::catalog::text::lit_colon() + cfg.spec_ser()
}

/// The canonical text of the entries from index `k` on, each preceded by
/// a comma.
pub open spec fn spec_audio_map_tail(rs: Seq<(String, AudioConfig)>, k: int) -> Seq<u8>
    decreases rs.len() - k,
{
    if k < 0 || k >= rs.len() {
        Seq::empty()
    } else {
        lit_comma() + spec_audio_ent(rs[k].0@, rs[k].1) + spec_audio_map_tail(rs, k + 1)
    }
}

/// The canonical text of a rendition map.
pub open spec fn spec_audio_map(rs: Seq<(String, AudioConfig)>) -> Seq<u8> {
    lit_obj_open() + (if rs.len() == 0 {
        Seq::<u8>::empty()
    } else {
        spec_audio_ent(rs[0].0@, rs[0].1) + spec_audio_map_tail(rs, 1)
    }) + lit_obj_close()
}

/// Every name and configuration can stand in the canonical text.
pub open spec fn audio_map_wf(rs: Seq<(String, AudioConfig)>) -> bool {
    forall|k: int|
        0 <= k < rs.len() ==> all_plain(
            vstd::utf8::encode_utf8((#[trigger] rs[k]).0@),
        ) && rs[k].1.wf()
}

/// The canonical text of the first `k` entries, with their separators.
pub open spec fn spec_audio_map_prefix(rs: Seq<(String, AudioConfig)>, k: int) -> Seq<u8>
    decreases k,
{
    if k <= 0 || k > rs.len() {
        Seq::empty()
    } else if k == 1 {
        spec_audio_ent(rs[0].0@, rs[0].1)
    } else {
        spec_audio_map_prefix(rs, k - 1) + lit_comma() + spec_audio_ent(rs[k - 1].0@, rs[k - 1].1)
    }
}

/// The first `k` entries and the rest make all the entries.
proof fn lemma_audio_map_prefix_tail(rs: Seq<(String, AudioConfig)>, k: int)
    requires
        1 <= k <= rs.len(),
    ensures
        spec_audio_map_prefix(rs, k) + spec_audio_map_tail(rs, k) == spec_audio_ent(rs[0].0@, rs[0].1)
            + spec_audio_map_tail(rs, 1),
    decreases k,
{
    if k == 1 {
        assert(spec_audio_map_prefix(rs, 1) + spec_audio_map_tail(rs, 1) =~= spec_audio_ent(
            rs[0].0@,
            rs[0].1,
        ) + spec_audio_map_tail(rs, 1));
    } else {
        lemma_audio_map_prefix_tail(rs, k - 1);
        assert(spec_audio_map_tail(rs, k - 1) == lit_comma() + spec_audio_ent(rs[k - 1].0@, rs[k - 1].1)
            + spec_audio_map_tail(rs, k));
        assert(spec_audio_map_prefix(rs, k) + spec_audio_map_tail(rs, k) =~= spec_audio_map_prefix(
            rs,
            k - 1,
        ) + spec_audio_map_tail(rs, k - 1));
    }
}

/// The audio renditions of a broadcast: a map from rendition name to
/// decoder configuration.
#[derive(Clone, Debug, PartialEq, Eq)]
pub struct Audio {
    pub renditions: Vec<(String, AudioConfig)>,
}

impl Audio {
    /// Every entry can stand in the canonical text.
    pub open spec fn wf(self) -> bool {
        audio_map_wf(self.renditions@)
    }

    /// An empty rendition map.
    pub fn new() -> (r: Audio)
        ensures
            r.renditions@ == Seq::<(String, AudioConfig)>::empty(),
            r.wf(),
    {
        let r = Audio { renditions: Vec::new() };
        proof {
            assert(r.renditions@ =~= Seq::<(String, AudioConfig)>::empty());
        }
        r
    }

    /// The canonical JSON text: `renditions` holding the map.
    pub open spec fn spec_ser(self) -> Seq<u8> {
        crate::catalog::text::lit_renditions_open() + spec_audio_map(self.renditions@)
            + lit_obj_close()
    }

    /// Append the canonical JSON text.
    #[verifier::rlimit(100)]
    #[verifier::spinoff_prover]
    pub fn serialize(&self, buf: &mut Vec<u8>)
        requires
            self.wf(),
        ensures
            final(buf)@ == old(buf)@ + self.spec_ser(),
    {
        crate::catalog::text::push_renditions_open(buf);
        push_obj_open(buf);
        let n = self.renditions.len();
        let ghost base = buf@;
        let mut k: usize = 0;
        while k < n
            invariant
                k <= n,
                n == self.renditions@.len(),
                self.wf(),
                buf@ == base + spec_audio_map_prefix(self.renditions@, k as int),
            decreases n - k,
        {
            if k > 0 {
                push_comma(buf);
            }
            push_quote(buf);
            crate::catalog::json::encode_lit(buf, self.renditions[k].0.as_str().as_bytes());
            push_quote(buf);
            crate::catalog::text::push_colon(buf);
            let cfg = &self.renditions[k].1;
            proof {
                assert(self.renditions@[k as int].1.wf());
            }
            cfg.serialize(buf);
            k = k + 1;
            proof {
                assert(buf@ =~= base + spec_audio_map_prefix(self.renditions@, k as int));
            }
        }
        push_obj_close(buf);
        push_obj_close(buf);
        proof {
            if n > 0 {
                lemma_audio_map_prefix_tail(self.renditions@, n as int);
                assert(spec_audio_map_tail(self.renditions@, n as int) =~= Seq::<u8>::empty());
                assert(spec_audio_map_prefix(self.renditions@, n as int) =~= spec_audio_ent(
                    self.renditions@[0].0@,
                    self.renditions@[0].1,
                ) + spec_audio_map_tail(self.renditions@, 1));
            }
            assert(buf@ =~= old(buf)@ + self.spec_ser());
        }
    }

    /// Parse the entries of a rendition map at cursor `i`, after the
    /// opening brace and first entry's start: at most `n` entries.
    pub open spec fn sp_map_items(s: Seq<u8>, i: int, n: nat, acc: Seq<(Seq<u8>, (
        Seq<u8>,
        u64,
        u64,
        Option<u64>,
        Option<Seq<u8>>,
        Container,
        Option<u64>,
    ))>) -> Result<(Seq<(Seq<u8>, (
        Seq<u8>,
        u64,
        u64,
        Option<u64>,
        Option<Seq<u8>>,
        Container,
        Option<u64>,
    ))>, int), DecodeError>
        decreases n,
    {
        if n == 0 {
            Err(DecodeError::TooMany)
        } else if !(0 <= i < s.len() && s[i] == 0x22) {
            Err(DecodeError::InvalidValue)
        } else {
            match sp_jstr_body(s, i + 1) {
                Err(e) => Err(e),
                Ok((name, j)) => {
                    if !vstd::utf8::valid_utf8(name) {
                        Err(DecodeError::InvalidValue)
                    } else if !bytes_at(s, j, crate::catalog::text::lit_colon()) {
                        Err(DecodeError::InvalidValue)
                    } else {
                        match AudioConfig::sp_parse(s, j + 1) {
                            Err(e) => Err(e),
                            Ok((cfg, j2)) => {
                                let acc2 = acc.push((name, cfg));
                                if 0 <= j2 < s.len() && s[j2] == 0x2c {
                                    Self::sp_map_items(s, j2 + 1, (n - 1) as nat, acc2)
                                } else if 0 <= j2 < s.len() && s[j2] == 0x7d {
                                    Ok((acc2, j2 + 1))
                                } else {
                                    Err(DecodeError::InvalidValue)
                                }
                            },
                        }
                    }
                },
            }
        }
    }

    /// Parse a `renditions` object at cursor `i`.
    pub open spec fn sp_parse(s: Seq<u8>, i: int) -> Result<(Seq<(Seq<u8>, (
        Seq<u8>,
        u64,
        u64,
        Option<u64>,
        Option<Seq<u8>>,
        Container,
        Option<u64>,
    ))>, int), DecodeError> {
        if !bytes_at(s, i, crate::catalog::text::lit_renditions_open()) {
            Err(DecodeError::InvalidValue)
        } else {
            let j = i + crate::catalog::text::lit_renditions_open().len();
            if !bytes_at(s, j, lit_obj_open()) {
                Err(DecodeError::InvalidValue)
            } else if bytes_at(s, j + 1, lit_obj_close()) {
                if bytes_at(s, j + 2, lit_obj_close()) {
                    Ok((Seq::empty(), j + 3))
                } else {
                    Err(DecodeError::InvalidValue)
                }
            } else {
                match Self::sp_map_items(s, j + 1, (s.len() - j) as nat, Seq::empty()) {
                    Err(e) => Err(e),
                    Ok((entries, j2)) => {
                        if bytes_at(s, j2, lit_obj_close()) {
                            Ok((entries, j2 + 1))
                        } else {
                            Err(DecodeError::InvalidValue)
                        }
                    },
                }
            }
        }
    }

    /// Read a `renditions` object at `*pos`.
    #[verifier::rlimit(100)]
    #[verifier::spinoff_prover]
    pub fn parse(buf: &[u8], pos: &mut usize) -> (r: Result<Audio, DecodeError>)
        requires
            *old(pos) <= buf@.len(),
        ensures
            match r {
                Ok(v) => Self::sp_parse(buf@, *old(pos) as int) matches Ok(m) && m.1
                    == *final(pos) as int && m.0 == audio_entries_model(v.renditions@) && *old(pos)
                    <= *final(pos) <= buf@.len(),
                Err(e) => Self::sp_parse(buf@, *old(pos) as int) matches Err(e2) && e2 == e
                    && *final(pos) == *old(pos),
            },
    {
        let start = *pos;
        match crate::catalog::text::expect_renditions_open(buf, pos) {
            Ok(()) => {},
            Err(e) => {
                return Err(e);
            },
        }
        match expect_obj_open(buf, pos) {
            Ok(()) => {},
            Err(e) => {
                *pos = start;
                return Err(e);
            },
        }
        let ghost j0: int = *pos as int;
        let mut renditions: Vec<(String, AudioConfig)> = Vec::new();
        // an empty map closes at once
        proof {
            if j0 + 1 <= buf@.len() {
                assert(lit_obj_close()[0] == 0x7d);
            }
        }
        let here = *pos;
        if here < buf.len() && buf[here] == 0x7d {
            *pos = here + 1;
            match expect_obj_close(buf, pos) {
                Ok(()) => {},
                Err(e) => {
                    *pos = start;
                    return Err(e);
                },
            }
            let r = Audio { renditions };
            proof {
                assert(audio_entries_model(r.renditions@) =~= Seq::<(Seq<u8>, (Seq<u8>, u64, u64, Option<u64>, Option<Seq<u8>>, Container, Option<u64>))>::empty());
                assert(bytes_at(buf@, j0, lit_obj_open().push(0x7du8).drop_first()));
            }
            return Ok(r);
        }
        proof {
            assert(!bytes_at(buf@, j0, lit_obj_close())) by {
                if bytes_at(buf@, j0, lit_obj_close()) {
                    assert(buf@[j0 + 0] == lit_obj_close()[0]);
                }
            };
        }
        let ghost n0: nat = (buf@.len() - j0 + 1) as nat;
        let ghost mut fuel: nat = n0;
        proof {
            assert(audio_entries_model(renditions@) =~= Seq::<(Seq<u8>, (Seq<u8>, u64, u64, Option<u64>, Option<Seq<u8>>, Container, Option<u64>))>::empty());
        }
        loop
            invariant
                start == *old(pos),
                start <= buf@.len(),
                j0 <= *pos as int <= buf@.len(),
                n0 == buf@.len() - j0 + 1,
                fuel > 0,
                fuel + (*pos as int - j0) >= n0,
                fuel <= n0,
                bytes_at(buf@, start as int, crate::catalog::text::lit_renditions_open()),
                bytes_at(
                    buf@,
                    start as int + crate::catalog::text::lit_renditions_open().len(),
                    lit_obj_open(),
                ),
                j0 == start as int + crate::catalog::text::lit_renditions_open().len()
                    + lit_obj_open().len(),
                !bytes_at(buf@, j0, lit_obj_close()),
                Self::sp_map_items(buf@, j0, n0, Seq::empty()) == Self::sp_map_items(
                    buf@,
                    *pos as int,
                    fuel,
                    audio_entries_model(renditions@),
                ),
            decreases fuel,
        {
            let ghost pre_pos: int = *pos as int;
            let ghost pre_acc = audio_entries_model(renditions@);
            match crate::catalog::text::expect_quote(buf, pos) {
                Ok(()) => {},
                Err(e) => {
                    *pos = start;
                    return Err(DecodeError::InvalidValue);
                },
            }
            proof {
                assert(buf@[pre_pos + 0] == crate::catalog::text::lit_quote()[0]);
            }
            let name_bytes = match audio_jstr_body(buf, pos) {
                Ok(v) => v,
                Err(e) => {
                    proof {
                        assert(Self::sp_map_items(buf@, pre_pos, fuel, pre_acc) == Err::<
                            (Seq<(Seq<u8>, (Seq<u8>, u64, u64, Option<u64>, Option<Seq<u8>>, Container, Option<u64>))>, int),
                            DecodeError,
                        >(e));
                    }
                    *pos = start;
                    return Err(e);
                },
            };
            let name = match crate::catalog::json::bytes_to_string(name_bytes) {
                Some(st) => st,
                None => {
                    proof {
                        assert(Self::sp_map_items(buf@, pre_pos, fuel, pre_acc) == Err::<
                            (Seq<(Seq<u8>, (Seq<u8>, u64, u64, Option<u64>, Option<Seq<u8>>, Container, Option<u64>))>, int),
                            DecodeError,
                        >(DecodeError::InvalidValue));
                    }
                    *pos = start;
                    return Err(DecodeError::InvalidValue);
                },
            };
            match crate::catalog::text::expect_colon(buf, pos) {
                Ok(()) => {},
                Err(e) => {
                    proof {
                        assert(!bytes_at(buf@, *pos as int, crate::catalog::text::lit_colon()));
                        assert(Self::sp_map_items(buf@, pre_pos, fuel, pre_acc) == Err::<
                            (Seq<(Seq<u8>, (Seq<u8>, u64, u64, Option<u64>, Option<Seq<u8>>, Container, Option<u64>))>, int),
                            DecodeError,
                        >(DecodeError::InvalidValue));
                    }
                    *pos = start;
                    return Err(DecodeError::InvalidValue);
                },
            }
            let cfg = match AudioConfig::parse(buf, pos) {
                Ok(v) => v,
                Err(e) => {
                    proof {
                        assert(Self::sp_map_items(buf@, pre_pos, fuel, pre_acc) == Err::<
                            (Seq<(Seq<u8>, (Seq<u8>, u64, u64, Option<u64>, Option<Seq<u8>>, Container, Option<u64>))>, int),
                            DecodeError,
                        >(e));
                    }
                    *pos = start;
                    return Err(e);
                },
            };
            let ghost pre_push = renditions@;
            renditions.push((name, cfg));
            proof {
                assert(audio_entries_model(renditions@) =~= pre_acc.push((
                    vstd::utf8::encode_utf8(renditions@.last().0@),
                    audio_wire_model(renditions@.last().1),
                )));
            }
            let here2 = *pos;
            if here2 < buf.len() && buf[here2] == 0x2c {
                *pos = here2 + 1;
                proof {
                    fuel = (fuel - 1) as nat;
                }
            } else if here2 < buf.len() && buf[here2] == 0x7d {
                *pos = here2 + 1;
                match expect_obj_close(buf, pos) {
                    Ok(()) => {},
                    Err(e) => {
                        *pos = start;
                        return Err(e);
                    },
                }
                return Ok(Audio { renditions });
            } else {
                *pos = start;
                return Err(DecodeError::InvalidValue);
            }
        }
    }
}

/// The mathematical shape of a configuration as the parser reports it.
pub open spec fn audio_wire_model(c: AudioConfig) -> (Seq<u8>, u64, u64, Option<u64>, Option<Seq<u8>>, Container, Option<u64>) {
    (
        vstd::utf8::encode_utf8(c.codec@),
        c.sample_rate,
        c.channel_count,
        c.bitrate,
        c.spec_description(),
        c.container,
        c.jitter,
    )
}

/// The mathematical shape of a rendition list.
pub open spec fn audio_entries_model(rs: Seq<(String, AudioConfig)>) -> Seq<(Seq<u8>, (Seq<u8>, u64, u64, Option<u64>, Option<Seq<u8>>, Container, Option<u64>))> {
    rs.map_values(|e: (String, AudioConfig)| (vstd::utf8::encode_utf8(e.0@), audio_wire_model(e.1)))
}

/// Each remaining entry block is at least one byte long.
proof fn lemma_audio_tail_len(rs: Seq<(String, AudioConfig)>, k: int)
    requires
        0 <= k <= rs.len(),
    ensures
        spec_audio_map_tail(rs, k).len() >= rs.len() - k,
    decreases rs.len() - k,
{
    if k < rs.len() {
        lemma_audio_tail_len(rs, k + 1);
    }
}

/// Reading back the written entries from `k` on, followed by the map's
/// closing brace, yields their models.
#[verifier::rlimit(100)]
#[verifier::spinoff_prover]
proof fn lemma_audio_items_round_trip(
    s: Seq<u8>,
    i: int,
    rs: Seq<(String, AudioConfig)>,
    k: int,
    n: nat,
    acc: Seq<(Seq<u8>, (
        Seq<u8>,
        u64,
        u64,
        Option<u64>,
        Option<Seq<u8>>,
        Container,
        Option<u64>,
    ))>,
)
    requires
        audio_map_wf(rs),
        0 <= k < rs.len(),
        n >= rs.len() - k + 1,
        bytes_at(
            s,
            i,
            spec_audio_ent(rs[k].0@, rs[k].1) + spec_audio_map_tail(rs, k + 1) + lit_obj_close(),
        ),
    ensures
        Audio::sp_map_items(s, i, n, acc) == Ok::<
            (Seq<(Seq<u8>, (Seq<u8>, u64, u64, Option<u64>, Option<Seq<u8>>, Container, Option<u64>))>, int),
            DecodeError,
        >((
            acc + audio_entries_model(rs).skip(k),
            i + spec_audio_ent(rs[k].0@, rs[k].1).len() + spec_audio_map_tail(rs, k + 1).len() + 1,
        )),
    decreases rs.len() - k,
{
    let name = rs[k].0@;
    let nb = vstd::utf8::encode_utf8(name);
    let cfg = rs[k].1;
    let ent = spec_audio_ent(name, cfg);
    let tail = spec_audio_map_tail(rs, k + 1);
    let whole = ent + tail + lit_obj_close();
    // peel the entry into its pieces
    let a1 = lit_quote() + nb;
    let a2 = a1 + lit_quote();
    let a3 = a2 + crate::catalog::text::lit_colon();
    let a4 = a3 + cfg.spec_ser();
    assert(ent == a4);
    crate::catalog::video::lemma_bytes_at_split(s, i, ent + tail, lit_obj_close());
    crate::catalog::video::lemma_bytes_at_split(s, i, ent, tail);
    crate::catalog::video::lemma_bytes_at_split(s, i, a3, cfg.spec_ser());
    crate::catalog::video::lemma_bytes_at_split(s, i, a2, crate::catalog::text::lit_colon());
    crate::catalog::video::lemma_bytes_at_split(s, i, a1, lit_quote());
    crate::catalog::video::lemma_bytes_at_split(s, i, lit_quote(), nb);
    assert(s[i] == lit_quote()[0]);
    // the name body, then its closing quote
    assert forall|m: int| 0 <= m < nb.len() implies s[(i + 1) + (m - 0)] == #[trigger] nb[m] by {
        assert(s[i + 1 + m] == nb[m]);
    };
    assert(s[(i + 1) + (nb.len() - 0)] == 0x22) by {
        assert(s[i + a1.len()] == lit_quote()[0]);
    };
    assert(all_plain(nb));
    crate::catalog::json::lemma_jstr_body_round_trip_pub(s, i + 1, nb, 0);
    assert(nb.skip(0) =~= nb);
    assert(vstd::utf8::valid_utf8(nb)) by {
        vstd::utf8::encode_utf8_valid_utf8(name);
    };
    assert(cfg.wf());
    lemma_audio_config_round_trip(s, i + a3.len(), cfg);
    let j2 = i + a3.len() + cfg.spec_ser().len();
    assert(j2 == i + ent.len());
    let m_k = (nb, audio_wire_model(cfg));
    assert(audio_entries_model(rs)[k] == m_k);
    if k + 1 < rs.len() {
        let entnext = spec_audio_ent(rs[k + 1].0@, rs[k + 1].1);
        let tailnext = spec_audio_map_tail(rs, k + 2);
        assert(tail == lit_comma() + entnext + tailnext);
        assert(tail =~= lit_comma() + (entnext + tailnext));
        crate::catalog::video::lemma_bytes_at_split(s, j2, lit_comma(), entnext + tailnext);
        assert(s[j2] == 0x2c) by {
            assert(s[j2 + 0] == lit_comma()[0]);
        };
        assert(j2 < s.len());
        assert(j2 + 1 + (entnext + tailnext).len() == i + ent.len() + tail.len());
        crate::catalog::video::lemma_bytes_at_join(s, j2 + 1, entnext + tailnext, lit_obj_close());
        let rest_whole = entnext + tailnext + lit_obj_close();
        assert(rest_whole =~= (entnext + tailnext) + lit_obj_close());
        assert(bytes_at(s, j2 + 1, rest_whole));
        lemma_audio_items_round_trip(s, j2 + 1, rs, k + 1, (n - 1) as nat, acc.push(m_k));
        assert(acc.push(m_k) + audio_entries_model(rs).skip(k + 1) =~= acc + audio_entries_model(
            rs,
        ).skip(k));
        assert(tail.len() == 1 + spec_audio_ent(rs[k + 1].0@, rs[k + 1].1).len() + spec_audio_map_tail(
            rs,
            k + 2,
        ).len());
    } else {
        assert(tail =~= Seq::<u8>::empty());
        assert(s[j2] == 0x7d) by {
            assert(s[i + (ent.len() + 0)] == whole[ent.len() as int]);
            assert(whole[ent.len() as int] == lit_obj_close()[0]);
        };
        assert(j2 < s.len());
        assert(s[j2] != 0x2c);
        assert(acc.push(m_k) =~= acc + audio_entries_model(rs).skip(k)) by {
            assert(audio_entries_model(rs).skip(k).len() == 1);
            assert(audio_entries_model(rs).skip(k)[0] == m_k);
        };
    }
}

/// Reading back a written rendition map yields its models.
#[verifier::rlimit(100)]
#[verifier::spinoff_prover]
pub proof fn lemma_audio_round_trip(s: Seq<u8>, i: int, v: Audio)
    requires
        v.wf(),
        bytes_at(s, i, v.spec_ser()),
    ensures
        Audio::sp_parse(s, i) == Ok::<
            (Seq<(Seq<u8>, (Seq<u8>, u64, u64, Option<u64>, Option<Seq<u8>>, Container, Option<u64>))>, int),
            DecodeError,
        >((audio_entries_model(v.renditions@), i + v.spec_ser().len())),
{
    let rs = v.renditions@;
    let ro = crate::catalog::text::lit_renditions_open();
    let inner = spec_audio_map(rs);
    let b1 = ro + inner;
    assert(v.spec_ser() == b1 + lit_obj_close());
    crate::catalog::video::lemma_bytes_at_split(s, i, b1, lit_obj_close());
    crate::catalog::video::lemma_bytes_at_split(s, i, ro, inner);
    let j = i + ro.len();
    let mid = if rs.len() == 0 {
        Seq::<u8>::empty()
    } else {
        spec_audio_ent(rs[0].0@, rs[0].1) + spec_audio_map_tail(rs, 1)
    };
    assert(inner == lit_obj_open() + mid + lit_obj_close());
    crate::catalog::video::lemma_bytes_at_split(s, j, lit_obj_open() + mid, lit_obj_close());
    crate::catalog::video::lemma_bytes_at_split(s, j, lit_obj_open(), mid);
    if rs.len() == 0 {
        assert(bytes_at(s, j + 1, lit_obj_close()));
        assert(bytes_at(s, j + 2, lit_obj_close())) by {
            assert(s[i + b1.len() + 0] == lit_obj_close()[0]);
        };
        assert(audio_entries_model(rs) =~= Seq::<(Seq<u8>, (Seq<u8>, u64, u64, Option<u64>, Option<Seq<u8>>, Container, Option<u64>))>::empty());
    } else {
        assert(!bytes_at(s, j + 1, lit_obj_close())) by {
            if bytes_at(s, j + 1, lit_obj_close()) {
                assert(s[j + 1 + 0] == lit_obj_close()[0]);
                assert(s[j + 1] == mid[0]) by {
                    assert(s[j + (1 + 0)] == (lit_obj_open() + mid)[1int]);
                };
                assert(mid[0] == lit_quote()[0]);
            }
        };
        let whole_k = spec_audio_ent(rs[0].0@, rs[0].1) + spec_audio_map_tail(rs, 1) + lit_obj_close();
        assert(j + 1 + mid.len() == j + (lit_obj_open() + mid).len());
        crate::catalog::video::lemma_bytes_at_join(s, j + 1, mid, lit_obj_close());
        assert(whole_k =~= mid + lit_obj_close());
        assert(bytes_at(s, j + 1, whole_k));
        lemma_audio_tail_len(rs, 1);
        assert(s.len() - j >= rs.len() + 1) by {
            assert(i + v.spec_ser().len() <= s.len());
        };
        lemma_audio_items_round_trip(s, j + 1, rs, 0, (s.len() - j) as nat, Seq::empty());
        assert(Seq::<(Seq<u8>, (Seq<u8>, u64, u64, Option<u64>, Option<Seq<u8>>, Container, Option<u64>))>::empty() + audio_entries_model(rs).skip(0) =~= audio_entries_model(rs));
        let jend = j + 1 + spec_audio_ent(rs[0].0@, rs[0].1).len() + spec_audio_map_tail(rs, 1).len()
            + 1;
        assert(bytes_at(s, jend, lit_obj_close())) by {
            assert(s[i + (b1.len() + 0)] == lit_obj_close()[0]);
        };
    }
}

} // verus!
