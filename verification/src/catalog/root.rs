//! The catalog document: the video and audio renditions of a broadcast,
//! serialized as one canonical JSON text and republished whole on every
//! change.

use vstd::prelude::*;

use crate::catalog::audio::{audio_entries_model, Audio};
use crate::catalog::text::{
    expect_catalog_audio, expect_catalog_video, expect_obj_close, lit_catalog_audio,
    lit_catalog_video, lit_obj_close, push_catalog_audio, push_catalog_video, push_obj_close,
};
use crate::catalog::video::{
    lemma_bytes_at_split, video_entries_model, Video,
};
use crate::catalog::Container;
use crate::coding::bytes_at;
use crate::error::DecodeError;
use crate::model::track::{Track, TrackProducer};

verus! {

/// The catalog of a broadcast: its video and audio renditions.
#[derive(Clone, Debug, PartialEq, Eq)]
pub struct Catalog {
    pub video: Video,
    pub audio: Audio,
}

impl Catalog {
    /// The name of the track that carries the catalog.
    pub fn default_name() -> (r: &'static str)
        ensures
            r@ == "catalog.json"@,
    {
        "catalog.json"
    }

    /// The track that carries the catalog, at high priority.
    pub fn default_track() -> (r: Track)
        ensures
            r.name@ == "catalog.json"@,
            r.priority == 100,
    {
        let mut t = Track::new(string_from_str("catalog.json"));
        t.priority = 100;
        t
    }

    /// An empty catalog.
    pub fn new() -> (r: Catalog)
        ensures
            r.video.renditions@ == Seq::<(String, crate::catalog::video::VideoConfig)>::empty(),
            r.audio.renditions@ == Seq::<(String, crate::catalog::audio::AudioConfig)>::empty(),
            r.wf(),
    {
        Catalog { video: Video::new(), audio: Audio::new() }
    }

    /// Every name and codec can stand in the canonical text.
    pub open spec fn wf(self) -> bool {
        self.video.wf() && self.audio.wf()
    }

    /// The canonical JSON text of the whole catalog.
    pub open spec fn spec_ser(self) -> Seq<u8> {
        lit_catalog_video() + self.video.spec_ser() + lit_catalog_audio() + self.audio.spec_ser()
            + lit_obj_close()
    }

    /// Serialize the catalog to its canonical bytes.
    pub fn to_vec(&self) -> (r: Vec<u8>)
        requires
            self.wf(),
        ensures
            r@ == self.spec_ser(),
    {
        let mut buf: Vec<u8> = Vec::new();
        push_catalog_video(&mut buf);
        self.video.serialize(&mut buf);
        push_catalog_audio(&mut buf);
        self.audio.serialize(&mut buf);
        push_obj_close(&mut buf);
        proof {
            assert(buf@ =~= self.spec_ser());
        }
        buf
    }

    /// Parse a catalog at cursor `i`: the canonical layout.
    pub open spec fn sp_parse(s: Seq<u8>, i: int) -> Result<
        ((Seq<(Seq<u8>, (
            Seq<u8>,
            Option<Seq<u8>>,
            Option<u64>,
            Option<u64>,
            Option<u64>,
            Option<u64>,
            Container,
            Option<u64>,
        ))>, Seq<(Seq<u8>, (Seq<u8>, u64, u64, Option<u64>, Option<Seq<u8>>, Container, Option<u64>))>),
            int,
        ),
        DecodeError,
    > {
        if !bytes_at(s, i, lit_catalog_video()) {
            Err(DecodeError::InvalidValue)
        } else {
            match Video::sp_parse(s, i + lit_catalog_video().len()) {
                Err(e) => Err(e),
                Ok((vids, j)) => {
                    if !bytes_at(s, j, lit_catalog_audio()) {
                        Err(DecodeError::InvalidValue)
                    } else {
                        match Audio::sp_parse(s, j + lit_catalog_audio().len()) {
                            Err(e) => Err(e),
                            Ok((auds, j2)) => {
                                if !bytes_at(s, j2, lit_obj_close()) {
                                    Err(DecodeError::InvalidValue)
                                } else {
                                    Ok(((vids, auds), j2 + 1))
                                }
                            },
                        }
                    }
                },
            }
        }
    }

    /// Parse a catalog from its canonical bytes.
    pub fn from_slice(buf: &[u8]) -> (r: Result<Catalog, DecodeError>)
        ensures
            match r {
                Ok(c) => Self::sp_parse(buf@, 0) matches Ok(m) && m.0 == (
                    video_entries_model(c.video.renditions@),
                    audio_entries_model(c.audio.renditions@),
                ),
                Err(e) => Self::sp_parse(buf@, 0) matches Err(e2) && e2 == e,
            },
    {
        let mut pos: usize = 0;
        match expect_catalog_video(buf, &mut pos) {
            Ok(()) => {},
            Err(e) => {
                return Err(e);
            },
        }
        let video = match Video::parse(buf, &mut pos) {
            Ok(v) => v,
            Err(e) => {
                return Err(e);
            },
        };
        match expect_catalog_audio(buf, &mut pos) {
            Ok(()) => {},
            Err(e) => {
                return Err(e);
            },
        }
        let audio = match Audio::parse(buf, &mut pos) {
            Ok(v) => v,
            Err(e) => {
                return Err(e);
            },
        };
        match expect_obj_close(buf, &mut pos) {
            Ok(()) => {},
            Err(e) => {
                return Err(e);
            },
        }
        Ok(Catalog { video, audio })
    }
}

/// Relies on `String::from_str` keeping the characters.
fn string_from_str(s: &str) -> (r: String)
    ensures
        r@ == s@,
{
    <String as vstd::string::StringExecFns>::from_str(s)
}

/// Serializing a catalog and parsing the bytes back yields the same
/// catalog: its rendition names and configurations are recovered
/// exactly, in order.
#[verifier::rlimit(100)]
#[verifier::spinoff_prover]
pub proof fn lemma_catalog_round_trip(s: Seq<u8>, i: int, c: Catalog)
    requires
        c.wf(),
        bytes_at(s, i, c.spec_ser()),
    ensures
        Catalog::sp_parse(s, i) matches Ok(m) && m.0 == (
            video_entries_model(c.video.renditions@),
            audio_entries_model(c.audio.renditions@),
        ) && m.1 == i + c.spec_ser().len(),
{
    let b1 = lit_catalog_video() + c.video.spec_ser();
    let b2 = b1 + lit_catalog_audio();
    let b3 = b2 + c.audio.spec_ser();
    assert(c.spec_ser() == b3 + lit_obj_close());
    lemma_bytes_at_split(s, i, b3, lit_obj_close());
    lemma_bytes_at_split(s, i, b2, c.audio.spec_ser());
    lemma_bytes_at_split(s, i, b1, lit_catalog_audio());
    lemma_bytes_at_split(s, i, lit_catalog_video(), c.video.spec_ser());
    crate::catalog::video::lemma_video_round_trip(s, i + lit_catalog_video().len(), c.video);
    crate::catalog::audio::lemma_audio_round_trip(s, i + b2.len(), c.audio);
}

/// A producer of the catalog track: holds the current catalog and
/// republishes it as a whole document whenever it changes.
pub struct CatalogProducer {
    /// The track the catalog travels on.
    pub track: TrackProducer,
    /// The current document.
    pub current: Catalog,
}

impl CatalogProducer {
    /// A producer starting from the given document.
    pub fn new(track: TrackProducer, init: Catalog) -> (r: CatalogProducer)
        ensures
            r.track == track,
            r.current == init,
    {
        CatalogProducer { track, current: init }
    }

    /// Replace the document and publish its bytes as one new group, if
    /// it changed.  Returns the published bytes, which are exactly the
    /// new document's canonical form.
    pub fn set(&mut self, now_ms: u64, next: Catalog) -> (r: Option<Vec<u8>>)
        requires
            old(self).track.wf(),
            old(self).track.closed is None,
            old(self).current.wf(),
            next.wf(),
            now_ms >= crate::model::track::last_ingest(old(self).track.history@),
            old(self).track.history@.len() < usize::MAX,
            match old(self).track.max_sequence {
                None => true,
                Some(m) => m < u64::MAX,
            },
        ensures
            final(self).current == next,
            final(self).track.wf(),
            r is Some <==> old(self).current.spec_ser() != next.spec_ser(),
            r matches Some(bytes) ==> bytes@ == next.spec_ser(),
    {
        let changed = !catalogs_equal(&self.current, &next);
        self.current = next;
        if changed {
            let bytes = self.current.to_vec();
            self.track.append_group(now_ms);
            Some(bytes)
        } else {
            None
        }
    }
}

/// Whether two byte vectors hold the same bytes.
fn bytes_equal(a: &Vec<u8>, b: &Vec<u8>) -> (r: bool)
    ensures
        r == (a@ == b@),
{
    if a.len() != b.len() {
        return false;
    }
    let mut k: usize = 0;
    while k < a.len()
        invariant
            k <= a@.len(),
            a@.len() == b@.len(),
            forall|m: int| 0 <= m < k ==> a@[m] == b@[m],
        decreases a@.len() - k,
    {
        if a[k] != b[k] {
            return false;
        }
        k = k + 1;
    }
    proof {
        assert(a@ =~= b@);
    }
    true
}

/// Whether two catalogs hold the same document, by their canonical
/// bytes.
#[verifier::rlimit(100)]
pub fn catalogs_equal(a: &Catalog, b: &Catalog) -> (r: bool)
    requires
        a.wf(),
        b.wf(),
    ensures
        r == (a.spec_ser() == b.spec_ser()),
{
    let va = a.to_vec();
    let vb = b.to_vec();
    bytes_equal(&va, &vb)
}

} // verus!
