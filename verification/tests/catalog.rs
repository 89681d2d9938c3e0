//! The catalog: canonical serialization and the round trip.

use moq_lite::catalog::audio::{Audio, AudioConfig};
use moq_lite::catalog::root::{catalogs_equal, Catalog};
use moq_lite::catalog::video::{Video, VideoConfig};
use moq_lite::catalog::Container;
use moq_lite::container::Frame;

fn video_config(width: u64, height: u64, bitrate: Option<u64>) -> VideoConfig {
    VideoConfig {
        codec: "avc1.64001f".to_string(),
        description: None,
        coded_width: Some(width),
        coded_height: Some(height),
        bitrate,
        framerate: Some(30),
        container: Container::Legacy,
        jitter: None,
    }
}

#[test]
fn catalog_update_propagation() {
    // an initial catalog with one rendition, then a second rendition added
    let c0 = Catalog {
        video: Video { renditions: vec![("video0".to_string(), video_config(1280, 720, None))] },
        audio: Audio { renditions: vec![] },
    };
    let mut c1 = c0.clone();
    c1.video
        .renditions
        .push(("video1".to_string(), video_config(1920, 1080, Some(5_000_000))));
    let b0 = c0.to_vec();
    let b1 = c1.to_vec();
    assert_ne!(b0, b1);
    // re-serializing the same document is byte-identical
    assert_eq!(b1, c1.to_vec());
    let parsed = Catalog::from_slice(&b1).unwrap();
    assert_eq!(parsed.video.renditions.len(), 2);
    assert_eq!(parsed, c1);
    assert!(catalogs_equal(&parsed, &c1));
}

#[test]
fn catalog_round_trip_with_audio() {
    let cat = Catalog {
        video: Video { renditions: vec![] },
        audio: Audio {
            renditions: vec![(
                "audio0".to_string(),
                AudioConfig {
                    codec: "opus".to_string(),
                    sample_rate: 48_000,
                    channel_count: 2,
                    bitrate: Some(128_000),
                    description: Some(vec![0xde, 0xad]),
                    container: Container::Cmaf { timescale: 1_000_000, track_id: 1 },
                    jitter: Some(20),
                },
            )],
        },
    };
    let bytes = cat.to_vec();
    let parsed = Catalog::from_slice(&bytes).unwrap();
    assert_eq!(parsed, cat);
}

#[test]
fn catalog_text_shape() {
    let cat = Catalog { video: Video { renditions: vec![] }, audio: Audio { renditions: vec![] } };
    let text = String::from_utf8(cat.to_vec()).unwrap();
    assert_eq!(text, r#"{"video":{"renditions":{}},"audio":{"renditions":{}}}"#);
}

#[test]
fn catalog_rejects_garbage() {
    assert!(Catalog::from_slice(b"not json").is_err());
    assert!(Catalog::from_slice(b"{}").is_err());
}

#[test]
fn frame_wire_round_trip() {
    let f = Frame { timestamp: 123_456, keyframe: true, payload: vec![9, 8, 7] };
    let mut buf = Vec::new();
    f.encode(&mut buf);
    let back = Frame::decode(&buf, true).unwrap();
    assert_eq!(back, f);
}
