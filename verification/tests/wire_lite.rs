//! Round trips for the lite message family and the core codec.

use moq_lite::coding::{decode_varint, encode_varint};
use moq_lite::lite::announce::{Announce, AnnouncePlease};
use moq_lite::lite::subscribe::{Subscribe, SubscribeOk};
use moq_lite::lite::{Group, Version};
use moq_lite::path::Path;

#[test]
fn varint_round_trip_edges() {
    for v in [0u64, 1, 63, 64, 16383, 16384, 1 << 29, (1 << 30) - 1, 1 << 30, (1 << 62) - 1] {
        let mut buf = Vec::new();
        encode_varint(&mut buf, v);
        let mut pos = 0;
        assert_eq!(decode_varint(&buf, &mut pos), Ok(v));
        assert_eq!(pos, buf.len());
    }
    // one-byte values use one byte
    let mut buf = Vec::new();
    encode_varint(&mut buf, 5);
    assert_eq!(buf, vec![5]);
}

#[test]
fn lite_subscribe_round_trip() {
    let msg = Subscribe {
        id: 9,
        broadcast: Path::new("demo/room"),
        track: "video".to_string(),
        priority: 3,
        ordered: true,
        max_latency_ms: 250,
        start_group: Some(4),
        end_group: None,
    };
    let mut buf = Vec::new();
    msg.encode_msg(&mut buf, Version::Draft03);
    let mut pos = 0;
    let decoded = Subscribe::decode_msg(&buf, &mut pos, Version::Draft03).unwrap();
    assert_eq!(decoded.id, 9);
    assert_eq!(decoded.broadcast.as_str(), "demo/room");
    assert_eq!(decoded.track, "video");
    assert!(decoded.ordered);
    assert_eq!(decoded.max_latency_ms, 250);
    assert_eq!(decoded.start_group, Some(4));
    assert_eq!(decoded.end_group, None);
}

#[test]
fn lite_subscribe_ok_round_trip() {
    let msg = SubscribeOk {
        priority: 1,
        ordered: false,
        max_latency_ms: 0,
        start_group: None,
        end_group: Some(7),
    };
    let mut buf = Vec::new();
    msg.encode_msg(&mut buf, Version::Draft03);
    let mut pos = 0;
    let decoded = SubscribeOk::decode_msg(&buf, &mut pos, Version::Draft03).unwrap();
    assert_eq!(decoded.priority, 1);
    assert_eq!(decoded.end_group, Some(7));
}

#[test]
fn lite_announce_round_trip() {
    let msg = Announce::Active { suffix: Path::new("room/alice"), hops: 2 };
    let mut buf = Vec::new();
    msg.encode_msg(&mut buf, Version::Draft03);
    let mut pos = 0;
    let decoded = Announce::decode_msg(&buf, &mut pos, Version::Draft03).unwrap();
    match decoded {
        Announce::Active { suffix, hops } => {
            assert_eq!(suffix.as_str(), "room/alice");
            assert_eq!(hops, 2);
        }
        Announce::Ended { .. } => panic!("wrong variant"),
    }
}

#[test]
fn lite_announce_please_round_trip() {
    let msg = AnnouncePlease { prefix: Path::new("room") };
    let mut buf = Vec::new();
    msg.encode_msg(&mut buf, Version::Draft02);
    let mut pos = 0;
    let decoded = AnnouncePlease::decode_msg(&buf, &mut pos, Version::Draft02).unwrap();
    assert_eq!(decoded.prefix.as_str(), "room");
}

#[test]
fn lite_group_header_round_trip() {
    let msg = Group { subscribe: 12, sequence: 34 };
    let mut buf = Vec::new();
    msg.encode_msg(&mut buf, Version::Draft03);
    let mut pos = 0;
    let decoded = Group::decode_msg(&buf, &mut pos, Version::Draft03).unwrap();
    assert_eq!(decoded, msg);
}
