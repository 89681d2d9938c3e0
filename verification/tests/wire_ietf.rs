//! Round trips and rejection cases for the IETF message family.

use moq_lite::ietf::fetch::{Fetch, FetchOk, FetchType};
use moq_lite::ietf::group::GroupFlags;
use moq_lite::ietf::parameters::Parameters;
use moq_lite::ietf::publish_namespace::{
    PublishNamespace, PublishNamespaceCancel, PublishNamespaceDone, PublishNamespaceError,
};
use moq_lite::ietf::request::{RequestError, RequestId, RequestOk};
use moq_lite::ietf::setup::{ClientSetup, ServerSetup, Versions};
use moq_lite::ietf::subscribe::{Subscribe, SubscribeOk, SubscribeUpdate, Unsubscribe};
use moq_lite::ietf::track::TrackStatus;
use moq_lite::ietf::{FilterType, GroupOrder, Location, Version};
use moq_lite::path::Path;

#[test]
fn test_fetch_v14_round_trip() {
    let msg = Fetch {
        request_id: RequestId(1),
        subscriber_priority: 128,
        group_order: GroupOrder::Descending,
        fetch_type: FetchType::Standalone {
            namespace: Path::new("test"),
            track: "video".to_string(),
            start: Location { group: 0, object: 0 },
            end: Location { group: 10, object: 5 },
        },
    };
    let mut buf = Vec::new();
    msg.encode_msg(&mut buf, Version::Draft14);
    let mut pos = 0;
    let decoded = Fetch::decode_msg(&buf, &mut pos, Version::Draft14).unwrap();
    assert_eq!(decoded.request_id, RequestId(1));
    assert_eq!(decoded.subscriber_priority, 128);
}

#[test]
fn test_fetch_v15_round_trip() {
    let msg = Fetch {
        request_id: RequestId(1),
        subscriber_priority: 128,
        group_order: GroupOrder::Descending,
        fetch_type: FetchType::Standalone {
            namespace: Path::new("test"),
            track: "video".to_string(),
            start: Location { group: 0, object: 0 },
            end: Location { group: 10, object: 5 },
        },
    };
    let mut buf = Vec::new();
    msg.encode_msg(&mut buf, Version::Draft15);
    let mut pos = 0;
    let decoded = Fetch::decode_msg(&buf, &mut pos, Version::Draft15).unwrap();
    assert_eq!(decoded.request_id, RequestId(1));
    assert_eq!(decoded.subscriber_priority, 128);
}

#[test]
fn test_fetch_ok_v14_round_trip() {
    let msg = FetchOk {
        request_id: RequestId(2),
        group_order: GroupOrder::Descending,
        end_of_track: false,
        end_location: Location { group: 5, object: 3 },
    };
    let mut buf = Vec::new();
    msg.encode_msg(&mut buf, Version::Draft14);
    let mut pos = 0;
    let decoded = FetchOk::decode_msg(&buf, &mut pos, Version::Draft14).unwrap();
    assert_eq!(decoded.request_id, RequestId(2));
    assert!(!decoded.end_of_track);
    assert_eq!(decoded.end_location, Location { group: 5, object: 3 });
}

#[test]
fn test_fetch_ok_v15_round_trip() {
    let msg = FetchOk {
        request_id: RequestId(2),
        group_order: GroupOrder::Descending,
        end_of_track: false,
        end_location: Location { group: 5, object: 3 },
    };
    let mut buf = Vec::new();
    msg.encode_msg(&mut buf, Version::Draft15);
    let mut pos = 0;
    let decoded = FetchOk::decode_msg(&buf, &mut pos, Version::Draft15).unwrap();
    assert_eq!(decoded.request_id, RequestId(2));
    assert!(!decoded.end_of_track);
    assert_eq!(decoded.end_location, Location { group: 5, object: 3 });
}

#[test]
fn test_group_flags_spec_table() {
    let flags = GroupFlags::decode(0x10).unwrap();
    assert!(!flags.has_subgroup);
    assert!(!flags.has_subgroup_object);
    assert!(!flags.has_extensions);
    assert!(!flags.has_end);
    assert!(flags.has_priority);
    assert_eq!(flags.encode(), 0x10);

    let flags = GroupFlags::decode(0x11).unwrap();
    assert!(!flags.has_subgroup);
    assert!(!flags.has_subgroup_object);
    assert!(flags.has_extensions);
    assert!(!flags.has_end);
    assert_eq!(flags.encode(), 0x11);

    let flags = GroupFlags::decode(0x12).unwrap();
    assert!(!flags.has_subgroup);
    assert!(flags.has_subgroup_object);
    assert!(!flags.has_extensions);
    assert!(!flags.has_end);
    assert_eq!(flags.encode(), 0x12);

    let flags = GroupFlags::decode(0x13).unwrap();
    assert!(!flags.has_subgroup);
    assert!(flags.has_subgroup_object);
    assert!(flags.has_extensions);
    assert!(!flags.has_end);
    assert_eq!(flags.encode(), 0x13);

    let flags = GroupFlags::decode(0x14).unwrap();
    assert!(flags.has_subgroup);
    assert!(!flags.has_subgroup_object);
    assert!(!flags.has_extensions);
    assert!(!flags.has_end);
    assert_eq!(flags.encode(), 0x14);

    let flags = GroupFlags::decode(0x15).unwrap();
    assert!(flags.has_subgroup);
    assert!(!flags.has_subgroup_object);
    assert!(flags.has_extensions);
    assert!(!flags.has_end);
    assert_eq!(flags.encode(), 0x15);

    let flags = GroupFlags::decode(0x18).unwrap();
    assert!(!flags.has_subgroup);
    assert!(!flags.has_subgroup_object);
    assert!(!flags.has_extensions);
    assert!(flags.has_end);
    assert_eq!(flags.encode(), 0x18);

    let flags = GroupFlags::decode(0x19).unwrap();
    assert!(!flags.has_subgroup);
    assert!(!flags.has_subgroup_object);
    assert!(flags.has_extensions);
    assert!(flags.has_end);
    assert_eq!(flags.encode(), 0x19);

    let flags = GroupFlags::decode(0x1A).unwrap();
    assert!(!flags.has_subgroup);
    assert!(flags.has_subgroup_object);
    assert!(!flags.has_extensions);
    assert!(flags.has_end);
    assert_eq!(flags.encode(), 0x1A);

    let flags = GroupFlags::decode(0x1B).unwrap();
    assert!(!flags.has_subgroup);
    assert!(flags.has_subgroup_object);
    assert!(flags.has_extensions);
    assert!(flags.has_end);
    assert_eq!(flags.encode(), 0x1B);

    let flags = GroupFlags::decode(0x1C).unwrap();
    assert!(flags.has_subgroup);
    assert!(!flags.has_subgroup_object);
    assert!(!flags.has_extensions);
    assert!(flags.has_end);
    assert_eq!(flags.encode(), 0x1C);

    let flags = GroupFlags::decode(0x1D).unwrap();
    assert!(flags.has_subgroup);
    assert!(!flags.has_subgroup_object);
    assert!(flags.has_extensions);
    assert!(flags.has_end);
    assert_eq!(flags.encode(), 0x1D);

    assert!(GroupFlags::decode(0x16).is_err());
}

#[test]
fn test_group_flags_no_priority_range() {
    let flags = GroupFlags::decode(0x30).unwrap();
    assert!(!flags.has_priority);
    assert!(!flags.has_subgroup);
    assert!(!flags.has_extensions);
    assert!(!flags.has_end);
    assert_eq!(flags.encode(), 0x30);

    let flags = GroupFlags::decode(0x38).unwrap();
    assert!(!flags.has_priority);
    assert!(flags.has_end);
    assert_eq!(flags.encode(), 0x38);

    let flags = GroupFlags::decode(0x3D).unwrap();
    assert!(!flags.has_priority);
    assert!(flags.has_subgroup);
    assert!(flags.has_extensions);
    assert!(flags.has_end);
    assert_eq!(flags.encode(), 0x3D);

    assert!(GroupFlags::decode(0x36).is_err());
}

#[test]
fn test_announce_round_trip() {
    let msg = PublishNamespace {
        request_id: RequestId(1),
        track_namespace: Path::new("test/broadcast"),
    };
    let mut buf = Vec::new();
    msg.encode_msg(&mut buf, Version::Draft14);
    let mut pos = 0;
    let decoded = PublishNamespace::decode_msg(&buf, &mut pos, Version::Draft14).unwrap();
    assert_eq!(decoded.track_namespace.as_str(), "test/broadcast");
}

#[test]
fn test_announce_error() {
    let msg = PublishNamespaceError {
        request_id: RequestId(1),
        error_code: 404,
        reason_phrase: "Unauthorized".to_string(),
    };
    let mut buf = Vec::new();
    msg.encode_msg(&mut buf, Version::Draft14);
    let mut pos = 0;
    let decoded = PublishNamespaceError::decode_msg(&buf, &mut pos, Version::Draft14).unwrap();
    assert_eq!(decoded.error_code, 404);
    assert_eq!(decoded.reason_phrase, "Unauthorized");
}

#[test]
fn test_unannounce_v14() {
    let msg = PublishNamespaceDone {
        track_namespace: Path::new("old/stream"),
        request_id: RequestId(0),
    };
    let mut buf = Vec::new();
    msg.encode_msg(&mut buf, Version::Draft14);
    let mut pos = 0;
    let decoded = PublishNamespaceDone::decode_msg(&buf, &mut pos, Version::Draft14).unwrap();
    assert_eq!(decoded.track_namespace.as_str(), "old/stream");
}

#[test]
fn test_unannounce_v16() {
    let msg = PublishNamespaceDone {
        track_namespace: Path::default(),
        request_id: RequestId(42),
    };
    let mut buf = Vec::new();
    msg.encode_msg(&mut buf, Version::Draft16);
    let mut pos = 0;
    let decoded = PublishNamespaceDone::decode_msg(&buf, &mut pos, Version::Draft16).unwrap();
    assert_eq!(decoded.request_id, RequestId(42));
}

#[test]
fn test_announce_cancel_v14() {
    let msg = PublishNamespaceCancel {
        track_namespace: Path::new("canceled"),
        request_id: RequestId(0),
        error_code: 1,
        reason_phrase: "Shutdown".to_string(),
    };
    let mut buf = Vec::new();
    msg.encode_msg(&mut buf, Version::Draft14);
    let mut pos = 0;
    let decoded = PublishNamespaceCancel::decode_msg(&buf, &mut pos, Version::Draft14).unwrap();
    assert_eq!(decoded.track_namespace.as_str(), "canceled");
    assert_eq!(decoded.error_code, 1);
    assert_eq!(decoded.reason_phrase, "Shutdown");
}

#[test]
fn test_announce_cancel_v16() {
    let msg = PublishNamespaceCancel {
        track_namespace: Path::default(),
        request_id: RequestId(7),
        error_code: 1,
        reason_phrase: "Shutdown".to_string(),
    };
    let mut buf = Vec::new();
    msg.encode_msg(&mut buf, Version::Draft16);
    let mut pos = 0;
    let decoded = PublishNamespaceCancel::decode_msg(&buf, &mut pos, Version::Draft16).unwrap();
    assert_eq!(decoded.request_id, RequestId(7));
    assert_eq!(decoded.error_code, 1);
    assert_eq!(decoded.reason_phrase, "Shutdown");
}

#[test]
fn test_announce_rejects_parameters() {
    let invalid_bytes = vec![
        0x01, // namespace length
        0x04, 0x74, 0x65, 0x73, 0x74, // "test"
        0x01, // INVALID: num_params = 1
    ];
    let mut pos = 0;
    let result = PublishNamespace::decode_msg(&invalid_bytes, &mut pos, Version::Draft14);
    assert!(result.is_err());
}

#[test]
fn test_request_ok_round_trip() {
    let msg = RequestOk {
        request_id: RequestId(42),
        parameters: moq_lite::ietf::parameters::MessageParameters::default(),
    };
    let mut buf = Vec::new();
    msg.encode_msg(&mut buf, Version::Draft15);
    let mut pos = 0;
    let decoded = RequestOk::decode_msg(&buf, &mut pos, Version::Draft15).unwrap();
    assert_eq!(decoded.request_id, RequestId(42));
}

#[test]
fn test_request_error_round_trip() {
    let msg = RequestError {
        request_id: RequestId(99),
        error_code: 500,
        reason_phrase: "Internal error".to_string(),
    };
    let mut buf = Vec::new();
    msg.encode_msg(&mut buf, Version::Draft15);
    let mut pos = 0;
    let decoded = RequestError::decode_msg(&buf, &mut pos, Version::Draft15).unwrap();
    assert_eq!(decoded.request_id, RequestId(99));
    assert_eq!(decoded.error_code, 500);
    assert_eq!(decoded.reason_phrase, "Internal error");
}

#[test]
fn test_client_setup_v14_round_trip() {
    let msg = ClientSetup {
        versions: Versions { values: vec![Version::Draft14.value()] },
        parameters: Parameters::default(),
    };
    let mut buf = Vec::new();
    msg.encode_msg(&mut buf, Version::Draft14);
    let mut pos = 0;
    let decoded = ClientSetup::decode_msg(&buf, &mut pos, Version::Draft14).unwrap();
    assert_eq!(decoded.versions.values.len(), 1);
    assert_eq!(decoded.versions.values[0], Version::Draft14.value());
}

#[test]
fn test_client_setup_v15_round_trip() {
    let msg = ClientSetup {
        versions: Versions { values: vec![Version::Draft15.value()] },
        parameters: Parameters::default(),
    };
    let mut buf = Vec::new();
    msg.encode_msg(&mut buf, Version::Draft15);
    let mut pos = 0;
    let decoded = ClientSetup::decode_msg(&buf, &mut pos, Version::Draft15).unwrap();
    assert_eq!(decoded.versions.values.len(), 1);
    assert_eq!(decoded.versions.values[0], Version::Draft15.value());
}

#[test]
fn test_server_setup_v14_round_trip() {
    let msg = ServerSetup {
        version: Version::Draft14.value(),
        parameters: Parameters::default(),
    };
    let mut buf = Vec::new();
    msg.encode_msg(&mut buf, Version::Draft14);
    let mut pos = 0;
    let decoded = ServerSetup::decode_msg(&buf, &mut pos, Version::Draft14).unwrap();
    assert_eq!(decoded.version, Version::Draft14.value());
}

#[test]
fn test_server_setup_v15_round_trip() {
    let msg = ServerSetup {
        version: Version::Draft15.value(),
        parameters: Parameters::default(),
    };
    let mut buf = Vec::new();
    msg.encode_msg(&mut buf, Version::Draft15);
    let mut pos = 0;
    let decoded = ServerSetup::decode_msg(&buf, &mut pos, Version::Draft15).unwrap();
    assert_eq!(decoded.version, Version::Draft15.value());
}

#[test]
fn test_subscribe_round_trip() {
    let msg = Subscribe {
        request_id: RequestId(1),
        track_namespace: Path::new("test"),
        track_name: "video".to_string(),
        subscriber_priority: 128,
        group_order: GroupOrder::Descending,
        filter_type: FilterType::LargestObject,
    };
    let mut buf = Vec::new();
    msg.encode_msg(&mut buf, Version::Draft14);
    let mut pos = 0;
    let decoded = Subscribe::decode_msg(&buf, &mut pos, Version::Draft14).unwrap();
    assert_eq!(decoded.request_id, RequestId(1));
    assert_eq!(decoded.track_namespace.as_str(), "test");
    assert_eq!(decoded.track_name, "video");
    assert_eq!(decoded.subscriber_priority, 128);
}

#[test]
fn test_subscribe_round_trip_v15() {
    let msg = Subscribe {
        request_id: RequestId(1),
        track_namespace: Path::new("test"),
        track_name: "video".to_string(),
        subscriber_priority: 128,
        group_order: GroupOrder::Descending,
        filter_type: FilterType::LargestObject,
    };
    let mut buf = Vec::new();
    msg.encode_msg(&mut buf, Version::Draft15);
    let mut pos = 0;
    let decoded = Subscribe::decode_msg(&buf, &mut pos, Version::Draft15).unwrap();
    assert_eq!(decoded.request_id, RequestId(1));
    assert_eq!(decoded.track_namespace.as_str(), "test");
    assert_eq!(decoded.track_name, "video");
    assert_eq!(decoded.subscriber_priority, 128);
}

#[test]
fn test_subscribe_nested_namespace() {
    let msg = Subscribe {
        request_id: RequestId(100),
        track_namespace: Path::new("conference/room123"),
        track_name: "audio".to_string(),
        subscriber_priority: 255,
        group_order: GroupOrder::Descending,
        filter_type: FilterType::LargestObject,
    };
    let mut buf = Vec::new();
    msg.encode_msg(&mut buf, Version::Draft14);
    let mut pos = 0;
    let decoded = Subscribe::decode_msg(&buf, &mut pos, Version::Draft14).unwrap();
    assert_eq!(decoded.track_namespace.as_str(), "conference/room123");
}

#[test]
fn test_subscribe_ok() {
    let msg = SubscribeOk { request_id: RequestId(42), track_alias: 42 };
    let mut buf = Vec::new();
    msg.encode_msg(&mut buf, Version::Draft14);
    let mut pos = 0;
    let decoded = SubscribeOk::decode_msg(&buf, &mut pos, Version::Draft14).unwrap();
    assert_eq!(decoded.request_id, RequestId(42));
}

#[test]
fn test_subscribe_ok_v15() {
    let msg = SubscribeOk { request_id: RequestId(42), track_alias: 42 };
    let mut buf = Vec::new();
    msg.encode_msg(&mut buf, Version::Draft15);
    let mut pos = 0;
    let decoded = SubscribeOk::decode_msg(&buf, &mut pos, Version::Draft15).unwrap();
    assert_eq!(decoded.request_id, RequestId(42));
    assert_eq!(decoded.track_alias, 42);
}

#[test]
fn test_subscribe_error() {
    let msg = moq_lite::ietf::subscribe::SubscribeError {
        request_id: RequestId(123),
        error_code: 500,
        reason_phrase: "Not found".to_string(),
    };
    let mut buf = Vec::new();
    msg.encode_msg(&mut buf, Version::Draft14);
    let mut pos = 0;
    let decoded =
        moq_lite::ietf::subscribe::SubscribeError::decode_msg(&buf, &mut pos, Version::Draft14)
            .unwrap();
    assert_eq!(decoded.request_id, RequestId(123));
    assert_eq!(decoded.error_code, 500);
    assert_eq!(decoded.reason_phrase, "Not found");
}

#[test]
fn test_unsubscribe() {
    let msg = Unsubscribe { request_id: RequestId(999) };
    let mut buf = Vec::new();
    msg.encode_msg(&mut buf, Version::Draft14);
    let mut pos = 0;
    let decoded = Unsubscribe::decode_msg(&buf, &mut pos, Version::Draft14).unwrap();
    assert_eq!(decoded.request_id, RequestId(999));
}

#[test]
fn test_subscribe_rejects_invalid_filter_type() {
    let invalid_bytes = vec![
        0x01, // subscribe_id
        0x02, // track_alias
        0x01, // namespace length
        0x04, 0x74, 0x65, 0x73, 0x74, // "test"
        0x05, 0x76, 0x69, 0x64, 0x65, 0x6f, // "video"
        0x80, // subscriber_priority
        0x02, // group_order
        0x99, // INVALID filter_type
        0x00, // num_params
    ];
    let mut pos = 0;
    let result = Subscribe::decode_msg(&invalid_bytes, &mut pos, Version::Draft14);
    assert!(result.is_err());
}

#[test]
fn test_subscribe_update_v15_round_trip() {
    let msg = SubscribeUpdate {
        request_id: RequestId(10),
        subscription_request_id: RequestId(5),
        start_location: Location { group: 0, object: 0 },
        end_group: 0,
        subscriber_priority: 200,
        forward: true,
    };
    let mut buf = Vec::new();
    msg.encode_msg(&mut buf, Version::Draft15);
    let mut pos = 0;
    let decoded = SubscribeUpdate::decode_msg(&buf, &mut pos, Version::Draft15).unwrap();
    assert_eq!(decoded.request_id, RequestId(10));
    assert_eq!(decoded.subscription_request_id, RequestId(5));
    assert_eq!(decoded.subscriber_priority, 200);
    assert!(decoded.forward);
}

#[test]
fn test_subscribe_update_v14_round_trip() {
    let msg = SubscribeUpdate {
        request_id: RequestId(10),
        subscription_request_id: RequestId(5),
        start_location: Location { group: 1, object: 2 },
        end_group: 100,
        subscriber_priority: 200,
        forward: true,
    };
    let mut buf = Vec::new();
    msg.encode_msg(&mut buf, Version::Draft14);
    let mut pos = 0;
    let decoded = SubscribeUpdate::decode_msg(&buf, &mut pos, Version::Draft14).unwrap();
    assert_eq!(decoded.request_id, RequestId(10));
    assert_eq!(decoded.subscription_request_id, RequestId(5));
    assert_eq!(decoded.start_location, Location { group: 1, object: 2 });
    assert_eq!(decoded.end_group, 100);
    assert_eq!(decoded.subscriber_priority, 200);
    assert!(decoded.forward);
}

#[test]
fn test_subscribe_ok_rejects_non_zero_expires() {
    let invalid_bytes = vec![
        0x01, // subscribe_id
        0x05, // INVALID: expires = 5
        0x02, // group_order
        0x00, // content_exists
        0x00, // num_params
    ];
    let mut pos = 0;
    let result = SubscribeOk::decode_msg(&invalid_bytes, &mut pos, Version::Draft14);
    assert!(result.is_err());
}

#[test]
fn test_track_status_v14_round_trip() {
    let msg = TrackStatus {
        request_id: RequestId(1),
        track_namespace: Path::new("test/ns"),
        track_name: "video".to_string(),
    };
    let mut buf = Vec::new();
    msg.encode_msg(&mut buf, Version::Draft14);
    let mut pos = 0;
    let decoded = TrackStatus::decode_msg(&buf, &mut pos, Version::Draft14).unwrap();
    assert_eq!(decoded.request_id, RequestId(1));
    assert_eq!(decoded.track_namespace.as_str(), "test/ns");
    assert_eq!(decoded.track_name, "video");
}

#[test]
fn test_track_status_v15_round_trip() {
    let msg = TrackStatus {
        request_id: RequestId(1),
        track_namespace: Path::new("test/ns"),
        track_name: "video".to_string(),
    };
    let mut buf = Vec::new();
    msg.encode_msg(&mut buf, Version::Draft15);
    let mut pos = 0;
    let decoded = TrackStatus::decode_msg(&buf, &mut pos, Version::Draft15).unwrap();
    assert_eq!(decoded.request_id, RequestId(1));
    assert_eq!(decoded.track_namespace.as_str(), "test/ns");
    assert_eq!(decoded.track_name, "video");
}
