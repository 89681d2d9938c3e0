//! The fan-out model: caching, eviction, announcements, scheduling, and
//! the ordered media layer.

use moq_lite::container::{Frame, OrderedConsumer, OrderedProducer};
use moq_lite::model::origin::OriginConsumer;
use moq_lite::model::origin::OriginProducer;
use moq_lite::model::scheduler::{GroupScheduler, ScheduleAction};
use moq_lite::model::track::{Track, TrackPoll, MAX_CACHE_MS};
use moq_lite::path::Path;
use moq_lite::version::{select_version, Version};
use moq_lite::error::Error;
use moq_lite::ietf;
use moq_lite::lite;

#[test]
fn track_insert_monotonic_max() {
    let mut p = Track::new("video".to_string()).produce();
    assert!(p.insert_group(0, 3));
    assert_eq!(p.max_sequence, Some(3));
    assert!(!p.insert_group(1, 1));
    assert_eq!(p.max_sequence, Some(3));
    assert!(p.insert_group(2, 7));
    assert_eq!(p.max_sequence, Some(7));
}

#[test]
fn track_append_sequences() {
    let mut p = Track::new("video".to_string()).produce();
    assert_eq!(p.append_group(0), 0);
    assert_eq!(p.append_group(1), 1);
    assert_eq!(p.append_group(2), 2);
    assert_eq!(p.max_sequence, Some(2));
}

#[test]
fn track_consumer_in_order() {
    let mut p = Track::new("video".to_string()).produce();
    let mut c = p.consume();
    p.append_group(0);
    p.append_group(1);
    assert_eq!(c.next_group(&p), TrackPoll::Group(0));
    assert_eq!(c.next_group(&p), TrackPoll::Group(1));
    assert_eq!(c.next_group(&p), TrackPoll::Pending);
    p.close();
    assert_eq!(c.next_group(&p), TrackPoll::Closed);
}

#[test]
fn track_eviction_updates_drop_sequence() {
    let mut p = Track::new("video".to_string()).produce();
    p.append_group(0);
    p.append_group(1);
    // well past the cache window
    p.append_group(MAX_CACHE_MS + 1000);
    assert_eq!(p.drop_sequence, Some(1));
    let mut c = p.consume();
    // consumer starts at the newest cached group
    assert_eq!(c.next_group(&p), TrackPoll::Group(2));
}

#[test]
fn track_lagging_consumer_skips_evicted() {
    let mut p = Track::new("video".to_string()).produce();
    p.append_group(0);
    let mut c = p.consume();
    assert_eq!(c.next_group(&p), TrackPoll::Group(0));
    p.append_group(1);
    p.append_group(MAX_CACHE_MS + 5000);
    // group 1 has been evicted; the consumer jumps to the cached head
    assert_eq!(p.drop_sequence, Some(1));
    assert_eq!(c.next_group(&p), TrackPoll::Group(2));
}

#[test]
fn track_abort_reports_error() {
    let mut p = Track::new("video".to_string()).produce();
    let mut c = p.consume();
    p.abort(Error::Cancel);
    assert_eq!(c.next_group(&p), TrackPoll::Failed(Error::Cancel));
}

#[test]
fn origin_scope_filtering() {
    let mut o = OriginProducer::new();
    o.publish_broadcast(&Path::new("a/b/x"));
    o.publish_broadcast(&Path::new("a/b/y"));
    o.publish_broadcast(&Path::new("c/x"));
    let root = OriginConsumer { cursor: 0, scopes: vec![Path::new("")] };
    let mut scoped = root.consume_only(vec![Path::new("a/b")]).unwrap();
    let e1 = scoped.announced(&o).unwrap();
    assert_eq!(e1.path.as_str(), "a/b/x");
    assert!(e1.active);
    let suffix = e1.path.strip_prefix(&Path::new("a/b")).unwrap();
    assert_eq!(suffix.as_str(), "x");
    let e2 = scoped.announced(&o).unwrap();
    assert_eq!(e2.path.as_str(), "a/b/y");
    assert!(e2.active);
    // nothing else in scope
    assert!(scoped.announced(&o).is_none());
    o.unpublish_broadcast(&Path::new("a/b/x"));
    let e3 = scoped.announced(&o).unwrap();
    assert_eq!(e3.path.as_str(), "a/b/x");
    assert!(!e3.active);
}

#[test]
fn origin_republish_alternates() {
    let mut o = OriginProducer::new();
    let p = Path::new("room/cam");
    o.publish_broadcast(&p);
    o.publish_broadcast(&p);
    let mut c = OriginConsumer { cursor: 0, scopes: vec![Path::new("room")] };
    let flags: Vec<bool> = std::iter::from_fn(|| c.announced(&o).map(|e| e.active)).collect();
    assert_eq!(flags, vec![true, false, true]);
}

#[test]
fn origin_consume_only_outside_scope() {
    let root = OriginConsumer { cursor: 0, scopes: vec![Path::new("a")] };
    assert!(root.consume_only(vec![Path::new("b")]).is_none());
}

#[test]
fn scheduler_serves_at_most_two() {
    let mut s = GroupScheduler::new();
    for seq in 0..10u64 {
        let action = s.on_group(seq);
        assert!(matches!(action, ScheduleAction::Serve { .. }));
        let active = (s.old_sequence.is_some() as u32) + (s.new_sequence.is_some() as u32);
        assert!(active <= 2);
    }
    assert_eq!(s.new_sequence, Some(9));
    assert_eq!(s.old_sequence, Some(8));
    // an old group is not served
    assert_eq!(s.on_group(3), ScheduleAction::Skip);
}

#[test]
fn scheduler_promotes_and_drains() {
    let mut s = GroupScheduler::new();
    s.on_group(5);
    assert_eq!(s.new_sequence, Some(5));
    s.on_group(7);
    assert_eq!(s.old_sequence, Some(5));
    assert_eq!(s.new_sequence, Some(7));
    s.on_new_done();
    assert_eq!(s.new_sequence, Some(5));
    assert_eq!(s.old_sequence, None);
    s.on_old_done();
    assert_eq!(s.old_sequence, None);
}

#[test]
fn ordered_producer_single_track_echo() {
    // three frames: a keyframe, a delta, then another keyframe
    let track = Track::new("video".to_string()).produce();
    let mut p = OrderedProducer::new(track);
    let f1 = Frame { timestamp: 1_000_000, keyframe: true, payload: b"a".to_vec() };
    let f2 = Frame { timestamp: 2_000_000, keyframe: false, payload: b"bb".to_vec() };
    let f3 = Frame { timestamp: 3_000_000, keyframe: true, payload: b"ccc".to_vec() };
    p.write(0, f1.clone()).unwrap();
    p.write(0, f2.clone()).unwrap();
    p.write(0, f3.clone()).unwrap();
    // two groups exist: group 0 holds f1 then f2, group 1 holds f3
    assert_eq!(p.track.max_sequence, Some(1));
    let open = p.group.clone().unwrap();
    assert_eq!(open.sequence, 1);
    assert_eq!(open.frames, vec![f3]);
    p.flush().unwrap();
    assert!(p.group.is_none());
}

#[test]
fn ordered_producer_rejects_missing_keyframe() {
    let track = Track::new("video".to_string()).produce();
    let mut p = OrderedProducer::new(track);
    let delta = Frame { timestamp: 5, keyframe: false, payload: vec![1] };
    assert_eq!(p.write(0, delta), Err(Error::MissingKeyframe));
}

#[test]
fn ordered_producer_rejects_backwards_keyframe() {
    let track = Track::new("video".to_string()).produce();
    let mut p = OrderedProducer::new(track);
    let k1 = Frame { timestamp: 100, keyframe: true, payload: vec![1] };
    let k2 = Frame { timestamp: 50, keyframe: true, payload: vec![2] };
    p.write(0, k1).unwrap();
    assert_eq!(p.write(1, k2), Err(Error::TimestampBackwards));
}

#[test]
fn ordered_consumer_latency_skip() {
    // max latency 100 ms in microseconds
    let mut c = OrderedConsumer::new(100_000);
    c.on_new_group(0);
    c.on_frame(50_000);
    c.on_current_ended();
    c.on_new_group(1);
    c.on_frame(100_000);
    // groups 2 and 3 arrive; 3 buffers a frame past the budget
    c.on_new_group(2);
    c.on_new_group(3);
    assert_eq!(c.pending.len(), 2);
    // the buffered timestamp of pending group 3 runs past the playhead
    c.pending[1].max_timestamp = 250_000;
    let late = c.pending[1];
    assert!(late.max_timestamp >= c.max_timestamp + c.max_latency);
    c.on_buffer_threshold(1, late.max_timestamp);
    // group 2 was dropped; group 3 is now current
    assert_eq!(c.current.unwrap().sequence, 3);
    assert!(c.pending.is_empty());
}

#[test]
fn ordered_consumer_ignores_stale_groups() {
    let mut c = OrderedConsumer::new(100_000);
    c.on_new_group(5);
    c.on_new_group(3);
    assert!(c.pending.is_empty());
    c.on_new_group(7);
    c.on_new_group(6);
    assert_eq!(c.pending.len(), 2);
    assert_eq!(c.pending[0].sequence, 6);
    assert_eq!(c.pending[1].sequence, 7);
}

#[test]
fn version_negotiation() {
    // client offers two lite drafts and an ietf draft; the server
    // supports one of them
    let offered = vec![
        lite::Version::Draft02.value(),
        lite::Version::Draft01.value(),
        ietf::Version::Draft15.value(),
    ];
    let supported = vec![
        Version::Lite(lite::Version::Draft01),
        Version::Ietf(ietf::Version::Draft15),
    ];
    let chosen = select_version(&offered, &supported).unwrap();
    assert_eq!(chosen, Version::Lite(lite::Version::Draft01));
    // no overlap: negotiation fails with a distinct error
    let supported2 = vec![Version::Ietf(ietf::Version::Draft16)];
    assert_eq!(select_version(&offered, &supported2), Err(Error::Version));
}

#[test]
fn path_prefix_laws() {
    let a = Path::new("a/b");
    let b = Path::new("x/y");
    let joined = a.concat(&b);
    assert_eq!(joined.as_str(), "a/b/x/y");
    let back = joined.strip_prefix(&a).unwrap();
    assert_eq!(back.as_str(), "x/y");
    assert!(b.strip_prefix(&a).is_none());
    // associativity on concrete values
    let c = Path::new("z");
    assert_eq!(a.concat(&b).concat(&c).as_str(), a.concat(&b.concat(&c)).as_str());
}

#[test]
fn error_codes_are_distinct() {
    assert_ne!(Error::Cancel.to_code(), Error::Version.to_code());
    assert_eq!(Error::Version.to_code(), 4);
    assert_eq!(Error::NotFound.describe(), "not found");
}
