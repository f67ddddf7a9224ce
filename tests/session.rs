use nt4_session::clock::{client_time, offset_update, server_time, OffsetUpdate};
use nt4_session::frame::{
    classify, decode_frame, decode_inbound, encode_value_frame, read_int, Inbound,
    UnsignedIntOrNegativeOne,
};
use nt4_session::ids::{next_pubuid, next_subuid};
use nt4_session::session::{matches_topic, Routing, Session, SubscriptionRecord, TimeReplyAction};
use nt4_session::topic::{PublishProperties, PublishedTopic, SubscriptionOptions};
use nt4_session::types::Type;
use serde_json::Value as Json;

fn msgpack(v: &rmpv::Value) -> Vec<u8> {
    let mut buf = Vec::new();
    rmpv::encode::write_value(&mut buf, v).unwrap();
    buf
}

fn server_value_frame(id: i64, ts: u64, tag: u64, value: &rmpv::Value) -> Vec<u8> {
    msgpack(&rmpv::Value::Array(vec![
        rmpv::Value::from(id),
        rmpv::Value::from(ts),
        rmpv::Value::from(tag),
        value.clone(),
    ]))
}

fn parse(text: &str) -> Vec<Json> {
    match serde_json::from_str::<Json>(text).unwrap() {
        Json::Array(items) => items,
        other => panic!("not an array: {other}"),
    }
}

fn sub(subuid: i32, topics: &[&str], prefix: Option<bool>) -> SubscriptionRecord {
    SubscriptionRecord {
        subuid,
        topics: topics.iter().map(|t| t.to_string()).collect(),
        options: prefix.map(|p| SubscriptionOptions { periodic_ms: None, all: None, topicsonly: None, prefix: Some(p) }),
    }
}

fn no_props() -> PublishProperties {
    PublishProperties { persistent: None, retained: None, rest: None }
}

#[test]
fn announce_then_value_reaches_subscriber() {
    let mut s = Session::new();
    let id = s.new_sub_id();
    s.record_subscription(sub(id, &["/x"], None));
    s.handle_announce("/x".to_string(), 3, None, Type::Double, no_props());
    let value = rmpv::Value::F64(2.5);
    let bytes = server_value_frame(3, 1000, 1, &value);
    match decode_inbound(&bytes) {
        Inbound::Value { id: tid, timestamp, value_type, value: v } => {
            assert_eq!(tid, 3);
            assert_eq!(timestamp, 1000);
            assert_eq!(value_type, Type::Double);
            let decoded = rmpv::decode::read_value(&mut v.as_slice()).unwrap();
            assert_eq!(decoded, rmpv::Value::F64(2.5));
        }
        other => panic!("unexpected {other:?}"),
    }
    match s.route_value(3, false, &vec![]) {
        Routing::Deliver { topic_name, subuids } => {
            assert_eq!(topic_name, "/x");
            assert_eq!(subuids, vec![id]);
        }
        other => panic!("unexpected {other:?}"),
    }
}

#[test]
fn value_before_announce_is_retried() {
    let mut s = Session::new();
    let id = s.new_sub_id();
    s.record_subscription(sub(id, &["/x"], None));
    assert!(matches!(s.route_value(3, false, &vec![]), Routing::Retry));
    s.handle_announce("/x".to_string(), 3, None, Type::Double, no_props());
    match s.route_value(3, true, &vec![]) {
        Routing::Deliver { topic_name, subuids } => {
            assert_eq!(topic_name, "/x");
            assert_eq!(subuids, vec![id]);
        }
        other => panic!("unexpected {other:?}"),
    }
}

#[test]
fn value_still_unknown_after_retry_is_dropped() {
    let mut s = Session::new();
    assert!(matches!(s.route_value(9, true, &vec![]), Routing::Drop));
}

#[test]
fn reconnect_rehydration_holds_publish_and_subscribe() {
    let mut s = Session::new();
    let p = s.new_topic_id();
    s.record_published(PublishedTopic { name: "/a".to_string(), pubuid: p, topic_type: Type::Int, properties: None });
    let q = s.new_sub_id();
    s.record_subscription(sub(q, &["/b"], None));
    let frame = s.rehydrate(&vec![]);
    let msgs = parse(&frame);
    assert_eq!(msgs.len(), 2);
    assert_eq!(msgs[0]["method"], "publish");
    assert_eq!(msgs[0]["params"]["name"], "/a");
    assert_eq!(msgs[0]["params"]["pubuid"], p as u64);
    assert_eq!(msgs[0]["params"]["type"], "int");
    assert_eq!(msgs[1]["method"], "subscribe");
    assert_eq!(msgs[1]["params"]["subuid"], q as i64);
    assert_eq!(msgs[1]["params"]["topics"], Json::Array(vec![Json::from("/b")]));
}

#[test]
fn rehydration_prunes_dropped_subscriptions() {
    let mut s = Session::new();
    let a = s.new_sub_id();
    s.record_subscription(sub(a, &["/a"], None));
    let b = s.new_sub_id();
    s.record_subscription(sub(b, &["/b"], None));
    let msgs = parse(&s.rehydrate(&vec![a]));
    assert_eq!(msgs.len(), 1);
    assert_eq!(msgs[0]["params"]["subuid"], b as i64);
    assert_eq!(s.subscription_ids(), vec![b]);
    assert_eq!(s.announced_topic(-1).unwrap().name, "Time");
}

#[test]
fn orphan_subscription_is_pruned_on_routing() {
    let mut s = Session::new();
    let id = s.new_sub_id();
    s.record_subscription(sub(id, &["/x"], None));
    s.handle_announce("/x".to_string(), 3, None, Type::Double, no_props());
    match s.route_value(3, false, &vec![id]) {
        Routing::Deliver { subuids, .. } => assert!(subuids.is_empty()),
        other => panic!("unexpected {other:?}"),
    }
    assert!(s.subscription_ids().is_empty());
}

#[test]
fn clock_overflow_recovers_after_reanchor() {
    let mut s = Session::new();
    // The echoed time is from before the anchor was renewed, so the round trip underflows.
    assert!(!s.handle_new_timestamp(5_000_000, Some(4_000_000_000), 10));
    assert_eq!(s.offset(), 0);
    assert!(s.handle_new_timestamp(5_000_000, Some(100), 300));
    // rtt = 200, server time at receipt = 5_000_000 - 100, offset = that - 300
    assert_eq!(s.offset(), 4_999_600);
}

#[test]
fn publish_with_properties_is_batched() {
    let props = Some(PublishProperties { persistent: Some(true), retained: None, rest: None });
    let frame = Session::publish_frame("/t", 1, Type::Double, &props);
    let msgs = parse(&frame);
    assert_eq!(msgs.len(), 2);
    assert_eq!(msgs[0]["method"], "publish");
    assert_eq!(msgs[0]["params"]["name"], "/t");
    assert_eq!(msgs[0]["params"]["type"], "double");
    assert_eq!(msgs[0]["params"]["properties"]["persistent"], true);
    assert_eq!(msgs[1]["method"], "setproperties");
    assert_eq!(msgs[1]["params"]["name"], "/t");
    assert_eq!(msgs[1]["params"]["update"]["persistent"], true);
}

#[test]
fn publish_without_properties_is_one_message() {
    let frame = Session::publish_frame("/t", 7, Type::Int, &None);
    assert_eq!(frame, r#"[{"method":"publish","params":{"name":"/t","pubuid":7,"type":"int","properties":{}}}]"#);
}

#[test]
fn published_topic_is_recorded_and_unpublished() {
    let mut s = Session::new();
    let p = s.new_topic_id();
    assert_eq!(p, 1);
    s.record_published(PublishedTopic { name: "/a".to_string(), pubuid: p, topic_type: Type::Int, properties: None });
    assert_eq!(s.published_topic(p).unwrap().name, "/a");
    let frame = s.unpublish(p);
    assert_eq!(frame, r#"[{"method":"unpublish","params":{"pubuid":1}}]"#);
    assert!(s.published_topic(p).is_none());
}

#[test]
fn recording_the_same_pubuid_replaces_the_entry() {
    let mut s = Session::new();
    s.record_published(PublishedTopic { name: "/a".to_string(), pubuid: 4, topic_type: Type::Int, properties: None });
    s.record_published(PublishedTopic { name: "/b".to_string(), pubuid: 4, topic_type: Type::Int, properties: None });
    assert_eq!(s.published_topic(4).unwrap().name, "/b");
    let msgs = parse(&s.rehydrate(&vec![]));
    assert_eq!(msgs.len(), 1);
}

#[test]
fn unsubscribe_removes_and_reports() {
    let mut s = Session::new();
    let id = s.new_sub_id();
    s.record_subscription(sub(id, &["/x"], None));
    assert_eq!(s.unsubscribe(id), r#"[{"method":"unsubscribe","params":{"subuid":1}}]"#);
    assert!(s.subscription_ids().is_empty());
}

#[test]
fn subscribe_frame_lists_topics_and_options() {
    let topics = vec!["/a".to_string(), "/b\"q".to_string()];
    let opts = Some(SubscriptionOptions { periodic_ms: Some(100), all: Some(true), topicsonly: None, prefix: Some(false) });
    let msgs = parse(&Session::subscribe_frame(5, &topics, &opts));
    assert_eq!(msgs.len(), 1);
    assert_eq!(msgs[0]["method"], "subscribe");
    assert_eq!(msgs[0]["params"]["subuid"], 5);
    assert_eq!(msgs[0]["params"]["topics"][1], "/b\"q");
    assert_eq!(msgs[0]["params"]["options"]["periodic"].as_f64(), Some(0.1));
    assert_eq!(msgs[0]["params"]["options"]["all"], true);
    assert_eq!(msgs[0]["params"]["options"]["prefix"], false);
    assert!(msgs[0]["params"]["options"].get("topicsonly").is_none());
}

#[test]
fn control_messages_survive_json_parsing() {
    let props = PublishProperties {
        persistent: Some(false),
        retained: Some(true),
        rest: Some(vec![("cached".to_string(), "[1,2]".to_string())]),
    };
    let msgs = parse(&Session::publish_frame("/w\\x", 42, Type::StringArray, &Some(props)));
    assert_eq!(msgs[0]["params"]["name"], "/w\\x");
    assert_eq!(msgs[0]["params"]["pubuid"], 42);
    assert_eq!(msgs[0]["params"]["type"], "string[]");
    assert_eq!(msgs[0]["params"]["properties"]["persistent"], false);
    assert_eq!(msgs[0]["params"]["properties"]["retained"], true);
    assert_eq!(msgs[0]["params"]["properties"]["cached"][1], 2);
    assert_eq!(msgs[1]["params"]["update"]["cached"][0], 1);
}

#[test]
fn prefix_subscription_matches_by_prefix() {
    let mut s = Session::new();
    s.record_subscription(sub(1, &["/sensors/"], Some(true)));
    s.record_subscription(sub(2, &["/sensors"], None));
    s.record_subscription(sub(3, &["/sensors/a"], None));
    s.handle_announce("/sensors/a".to_string(), 0, Some(9), Type::Int, no_props());
    match s.route_value(0, false, &vec![]) {
        Routing::Deliver { subuids, .. } => assert_eq!(subuids, vec![1, 3]),
        other => panic!("unexpected {other:?}"),
    }
    assert!(matches_topic(&sub(4, &["/x"], None), "/x"));
    assert!(!matches_topic(&sub(4, &["/x"], None), "/xy"));
    assert!(matches_topic(&sub(4, &["/x"], Some(true)), "/xy"));
}

#[test]
fn reannounce_only_updates_pubuid() {
    let mut s = Session::new();
    s.handle_announce("/x".to_string(), 3, None, Type::Double, no_props());
    s.handle_announce("/other".to_string(), 3, Some(12), Type::Int, no_props());
    let t = s.announced_topic(3).unwrap();
    assert_eq!(t.name, "/x");
    assert_eq!(t.topic_type, Type::Double);
    assert_eq!(t.pubuid, Some(12));
    let removed = s.handle_unannounce(3).unwrap();
    assert_eq!(removed.name, "/x");
    assert!(s.announced_topic(3).is_none());
    assert!(s.handle_unannounce(-1).is_none());
    assert!(s.announced_topic(-1).is_some());
}

#[test]
fn value_frame_round_trips() {
    let value = msgpack(&rmpv::Value::String("hi".into()));
    let bytes = encode_value_frame(UnsignedIntOrNegativeOne::UnsignedInt(7), 123456, Type::Str, &value);
    let f = decode_frame(&bytes).unwrap();
    assert_eq!((f.id, f.timestamp, f.type_idx), (7, 123456, 4));
    assert_eq!(f.value, value);
    let decoded = rmpv::decode::read_value(&mut bytes.as_slice()).unwrap();
    assert_eq!(
        decoded,
        rmpv::Value::Array(vec![7u32.into(), 123456u32.into(), 4u32.into(), "hi".into()])
    );
}

#[test]
fn time_ping_has_expected_shape() {
    let s = Session::new();
    let ping = s.time_ping(99);
    let decoded = rmpv::decode::read_value(&mut ping.as_slice()).unwrap();
    assert_eq!(decoded, rmpv::Value::Array(vec![(-1i32).into(), 0u32.into(), 2u32.into(), 99u32.into()]));
}

#[test]
fn time_reply_is_classified() {
    let bytes = server_value_frame(-1, 777, 2, &rmpv::Value::from(55));
    match decode_inbound(&bytes) {
        Inbound::TimeReply { server_timestamp, echoed } => {
            assert_eq!(server_timestamp, 777);
            assert_eq!(echoed, Some(55));
        }
        other => panic!("unexpected {other:?}"),
    }
}

#[test]
fn bad_frames_are_ignored() {
    assert!(matches!(decode_inbound(&vec![]), Inbound::Ignored));
    let three = msgpack(&rmpv::Value::Array(vec![1.into(), 2.into(), 3.into()]));
    assert!(matches!(decode_inbound(&three), Inbound::Ignored));
    let low_id = server_value_frame(-2, 1, 1, &rmpv::Value::from(1));
    assert!(matches!(decode_inbound(&low_id), Inbound::Ignored));
    let bad_tag = server_value_frame(3, 1, 9, &rmpv::Value::from(1));
    assert!(matches!(decode_inbound(&bad_tag), Inbound::Ignored));
    let f = decode_frame(&server_value_frame(3, 1, 1, &rmpv::Value::from(1))).unwrap();
    assert!(matches!(classify(f), Inbound::Value { .. }));
}

#[test]
fn integers_of_every_width_are_read() {
    for v in [0i64, 5, 127, 128, 255, 256, 65535, 65536, -1, -32, -33, -128, -129, -40000, i64::MIN, i64::MAX] {
        let bytes = msgpack(&rmpv::Value::from(v));
        assert_eq!(read_int(&bytes, 0), Some((v as i128, bytes.len())), "value {v}");
    }
    let big = msgpack(&rmpv::Value::from(u64::MAX));
    assert_eq!(read_int(&big, 0), Some((u64::MAX as i128, 9)));
}

#[test]
fn ids_wrap_to_one() {
    let mut c: u32 = u32::MAX;
    assert_eq!(next_pubuid(&mut c), 1);
    assert_eq!(c, 1);
    let mut d: i32 = i32::MAX;
    assert_eq!(next_subuid(&mut d), 1);
    let mut e: i32 = 0;
    assert_eq!(next_subuid(&mut e), 1);
}

#[test]
fn server_time_is_client_time_plus_offset() {
    assert_eq!(server_time(10, 5), 15);
    assert!(server_time(1000, 0) >= 1000);
    assert_eq!(server_time(u32::MAX, 2), 1);
    assert_eq!(client_time((1u128 << 32) + 7), 7);
    let mut s = Session::new();
    assert!(s.handle_new_timestamp(2000, Some(100), 300));
    assert_eq!(s.server_time(300), 300 + 1600);
}

#[test]
fn offset_update_steps() {
    assert_eq!(offset_update(1000, None, 5), OffsetUpdate::Unchanged);
    assert_eq!(offset_update(1000, Some(100), 300), OffsetUpdate::Adjusted(600));
    assert_eq!(offset_update(50, Some(0), 300), OffsetUpdate::Overflow);
    assert_eq!(offset_update(1000, Some(0), 1000), OffsetUpdate::Overflow);
}

#[test]
fn type_tags_round_trip() {
    for t in [Type::Boolean, Type::Double, Type::Int, Type::Float, Type::Str, Type::Raw, Type::BooleanArray, Type::DoubleArray, Type::IntArray, Type::FloatArray, Type::StringArray] {
        assert_eq!(Type::from_num(t.as_u8() as u64), Some(t));
    }
    assert_eq!(Type::Json.as_u8(), 4);
    assert_eq!(Type::from_num(6), None);
    assert_eq!(Type::Msgpack.name(), "msgpack");
}

#[test]
fn time_update_is_due_every_five_seconds() {
    assert!(!nt4_session::clock::time_update_due(4));
    assert!(nt4_session::clock::time_update_due(5));
    assert!(nt4_session::clock::time_update_due(60));
}

#[test]
fn publish_topic_allocates_records_and_frames() {
    let mut s = Session::new();
    let (first, frame, replaced) = s.publish_topic("/t".to_string(), Type::Boolean, None);
    assert!(replaced.is_none());
    assert_eq!(first, 1);
    assert_eq!(frame, r#"[{"method":"publish","params":{"name":"/t","pubuid":1,"type":"boolean","properties":{}}}]"#);
    assert_eq!(s.published_topic(1).unwrap().name, "/t");
    let (second, _, _) = s.publish_topic("/u".to_string(), Type::Boolean, None);
    assert_eq!(second, 2);
    s.remove_published(second);
    assert!(s.published_topic(2).is_none());
    assert!(s.published_topic(1).is_some());
    let (subuid, frame, _) = s.subscribe_w_options(vec!["/x".to_string()], None);
    assert_eq!(subuid, 1);
    assert_eq!(frame, r#"[{"method":"subscribe","params":{"subuid":1,"topics":["/x"],"options":{}}}]"#);
    assert_eq!(s.subscription_ids(), vec![1]);
    s.remove_subscription(1);
    assert!(s.subscription_ids().is_empty());
}

#[test]
fn set_properties_frame_is_one_message() {
    let props = PublishProperties { persistent: None, retained: Some(true), rest: None };
    assert_eq!(
        Session::set_properties("/t", &props),
        r#"[{"method":"setproperties","params":{"name":"/t","update":{"retained":true}}}]"#
    );
}

#[test]
fn type_names_are_looked_up() {
    assert_eq!(Type::from_name("double"), Some(Type::Double));
    assert_eq!(Type::from_name("string[]"), Some(Type::StringArray));
    assert_eq!(Type::from_name("json"), Some(Type::Json));
    assert_eq!(Type::from_name("doubl"), None);
    assert_eq!(Type::from_name(""), None);
}

#[test]
fn sixteen_and_thirty_two_bit_array_headers_are_read() {
    let body = [0x03u8, 0xcd, 0x03, 0xe8, 0x01, 0xc3];
    let mut a16 = vec![0xdcu8, 0x00, 0x04];
    a16.extend_from_slice(&body);
    let f = decode_frame(&a16).unwrap();
    assert_eq!((f.id, f.timestamp, f.type_idx, f.value.clone()), (3, 1000, 1, vec![0xc3]));
    let mut a32 = vec![0xddu8, 0x00, 0x00, 0x00, 0x04];
    a32.extend_from_slice(&body);
    assert_eq!(decode_frame(&a32).unwrap().timestamp, 1000);
    let mut five = vec![0x95u8];
    five.extend_from_slice(&body);
    assert!(decode_frame(&five).is_none());
}

#[test]
fn names_are_escaped_as_json_strings() {
    let frame = Session::publish_frame("a\"b\\c\n\u{1}é", 3, Type::Int, &None);
    assert!(frame.contains(r#""name":"a\"b\\c\n\u0001é""#), "{frame}");
}

#[test]
fn out_of_range_ids_and_timestamps_are_ignored() {
    let v = rmpv::Value::from(1);
    for (id, ts) in [(-4294967293i64, 1000u64), (-4294967297, 1000), (1i64 << 31, 1000), (3, 1u64 << 32), (-1, 1u64 << 32)] {
        let bytes = server_value_frame(id, ts, 1, &v);
        assert!(matches!(decode_inbound(&bytes), Inbound::Ignored), "id {id} ts {ts}");
    }
    let bytes = server_value_frame(i32::MAX as i64, u32::MAX as u64, 1, &v);
    assert!(matches!(decode_inbound(&bytes), Inbound::Value { id: i32::MAX, timestamp: u32::MAX, .. }));
}

#[test]
fn clock_overflow_asks_for_one_reanchor() {
    let mut s = Session::new();
    assert_eq!(s.on_time_reply(5_000_000, Some(4_000_000_000), 10, false), TimeReplyAction::ReanchorAndRetry);
    assert_eq!(s.on_time_reply(5_000_000, Some(4_000_000_000), 10, true), TimeReplyAction::GiveUp);
    assert_eq!(s.offset(), 0);
    assert_eq!(s.on_time_reply(5_000_000, Some(100), 300, true), TimeReplyAction::Done);
    assert_eq!(s.offset(), 4_999_600);
}

#[test]
fn failed_publish_rolls_back_to_the_replaced_entry() {
    let mut s = Session::new();
    s.record_published(PublishedTopic { name: "/old".to_string(), pubuid: 1, topic_type: Type::Int, properties: None });
    let (pubuid, _, replaced) = s.publish_topic("/new".to_string(), Type::Int, None);
    assert_eq!(pubuid, 1);
    assert_eq!(replaced.as_ref().unwrap().name, "/old");
    s.remove_published(pubuid);
    assert!(s.record_published(replaced.unwrap()).is_none());
    assert_eq!(s.published_topic(1).unwrap().name, "/old");
}
