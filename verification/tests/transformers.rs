use djicap::pipeline::{frame_time_ns, missing_key_warning, usable_timestamp};
use djicap::schemas::{
    BATTERY_SCHEMA, FRAME_TRANSFORM_SCHEMA, GIMBAL_SCHEMA, HOME_SCHEMA, JOINT_STATE_SCHEMA,
    OSD_SCHEMA, RC_SCHEMA,
};
use djicap::schemas::LOCATION_FIX_SCHEMA;
use djicap::transformers::{
    drone_tf_message, gps_message, make_msg, map_origin_message, split_timestamp, FusedOrigin,
    FusedPlan, JointStateTransformer, RawTransformer,
};
use dji_log_parser::frame::Frame;

#[test]
fn messages_carry_topic_schema_and_payload() {
    let m = make_msg("/t", "s.T", "{}", vec![1, 2]);
    assert_eq!(m.topic, "/t");
    assert_eq!(m.schema_name, "s.T");
    assert_eq!(m.schema_encoding, "jsonschema");
    assert_eq!(m.schema_data, b"{}".to_vec());
    assert_eq!(m.payload, vec![1, 2]);
}

#[test]
fn raw_transformer_writes_five_topics() {
    let mut t = RawTransformer::new();
    let frame = Frame::default();
    let msgs = t.transform(&frame, 0).unwrap();
    let expected = [
        ("/dji/osd", "dji.OSD", OSD_SCHEMA),
        ("/dji/gimbal", "dji.Gimbal", GIMBAL_SCHEMA),
        ("/dji/battery", "dji.Battery", BATTERY_SCHEMA),
        ("/dji/rc", "dji.RC", RC_SCHEMA),
        ("/dji/home", "dji.Home", HOME_SCHEMA),
    ];
    assert_eq!(msgs.len(), 5);
    for (m, (topic, name, schema)) in msgs.iter().zip(expected.iter()) {
        assert_eq!(m.topic, *topic);
        assert_eq!(m.schema_name, *name);
        assert_eq!(m.schema_encoding, "jsonschema");
        assert_eq!(m.schema_data, schema.as_bytes().to_vec());
        assert!(m.payload.starts_with(b"{"));
    }
    assert_eq!(msgs[0].payload, serde_json::to_vec(&frame.osd).unwrap());
    assert_eq!(msgs[4].payload, serde_json::to_vec(&frame.home).unwrap());
}

#[test]
fn raw_messages_in_order() {
    let t = RawTransformer::new();
    let msgs = t.messages(vec![1], vec![2], vec![3], vec![4], vec![5]);
    let payloads: Vec<Vec<u8>> = msgs.iter().map(|m| m.payload.clone()).collect();
    assert_eq!(payloads, vec![vec![1], vec![2], vec![3], vec![4], vec![5]]);
    assert_eq!(msgs[2].topic, "/dji/battery");
}

#[test]
fn joint_state_messages() {
    let t = JointStateTransformer::new();
    let msgs = t.messages(vec![1], vec![2], vec![3]);
    assert_eq!(msgs.len(), 3);
    assert_eq!(msgs[0].topic, "/joint_states");
    assert_eq!(msgs[0].schema_name, "sensor_msgs/JointState");
    assert_eq!(msgs[0].schema_data, JOINT_STATE_SCHEMA.as_bytes().to_vec());
    assert_eq!(msgs[1].topic, "/foxglove/gimbal/tf");
    assert_eq!(msgs[2].topic, "/foxglove/camera/tf");
    assert_eq!(msgs[2].schema_name, "foxglove.FrameTransform");
    assert_eq!(msgs[2].schema_data, FRAME_TRANSFORM_SCHEMA.as_bytes().to_vec());
    assert_eq!(msgs[2].payload, vec![3]);
}

#[test]
fn timestamps_split_into_seconds_and_nanoseconds() {
    assert_eq!(split_timestamp(1_500_000_000), (1, 500_000_000));
    assert_eq!(split_timestamp(999_999_999), (0, 999_999_999));
    assert_eq!(split_timestamp(u64::MAX), (18_446_744_073, 709_551_615));
}

#[test]
fn map_origin_is_written_once() {
    let mut o = FusedOrigin::new();
    let none = FusedPlan { map_origin: false, gps: false, drone_tf: false };
    assert_eq!(o.plan(false), none);
    assert_eq!(o.plan(true), FusedPlan { map_origin: true, gps: true, drone_tf: true });
    assert_eq!(o.plan(true), FusedPlan { map_origin: false, gps: true, drone_tf: true });
    assert_eq!(o.plan(false), none);
    assert_eq!(o.plan(true), FusedPlan { map_origin: false, gps: true, drone_tf: true });
}

#[test]
fn frames_need_a_positive_time() {
    assert_eq!(usable_timestamp(Some(5)), Some(5));
    assert_eq!(usable_timestamp(Some(0)), None);
    assert_eq!(usable_timestamp(Some(-1)), None);
    assert_eq!(usable_timestamp(None), None);
    // The default frame is stamped at the epoch.
    assert_eq!(frame_time_ns(&Frame::default()), None);
}

#[test]
fn encrypted_logs_without_key_warn() {
    assert!(missing_key_warning(13, false));
    assert!(missing_key_warning(14, false));
    assert!(!missing_key_warning(12, false));
    assert!(!missing_key_warning(13, true));
}

#[test]
fn fused_topics() {
    let m = map_origin_message(vec![1]);
    assert_eq!(m.topic, "/foxglove/map_origin");
    assert_eq!(m.schema_name, "foxglove.LocationFix");
    assert_eq!(m.schema_data, LOCATION_FIX_SCHEMA.as_bytes().to_vec());
    let g = gps_message(vec![2]);
    assert_eq!(g.topic, "/foxglove/gps");
    assert_eq!(g.schema_name, "foxglove.LocationFix");
    assert_eq!(g.payload, vec![2]);
    let t = drone_tf_message(vec![3]);
    assert_eq!(t.topic, "/foxglove/drone/tf");
    assert_eq!(t.schema_name, "foxglove.FrameTransform");
    assert_eq!(t.schema_data, FRAME_TRANSFORM_SCHEMA.as_bytes().to_vec());
}

#[test]
fn raw_transformer_ignores_time_and_history() {
    let mut a = RawTransformer::new();
    let mut b = RawTransformer::new();
    let mut frame = Frame::default();
    frame.osd.latitude = 51.5;
    frame.gimbal.pitch = -30.0;
    let other = Frame::default();
    let _ = b.transform(&other, 7).unwrap();
    let x = a.transform(&frame, 1).unwrap();
    let y = b.transform(&frame, 99).unwrap();
    assert_eq!(x.len(), y.len());
    for (m, n) in x.iter().zip(y.iter()) {
        assert_eq!(m.topic, n.topic);
        assert_eq!(m.payload, n.payload);
    }
    assert_eq!(x[1].payload, serde_json::to_vec(&frame.gimbal).unwrap());
    assert_ne!(x[0].payload, x[1].payload);
}
