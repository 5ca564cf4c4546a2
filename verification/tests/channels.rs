use djicap::channels::{ChannelRegistry, Channels, MediaKind, MessageHeader};

#[test]
fn registry_numbers_messages_per_channel() {
    let mut reg = ChannelRegistry::new();
    let osd = "/dji/osd".to_string();
    let osd_schema = "dji.OSD".to_string();
    let gps = "/foxglove/gps".to_string();
    let fix = "foxglove.LocationFix".to_string();

    assert_eq!(reg.lookup(&osd, &osd_schema), None);
    reg.register(osd.clone(), osd_schema.clone(), 3);
    assert_eq!(reg.lookup(&osd, &osd_schema), Some((3, 0)));

    let h = reg.stamp(&osd, &osd_schema, 42);
    assert_eq!(h, MessageHeader { channel_id: 3, sequence: 0, log_time: 42, publish_time: 42 });
    let h = reg.stamp(&osd, &osd_schema, 43);
    assert_eq!(h.sequence, 1);
    assert_eq!(h.log_time, 43);

    reg.register(gps.clone(), fix.clone(), 4);
    let h = reg.stamp(&gps, &fix, 44);
    assert_eq!(h, MessageHeader { channel_id: 4, sequence: 0, log_time: 44, publish_time: 44 });
    assert_eq!(reg.lookup(&osd, &osd_schema), Some((3, 2)));
    assert_eq!(reg.lookup(&gps, &fix), Some((4, 1)));
}

#[test]
fn registry_keys_by_topic_and_schema() {
    let mut reg = ChannelRegistry::new();
    let topic = "/foxglove/gps".to_string();
    reg.register(topic.clone(), "a".to_string(), 1);
    assert_eq!(reg.lookup(&topic, &"b".to_string()), None);
    reg.register(topic.clone(), "b".to_string(), 2);
    assert_eq!(reg.lookup(&topic, &"a".to_string()), Some((1, 0)));
    assert_eq!(reg.lookup(&topic, &"b".to_string()), Some((2, 0)));
}

#[test]
fn media_channels_are_independent() {
    let mut ch = Channels::new();
    assert_eq!(ch.state(MediaKind::Video), None);
    assert_eq!(ch.state(MediaKind::Image), None);
    ch.open(MediaKind::Video, 7);
    assert_eq!(ch.state(MediaKind::Video), Some((7, 0)));
    let h0 = ch.next_header(MediaKind::Video, 100);
    let h1 = ch.next_header(MediaKind::Video, 200);
    assert_eq!(h0, MessageHeader { channel_id: 7, sequence: 0, log_time: 100, publish_time: 100 });
    assert_eq!(h1, MessageHeader { channel_id: 7, sequence: 1, log_time: 200, publish_time: 200 });
    assert_eq!(ch.state(MediaKind::Image), None);
    ch.open(MediaKind::Image, 8);
    let h = ch.next_header(MediaKind::Image, 300);
    assert_eq!(h, MessageHeader { channel_id: 8, sequence: 0, log_time: 300, publish_time: 300 });
    assert_eq!(ch.state(MediaKind::Video), Some((7, 2)));
}
