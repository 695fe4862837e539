use mqtt_proto::v3;
use mqtt_proto::v5;
use mqtt_proto::{
    header_len, remaining_len, total_len, var_int_len, Error, PacketBuf, Pid, Protocol, QoS, QosPid,
    TopicFilter, TopicName,
};

#[test]
fn total_and_remaining_length_round_trip() {
    let cases = [
        (0usize, 2usize),
        (127, 129),
        (128, 131),
        (16383, 16386),
        (16384, 16388),
        (2_097_151, 2_097_155),
        (2_097_152, 2_097_157),
        (268_435_455, 268_435_460),
    ];
    for (rem, total) in cases {
        assert_eq!(total_len(rem), Ok(total));
        assert_eq!(remaining_len(total), rem);
        assert_eq!(header_len(total), total - rem);
    }
}

#[test]
fn length_limits() {
    assert_eq!(total_len(268_435_456), Err(Error::InvalidVarByteInt));
    assert_eq!(var_int_len(268_435_456), Err(Error::InvalidVarByteInt));
    assert_eq!(var_int_len(0), Ok(1));
    assert_eq!(var_int_len(128), Ok(2));
    assert_eq!(var_int_len(2_097_152), Ok(4));
}

#[test]
fn pid_wraps_around_zero() {
    let p = Pid::try_from(65535).unwrap();
    assert_eq!((p + 1).value(), 1);
    assert_eq!((Pid::try_from(1).unwrap() - 1).value(), 65535);
    assert_eq!(((p + 100) - 100).value(), 65535);
    assert_eq!(Pid::try_from(0), Err(Error::ZeroPid));
}

#[test]
fn qos_byte_round_trip() {
    for q in [QoS::Level0, QoS::Level1, QoS::Level2] {
        assert_eq!(QoS::from_u8(q as u8), Ok(q));
    }
    assert_eq!(QoS::from_u8(3), Err(Error::InvalidQos(3)));
}

fn v3_round_trip(packet: v3::Packet) {
    let bytes = packet.encode().unwrap();
    let bytes = bytes.as_slice();
    assert_eq!(packet.encode_len(), Ok(bytes.len()));
    assert_eq!(v3::Packet::decode(bytes), Ok(Some(packet)));
    // every proper prefix is too short to hold the packet
    for n in 0..bytes.len() {
        assert_eq!(v3::Packet::decode(&bytes[..n]), Ok(None));
    }
}

#[test]
fn v3_packets_round_trip() {
    let pid = Pid::try_from(42).unwrap();
    let mut connect = v3::Connect::new("client".to_string(), 30);
    connect.username = Some("user".to_string());
    connect.password = Some(b"pw".to_vec());
    connect.last_will = Some(v3::LastWill::new(
        QoS::Level1,
        TopicName::try_from("will/t").unwrap(),
        b"bye".to_vec(),
    ));
    v3_round_trip(v3::Packet::Connect(connect));
    v3_round_trip(v3::Packet::Connack(v3::Connack::new(true, v3::ConnectReturnCode::Accepted)));
    v3_round_trip(v3::Packet::Publish(v3::Publish::new(
        QosPid::Level2(pid),
        TopicName::try_from("a/b/c").unwrap(),
        vec![0, 1, 2, 255],
    )));
    v3_round_trip(v3::Packet::Subscribe(v3::Subscribe::new(
        pid,
        vec![
            (TopicFilter::try_from("a/+").unwrap(), QoS::Level0),
            (TopicFilter::try_from("#").unwrap(), QoS::Level2),
        ],
    )));
    v3_round_trip(v3::Packet::Suback(v3::Suback::new(
        pid,
        vec![v3::SubscribeReturnCode::MaxLevel1, v3::SubscribeReturnCode::Failure],
    )));
    v3_round_trip(v3::Packet::Unsubscribe(v3::Unsubscribe::new(
        pid,
        vec![TopicFilter::try_from("x/y").unwrap()],
    )));
    v3_round_trip(v3::Packet::Unsuback(pid));
    v3_round_trip(v3::Packet::Pingreq);
    v3_round_trip(v3::Packet::Disconnect);
}

fn v5_round_trip(packet: v5::Packet) {
    let bytes = packet.encode().unwrap();
    let bytes = bytes.as_slice();
    assert_eq!(packet.encode_len(), Ok(bytes.len()));
    assert_eq!(v5::Packet::decode(bytes), Ok(Some(packet)));
    // every proper prefix is too short to hold the packet
    for n in 0..bytes.len() {
        assert_eq!(v5::Packet::decode(&bytes[..n]), Ok(None));
    }
}

#[test]
fn v5_packets_round_trip() {
    let pid = Pid::try_from(7).unwrap();
    let mut publish = v5::Publish::new(
        QosPid::Level1(pid),
        TopicName::try_from("t").unwrap(),
        b"payload".to_vec(),
    );
    publish.properties.payload_is_utf8 = Some(true);
    publish.properties.message_expiry_interval = Some(60);
    publish.properties.user_properties =
        vec![v5::UserProperty { name: "k".to_string(), value: "v".to_string() }];
    v5_round_trip(v5::Packet::Publish(publish));
    v5_round_trip(v5::Packet::Puback(v5::Puback::new(pid, v5::PubackReasonCode::NoMatchingSubscribers)));
    v5_round_trip(v5::Packet::Disconnect(v5::Disconnect::new(v5::DisconnectReasonCode::ServerBusy)));
    v5_round_trip(v5::Packet::Disconnect(v5::Disconnect::new_normal()));
    v5_round_trip(v5::Packet::Auth(v5::Auth::new_success()));
    v5_round_trip(v5::Packet::Pingresp);
    let mut connect = v5::Connect::new("c".to_string(), 10);
    connect.properties.session_expiry_interval = Some(100);
    v5_round_trip(v5::Packet::Connect(connect));
}

#[test]
fn utf8_check_on_strings() {
    // A valid string decodes to the same text; invalid UTF-8 is refused.
    let mut bytes = vec![0x10, 0x12, 0x00, 0x04];
    bytes.extend_from_slice(b"MQTT");
    bytes.extend_from_slice(&[0x04, 0x02, 0x00, 0x0a, 0x00, 0x06]);
    bytes.extend_from_slice("héllo".as_bytes());
    match v3::Packet::decode(&bytes) {
        Ok(Some(v3::Packet::Connect(c))) => {
            assert_eq!(c.client_id, "héllo");
            assert_eq!(c.protocol, Protocol::V311);
        }
        other => panic!("unexpected {:?}", other),
    }
    let mut bad = bytes.clone();
    let n = bad.len();
    bad[n - 1] = 0xff;
    assert_eq!(v3::Packet::decode(&bad), Err(Error::InvalidString));
}

#[test]
fn v3_error_variants() {
    // puback with a zero packet identifier
    assert_eq!(v3::Packet::decode(&[0x40, 0x02, 0x00, 0x00]), Err(Error::ZeroPid));
    // subscribe with no topic
    assert_eq!(v3::Packet::decode(&[0x82, 0x02, 0x00, 0x01]), Err(Error::EmptySubscription));
    // connack with reserved flag bits and with an unknown return code
    assert_eq!(v3::Packet::decode(&[0x20, 0x02, 0x02, 0x00]), Err(Error::InvalidConnackFlags(2)));
    assert_eq!(
        v3::Packet::decode(&[0x20, 0x02, 0x00, 0x06]),
        Err(Error::InvalidConnectReturnCode(6))
    );
    // a fifth byte of remaining length
    assert_eq!(
        v3::Packet::decode(&[0x30, 0x80, 0x80, 0x80, 0x80, 0x01]),
        Err(Error::InvalidVarByteInt)
    );
}

#[test]
fn text_of_versions_and_topics() {
    assert_eq!(Protocol::V310.to_string(), "v3.1");
    assert_eq!(Protocol::V311.to_string(), "v3.1.1");
    assert_eq!(Protocol::V500.to_string(), "v5.0");
    assert_eq!(TopicName::try_from("a/b").unwrap().to_string(), "a/b");
    assert_eq!(TopicFilter::try_from("$share/g/a/#").unwrap().to_string(), "$share/g/a/#");
}

#[test]
fn test_decode_var_int() {
    for (data, value, size) in [
        (&[0xff, 0xff, 0xff, 0x7f][..], 268435455, 4),
        (&[0x80, 0x80, 0x80, 0x01][..], 2097152, 4),
        (&[0xff, 0xff, 0x7f][..], 2097151, 3),
        (&[0x80, 0x80, 0x01][..], 16384, 3),
        (&[0xff, 0x7f][..], 16383, 2),
        (&[0x80, 0x01][..], 128, 2),
        (&[0x7f][..], 127, 1),
        (&[0x00][..], 0, 1),
    ] {
        let mut buf = PacketBuf::new(data);
        assert_eq!(buf.decode_var_int().unwrap(), (value, size));
    }

    let err_data = &[0xff, 0xff, 0xff][..];
    let mut buf = PacketBuf::new(err_data);
    assert!(buf.decode_var_int().unwrap_err().is_eof());
}

#[test]
fn v5_property_length_and_will_property_errors() {
    // properties say one byte, the reason string takes four
    let data: &[u8] = &[0x40, 0x08, 0x00, 0x01, 0x00, 0x01, 0x1f, 0x00, 0x01, b'a'];
    assert_eq!(
        v5::Packet::decode(data),
        Err(v5::ErrorV5::InvalidPropertyLength(1))
    );
    // a will message with a session expiry interval
    let mut body = vec![0x00, 0x04, b'M', b'Q', b'T', b'T', 0x05, 0x04, 0x00, 0x0a, 0x00];
    body.extend_from_slice(&[0x00, 0x01, b'c']);
    body.extend_from_slice(&[0x05, 0x11, 0x00, 0x00, 0x00, 0x0a]);
    body.extend_from_slice(&[0x00, 0x01, b't', 0x00, 0x00]);
    let mut data = vec![0x10, body.len() as u8];
    data.extend_from_slice(&body);
    assert_eq!(
        v5::Packet::decode(&data),
        Err(v5::ErrorV5::InvalidWillProperty(v5::PropertyId::SessionExpiryInterval))
    );
}

#[test]
fn packets_followed_by_other_bytes() {
    let pid = Pid::try_from(9).unwrap();
    let first = v5::Packet::Puback(v5::Puback::new_success(pid));
    let second = v5::Packet::Pingreq;
    let mut bytes = first.encode().unwrap().as_slice().to_vec();
    let split = bytes.len();
    bytes.extend_from_slice(second.encode().unwrap().as_slice());
    assert_eq!(v5::Packet::decode(&bytes), Ok(Some(first)));
    assert_eq!(v5::Packet::decode(&bytes[split..]), Ok(Some(second)));

    let first = v3::Packet::Unsuback(pid);
    let mut bytes = first.encode().unwrap().as_slice().to_vec();
    bytes.extend_from_slice(&[0xff, 0xff, 0xff]);
    assert_eq!(v3::Packet::decode(&bytes), Ok(Some(first)));
}

#[test]
fn v3_subscribe_buffer_and_stream_decoders() {
    let header = v3::Header::new(v3::PacketType::Subscribe, false, QoS::Level1, false, 8, 1);
    // the buffer ends right after the packet id: an empty subscription
    let mut buf = PacketBuf::new(&[0, 10]);
    assert_eq!(v3::Subscribe::decode(&mut buf, header), Err(Error::EmptySubscription));
    // the stream decoder goes by the remaining length and runs out of bytes
    let mut buf = PacketBuf::new(&[0, 10]);
    assert!(v3::Subscribe::decode_stream(&mut buf, header).unwrap_err().is_eof());

    let body = [0, 10, 0, 3, b'a', b'/', b'b', 1];
    let expected = v3::Subscribe::new(
        Pid::try_from(10).unwrap(),
        vec![(TopicFilter::try_from("a/b").unwrap(), QoS::Level1)],
    );
    let mut buf = PacketBuf::new(&body);
    assert_eq!(v3::Subscribe::decode(&mut buf, header), Ok(expected.clone()));
    assert_eq!(buf.position(), 8);

    // bytes after the body: the buffer decoder reads them as another entry,
    // the stream decoder stops at the remaining length
    let longer = [0, 10, 0, 3, b'a', b'/', b'b', 1, 0];
    let mut buf = PacketBuf::new(&longer);
    assert!(v3::Subscribe::decode(&mut buf, header).unwrap_err().is_eof());
    let mut buf = PacketBuf::new(&longer);
    assert_eq!(v3::Subscribe::decode_stream(&mut buf, header), Ok(expected));
    assert_eq!(buf.position(), 8);

    // the entries outrun the remaining length while bytes are left
    let short_header = v3::Header::new(v3::PacketType::Subscribe, false, QoS::Level1, false, 5, 1);
    let mut buf = PacketBuf::new(&body);
    assert_eq!(
        v3::Subscribe::decode(&mut buf, short_header),
        Err(Error::InvalidRemainingLength)
    );
}

#[test]
fn shared_filter_parts_rebuild_the_filter() {
    for s in ["$share/abc//xyz", "$share/abc//a/x/+", "$share/abc/+", "$share/g/a/b/#"] {
        let f = TopicFilter::try_from(s).unwrap();
        assert!(f.is_shared());
        let filter = f.shared_filter().unwrap();
        let group = f.shared_group_name().unwrap();
        assert!(!filter.is_empty());
        assert_eq!(format!("$share/{}/{}", group, filter), s);
        assert_eq!(f.shared_info(), Some((group, filter)));
    }
    let f = TopicFilter::try_from("a/b").unwrap();
    assert_eq!(f.shared_filter(), None);
    assert_eq!(f.shared_info(), None);
}
