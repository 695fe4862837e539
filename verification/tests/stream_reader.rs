use mqtt_proto::v3;
use mqtt_proto::v5;
use mqtt_proto::{
    AcquirePlan, ReturnPlan, Error, GenericPollPacketState, HeaderProgress, MockBufferConfig, Pid, QosPid, ReadStrategy,
    TopicName,
};

fn fresh<H>() -> GenericPollPacketState<H> {
    GenericPollPacketState::default()
}

/// Feeds `bytes` to the header reader; returns every step's result.
fn feed_all<H>(state: &mut GenericPollPacketState<H>, bytes: &[u8]) -> Vec<Result<HeaderProgress, Error>> {
    let mut out = Vec::new();
    for b in bytes {
        let r = state.feed_header(*b);
        let stop = !matches!(r, Ok(HeaderProgress::Pending));
        out.push(r);
        if stop {
            break;
        }
    }
    out
}

/// Reads a whole v3 packet through the stream reader's steps.
fn read_v3(bytes: &[u8]) -> Result<(usize, v3::Packet), Error> {
    let mut state: v3::PollPacketState = fresh();
    let mut i = 0;
    loop {
        let r = state.feed_header(bytes[i])?;
        i += 1;
        if let HeaderProgress::Complete { .. } = r {
            break;
        }
    }
    if let Some(done) = v3::poll_header_complete(&mut state)? {
        return Ok(done);
    }
    v3::poll_body_complete(&mut state, &bytes[i..])
}

/// Reads a whole v5 packet through the stream reader's steps.
fn read_v5(bytes: &[u8]) -> Result<(usize, v5::Packet), v5::ErrorV5> {
    let mut state: v5::PollPacketState = fresh();
    let mut i = 0;
    loop {
        let r = state.feed_header(bytes[i]).map_err(v5::ErrorV5::from)?;
        i += 1;
        if let HeaderProgress::Complete { .. } = r {
            break;
        }
    }
    if let Some(done) = v5::poll_header_complete(&mut state)? {
        return Ok(done);
    }
    v5::poll_body_complete(&mut state, &bytes[i..])
}

#[test]
fn feed_header_one_byte_length() {
    let mut state: v3::PollPacketState = fresh();
    let steps = feed_all(&mut state, &[0x30, 0x05]);
    assert_eq!(
        steps,
        vec![
            Ok(HeaderProgress::Pending),
            Ok(HeaderProgress::Complete { control_byte: 0x30, remaining_len: 5, total_len: 7 }),
        ]
    );
}

#[test]
fn feed_header_multi_byte_length() {
    let mut state: v3::PollPacketState = fresh();
    let steps = feed_all(&mut state, &[0x30, 0x80, 0x01]);
    assert_eq!(
        steps.last(),
        Some(&Ok(HeaderProgress::Complete { control_byte: 0x30, remaining_len: 128, total_len: 131 }))
    );
    let mut state: v3::PollPacketState = fresh();
    let steps = feed_all(&mut state, &[0x30, 0xff, 0xff, 0xff, 0x7f]);
    assert_eq!(
        steps.last(),
        Some(&Ok(HeaderProgress::Complete {
            control_byte: 0x30,
            remaining_len: 268_435_455,
            total_len: 268_435_460,
        }))
    );
}

#[test]
fn feed_header_too_long_length() {
    let mut state: v3::PollPacketState = fresh();
    let steps = feed_all(&mut state, &[0x30, 0x80, 0x80, 0x80, 0x80, 0x01]);
    assert_eq!(steps.len(), 5);
    assert_eq!(steps.last(), Some(&Err(Error::InvalidVarByteInt)));
}

#[test]
fn feed_header_agrees_with_buffer_decode() {
    // A header read byte by byte gives the remaining length that the buffer
    // decoder reads from the same bytes.
    for len in [0usize, 1, 127, 128, 300, 16383, 16384, 2_097_151, 2_097_152] {
        let mut bytes = vec![0x30u8];
        let mut n = len;
        loop {
            let mut b = (n % 128) as u8;
            n /= 128;
            if n > 0 {
                b |= 0x80;
            }
            bytes.push(b);
            if n == 0 {
                break;
            }
        }
        let header_len = bytes.len();
        let header = v3::Header::decode(&bytes).unwrap();
        let mut state: v3::PollPacketState = fresh();
        let steps = feed_all(&mut state, &bytes);
        assert_eq!(
            steps.last(),
            Some(&Ok(HeaderProgress::Complete {
                control_byte: 0x30,
                remaining_len: header.remaining_len,
                total_len: (header_len + len) as u32,
            }))
        );
    }
}

#[test]
fn stream_reads_v3_publish_back() {
    let topic = TopicName::try_from("a/b").unwrap();
    let packet = v3::Packet::Publish(v3::Publish::new(
        QosPid::Level1(Pid::try_from(10).unwrap()),
        topic,
        b"hello".to_vec(),
    ));
    let bytes = packet.encode().unwrap();
    let bytes = bytes.as_slice();
    let (total, decoded) = read_v3(bytes).unwrap();
    assert_eq!(total, bytes.len());
    assert_eq!(decoded, packet);
}

#[test]
fn stream_reads_v3_empty_packets() {
    assert_eq!(read_v3(&[0xc0, 0x00]), Ok((2, v3::Packet::Pingreq)));
    assert_eq!(read_v3(&[0xd0, 0x00]), Ok((2, v3::Packet::Pingresp)));
    assert_eq!(read_v3(&[0xe0, 0x00]), Ok((2, v3::Packet::Disconnect)));
}

#[test]
fn stream_v3_zero_remaining_length() {
    assert_eq!(read_v3(&[0x40, 0x00]), Err(Error::InvalidRemainingLength));
}

#[test]
fn stream_v3_short_body() {
    let mut state: v3::PollPacketState = fresh();
    state.feed_header(0x40).unwrap();
    state.feed_header(0x02).unwrap();
    assert_eq!(v3::poll_header_complete(&mut state), Ok(None));
    let before = state.clone();
    assert_eq!(
        v3::poll_body_complete(&mut state, &[0x00]),
        Err(Error::InvalidRemainingLength)
    );
    assert!(matches!(state, GenericPollPacketState::Body { .. }));
    assert!(matches!(before, GenericPollPacketState::Body { .. }));
    assert_eq!(
        v3::poll_body_complete(&mut state, &[0x00, 0x07]),
        Ok((4, v3::Packet::Puback(Pid::try_from(7).unwrap())))
    );
    assert!(matches!(
        state,
        GenericPollPacketState::Header { control_byte: None, var_idx: 0, var_int: 0 }
    ));
}

#[test]
fn stream_v3_invalid_header() {
    assert_eq!(read_v3(&[0x00, 0x00]), Err(Error::InvalidHeader));
    assert_eq!(read_v3(&[0x36, 0x02, 0x00, 0x00]), Err(Error::InvalidQos(3)));
}

#[test]
fn stream_reads_v5_packets_back() {
    let packet = v5::Packet::Puback(v5::Puback::new_success(Pid::try_from(3).unwrap()));
    let bytes = packet.encode().unwrap();
    let bytes = bytes.as_slice();
    assert_eq!(read_v5(bytes), Ok((bytes.len(), packet)));

    let topic = TopicName::try_from("x").unwrap();
    let packet = v5::Packet::Publish(v5::Publish::new(QosPid::Level0, topic, vec![1, 2, 3]));
    let bytes = packet.encode().unwrap();
    let bytes = bytes.as_slice();
    assert_eq!(read_v5(bytes), Ok((bytes.len(), packet)));
}

#[test]
fn stream_v5_empty_auth_and_disconnect() {
    assert_eq!(
        read_v5(&[0xf0, 0x00]),
        Ok((2, v5::Packet::Auth(v5::Auth::new_success())))
    );
    assert_eq!(
        read_v5(&[0xe0, 0x00]),
        Ok((2, v5::Packet::Disconnect(v5::Disconnect::new_normal())))
    );
    assert_eq!(read_v5(&[0xc0, 0x00]), Ok((2, v5::Packet::Pingreq)));
}

#[test]
fn stream_v5_zero_remaining_length() {
    assert_eq!(
        read_v5(&[0x40, 0x00]),
        Err(v5::ErrorV5::Common(Error::InvalidRemainingLength))
    );
}

#[test]
fn read_strategy_by_size() {
    let config = MockBufferConfig::default();
    assert_eq!(config.buffer_size, 8192);
    assert_eq!(config.pool_capacity, 64);
    assert_eq!(config.chunk_size, 8192);
    assert_eq!(config.read_strategy(8192), ReadStrategy::Buffer);
    assert_eq!(config.read_strategy(8193), ReadStrategy::Chunk(8192));
    let small = MockBufferConfig { buffer_size: 10, pool_capacity: 1, chunk_size: 4 };
    assert_eq!(small.read_strategy(11), ReadStrategy::Chunk(4));
    assert_eq!(small.read_strategy(0), ReadStrategy::Buffer);
}

#[test]
fn buffer_pool_plans() {
    let config = MockBufferConfig { buffer_size: 1024, pool_capacity: 2, chunk_size: 512 };
    assert_eq!(config.acquire_plan(2048, true, true, 0), AcquirePlan::Owned);
    assert_eq!(config.acquire_plan(100, true, true, 0), AcquirePlan::Pending);
    assert_eq!(config.acquire_plan(100, false, true, 0), AcquirePlan::Free);
    assert_eq!(config.acquire_plan(100, false, false, 1), AcquirePlan::NewPooled);
    assert_eq!(config.acquire_plan(100, false, false, 2), AcquirePlan::Owned);
    assert_eq!(config.return_plan(512, Some(0)), ReturnPlan::Drop);
    assert_eq!(config.return_plan(1024, Some(1)), ReturnPlan::Free);
    assert_eq!(config.return_plan(1024, Some(2)), ReturnPlan::Pending);
    assert_eq!(config.return_plan(4096, None), ReturnPlan::Pending);
    assert_eq!(config.read_strategy(500), ReadStrategy::Buffer);
    assert_eq!(config.read_strategy(2048), ReadStrategy::Chunk(512));
}
