use mqtt5::v5::error::MqttError;
use mqtt5::v5::property::ResponseProperties;
use mqtt5::v5::string::MqttString;
use mqtt5::v5::types::ControlPacket;
use mqtt5::v5::types::MqttCodec;
use mqtt5::v5::types::Publish;
use mqtt5::v5::types::PublishResponse;
use mqtt5::v5::types::QoS;
use mqtt5::v5::types::ReasonCode;
use mqtt5::v5::property::PublishProperties;

fn sample_packets() -> Vec<ControlPacket> {
    vec![
        ControlPacket::PubAck(PublishResponse {
            packet_identifier: 9,
            reason_code: ReasonCode::Success,
            properties: ResponseProperties { reason_string: None, user_properties: vec![] },
        }),
        ControlPacket::PingReq,
        ControlPacket::Publish(Publish {
            dup: false,
            qos: QoS::AtMostOnce,
            retain: false,
            topic_name: MqttString::new(b"t".to_vec()),
            packet_identifier: None,
            properties: PublishProperties {
                payload_format_indicator: None,
                message_expire_interval: None,
                topic_alias: None,
                response_topic: None,
                correlation_data: None,
                user_properties: vec![],
                subscription_identifier: None,
                content_type: None,
            },
            payload: b"payload".to_vec(),
        }),
    ]
}

fn encode_stream(packets: &[ControlPacket]) -> Vec<u8> {
    let mut codec = MqttCodec::new(None);
    let mut wire: Vec<u8> = Vec::new();
    for p in packets {
        codec.encode(p, &mut wire).unwrap();
    }
    wire
}

/// Feeding a stream in chunks of the given size yields the same packets as
/// feeding it whole.
fn decode_in_chunks(wire: &[u8], chunk: usize) -> Vec<ControlPacket> {
    let mut codec = MqttCodec::new(None);
    let mut buf: Vec<u8> = Vec::new();
    let mut out = Vec::new();
    for piece in wire.chunks(chunk) {
        buf.extend_from_slice(piece);
        loop {
            match codec.decode(&mut buf).unwrap() {
                Some(p) => out.push(p),
                None => break,
            }
        }
    }
    out
}

#[test]
fn split_feeding_yields_the_same_stream() {
    let packets = sample_packets();
    let wire = encode_stream(&packets);
    for chunk in 1..=wire.len() {
        let got = decode_in_chunks(&wire, chunk);
        assert_eq!(got, sample_packets(), "chunk size {}", chunk);
    }
}

#[test]
fn oversized_packet_is_rejected_before_its_body() {
    let mut codec = MqttCodec::new(Some(4));
    // a PubAck frame whose remaining length is 8
    let mut buf = vec![0x40u8, 0x08, 0x00, 0x2A, 0x00, 0x04, 0x1F, 0x00, 0x01, 0x61];
    let before = buf.clone();
    let r = codec.decode(&mut buf);
    assert!(matches!(r, Err(MqttError::PacketTooLarge)));
    // nothing was consumed: the buffer still holds every byte
    assert_eq!(buf, before);
}

#[test]
fn incomplete_frame_waits_for_more_bytes() {
    let mut codec = MqttCodec::new(None);
    let mut buf = vec![0x40u8];
    assert!(codec.decode(&mut buf).unwrap().is_none());
    buf.push(0x02);
    assert!(codec.decode(&mut buf).unwrap().is_none());
    buf.push(0x00);
    assert!(codec.decode(&mut buf).unwrap().is_none());
    buf.push(0x2A);
    let p = codec.decode(&mut buf).unwrap().unwrap();
    match p {
        ControlPacket::PubAck(res) => assert_eq!(res.packet_identifier, 42),
        other => panic!("decoded {:?}", other),
    }
    assert!(buf.is_empty());
}
