use mqtt5::v5::decoder::decode_variable_integer;
use mqtt5::v5::encoder::encode_variable_integer;
use mqtt5::v5::encoder::varint_size;
use mqtt5::v5::error::MqttError;
use mqtt5::v5::property::ConnAckProperties;
use mqtt5::v5::property::ConnectProperties;
use mqtt5::v5::property::DisconnectProperties;
use mqtt5::v5::property::PublishProperties;
use mqtt5::v5::property::ResponseProperties;
use mqtt5::v5::property::SubscribeProperties;
use mqtt5::v5::property::UnSubscribeProperties;
use mqtt5::v5::string::MqttString;
use mqtt5::v5::types::ConnAck;
use mqtt5::v5::types::Connect;
use mqtt5::v5::types::ControlPacket;
use mqtt5::v5::types::Disconnect;
use mqtt5::v5::types::MqttCodec;
use mqtt5::v5::types::Publish;
use mqtt5::v5::types::PublishResponse;
use mqtt5::v5::types::QoS;
use mqtt5::v5::types::ReasonCode;
use mqtt5::v5::types::Retain;
use mqtt5::v5::types::SubAck;
use mqtt5::v5::types::Subscribe;
use mqtt5::v5::types::SubscriptionOptions;
use mqtt5::v5::types::UnSubscribe;

fn s(text: &str) -> MqttString {
    MqttString::new(text.as_bytes().to_vec())
}

fn empty_connect_props() -> ConnectProperties {
    ConnectProperties {
        session_expire_interval: None,
        receive_maximum: None,
        maximum_packet_size: None,
        topic_alias_maximum: None,
        request_response_information: None,
        request_problem_information: None,
        user_properties: vec![],
        authentication_method: None,
        authentication_data: None,
    }
}

fn decode_one(bytes: &[u8]) -> Result<Option<ControlPacket>, MqttError> {
    let mut codec = MqttCodec::new(None);
    let mut buf = bytes.to_vec();
    codec.decode(&mut buf)
}

fn round_trip(packet: ControlPacket) {
    let mut codec = MqttCodec::new(None);
    let mut wire: Vec<u8> = Vec::new();
    codec.encode(&packet, &mut wire).unwrap();
    let decoded = decode_one(&wire).unwrap().unwrap();
    assert_eq!(packet, decoded);
}

#[test]
fn varint_round_trips_with_matching_size() {
    for &n in &[0u32, 1, 0x7F, 0x80, 0x3FFF, 0x4000, 0x1F_FFFF, 0x20_0000, 0x0FFF_FFFF] {
        let mut wire: Vec<u8> = Vec::new();
        encode_variable_integer(&mut wire, n).unwrap();
        assert_eq!(wire.len(), varint_size(n));
        let mut pos = 0usize;
        let back = decode_variable_integer(&wire, &mut pos).unwrap();
        assert_eq!(back, n);
        assert_eq!(pos, wire.len());
    }
}

#[test]
fn five_continuation_bytes_are_malformed() {
    let wire = vec![0x80u8, 0x80, 0x80, 0x80, 0x80];
    let mut pos = 0usize;
    let r = decode_variable_integer(&wire, &mut pos);
    assert!(matches!(r, Err(MqttError::MalformedVariableInteger(_))));
}

#[test]
fn connect_minimal_decodes() {
    // header byte, remaining length, then the thirteen-byte body
    let wire = [
        0x10, 0x0D, 0x00, 0x04, 0x4D, 0x51, 0x54, 0x54, 0x05, 0x02, 0x00, 0x3C, 0x00, 0x00, 0x00,
    ];
    let packet = decode_one(&wire).unwrap().unwrap();
    assert_eq!(
        packet,
        ControlPacket::Connect(Connect {
            reserved: false,
            clean_start_flag: true,
            keep_alive: 60,
            properties: empty_connect_props(),
            client_identifier: None,
            username: None,
            password: None,
            will: None,
        })
    );
}

#[test]
fn connack_success_decodes() {
    let wire = [0x20, 0x03, 0x00, 0x00, 0x00];
    let packet = decode_one(&wire).unwrap().unwrap();
    match packet {
        ControlPacket::ConnAck(ack) => {
            assert!(!ack.session_present);
            assert_eq!(ack.reason_code, ReasonCode::Success);
            assert_eq!(ack.properties.user_properties, vec![]);
            assert_eq!(ack.properties.session_expire_interval, None);
        }
        other => panic!("decoded {:?}", other),
    }
}

#[test]
fn publish_qos0_retain_decodes() {
    let wire = [0x31, 0x0A, 0x00, 0x05, 0x61, 0x2F, 0x62, 0x2F, 0x63, 0x00, 0x68, 0x69];
    let packet = decode_one(&wire).unwrap().unwrap();
    match packet {
        ControlPacket::Publish(p) => {
            assert!(!p.dup);
            assert_eq!(p.qos, QoS::AtMostOnce);
            assert!(p.retain);
            assert_eq!(p.topic_name, s("a/b/c"));
            assert_eq!(p.packet_identifier, None);
            assert_eq!(p.payload, b"hi".to_vec());
        }
        other => panic!("decoded {:?}", other),
    }
}

#[test]
fn publish_qos1_with_id_decodes() {
    let wire = [
        0x32, 0x0C, 0x00, 0x05, 0x61, 0x2F, 0x62, 0x2F, 0x63, 0x00, 0x2A, 0x00, 0x68, 0x69,
    ];
    let packet = decode_one(&wire).unwrap().unwrap();
    match packet {
        ControlPacket::Publish(p) => {
            assert_eq!(p.qos, QoS::AtLeastOnce);
            assert_eq!(p.topic_name, s("a/b/c"));
            assert_eq!(p.packet_identifier, Some(42));
            assert_eq!(p.payload, b"hi".to_vec());
        }
        other => panic!("decoded {:?}", other),
    }
}

#[test]
fn puback_short_form_decodes() {
    let wire = [0x40, 0x02, 0x00, 0x2A];
    let packet = decode_one(&wire).unwrap().unwrap();
    assert_eq!(
        packet,
        ControlPacket::PubAck(PublishResponse {
            packet_identifier: 42,
            reason_code: ReasonCode::Success,
            properties: ResponseProperties { reason_string: None, user_properties: vec![] },
        })
    );
}

#[test]
fn disconnect_empty_decodes() {
    let wire = [0xE0, 0x00];
    let packet = decode_one(&wire).unwrap().unwrap();
    assert_eq!(
        packet,
        ControlPacket::Disconnect(Disconnect {
            reason_code: ReasonCode::Success,
            properties: DisconnectProperties {
                session_expire_interval: None,
                reason_string: None,
                user_properties: vec![],
                server_reference: None,
            },
        })
    );
}

#[test]
fn publish_round_trips() {
    round_trip(ControlPacket::Publish(Publish {
        dup: false,
        qos: QoS::AtLeastOnce,
        retain: true,
        topic_name: s("rooms/kitchen"),
        packet_identifier: Some(7),
        properties: PublishProperties {
            payload_format_indicator: Some(true),
            message_expire_interval: Some(120),
            topic_alias: Some(4),
            response_topic: Some(s("rooms/reply")),
            correlation_data: Some(vec![1, 2, 3]),
            user_properties: vec![(s("origin"), s("sensor"))],
            subscription_identifier: Some(9),
            content_type: Some(s("text/plain")),
        },
        payload: b"21.5".to_vec(),
    }));
}

#[test]
fn connect_round_trips() {
    round_trip(ControlPacket::Connect(Connect {
        reserved: false,
        clean_start_flag: true,
        keep_alive: 30,
        properties: ConnectProperties {
            session_expire_interval: Some(3600),
            receive_maximum: Some(10),
            maximum_packet_size: None,
            topic_alias_maximum: None,
            request_response_information: Some(false),
            request_problem_information: None,
            user_properties: vec![(s("k"), s("v"))],
            authentication_method: None,
            authentication_data: None,
        },
        client_identifier: Some(s("sensor-1")),
        username: Some(s("admin")),
        password: Some(b"secret".to_vec()),
        will: None,
    }));
}

#[test]
fn connack_round_trips() {
    round_trip(ControlPacket::ConnAck(ConnAck {
        session_present: true,
        reason_code: ReasonCode::Success,
        properties: ConnAckProperties {
            session_expire_interval: Some(60),
            receive_maximum: Some(100),
            maximum_qos: Some(QoS::AtLeastOnce),
            retain_available: Some(true),
            maximum_packet_size: Some(4096),
            assigned_client_identifier: Some(s("auto-17")),
            topic_alias_maximum: Some(8),
            reason_string: Some(s("welcome")),
            user_properties: vec![],
            wildcard_subscription_available: Some(true),
            subscription_identifier_available: None,
            shared_subscription_available: Some(false),
            server_keep_alive: Some(45),
            response_information: None,
            server_reference: None,
            authentication_method: None,
            authentication_data: None,
        },
    }));
}

#[test]
fn subscribe_and_suback_round_trip() {
    round_trip(ControlPacket::Subscribe(Subscribe {
        packet_identifier: 11,
        properties: SubscribeProperties {
            subscription_identifier: Some(3),
            user_properties: vec![],
        },
        topic_filters: vec![
            (
                s("a/+"),
                SubscriptionOptions {
                    qos: QoS::AtLeastOnce,
                    nl: true,
                    rap: false,
                    retain: Retain::SendAtSubscribe,
                },
            ),
            (
                s("b/#"),
                SubscriptionOptions {
                    qos: QoS::ExactlyOnce,
                    nl: false,
                    rap: true,
                    retain: Retain::DoNotSend,
                },
            ),
        ],
    }));
    round_trip(ControlPacket::SubAck(SubAck {
        packet_identifier: 11,
        properties: ResponseProperties { reason_string: None, user_properties: vec![] },
        reason_codes: vec![ReasonCode::GrantedQoS1, ReasonCode::GrantedQoS2],
    }));
}

#[test]
fn unsubscribe_round_trips() {
    round_trip(ControlPacket::UnSubscribe(UnSubscribe {
        packet_identifier: 5,
        properties: UnSubscribeProperties { user_properties: vec![(s("x"), s("y"))] },
        topic_filters: vec![s("a/+"), s("b")],
    }));
}

#[test]
fn ping_round_trips() {
    round_trip(ControlPacket::PingReq);
    round_trip(ControlPacket::PingResp);
}

#[test]
fn bad_reason_code_is_rejected() {
    let wire = [0x20, 0x03, 0x00, 0x05, 0x00];
    assert!(matches!(decode_one(&wire), Err(MqttError::MalformedReasonCode(0x05))));
}

#[test]
fn bad_packet_type_is_rejected() {
    let wire = [0x00, 0x00];
    assert!(matches!(decode_one(&wire), Err(MqttError::MalformedPacketType(0x00))));
}

#[test]
fn publish_header_with_qos_bits_three_is_rejected() {
    let wire = [0x36, 0x00];
    assert!(matches!(decode_one(&wire), Err(MqttError::MalformedQoS(3))));
}

#[test]
fn truncated_connack_body_is_rejected() {
    let wire = [0x20, 0x02, 0x00, 0x00];
    assert!(matches!(decode_one(&wire), Err(MqttError::EndOfStream)));
}

#[test]
fn property_outside_whitelist_is_rejected() {
    // a PubAck whose properties region carries a session expiry interval
    let wire = [0x40, 0x09, 0x00, 0x2A, 0x00, 0x05, 0x11, 0x00, 0x00, 0x00, 0x01];
    assert!(matches!(decode_one(&wire), Err(MqttError::UnacceptableProperty(_))));
}

#[test]
fn duplicate_property_is_rejected() {
    // a Disconnect whose properties region carries the session expiry twice
    let wire = [
        0xE0, 0x0C, 0x00, 0x0A, 0x11, 0x00, 0x00, 0x00, 0x01, 0x11, 0x00, 0x00, 0x00, 0x02,
    ];
    assert!(matches!(decode_one(&wire), Err(MqttError::MoreThanOnceProperty)));
}

#[test]
fn empty_reason_string_is_rejected() {
    // a PubAck whose reason string property carries a zero length
    let wire = [0x40, 0x07, 0x00, 0x2A, 0x00, 0x03, 0x1F, 0x00, 0x00];
    assert!(matches!(decode_one(&wire), Err(MqttError::EmptyPropertyValue)));
}

#[test]
fn wrong_protocol_version_is_rejected() {
    let wire = [
        0x10, 0x0D, 0x00, 0x04, 0x4D, 0x51, 0x54, 0x54, 0x04, 0x02, 0x00, 0x3C, 0x00, 0x00, 0x00,
    ];
    assert!(matches!(decode_one(&wire), Err(MqttError::UnsupportedProtocolVersion)));
}

#[test]
fn reserved_connect_flag_is_rejected() {
    let wire = [
        0x10, 0x0D, 0x00, 0x04, 0x4D, 0x51, 0x54, 0x54, 0x05, 0x03, 0x00, 0x3C, 0x00, 0x00, 0x00,
    ];
    assert!(matches!(decode_one(&wire), Err(MqttError::MalformedPacket)));
}

#[test]
fn empty_publish_topic_is_rejected() {
    let wire = [0x30, 0x05, 0x00, 0x00, 0x00, 0x68, 0x69];
    assert!(matches!(decode_one(&wire), Err(MqttError::TopicFilterInvalid)));
}

#[test]
fn bad_retain_policy_in_subscription_options_is_rejected() {
    // a Subscribe whose single filter carries retain policy bits 11
    let wire = [0x82, 0x07, 0x00, 0x01, 0x00, 0x00, 0x01, 0x61, 0x30];
    assert!(matches!(decode_one(&wire), Err(MqttError::MalformedRetain(3))));
}

#[test]
fn publish_without_identifier_cannot_be_encoded() {
    let mut codec = MqttCodec::new(None);
    let mut wire: Vec<u8> = Vec::new();
    let packet = ControlPacket::Publish(Publish {
        dup: false,
        qos: QoS::AtLeastOnce,
        retain: false,
        topic_name: s("a"),
        packet_identifier: None,
        properties: PublishProperties {
            payload_format_indicator: None,
            message_expire_interval: None,
            topic_alias: None,
            response_topic: None,
            correlation_data: None,
            user_properties: vec![],
            subscription_identifier: None,
            content_type: None,
        },
        payload: vec![],
    });
    assert!(matches!(
        codec.encode(&packet, &mut wire),
        Err(MqttError::UndefinedPacketIdentifier(QoS::AtLeastOnce))
    ));
}

#[test]
fn error_projects_to_reason_code() {
    assert_eq!(MqttError::EndOfStream.to_reason_code(), ReasonCode::MalformedPacket);
    assert_eq!(MqttError::MoreThanOnceProperty.to_reason_code(), ReasonCode::ProtocolError);
    assert_eq!(MqttError::PacketTooLarge.to_reason_code(), ReasonCode::PacketTooLarge);
    assert_eq!(MqttError::ServerBusy.to_reason_code(), ReasonCode::ServerBusy);
}
