use mqtt5::v5::property::ConnectProperties;
use mqtt5::v5::property::PropertiesBuilder;
use mqtt5::v5::property::PropertiesSize;
use mqtt5::v5::property::WillProperties;
use mqtt5::v5::string::MqttString;

fn s(text: &str) -> MqttString {
    MqttString::new(text.as_bytes().to_vec())
}

#[test]
fn test_connection_properties_default() {
    assert_eq!(
        PropertiesBuilder::default().connect(),
        ConnectProperties {
            session_expire_interval: None,
            receive_maximum: None,
            maximum_packet_size: None,
            topic_alias_maximum: None,
            request_response_information: None,
            request_problem_information: None,
            user_properties: vec![],
            authentication_method: None,
            authentication_data: None,
        }
    );
}

#[test]
fn test_connection_properties_fill() {
    let mut builder = PropertiesBuilder::default();
    builder = builder.session_expire_interval(20).unwrap();
    builder = builder.receive_maximum(1000).unwrap();
    builder = builder.maximum_packet_size(1024).unwrap();
    builder = builder.topic_alias_maximum(1024).unwrap();
    builder = builder.request_response_information(1).unwrap();
    builder = builder.request_problem_information(1).unwrap();
    builder = builder.user_property((s("username"), s("admin")));
    builder = builder.user_property((s("password"), s("12345")));
    assert_eq!(
        builder.connect(),
        ConnectProperties {
            session_expire_interval: Some(20),
            receive_maximum: Some(1000),
            maximum_packet_size: Some(1024),
            topic_alias_maximum: Some(1024),
            request_response_information: Some(true),
            request_problem_information: Some(true),
            user_properties: vec![(s("username"), s("admin")), (s("password"), s("12345"))],
            authentication_method: None,
            authentication_data: None,
        }
    );
}

#[test]
fn test_properties_sei_dup() {
    let mut builder = PropertiesBuilder::default();
    builder = builder.session_expire_interval(20).unwrap();
    assert!(builder.session_expire_interval(60).is_err());
}

#[test]
fn test_properties_rm_dup() {
    let mut builder = PropertiesBuilder::default();
    builder = builder.receive_maximum(20).unwrap();
    assert!(builder.receive_maximum(60).is_err());
}

#[test]
fn test_will_properties_default() {
    assert_eq!(
        PropertiesBuilder::default().will(),
        WillProperties {
            will_delay_interval: 0,
            payload_format_indicator: None,
            message_expire_interval: None,
            content_type: None,
            response_topic: None,
            correlation_data: None,
            user_properties: vec![],
        }
    );
}

#[test]
fn test_connack_properties_default_len() {
    let mut builder = PropertiesBuilder::default();
    builder = builder.session_expire_interval(20).unwrap();
    builder = builder.user_property((s("username"), s("admin")));
    builder = builder.user_property((s("password"), s("123456")));
    assert_eq!(42, builder.connack().size());
}
