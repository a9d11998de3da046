use vstd::prelude::*;

verus! {

use crate::v5::error::MqttError;
use crate::v5::string::MqttString;
use crate::v5::types::QoS;

/// The view of an optional string: its byte sequence, if present.
pub open spec fn opt_str_view(o: Option<MqttString>) -> Option<Seq<u8>> {
    match o {
        Some(s) => Some(s@),
        None => None,
    }
}

/// The view of an optional binary value.
pub open spec fn opt_bytes_view(o: Option<Vec<u8>>) -> Option<Seq<u8>> {
    match o {
        Some(b) => Some(b@),
        None => None,
    }
}

/// The view of an ordered list of user properties.
pub open spec fn user_props_view(v: Seq<(MqttString, MqttString)>) -> Seq<(Seq<u8>, Seq<u8>)> {
    v.map_values(|p: (MqttString, MqttString)| (p.0@, p.1@))
}

/// The property identifiers that MQTT v5 defines, one per wire id in
/// {0x01..0x2A}.
#[derive(Debug, Clone, Copy, PartialEq, Eq, Structural)]
pub enum Property {
    PayloadFormatIndicator,
    MessageExpireInterval,
    ContentType,
    ResponseTopic,
    CorrelationData,
    SubscriptionIdentifier,
    SessionExpireInterval,
    AssignedClientIdentifier,
    ServerKeepAlive,
    AuthenticationMethod,
    AuthenticationData,
    RequestProblemInformation,
    WillDelayInterval,
    RequestResponseInformation,
    ResponseInformation,
    ServerReference,
    ReasonString,
    ReceiveMaximum,
    TopicAliasMaximum,
    TopicAlias,
    MaximumQoS,
    RetainAvailable,
    UserProperty,
    MaximumPacketSize,
    WildcardSubscriptionAvailable,
    SubscriptionIdentifierAvailable,
    SharedSubscriptionAvailable,
}

impl Property {
    /// The one-byte wire identifier of the property.
    pub open spec fn spec_id(self) -> u8 {
        match self {
            Property::PayloadFormatIndicator => 0x01,
            Property::MessageExpireInterval => 0x02,
            Property::ContentType => 0x03,
            Property::ResponseTopic => 0x08,
            Property::CorrelationData => 0x09,
            Property::SubscriptionIdentifier => 0x0B,
            Property::SessionExpireInterval => 0x11,
            Property::AssignedClientIdentifier => 0x12,
            Property::ServerKeepAlive => 0x13,
            Property::AuthenticationMethod => 0x15,
            Property::AuthenticationData => 0x16,
            Property::RequestProblemInformation => 0x17,
            Property::WillDelayInterval => 0x18,
            Property::RequestResponseInformation => 0x19,
            Property::ResponseInformation => 0x1A,
            Property::ServerReference => 0x1C,
            Property::ReasonString => 0x1F,
            Property::ReceiveMaximum => 0x21,
            Property::TopicAliasMaximum => 0x22,
            Property::TopicAlias => 0x23,
            Property::MaximumQoS => 0x24,
            Property::RetainAvailable => 0x25,
            Property::UserProperty => 0x26,
            Property::MaximumPacketSize => 0x27,
            Property::WildcardSubscriptionAvailable => 0x28,
            Property::SubscriptionIdentifierAvailable => 0x29,
            Property::SharedSubscriptionAvailable => 0x2A,
        }
    }

    /// Which property a decoded variable-length id denotes; unknown ids are
    /// `MalformedPropertyType`.
    pub open spec fn spec_try_from(v: u32) -> Result<Property, MqttError> {
        if v == 0x01 {
            Ok(Property::PayloadFormatIndicator)
        } else if v == 0x02 {
            Ok(Property::MessageExpireInterval)
        } else if v == 0x03 {
            Ok(Property::ContentType)
        } else if v == 0x08 {
            Ok(Property::ResponseTopic)
        } else if v == 0x09 {
            Ok(Property::CorrelationData)
        } else if v == 0x0B {
            Ok(Property::SubscriptionIdentifier)
        } else if v == 0x11 {
            Ok(Property::SessionExpireInterval)
        } else if v == 0x12 {
            Ok(Property::AssignedClientIdentifier)
        } else if v == 0x13 {
            Ok(Property::ServerKeepAlive)
        } else if v == 0x15 {
            Ok(Property::AuthenticationMethod)
        } else if v == 0x16 {
            Ok(Property::AuthenticationData)
        } else if v == 0x17 {
            Ok(Property::RequestProblemInformation)
        } else if v == 0x18 {
            Ok(Property::WillDelayInterval)
        } else if v == 0x19 {
            Ok(Property::RequestResponseInformation)
        } else if v == 0x1A {
            Ok(Property::ResponseInformation)
        } else if v == 0x1C {
            Ok(Property::ServerReference)
        } else if v == 0x1F {
            Ok(Property::ReasonString)
        } else if v == 0x21 {
            Ok(Property::ReceiveMaximum)
        } else if v == 0x22 {
            Ok(Property::TopicAliasMaximum)
        } else if v == 0x23 {
            Ok(Property::TopicAlias)
        } else if v == 0x24 {
            Ok(Property::MaximumQoS)
        } else if v == 0x25 {
            Ok(Property::RetainAvailable)
        } else if v == 0x26 {
            Ok(Property::UserProperty)
        } else if v == 0x27 {
            Ok(Property::MaximumPacketSize)
        } else if v == 0x28 {
            Ok(Property::WildcardSubscriptionAvailable)
        } else if v == 0x29 {
            Ok(Property::SubscriptionIdentifierAvailable)
        } else if v == 0x2A {
            Ok(Property::SharedSubscriptionAvailable)
        } else {
            Err(MqttError::MalformedPropertyType(v))
        }
    }

    /// The one-byte wire identifier of the property.
    pub fn id(self) -> (r: u8)
        ensures
            r == self.spec_id(),
    {
        match self {
            Property::PayloadFormatIndicator => 0x01,
            Property::MessageExpireInterval => 0x02,
            Property::ContentType => 0x03,
            Property::ResponseTopic => 0x08,
            Property::CorrelationData => 0x09,
            Property::SubscriptionIdentifier => 0x0B,
            Property::SessionExpireInterval => 0x11,
            Property::AssignedClientIdentifier => 0x12,
            Property::ServerKeepAlive => 0x13,
            Property::AuthenticationMethod => 0x15,
            Property::AuthenticationData => 0x16,
            Property::RequestProblemInformation => 0x17,
            Property::WillDelayInterval => 0x18,
            Property::RequestResponseInformation => 0x19,
            Property::ResponseInformation => 0x1A,
            Property::ServerReference => 0x1C,
            Property::ReasonString => 0x1F,
            Property::ReceiveMaximum => 0x21,
            Property::TopicAliasMaximum => 0x22,
            Property::TopicAlias => 0x23,
            Property::MaximumQoS => 0x24,
            Property::RetainAvailable => 0x25,
            Property::UserProperty => 0x26,
            Property::MaximumPacketSize => 0x27,
            Property::WildcardSubscriptionAvailable => 0x28,
            Property::SubscriptionIdentifierAvailable => 0x29,
            Property::SharedSubscriptionAvailable => 0x2A,
        }
    }

    /// Which property a decoded variable-length id denotes.
    pub fn try_from(v: u32) -> (r: Result<Property, MqttError>)
        ensures
            r == Self::spec_try_from(v),
    {
        if v == 0x01 {
            Ok(Property::PayloadFormatIndicator)
        } else if v == 0x02 {
            Ok(Property::MessageExpireInterval)
        } else if v == 0x03 {
            Ok(Property::ContentType)
        } else if v == 0x08 {
            Ok(Property::ResponseTopic)
        } else if v == 0x09 {
            Ok(Property::CorrelationData)
        } else if v == 0x0B {
            Ok(Property::SubscriptionIdentifier)
        } else if v == 0x11 {
            Ok(Property::SessionExpireInterval)
        } else if v == 0x12 {
            Ok(Property::AssignedClientIdentifier)
        } else if v == 0x13 {
            Ok(Property::ServerKeepAlive)
        } else if v == 0x15 {
            Ok(Property::AuthenticationMethod)
        } else if v == 0x16 {
            Ok(Property::AuthenticationData)
        } else if v == 0x17 {
            Ok(Property::RequestProblemInformation)
        } else if v == 0x18 {
            Ok(Property::WillDelayInterval)
        } else if v == 0x19 {
            Ok(Property::RequestResponseInformation)
        } else if v == 0x1A {
            Ok(Property::ResponseInformation)
        } else if v == 0x1C {
            Ok(Property::ServerReference)
        } else if v == 0x1F {
            Ok(Property::ReasonString)
        } else if v == 0x21 {
            Ok(Property::ReceiveMaximum)
        } else if v == 0x22 {
            Ok(Property::TopicAliasMaximum)
        } else if v == 0x23 {
            Ok(Property::TopicAlias)
        } else if v == 0x24 {
            Ok(Property::MaximumQoS)
        } else if v == 0x25 {
            Ok(Property::RetainAvailable)
        } else if v == 0x26 {
            Ok(Property::UserProperty)
        } else if v == 0x27 {
            Ok(Property::MaximumPacketSize)
        } else if v == 0x28 {
            Ok(Property::WildcardSubscriptionAvailable)
        } else if v == 0x29 {
            Ok(Property::SubscriptionIdentifierAvailable)
        } else if v == 0x2A {
            Ok(Property::SharedSubscriptionAvailable)
        } else {
            Err(MqttError::MalformedPropertyType(v))
        }
    }
}

/// The wire identifier of every property decodes back to that property.
pub proof fn lemma_property_id_round_trip(p: Property)
    ensures
        Property::spec_try_from(p.spec_id() as u32) == Ok::<Property, MqttError>(p),
{
}

/// Properties a Will record may carry.
#[derive(Debug, PartialEq, Eq, Clone)]
pub struct WillProperties {
    pub will_delay_interval: u32,
    pub payload_format_indicator: Option<bool>,
    pub message_expire_interval: Option<u32>,
    pub content_type: Option<MqttString>,
    pub response_topic: Option<MqttString>,
    pub correlation_data: Option<Vec<u8>>,
    pub user_properties: Vec<(MqttString, MqttString)>,
}

#[verifier::ext_equal]
pub ghost struct WillPropertiesView {
    pub will_delay_interval: u32,
    pub payload_format_indicator: Option<bool>,
    pub message_expire_interval: Option<u32>,
    pub content_type: Option<Seq<u8>>,
    pub response_topic: Option<Seq<u8>>,
    pub correlation_data: Option<Seq<u8>>,
    pub user_properties: Seq<(Seq<u8>, Seq<u8>)>,
}

impl View for WillProperties {
    type V = WillPropertiesView;

    open spec fn view(&self) -> WillPropertiesView {
        WillPropertiesView {
            will_delay_interval: self.will_delay_interval,
            payload_format_indicator: self.payload_format_indicator,
            message_expire_interval: self.message_expire_interval,
            content_type: opt_str_view(self.content_type),
            response_topic: opt_str_view(self.response_topic),
            correlation_data: opt_bytes_view(self.correlation_data),
            user_properties: user_props_view(self.user_properties@),
        }
    }
}

/// Properties of a Connect packet.
#[derive(Debug, PartialEq, Eq, Clone)]
pub struct ConnectProperties {
    pub session_expire_interval: Option<u32>,
    pub receive_maximum: Option<u16>,
    pub maximum_packet_size: Option<u32>,
    pub topic_alias_maximum: Option<u16>,
    pub request_response_information: Option<bool>,
    pub request_problem_information: Option<bool>,
    pub user_properties: Vec<(MqttString, MqttString)>,
    pub authentication_method: Option<MqttString>,
    pub authentication_data: Option<Vec<u8>>,
}

#[verifier::ext_equal]
pub ghost struct ConnectPropertiesView {
    pub session_expire_interval: Option<u32>,
    pub receive_maximum: Option<u16>,
    pub maximum_packet_size: Option<u32>,
    pub topic_alias_maximum: Option<u16>,
    pub request_response_information: Option<bool>,
    pub request_problem_information: Option<bool>,
    pub user_properties: Seq<(Seq<u8>, Seq<u8>)>,
    pub authentication_method: Option<Seq<u8>>,
    pub authentication_data: Option<Seq<u8>>,
}

impl View for ConnectProperties {
    type V = ConnectPropertiesView;

    open spec fn view(&self) -> ConnectPropertiesView {
        ConnectPropertiesView {
            session_expire_interval: self.session_expire_interval,
            receive_maximum: self.receive_maximum,
            maximum_packet_size: self.maximum_packet_size,
            topic_alias_maximum: self.topic_alias_maximum,
            request_response_information: self.request_response_information,
            request_problem_information: self.request_problem_information,
            user_properties: user_props_view(self.user_properties@),
            authentication_method: opt_str_view(self.authentication_method),
            authentication_data: opt_bytes_view(self.authentication_data),
        }
    }
}

/// Properties of a ConnAck packet.
#[derive(Debug, PartialEq, Eq, Clone)]
pub struct ConnAckProperties {
    pub session_expire_interval: Option<u32>,
    pub receive_maximum: Option<u16>,
    pub maximum_qos: Option<QoS>,
    pub retain_available: Option<bool>,
    pub maximum_packet_size: Option<u32>,
    pub assigned_client_identifier: Option<MqttString>,
    pub topic_alias_maximum: Option<u16>,
    pub reason_string: Option<MqttString>,
    pub user_properties: Vec<(MqttString, MqttString)>,
    pub wildcard_subscription_available: Option<bool>,
    pub subscription_identifier_available: Option<bool>,
    pub shared_subscription_available: Option<bool>,
    pub server_keep_alive: Option<u16>,
    pub response_information: Option<MqttString>,
    pub server_reference: Option<MqttString>,
    pub authentication_method: Option<MqttString>,
    pub authentication_data: Option<Vec<u8>>,
}

#[verifier::ext_equal]
pub ghost struct ConnAckPropertiesView {
    pub session_expire_interval: Option<u32>,
    pub receive_maximum: Option<u16>,
    pub maximum_qos: Option<QoS>,
    pub retain_available: Option<bool>,
    pub maximum_packet_size: Option<u32>,
    pub assigned_client_identifier: Option<Seq<u8>>,
    pub topic_alias_maximum: Option<u16>,
    pub reason_string: Option<Seq<u8>>,
    pub user_properties: Seq<(Seq<u8>, Seq<u8>)>,
    pub wildcard_subscription_available: Option<bool>,
    pub subscription_identifier_available: Option<bool>,
    pub shared_subscription_available: Option<bool>,
    pub server_keep_alive: Option<u16>,
    pub response_information: Option<Seq<u8>>,
    pub server_reference: Option<Seq<u8>>,
    pub authentication_method: Option<Seq<u8>>,
    pub authentication_data: Option<Seq<u8>>,
}

impl View for ConnAckProperties {
    type V = ConnAckPropertiesView;

    open spec fn view(&self) -> ConnAckPropertiesView {
        ConnAckPropertiesView {
            session_expire_interval: self.session_expire_interval,
            receive_maximum: self.receive_maximum,
            maximum_qos: self.maximum_qos,
            retain_available: self.retain_available,
            maximum_packet_size: self.maximum_packet_size,
            assigned_client_identifier: opt_str_view(self.assigned_client_identifier),
            topic_alias_maximum: self.topic_alias_maximum,
            reason_string: opt_str_view(self.reason_string),
            user_properties: user_props_view(self.user_properties@),
            wildcard_subscription_available: self.wildcard_subscription_available,
            subscription_identifier_available: self.subscription_identifier_available,
            shared_subscription_available: self.shared_subscription_available,
            server_keep_alive: self.server_keep_alive,
            response_information: opt_str_view(self.response_information),
            server_reference: opt_str_view(self.server_reference),
            authentication_method: opt_str_view(self.authentication_method),
            authentication_data: opt_bytes_view(self.authentication_data),
        }
    }
}

/// Properties of a Publish packet.
#[derive(Debug, PartialEq, Eq, Clone)]
pub struct PublishProperties {
    pub payload_format_indicator: Option<bool>,
    pub message_expire_interval: Option<u32>,
    pub topic_alias: Option<u16>,
    pub response_topic: Option<MqttString>,
    pub correlation_data: Option<Vec<u8>>,
    pub user_properties: Vec<(MqttString, MqttString)>,
    pub subscription_identifier: Option<u32>,
    pub content_type: Option<MqttString>,
}

#[verifier::ext_equal]
pub ghost struct PublishPropertiesView {
    pub payload_format_indicator: Option<bool>,
    pub message_expire_interval: Option<u32>,
    pub topic_alias: Option<u16>,
    pub response_topic: Option<Seq<u8>>,
    pub correlation_data: Option<Seq<u8>>,
    pub user_properties: Seq<(Seq<u8>, Seq<u8>)>,
    pub subscription_identifier: Option<u32>,
    pub content_type: Option<Seq<u8>>,
}

impl View for PublishProperties {
    type V = PublishPropertiesView;

    open spec fn view(&self) -> PublishPropertiesView {
        PublishPropertiesView {
            payload_format_indicator: self.payload_format_indicator,
            message_expire_interval: self.message_expire_interval,
            topic_alias: self.topic_alias,
            response_topic: opt_str_view(self.response_topic),
            correlation_data: opt_bytes_view(self.correlation_data),
            user_properties: user_props_view(self.user_properties@),
            subscription_identifier: self.subscription_identifier,
            content_type: opt_str_view(self.content_type),
        }
    }
}

/// Properties of the four publish acknowledgement packets and of SubAck.
#[derive(Debug, PartialEq, Eq, Clone)]
pub struct ResponseProperties {
    pub reason_string: Option<MqttString>,
    pub user_properties: Vec<(MqttString, MqttString)>,
}

#[verifier::ext_equal]
pub ghost struct ResponsePropertiesView {
    pub reason_string: Option<Seq<u8>>,
    pub user_properties: Seq<(Seq<u8>, Seq<u8>)>,
}

impl View for ResponseProperties {
    type V = ResponsePropertiesView;

    open spec fn view(&self) -> ResponsePropertiesView {
        ResponsePropertiesView {
            reason_string: opt_str_view(self.reason_string),
            user_properties: user_props_view(self.user_properties@),
        }
    }
}

/// Properties of a Disconnect packet.
#[derive(Debug, PartialEq, Eq, Clone)]
pub struct DisconnectProperties {
    pub session_expire_interval: Option<u32>,
    pub reason_string: Option<MqttString>,
    pub user_properties: Vec<(MqttString, MqttString)>,
    pub server_reference: Option<MqttString>,
}

#[verifier::ext_equal]
pub ghost struct DisconnectPropertiesView {
    pub session_expire_interval: Option<u32>,
    pub reason_string: Option<Seq<u8>>,
    pub user_properties: Seq<(Seq<u8>, Seq<u8>)>,
    pub server_reference: Option<Seq<u8>>,
}

impl View for DisconnectProperties {
    type V = DisconnectPropertiesView;

    open spec fn view(&self) -> DisconnectPropertiesView {
        DisconnectPropertiesView {
            session_expire_interval: self.session_expire_interval,
            reason_string: opt_str_view(self.reason_string),
            user_properties: user_props_view(self.user_properties@),
            server_reference: opt_str_view(self.server_reference),
        }
    }
}

/// Properties of a Subscribe packet.
#[derive(Debug, PartialEq, Eq, Clone)]
pub struct SubscribeProperties {
    pub subscription_identifier: Option<u32>,
    pub user_properties: Vec<(MqttString, MqttString)>,
}

#[verifier::ext_equal]
pub ghost struct SubscribePropertiesView {
    pub subscription_identifier: Option<u32>,
    pub user_properties: Seq<(Seq<u8>, Seq<u8>)>,
}

impl View for SubscribeProperties {
    type V = SubscribePropertiesView;

    open spec fn view(&self) -> SubscribePropertiesView {
        SubscribePropertiesView {
            subscription_identifier: self.subscription_identifier,
            user_properties: user_props_view(self.user_properties@),
        }
    }
}

/// Properties of an UnSubscribe packet.
#[derive(Debug, PartialEq, Eq, Clone)]
pub struct UnSubscribeProperties {
    pub user_properties: Vec<(MqttString, MqttString)>,
}

#[verifier::ext_equal]
pub ghost struct UnSubscribePropertiesView {
    pub user_properties: Seq<(Seq<u8>, Seq<u8>)>,
}

impl View for UnSubscribeProperties {
    type V = UnSubscribePropertiesView;

    open spec fn view(&self) -> UnSubscribePropertiesView {
        UnSubscribePropertiesView { user_properties: user_props_view(self.user_properties@) }
    }
}

/// Properties of an Auth packet.
#[derive(Debug, PartialEq, Eq, Clone)]
pub struct AuthProperties {
    pub authentication_method: Option<MqttString>,
    pub authentication_data: Option<Vec<u8>>,
    pub reason_string: Option<MqttString>,
    pub user_properties: Vec<(MqttString, MqttString)>,
}

#[verifier::ext_equal]
pub ghost struct AuthPropertiesView {
    pub authentication_method: Option<Seq<u8>>,
    pub authentication_data: Option<Seq<u8>>,
    pub reason_string: Option<Seq<u8>>,
    pub user_properties: Seq<(Seq<u8>, Seq<u8>)>,
}

impl View for AuthProperties {
    type V = AuthPropertiesView;

    open spec fn view(&self) -> AuthPropertiesView {
        AuthPropertiesView {
            authentication_method: opt_str_view(self.authentication_method),
            authentication_data: opt_bytes_view(self.authentication_data),
            reason_string: opt_str_view(self.reason_string),
            user_properties: user_props_view(self.user_properties@),
        }
    }
}

/// The state of the shared property builder: one optional slot per scalar
/// property and the ordered list of user properties.
#[verifier::ext_equal]
pub ghost struct BuilderView {
    pub payload_format_indicator: Option<bool>,
    pub message_expire_interval: Option<u32>,
    pub content_type: Option<Seq<u8>>,
    pub response_topic: Option<Seq<u8>>,
    pub correlation_data: Option<Seq<u8>>,
    pub subscription_identifier: Option<u32>,
    pub session_expire_interval: Option<u32>,
    pub assigned_client_identifier: Option<Seq<u8>>,
    pub server_keep_alive: Option<u16>,
    pub authentication_method: Option<Seq<u8>>,
    pub authentication_data: Option<Seq<u8>>,
    pub request_problem_information: Option<bool>,
    pub will_delay_interval: Option<u32>,
    pub request_response_information: Option<bool>,
    pub response_information: Option<Seq<u8>>,
    pub server_reference: Option<Seq<u8>>,
    pub reason_string: Option<Seq<u8>>,
    pub receive_maximum: Option<u16>,
    pub topic_alias_maximum: Option<u16>,
    pub topic_alias: Option<u16>,
    pub maximum_qos: Option<QoS>,
    pub retain_available: Option<bool>,
    pub user_properties: Seq<(Seq<u8>, Seq<u8>)>,
    pub maximum_packet_size: Option<u32>,
    pub wildcard_subscription_available: Option<bool>,
    pub subscription_identifier_available: Option<bool>,
    pub shared_subscription_available: Option<bool>,
}

impl BuilderView {
    /// The builder every decode starts from: all slots empty.
    pub open spec fn init() -> BuilderView {
        BuilderView {
            payload_format_indicator: None,
            message_expire_interval: None,
            content_type: None,
            response_topic: None,
            correlation_data: None,
            subscription_identifier: None,
            session_expire_interval: None,
            assigned_client_identifier: None,
            server_keep_alive: None,
            authentication_method: None,
            authentication_data: None,
            request_problem_information: None,
            will_delay_interval: None,
            request_response_information: None,
            response_information: None,
            server_reference: None,
            reason_string: None,
            receive_maximum: None,
            topic_alias_maximum: None,
            topic_alias: None,
            maximum_qos: None,
            retain_available: None,
            user_properties: Seq::empty(),
            maximum_packet_size: None,
            wildcard_subscription_available: None,
            subscription_identifier_available: None,
            shared_subscription_available: None,
        }
    }

    /// Projection onto the properties a Will record allows.
    pub open spec fn spec_will(self) -> WillPropertiesView {
        WillPropertiesView {
            will_delay_interval: match self.will_delay_interval {
                Some(v) => v,
                None => 0,
            },
            payload_format_indicator: self.payload_format_indicator,
            message_expire_interval: self.message_expire_interval,
            content_type: self.content_type,
            response_topic: self.response_topic,
            correlation_data: self.correlation_data,
            user_properties: self.user_properties,
        }
    }

    /// Projection onto the properties a Connect packet allows.
    pub open spec fn spec_connect(self) -> ConnectPropertiesView {
        ConnectPropertiesView {
            session_expire_interval: self.session_expire_interval,
            receive_maximum: self.receive_maximum,
            maximum_packet_size: self.maximum_packet_size,
            topic_alias_maximum: self.topic_alias_maximum,
            request_response_information: self.request_response_information,
            request_problem_information: self.request_problem_information,
            user_properties: self.user_properties,
            authentication_method: self.authentication_method,
            authentication_data: self.authentication_data,
        }
    }

    /// Projection onto the properties a ConnAck packet allows.
    pub open spec fn spec_connack(self) -> ConnAckPropertiesView {
        ConnAckPropertiesView {
            session_expire_interval: self.session_expire_interval,
            receive_maximum: self.receive_maximum,
            maximum_qos: self.maximum_qos,
            retain_available: self.retain_available,
            maximum_packet_size: self.maximum_packet_size,
            assigned_client_identifier: self.assigned_client_identifier,
            topic_alias_maximum: self.topic_alias_maximum,
            reason_string: self.reason_string,
            user_properties: self.user_properties,
            wildcard_subscription_available: self.wildcard_subscription_available,
            subscription_identifier_available: self.subscription_identifier_available,
            shared_subscription_available: self.shared_subscription_available,
            server_keep_alive: self.server_keep_alive,
            response_information: self.response_information,
            server_reference: self.server_reference,
            authentication_method: self.authentication_method,
            authentication_data: self.authentication_data,
        }
    }

    /// Projection onto the properties a Publish packet allows.
    pub open spec fn spec_publish(self) -> PublishPropertiesView {
        PublishPropertiesView {
            payload_format_indicator: self.payload_format_indicator,
            message_expire_interval: self.message_expire_interval,
            topic_alias: self.topic_alias,
            response_topic: self.response_topic,
            correlation_data: self.correlation_data,
            user_properties: self.user_properties,
            subscription_identifier: self.subscription_identifier,
            content_type: self.content_type,
        }
    }

    /// Projection onto the properties an acknowledgement packet allows.
    pub open spec fn spec_pubres(self) -> ResponsePropertiesView {
        ResponsePropertiesView {
            reason_string: self.reason_string,
            user_properties: self.user_properties,
        }
    }

    /// Projection onto the properties a Disconnect packet allows.
    pub open spec fn spec_disconnect(self) -> DisconnectPropertiesView {
        DisconnectPropertiesView {
            session_expire_interval: self.session_expire_interval,
            reason_string: self.reason_string,
            user_properties: self.user_properties,
            server_reference: self.server_reference,
        }
    }

    /// Projection onto the properties a Subscribe packet allows.
    pub open spec fn spec_subscribe(self) -> SubscribePropertiesView {
        SubscribePropertiesView {
            subscription_identifier: self.subscription_identifier,
            user_properties: self.user_properties,
        }
    }

    /// Projection onto the properties an UnSubscribe packet allows.
    pub open spec fn spec_unsubscribe(self) -> UnSubscribePropertiesView {
        UnSubscribePropertiesView { user_properties: self.user_properties }
    }

    /// Projection onto the properties an Auth packet allows.
    pub open spec fn spec_auth(self) -> AuthPropertiesView {
        AuthPropertiesView {
            authentication_method: self.authentication_method,
            authentication_data: self.authentication_data,
            reason_string: self.reason_string,
            user_properties: self.user_properties,
        }
    }
}

/// The shared builder every property decoder fills: one optional slot per
/// scalar property, set at most once, and the ordered user-property list.
#[derive(Debug, Clone)]
pub struct PropertiesBuilder {
    payload_format_indicator: Option<bool>,
    message_expire_interval: Option<u32>,
    content_type: Option<MqttString>,
    response_topic: Option<MqttString>,
    correlation_data: Option<Vec<u8>>,
    subscription_identifier: Option<u32>,
    session_expire_interval: Option<u32>,
    assigned_client_identifier: Option<MqttString>,
    server_keep_alive: Option<u16>,
    authentication_method: Option<MqttString>,
    authentication_data: Option<Vec<u8>>,
    request_problem_information: Option<bool>,
    will_delay_interval: Option<u32>,
    request_response_information: Option<bool>,
    response_information: Option<MqttString>,
    server_reference: Option<MqttString>,
    reason_string: Option<MqttString>,
    receive_maximum: Option<u16>,
    topic_alias_maximum: Option<u16>,
    topic_alias: Option<u16>,
    maximum_qos: Option<QoS>,
    retain_available: Option<bool>,
    user_properties: Vec<(MqttString, MqttString)>,
    maximum_packet_size: Option<u32>,
    wildcard_subscription_available: Option<bool>,
    subscription_identifier_available: Option<bool>,
    shared_subscription_available: Option<bool>,
}

impl View for PropertiesBuilder {
    type V = BuilderView;

    closed spec fn view(&self) -> BuilderView {
        BuilderView {
            payload_format_indicator: self.payload_format_indicator,
            message_expire_interval: self.message_expire_interval,
            content_type: opt_str_view(self.content_type),
            response_topic: opt_str_view(self.response_topic),
            correlation_data: opt_bytes_view(self.correlation_data),
            subscription_identifier: self.subscription_identifier,
            session_expire_interval: self.session_expire_interval,
            assigned_client_identifier: opt_str_view(self.assigned_client_identifier),
            server_keep_alive: self.server_keep_alive,
            authentication_method: opt_str_view(self.authentication_method),
            authentication_data: opt_bytes_view(self.authentication_data),
            request_problem_information: self.request_problem_information,
            will_delay_interval: self.will_delay_interval,
            request_response_information: self.request_response_information,
            response_information: opt_str_view(self.response_information),
            server_reference: opt_str_view(self.server_reference),
            reason_string: opt_str_view(self.reason_string),
            receive_maximum: self.receive_maximum,
            topic_alias_maximum: self.topic_alias_maximum,
            topic_alias: self.topic_alias,
            maximum_qos: self.maximum_qos,
            retain_available: self.retain_available,
            user_properties: user_props_view(self.user_properties@),
            maximum_packet_size: self.maximum_packet_size,
            wildcard_subscription_available: self.wildcard_subscription_available,
            subscription_identifier_available: self.subscription_identifier_available,
            shared_subscription_available: self.shared_subscription_available,
        }
    }
}

impl Default for PropertiesBuilder {
    /// The builder every decode starts from: all slots empty.
    fn default() -> (r: PropertiesBuilder)
        ensures
            r@ == BuilderView::init(),
    {
        let r = PropertiesBuilder {
            payload_format_indicator: None,
            message_expire_interval: None,
            content_type: None,
            response_topic: None,
            correlation_data: None,
            subscription_identifier: None,
            session_expire_interval: None,
            assigned_client_identifier: None,
            server_keep_alive: None,
            authentication_method: None,
            authentication_data: None,
            request_problem_information: None,
            will_delay_interval: None,
            request_response_information: None,
            response_information: None,
            server_reference: None,
            reason_string: None,
            receive_maximum: None,
            topic_alias_maximum: None,
            topic_alias: None,
            maximum_qos: None,
            retain_available: None,
            user_properties: Vec::new(),
            maximum_packet_size: None,
            wildcard_subscription_available: None,
            subscription_identifier_available: None,
            shared_subscription_available: None,
        };
        proof {
            assert(user_props_view(r.user_properties@) =~= Seq::<(Seq<u8>, Seq<u8>)>::empty());
        }
        r
    }
}

impl PropertiesBuilder {
    /// Set the session expire interval slot; a second set is `MoreThanOnceProperty`.
    pub fn session_expire_interval(self, value: u32) -> (r: Result<PropertiesBuilder, MqttError>)
        ensures
            match r {
                Ok(b) => self@.session_expire_interval is None && b@ == (BuilderView {
                    session_expire_interval: Some(value),
                    ..self@
                }),
                Err(e) => self@.session_expire_interval is Some && e == MqttError::MoreThanOnceProperty,
            },
    {
        match self.session_expire_interval {
            None => {
                let mut b = self;
                b.session_expire_interval = Some(value);
                Ok(b)
            },
            Some(_) => Err(MqttError::MoreThanOnceProperty),
        }
    }

    /// Set the receive maximum slot; a second set is `MoreThanOnceProperty`.
    pub fn receive_maximum(self, value: u16) -> (r: Result<PropertiesBuilder, MqttError>)
        ensures
            match r {
                Ok(b) => self@.receive_maximum is None && b@ == (BuilderView {
                    receive_maximum: Some(value),
                    ..self@
                }),
                Err(e) => self@.receive_maximum is Some && e == MqttError::MoreThanOnceProperty,
            },
    {
        match self.receive_maximum {
            None => {
                let mut b = self;
                b.receive_maximum = Some(value);
                Ok(b)
            },
            Some(_) => Err(MqttError::MoreThanOnceProperty),
        }
    }

    /// Set the maximum packet size slot; a second set is `MoreThanOnceProperty`.
    pub fn maximum_packet_size(self, value: u32) -> (r: Result<PropertiesBuilder, MqttError>)
        ensures
            match r {
                Ok(b) => self@.maximum_packet_size is None && b@ == (BuilderView {
                    maximum_packet_size: Some(value),
                    ..self@
                }),
                Err(e) => self@.maximum_packet_size is Some && e == MqttError::MoreThanOnceProperty,
            },
    {
        match self.maximum_packet_size {
            None => {
                let mut b = self;
                b.maximum_packet_size = Some(value);
                Ok(b)
            },
            Some(_) => Err(MqttError::MoreThanOnceProperty),
        }
    }

    /// Set the topic alias maximum slot; a second set is `MoreThanOnceProperty`.
    pub fn topic_alias_maximum(self, value: u16) -> (r: Result<PropertiesBuilder, MqttError>)
        ensures
            match r {
                Ok(b) => self@.topic_alias_maximum is None && b@ == (BuilderView {
                    topic_alias_maximum: Some(value),
                    ..self@
                }),
                Err(e) => self@.topic_alias_maximum is Some && e == MqttError::MoreThanOnceProperty,
            },
    {
        match self.topic_alias_maximum {
            None => {
                let mut b = self;
                b.topic_alias_maximum = Some(value);
                Ok(b)
            },
            Some(_) => Err(MqttError::MoreThanOnceProperty),
        }
    }

    /// Set the request response information slot; a second set is `MoreThanOnceProperty`.
    pub fn request_response_information(self, value: u8) -> (r: Result<PropertiesBuilder, MqttError>)
        ensures
            match r {
                Ok(b) => self@.request_response_information is None && b@ == (BuilderView {
                    request_response_information: Some(value != 0),
                    ..self@
                }),
                Err(e) => self@.request_response_information is Some && e == MqttError::MoreThanOnceProperty,
            },
    {
        match self.request_response_information {
            None => {
                let mut b = self;
                b.request_response_information = Some(value != 0);
                Ok(b)
            },
            Some(_) => Err(MqttError::MoreThanOnceProperty),
        }
    }

    /// Set the request problem information slot; a second set is `MoreThanOnceProperty`.
    pub fn request_problem_information(self, value: u8) -> (r: Result<PropertiesBuilder, MqttError>)
        ensures
            match r {
                Ok(b) => self@.request_problem_information is None && b@ == (BuilderView {
                    request_problem_information: Some(value != 0),
                    ..self@
                }),
                Err(e) => self@.request_problem_information is Some && e == MqttError::MoreThanOnceProperty,
            },
    {
        match self.request_problem_information {
            None => {
                let mut b = self;
                b.request_problem_information = Some(value != 0);
                Ok(b)
            },
            Some(_) => Err(MqttError::MoreThanOnceProperty),
        }
    }

    /// Set the authentication method slot; a second set is `MoreThanOnceProperty`.
    pub fn authentication_method(self, value: MqttString) -> (r: Result<PropertiesBuilder, MqttError>)
        ensures
            match r {
                Ok(b) => self@.authentication_method is None && b@ == (BuilderView {
                    authentication_method: Some(value@),
                    ..self@
                }),
                Err(e) => self@.authentication_method is Some && e == MqttError::MoreThanOnceProperty,
            },
    {
        match self.authentication_method {
            None => {
                let mut b = self;
                b.authentication_method = Some(value);
                Ok(b)
            },
            Some(_) => Err(MqttError::MoreThanOnceProperty),
        }
    }

    /// Set the will delay interval slot; a second set is `MoreThanOnceProperty`.
    pub fn will_delay_interval(self, value: u32) -> (r: Result<PropertiesBuilder, MqttError>)
        ensures
            match r {
                Ok(b) => self@.will_delay_interval is None && b@ == (BuilderView {
                    will_delay_interval: Some(value),
                    ..self@
                }),
                Err(e) => self@.will_delay_interval is Some && e == MqttError::MoreThanOnceProperty,
            },
    {
        match self.will_delay_interval {
            None => {
                let mut b = self;
                b.will_delay_interval = Some(value);
                Ok(b)
            },
            Some(_) => Err(MqttError::MoreThanOnceProperty),
        }
    }

    /// Set the payload format indicator slot; a second set is `MoreThanOnceProperty`.
    pub fn payload_format_indicator(self, value: u8) -> (r: Result<PropertiesBuilder, MqttError>)
        ensures
            match r {
                Ok(b) => self@.payload_format_indicator is None && b@ == (BuilderView {
                    payload_format_indicator: Some(value != 0),
                    ..self@
                }),
                Err(e) => self@.payload_format_indicator is Some && e == MqttError::MoreThanOnceProperty,
            },
    {
        match self.payload_format_indicator {
            None => {
                let mut b = self;
                b.payload_format_indicator = Some(value != 0);
                Ok(b)
            },
            Some(_) => Err(MqttError::MoreThanOnceProperty),
        }
    }

    /// Set the message expire interval slot; a second set is `MoreThanOnceProperty`.
    pub fn message_expire_interval(self, value: u32) -> (r: Result<PropertiesBuilder, MqttError>)
        ensures
            match r {
                Ok(b) => self@.message_expire_interval is None && b@ == (BuilderView {
                    message_expire_interval: Some(value),
                    ..self@
                }),
                Err(e) => self@.message_expire_interval is Some && e == MqttError::MoreThanOnceProperty,
            },
    {
        match self.message_expire_interval {
            None => {
                let mut b = self;
                b.message_expire_interval = Some(value);
                Ok(b)
            },
            Some(_) => Err(MqttError::MoreThanOnceProperty),
        }
    }

    /// Set the retain available slot; a second set is `MoreThanOnceProperty`.
    pub fn retain_available(self, value: u8) -> (r: Result<PropertiesBuilder, MqttError>)
        ensures
            match r {
                Ok(b) => self@.retain_available is None && b@ == (BuilderView {
                    retain_available: Some(value != 0),
                    ..self@
                }),
                Err(e) => self@.retain_available is Some && e == MqttError::MoreThanOnceProperty,
            },
    {
        match self.retain_available {
            None => {
                let mut b = self;
                b.retain_available = Some(value != 0);
                Ok(b)
            },
            Some(_) => Err(MqttError::MoreThanOnceProperty),
        }
    }

    /// Set the wildcard subscription available slot; a second set is `MoreThanOnceProperty`.
    pub fn wildcard_subscription_available(self, value: u8) -> (r: Result<PropertiesBuilder, MqttError>)
        ensures
            match r {
                Ok(b) => self@.wildcard_subscription_available is None && b@ == (BuilderView {
                    wildcard_subscription_available: Some(value != 0),
                    ..self@
                }),
                Err(e) => self@.wildcard_subscription_available is Some && e == MqttError::MoreThanOnceProperty,
            },
    {
        match self.wildcard_subscription_available {
            None => {
                let mut b = self;
                b.wildcard_subscription_available = Some(value != 0);
                Ok(b)
            },
            Some(_) => Err(MqttError::MoreThanOnceProperty),
        }
    }

    /// Set the subscription identifier available slot; a second set is `MoreThanOnceProperty`.
    pub fn subscription_identifier_available(self, value: u8) -> (r: Result<PropertiesBuilder, MqttError>)
        ensures
            match r {
                Ok(b) => self@.subscription_identifier_available is None && b@ == (BuilderView {
                    subscription_identifier_available: Some(value != 0),
                    ..self@
                }),
                Err(e) => self@.subscription_identifier_available is Some && e == MqttError::MoreThanOnceProperty,
            },
    {
        match self.subscription_identifier_available {
            None => {
                let mut b = self;
                b.subscription_identifier_available = Some(value != 0);
                Ok(b)
            },
            Some(_) => Err(MqttError::MoreThanOnceProperty),
        }
    }

    /// Set the shared subscription available slot; a second set is `MoreThanOnceProperty`.
    pub fn shared_subscription_available(self, value: u8) -> (r: Result<PropertiesBuilder, MqttError>)
        ensures
            match r {
                Ok(b) => self@.shared_subscription_available is None && b@ == (BuilderView {
                    shared_subscription_available: Some(value != 0),
                    ..self@
                }),
                Err(e) => self@.shared_subscription_available is Some && e == MqttError::MoreThanOnceProperty,
            },
    {
        match self.shared_subscription_available {
            None => {
                let mut b = self;
                b.shared_subscription_available = Some(value != 0);
                Ok(b)
            },
            Some(_) => Err(MqttError::MoreThanOnceProperty),
        }
    }

    /// Set the server keep alive slot; a second set is `MoreThanOnceProperty`.
    pub fn server_keep_alive(self, value: u16) -> (r: Result<PropertiesBuilder, MqttError>)
        ensures
            match r {
                Ok(b) => self@.server_keep_alive is None && b@ == (BuilderView {
                    server_keep_alive: Some(value),
                    ..self@
                }),
                Err(e) => self@.server_keep_alive is Some && e == MqttError::MoreThanOnceProperty,
            },
    {
        match self.server_keep_alive {
            None => {
                let mut b = self;
                b.server_keep_alive = Some(value);
                Ok(b)
            },
            Some(_) => Err(MqttError::MoreThanOnceProperty),
        }
    }

    /// Set the topic alias slot; a second set is `MoreThanOnceProperty`.
    pub fn topic_alias(self, value: u16) -> (r: Result<PropertiesBuilder, MqttError>)
        ensures
            match r {
                Ok(b) => self@.topic_alias is None && b@ == (BuilderView {
                    topic_alias: Some(value),
                    ..self@
                }),
                Err(e) => self@.topic_alias is Some && e == MqttError::MoreThanOnceProperty,
            },
    {
        match self.topic_alias {
            None => {
                let mut b = self;
                b.topic_alias = Some(value);
                Ok(b)
            },
            Some(_) => Err(MqttError::MoreThanOnceProperty),
        }
    }

    /// Set the subscription identifier slot; a second set is `MoreThanOnceProperty`.
    pub fn subscription_identifier(self, value: u32) -> (r: Result<PropertiesBuilder, MqttError>)
        ensures
            match r {
                Ok(b) => self@.subscription_identifier is None && b@ == (BuilderView {
                    subscription_identifier: Some(value),
                    ..self@
                }),
                Err(e) => self@.subscription_identifier is Some && e == MqttError::MoreThanOnceProperty,
            },
    {
        match self.subscription_identifier {
            None => {
                let mut b = self;
                b.subscription_identifier = Some(value);
                Ok(b)
            },
            Some(_) => Err(MqttError::MoreThanOnceProperty),
        }
    }

    /// Set the authentication data slot; a second set is `MoreThanOnceProperty`.
    pub fn authentication_data(self, value: Vec<u8>) -> (r: Result<PropertiesBuilder, MqttError>)
        ensures
            match r {
                Ok(b) => self@.authentication_data is None && b@ == (BuilderView {
                    authentication_data: Some(value@),
                    ..self@
                }),
                Err(e) => self@.authentication_data is Some && e == MqttError::MoreThanOnceProperty,
            },
    {
        match self.authentication_data {
            None => {
                let mut b = self;
                b.authentication_data = Some(value);
                Ok(b)
            },
            Some(_) => Err(MqttError::MoreThanOnceProperty),
        }
    }

    /// Set the maximum qos slot; an invalid level is `MalformedQoS`, a second
    /// set is `MoreThanOnceProperty`.
    pub fn maximum_qos(self, value: u8) -> (r: Result<PropertiesBuilder, MqttError>)
        ensures
            match QoS::spec_try_from(value) {
                Ok(q) => match r {
                    Ok(b) => self@.maximum_qos is None && b@ == (BuilderView {
                        maximum_qos: Some(q),
                        ..self@
                    }),
                    Err(e) => self@.maximum_qos is Some && e == MqttError::MoreThanOnceProperty,
                },
                Err(e0) => r == Err::<PropertiesBuilder, MqttError>(e0),
            },
    {
        match QoS::try_from(value) {
            Ok(q) => match self.maximum_qos {
                None => {
                    let mut b = self;
                    b.maximum_qos = Some(q);
                    Ok(b)
                },
                Some(_) => Err(MqttError::MoreThanOnceProperty),
            },
            Err(e) => Err(e),
        }
    }

    /// Set the content type slot; an absent value is
    /// `EmptyPropertyValue`, a second set is `MoreThanOnceProperty`.
    pub fn content_type(self, value: Option<MqttString>) -> (r: Result<PropertiesBuilder, MqttError>)
        ensures
            match value {
                Some(v) => match r {
                    Ok(b) => self@.content_type is None && b@ == (BuilderView {
                        content_type: Some(v@),
                        ..self@
                    }),
                    Err(e) => self@.content_type is Some && e == MqttError::MoreThanOnceProperty,
                },
                None => r == Err::<PropertiesBuilder, MqttError>(MqttError::EmptyPropertyValue),
            },
    {
        match value {
            Some(v) => match self.content_type {
                None => {
                    let mut b = self;
                    b.content_type = Some(v);
                    Ok(b)
                },
                Some(_) => Err(MqttError::MoreThanOnceProperty),
            },
            None => Err(MqttError::EmptyPropertyValue),
        }
    }

    /// Set the response topic slot; an absent value is
    /// `EmptyPropertyValue`, a second set is `MoreThanOnceProperty`.
    pub fn response_topic(self, value: Option<MqttString>) -> (r: Result<PropertiesBuilder, MqttError>)
        ensures
            match value {
                Some(v) => match r {
                    Ok(b) => self@.response_topic is None && b@ == (BuilderView {
                        response_topic: Some(v@),
                        ..self@
                    }),
                    Err(e) => self@.response_topic is Some && e == MqttError::MoreThanOnceProperty,
                },
                None => r == Err::<PropertiesBuilder, MqttError>(MqttError::EmptyPropertyValue),
            },
    {
        match value {
            Some(v) => match self.response_topic {
                None => {
                    let mut b = self;
                    b.response_topic = Some(v);
                    Ok(b)
                },
                Some(_) => Err(MqttError::MoreThanOnceProperty),
            },
            None => Err(MqttError::EmptyPropertyValue),
        }
    }

    /// Set the server reference slot; an absent value is
    /// `EmptyPropertyValue`, a second set is `MoreThanOnceProperty`.
    pub fn server_reference(self, value: Option<MqttString>) -> (r: Result<PropertiesBuilder, MqttError>)
        ensures
            match value {
                Some(v) => match r {
                    Ok(b) => self@.server_reference is None && b@ == (BuilderView {
                        server_reference: Some(v@),
                        ..self@
                    }),
                    Err(e) => self@.server_reference is Some && e == MqttError::MoreThanOnceProperty,
                },
                None => r == Err::<PropertiesBuilder, MqttError>(MqttError::EmptyPropertyValue),
            },
    {
        match value {
            Some(v) => match self.server_reference {
                None => {
                    let mut b = self;
                    b.server_reference = Some(v);
                    Ok(b)
                },
                Some(_) => Err(MqttError::MoreThanOnceProperty),
            },
            None => Err(MqttError::EmptyPropertyValue),
        }
    }

    /// Set the correlation data slot; an absent value is
    /// `EmptyPropertyValue`, a second set is `MoreThanOnceProperty`.
    pub fn correlation_data(self, value: Option<Vec<u8>>) -> (r: Result<PropertiesBuilder, MqttError>)
        ensures
            match value {
                Some(v) => match r {
                    Ok(b) => self@.correlation_data is None && b@ == (BuilderView {
                        correlation_data: Some(v@),
                        ..self@
                    }),
                    Err(e) => self@.correlation_data is Some && e == MqttError::MoreThanOnceProperty,
                },
                None => r == Err::<PropertiesBuilder, MqttError>(MqttError::EmptyPropertyValue),
            },
    {
        match value {
            Some(v) => match self.correlation_data {
                None => {
                    let mut b = self;
                    b.correlation_data = Some(v);
                    Ok(b)
                },
                Some(_) => Err(MqttError::MoreThanOnceProperty),
            },
            None => Err(MqttError::EmptyPropertyValue),
        }
    }

    /// Set the assigned client identifier slot; an absent value is
    /// `EmptyPropertyValue`, a second set is `MoreThanOnceProperty`.
    pub fn assigned_client_identifier(self, value: Option<MqttString>) -> (r: Result<PropertiesBuilder, MqttError>)
        ensures
            match value {
                Some(v) => match r {
                    Ok(b) => self@.assigned_client_identifier is None && b@ == (BuilderView {
                        assigned_client_identifier: Some(v@),
                        ..self@
                    }),
                    Err(e) => self@.assigned_client_identifier is Some && e == MqttError::MoreThanOnceProperty,
                },
                None => r == Err::<PropertiesBuilder, MqttError>(MqttError::EmptyPropertyValue),
            },
    {
        match value {
            Some(v) => match self.assigned_client_identifier {
                None => {
                    let mut b = self;
                    b.assigned_client_identifier = Some(v);
                    Ok(b)
                },
                Some(_) => Err(MqttError::MoreThanOnceProperty),
            },
            None => Err(MqttError::EmptyPropertyValue),
        }
    }

    /// Set the reason string slot; an absent value is
    /// `EmptyPropertyValue`, a second set is `MoreThanOnceProperty`.
    pub fn reason_string(self, value: Option<MqttString>) -> (r: Result<PropertiesBuilder, MqttError>)
        ensures
            match value {
                Some(v) => match r {
                    Ok(b) => self@.reason_string is None && b@ == (BuilderView {
                        reason_string: Some(v@),
                        ..self@
                    }),
                    Err(e) => self@.reason_string is Some && e == MqttError::MoreThanOnceProperty,
                },
                None => r == Err::<PropertiesBuilder, MqttError>(MqttError::EmptyPropertyValue),
            },
    {
        match value {
            Some(v) => match self.reason_string {
                None => {
                    let mut b = self;
                    b.reason_string = Some(v);
                    Ok(b)
                },
                Some(_) => Err(MqttError::MoreThanOnceProperty),
            },
            None => Err(MqttError::EmptyPropertyValue),
        }
    }

    /// Append one user property; the list keeps arrival order.
    pub fn user_property(self, value: (MqttString, MqttString)) -> (r: PropertiesBuilder)
        ensures
            r@ == (BuilderView {
                user_properties: self@.user_properties.push((value.0@, value.1@)),
                ..self@
            }),
    {
        let ghost before = self@;
        let mut b = self;
        let ghost pair = (value.0@, value.1@);
        b.user_properties.push(value);
        proof {
            assert(user_props_view(b.user_properties@) =~= before.user_properties.push(pair));
        }
        b
    }

    /// Project the builder down to what a will section allows.
    pub fn will(self) -> (r: WillProperties)
        ensures
            r@ == self@.spec_will(),
    {
        WillProperties {
            will_delay_interval: match self.will_delay_interval {
                Some(v) => v,
                None => 0,
            },
            payload_format_indicator: self.payload_format_indicator,
            message_expire_interval: self.message_expire_interval,
            content_type: self.content_type,
            response_topic: self.response_topic,
            correlation_data: self.correlation_data,
            user_properties: self.user_properties,
        }
    }

    /// Project the builder down to what a connect section allows.
    pub fn connect(self) -> (r: ConnectProperties)
        ensures
            r@ == self@.spec_connect(),
    {
        ConnectProperties {
            session_expire_interval: self.session_expire_interval,
            receive_maximum: self.receive_maximum,
            maximum_packet_size: self.maximum_packet_size,
            topic_alias_maximum: self.topic_alias_maximum,
            request_response_information: self.request_response_information,
            request_problem_information: self.request_problem_information,
            user_properties: self.user_properties,
            authentication_method: self.authentication_method,
            authentication_data: self.authentication_data,
        }
    }

    /// Project the builder down to what a connack section allows.
    pub fn connack(self) -> (r: ConnAckProperties)
        ensures
            r@ == self@.spec_connack(),
    {
        ConnAckProperties {
            session_expire_interval: self.session_expire_interval,
            receive_maximum: self.receive_maximum,
            maximum_qos: self.maximum_qos,
            retain_available: self.retain_available,
            maximum_packet_size: self.maximum_packet_size,
            assigned_client_identifier: self.assigned_client_identifier,
            topic_alias_maximum: self.topic_alias_maximum,
            reason_string: self.reason_string,
            user_properties: self.user_properties,
            wildcard_subscription_available: self.wildcard_subscription_available,
            subscription_identifier_available: self.subscription_identifier_available,
            shared_subscription_available: self.shared_subscription_available,
            server_keep_alive: self.server_keep_alive,
            response_information: self.response_information,
            server_reference: self.server_reference,
            authentication_method: self.authentication_method,
            authentication_data: self.authentication_data,
        }
    }

    /// Project the builder down to what a publish section allows.
    pub fn publish(self) -> (r: PublishProperties)
        ensures
            r@ == self@.spec_publish(),
    {
        PublishProperties {
            payload_format_indicator: self.payload_format_indicator,
            message_expire_interval: self.message_expire_interval,
            topic_alias: self.topic_alias,
            response_topic: self.response_topic,
            correlation_data: self.correlation_data,
            user_properties: self.user_properties,
            subscription_identifier: self.subscription_identifier,
            content_type: self.content_type,
        }
    }

    /// Project the builder down to what a pubres section allows.
    pub fn pubres(self) -> (r: ResponseProperties)
        ensures
            r@ == self@.spec_pubres(),
    {
        ResponseProperties {
            reason_string: self.reason_string,
            user_properties: self.user_properties,
        }
    }

    /// Project the builder down to what a disconnect section allows.
    pub fn disconnect(self) -> (r: DisconnectProperties)
        ensures
            r@ == self@.spec_disconnect(),
    {
        DisconnectProperties {
            session_expire_interval: self.session_expire_interval,
            reason_string: self.reason_string,
            user_properties: self.user_properties,
            server_reference: self.server_reference,
        }
    }

    /// Project the builder down to what a subscribe section allows.
    pub fn subscribe(self) -> (r: SubscribeProperties)
        ensures
            r@ == self@.spec_subscribe(),
    {
        SubscribeProperties {
            subscription_identifier: self.subscription_identifier,
            user_properties: self.user_properties,
        }
    }

    /// Project the builder down to what a unsubscribe section allows.
    pub fn unsubscribe(self) -> (r: UnSubscribeProperties)
        ensures
            r@ == self@.spec_unsubscribe(),
    {
        UnSubscribeProperties {
            user_properties: self.user_properties,
        }
    }

    /// Project the builder down to what a auth section allows.
    pub fn auth(self) -> (r: AuthProperties)
        ensures
            r@ == self@.spec_auth(),
    {
        AuthProperties {
            authentication_method: self.authentication_method,
            authentication_data: self.authentication_data,
            reason_string: self.reason_string,
            user_properties: self.user_properties,
        }
    }

}


/// Which packet's whitelist governs a properties region.
pub ghost enum PropertyFamily {
    Connect,
    ConnAck,
    Publish,
    Will,
    PubRes,
    Disconnect,
    Subscribe,
    UnSubscribe,
    Auth,
}

/// The per-packet whitelist: which properties a region may carry.
pub open spec fn spec_allows(f: PropertyFamily, p: Property) -> bool {
    match f {
        PropertyFamily::Connect => match p {
            Property::SessionExpireInterval => true,
            Property::ReceiveMaximum => true,
            Property::MaximumPacketSize => true,
            Property::TopicAliasMaximum => true,
            Property::RequestResponseInformation => true,
            Property::RequestProblemInformation => true,
            Property::UserProperty => true,
            Property::AuthenticationMethod => true,
            Property::AuthenticationData => true,
            _ => false,
        },
        PropertyFamily::ConnAck => match p {
            Property::SessionExpireInterval => true,
            Property::ReceiveMaximum => true,
            Property::MaximumQoS => true,
            Property::RetainAvailable => true,
            Property::MaximumPacketSize => true,
            Property::AssignedClientIdentifier => true,
            Property::TopicAliasMaximum => true,
            Property::ReasonString => true,
            Property::UserProperty => true,
            Property::WildcardSubscriptionAvailable => true,
            Property::SubscriptionIdentifierAvailable => true,
            Property::SharedSubscriptionAvailable => true,
            Property::ServerKeepAlive => true,
            Property::AuthenticationMethod => true,
            Property::AuthenticationData => true,
            _ => false,
        },
        PropertyFamily::Publish => match p {
            Property::PayloadFormatIndicator => true,
            Property::MessageExpireInterval => true,
            Property::ContentType => true,
            Property::ResponseTopic => true,
            Property::CorrelationData => true,
            Property::SubscriptionIdentifier => true,
            Property::TopicAlias => true,
            Property::UserProperty => true,
            _ => false,
        },
        PropertyFamily::Will => match p {
            Property::PayloadFormatIndicator => true,
            Property::MessageExpireInterval => true,
            Property::ContentType => true,
            Property::ResponseTopic => true,
            Property::CorrelationData => true,
            Property::WillDelayInterval => true,
            Property::UserProperty => true,
            _ => false,
        },
        PropertyFamily::PubRes => match p {
            Property::ReasonString => true,
            Property::UserProperty => true,
            _ => false,
        },
        PropertyFamily::Disconnect => match p {
            Property::SessionExpireInterval => true,
            Property::ServerReference => true,
            Property::ReasonString => true,
            Property::UserProperty => true,
            _ => false,
        },
        PropertyFamily::Subscribe => match p {
            Property::SubscriptionIdentifier => true,
            Property::UserProperty => true,
            _ => false,
        },
        PropertyFamily::UnSubscribe => match p {
            Property::UserProperty => true,
            _ => false,
        },
        PropertyFamily::Auth => match p {
            Property::AuthenticationMethod => true,
            Property::AuthenticationData => true,
            Property::ReasonString => true,
            Property::UserProperty => true,
            _ => false,
        },
    }
}

/// A decoded property payload, before it lands in a builder slot.
pub ghost enum PropVal {
    Byte(u8),
    Word(u16),
    Quad(u32),
    VarInt(u32),
    OptStr(Option<Seq<u8>>),
    Bin(Seq<u8>),
    Pair(Option<Seq<u8>>, Option<Seq<u8>>),
}

/// What decoding one property payload at the head of t yields, and how many
/// bytes it takes.
pub open spec fn spec_read_prop(p: Property, t: Seq<u8>) -> Result<(PropVal, int), MqttError> {
    match p {
        Property::PayloadFormatIndicator
        | Property::RequestProblemInformation
        | Property::RequestResponseInformation
        | Property::MaximumQoS
        | Property::RetainAvailable
        | Property::WildcardSubscriptionAvailable
        | Property::SubscriptionIdentifierAvailable
        | Property::SharedSubscriptionAvailable => if t.len() < 1 {
            Err(MqttError::EndOfStream)
        } else {
            Ok((PropVal::Byte(t[0]), 1))
        },
        Property::ReceiveMaximum
        | Property::TopicAliasMaximum
        | Property::TopicAlias
        | Property::ServerKeepAlive => if t.len() < 2 {
            Err(MqttError::EndOfStream)
        } else {
            Ok((PropVal::Word(crate::v5::decoder::spec_u16_of(t[0], t[1])), 2))
        },
        Property::SessionExpireInterval
        | Property::MessageExpireInterval
        | Property::WillDelayInterval
        | Property::MaximumPacketSize => if t.len() < 4 {
            Err(MqttError::EndOfStream)
        } else {
            Ok((PropVal::Quad(crate::v5::decoder::spec_u32_of(t[0], t[1], t[2], t[3])), 4))
        },
        Property::SubscriptionIdentifier => match crate::v5::decoder::spec_decode_varint(t) {
            Ok((v, k)) => Ok((PropVal::VarInt(v), k)),
            Err(e) => Err(e),
        },
        Property::ContentType
        | Property::ResponseTopic
        | Property::AssignedClientIdentifier
        | Property::AuthenticationMethod
        | Property::ReasonString
        | Property::ServerReference
        | Property::ResponseInformation => match crate::v5::decoder::spec_decode_string(t) {
            Ok((o, k)) => Ok((PropVal::OptStr(o), k)),
            Err(e) => Err(e),
        },
        Property::CorrelationData | Property::AuthenticationData => match crate::v5::decoder::spec_decode_binary(t) {
            Ok((bs, k)) => Ok((PropVal::Bin(bs), k)),
            Err(e) => Err(e),
        },
        Property::UserProperty => match crate::v5::decoder::spec_decode_string(t) {
            Err(e) => Err(e),
            Ok((o1, k1)) => match crate::v5::decoder::spec_decode_string(t.skip(k1)) {
                Err(e) => Err(e),
                Ok((o2, k2)) => Ok((PropVal::Pair(o1, o2), k1 + k2)),
            },
        },
    }
}

/// What setting one decoded property does to the builder: the slot is filled,
/// a duplicate is `MoreThanOnceProperty`, an absent required value is
/// `EmptyPropertyValue`, and an absent user-property half or authentication
/// method is skipped.
pub open spec fn spec_apply(b: BuilderView, p: Property, v: PropVal) -> Result<
    BuilderView,
    MqttError,
> {
    match p {
        Property::PayloadFormatIndicator => match v {
            PropVal::Byte(x) => if b.payload_format_indicator is Some {
                Err(MqttError::MoreThanOnceProperty)
            } else {
                Ok(BuilderView { payload_format_indicator: Some(x != 0), ..b })
            },
            _ => Err(MqttError::MalformedPacket),
        },
        Property::RequestProblemInformation => match v {
            PropVal::Byte(x) => if b.request_problem_information is Some {
                Err(MqttError::MoreThanOnceProperty)
            } else {
                Ok(BuilderView { request_problem_information: Some(x != 0), ..b })
            },
            _ => Err(MqttError::MalformedPacket),
        },
        Property::RequestResponseInformation => match v {
            PropVal::Byte(x) => if b.request_response_information is Some {
                Err(MqttError::MoreThanOnceProperty)
            } else {
                Ok(BuilderView { request_response_information: Some(x != 0), ..b })
            },
            _ => Err(MqttError::MalformedPacket),
        },
        Property::MaximumQoS => match v {
            PropVal::Byte(x) => match QoS::spec_try_from(x) {
                Ok(q) => if b.maximum_qos is Some {
                    Err(MqttError::MoreThanOnceProperty)
                } else {
                    Ok(BuilderView { maximum_qos: Some(q), ..b })
                },
                Err(e) => Err(e),
            },
            _ => Err(MqttError::MalformedPacket),
        },
        Property::RetainAvailable => match v {
            PropVal::Byte(x) => if b.retain_available is Some {
                Err(MqttError::MoreThanOnceProperty)
            } else {
                Ok(BuilderView { retain_available: Some(x != 0), ..b })
            },
            _ => Err(MqttError::MalformedPacket),
        },
        Property::WildcardSubscriptionAvailable => match v {
            PropVal::Byte(x) => if b.wildcard_subscription_available is Some {
                Err(MqttError::MoreThanOnceProperty)
            } else {
                Ok(BuilderView { wildcard_subscription_available: Some(x != 0), ..b })
            },
            _ => Err(MqttError::MalformedPacket),
        },
        Property::SubscriptionIdentifierAvailable => match v {
            PropVal::Byte(x) => if b.subscription_identifier_available is Some {
                Err(MqttError::MoreThanOnceProperty)
            } else {
                Ok(BuilderView { subscription_identifier_available: Some(x != 0), ..b })
            },
            _ => Err(MqttError::MalformedPacket),
        },
        Property::SharedSubscriptionAvailable => match v {
            PropVal::Byte(x) => if b.shared_subscription_available is Some {
                Err(MqttError::MoreThanOnceProperty)
            } else {
                Ok(BuilderView { shared_subscription_available: Some(x != 0), ..b })
            },
            _ => Err(MqttError::MalformedPacket),
        },
        Property::ReceiveMaximum => match v {
            PropVal::Word(x) => if b.receive_maximum is Some {
                Err(MqttError::MoreThanOnceProperty)
            } else {
                Ok(BuilderView { receive_maximum: Some(x), ..b })
            },
            _ => Err(MqttError::MalformedPacket),
        },
        Property::TopicAliasMaximum => match v {
            PropVal::Word(x) => if b.topic_alias_maximum is Some {
                Err(MqttError::MoreThanOnceProperty)
            } else {
                Ok(BuilderView { topic_alias_maximum: Some(x), ..b })
            },
            _ => Err(MqttError::MalformedPacket),
        },
        Property::TopicAlias => match v {
            PropVal::Word(x) => if b.topic_alias is Some {
                Err(MqttError::MoreThanOnceProperty)
            } else {
                Ok(BuilderView { topic_alias: Some(x), ..b })
            },
            _ => Err(MqttError::MalformedPacket),
        },
        Property::ServerKeepAlive => match v {
            PropVal::Word(x) => if b.server_keep_alive is Some {
                Err(MqttError::MoreThanOnceProperty)
            } else {
                Ok(BuilderView { server_keep_alive: Some(x), ..b })
            },
            _ => Err(MqttError::MalformedPacket),
        },
        Property::SessionExpireInterval => match v {
            PropVal::Quad(x) => if b.session_expire_interval is Some {
                Err(MqttError::MoreThanOnceProperty)
            } else {
                Ok(BuilderView { session_expire_interval: Some(x), ..b })
            },
            _ => Err(MqttError::MalformedPacket),
        },
        Property::MessageExpireInterval => match v {
            PropVal::Quad(x) => if b.message_expire_interval is Some {
                Err(MqttError::MoreThanOnceProperty)
            } else {
                Ok(BuilderView { message_expire_interval: Some(x), ..b })
            },
            _ => Err(MqttError::MalformedPacket),
        },
        Property::WillDelayInterval => match v {
            PropVal::Quad(x) => if b.will_delay_interval is Some {
                Err(MqttError::MoreThanOnceProperty)
            } else {
                Ok(BuilderView { will_delay_interval: Some(x), ..b })
            },
            _ => Err(MqttError::MalformedPacket),
        },
        Property::MaximumPacketSize => match v {
            PropVal::Quad(x) => if b.maximum_packet_size is Some {
                Err(MqttError::MoreThanOnceProperty)
            } else {
                Ok(BuilderView { maximum_packet_size: Some(x), ..b })
            },
            _ => Err(MqttError::MalformedPacket),
        },
        Property::SubscriptionIdentifier => match v {
            PropVal::VarInt(x) => if b.subscription_identifier is Some {
                Err(MqttError::MoreThanOnceProperty)
            } else {
                Ok(BuilderView { subscription_identifier: Some(x), ..b })
            },
            _ => Err(MqttError::MalformedPacket),
        },
        Property::ContentType => match v {
            PropVal::OptStr(Some(s)) => if b.content_type is Some {
                Err(MqttError::MoreThanOnceProperty)
            } else {
                Ok(BuilderView { content_type: Some(s), ..b })
            },
            PropVal::OptStr(None) => Err(MqttError::EmptyPropertyValue),
            _ => Err(MqttError::MalformedPacket),
        },
        Property::ResponseTopic => match v {
            PropVal::OptStr(Some(s)) => if b.response_topic is Some {
                Err(MqttError::MoreThanOnceProperty)
            } else {
                Ok(BuilderView { response_topic: Some(s), ..b })
            },
            PropVal::OptStr(None) => Err(MqttError::EmptyPropertyValue),
            _ => Err(MqttError::MalformedPacket),
        },
        Property::AssignedClientIdentifier => match v {
            PropVal::OptStr(Some(s)) => if b.assigned_client_identifier is Some {
                Err(MqttError::MoreThanOnceProperty)
            } else {
                Ok(BuilderView { assigned_client_identifier: Some(s), ..b })
            },
            PropVal::OptStr(None) => Err(MqttError::EmptyPropertyValue),
            _ => Err(MqttError::MalformedPacket),
        },
        Property::ReasonString => match v {
            PropVal::OptStr(Some(s)) => if b.reason_string is Some {
                Err(MqttError::MoreThanOnceProperty)
            } else {
                Ok(BuilderView { reason_string: Some(s), ..b })
            },
            PropVal::OptStr(None) => Err(MqttError::EmptyPropertyValue),
            _ => Err(MqttError::MalformedPacket),
        },
        Property::ServerReference => match v {
            PropVal::OptStr(Some(s)) => if b.server_reference is Some {
                Err(MqttError::MoreThanOnceProperty)
            } else {
                Ok(BuilderView { server_reference: Some(s), ..b })
            },
            PropVal::OptStr(None) => Err(MqttError::EmptyPropertyValue),
            _ => Err(MqttError::MalformedPacket),
        },
        Property::ResponseInformation => Err(MqttError::MalformedPacket),
        Property::AuthenticationMethod => match v {
            PropVal::OptStr(Some(s)) => if b.authentication_method is Some {
                Err(MqttError::MoreThanOnceProperty)
            } else {
                Ok(BuilderView { authentication_method: Some(s), ..b })
            },
            PropVal::OptStr(None) => Ok(b),
            _ => Err(MqttError::MalformedPacket),
        },
        Property::CorrelationData => match v {
            PropVal::Bin(s) => if b.correlation_data is Some {
                Err(MqttError::MoreThanOnceProperty)
            } else {
                Ok(BuilderView { correlation_data: Some(s), ..b })
            },
            _ => Err(MqttError::MalformedPacket),
        },
        Property::AuthenticationData => match v {
            PropVal::Bin(s) => if b.authentication_data is Some {
                Err(MqttError::MoreThanOnceProperty)
            } else {
                Ok(BuilderView { authentication_data: Some(s), ..b })
            },
            _ => Err(MqttError::MalformedPacket),
        },
        Property::UserProperty => match v {
            PropVal::Pair(Some(k), Some(x)) => Ok(
                BuilderView { user_properties: b.user_properties.push((k, x)), ..b },
            ),
            PropVal::Pair(_, _) => Ok(b),
            _ => Err(MqttError::MalformedPacket),
        },
    }
}

/// What scanning a whole properties region does to a builder: properties are
/// read id by id, each checked against the family's whitelist and folded into
/// the builder, until the region is exhausted.
pub open spec fn spec_scan(f: PropertyFamily, s: Seq<u8>, b: BuilderView) -> Result<
    BuilderView,
    MqttError,
>
    decreases s.len(),
{
    if s.len() == 0 {
        Ok(b)
    } else {
        match crate::v5::decoder::spec_decode_varint(s) {
            Err(e) => Err(e),
            Ok((id, k)) => match Property::spec_try_from(id) {
                Err(e) => Err(e),
                Ok(p) => if !spec_allows(f, p) {
                    Err(MqttError::UnacceptableProperty(p))
                } else {
                    match spec_read_prop(p, s.skip(k)) {
                        Err(e) => Err(e),
                        Ok((v, m)) => if k < 1 || m < 1 || k + m > s.len() {
                            Err(MqttError::EndOfStream)
                        } else {
                            match spec_apply(b, p, v) {
                                Err(e) => Err(e),
                                Ok(b2) => spec_scan(f, s.skip(k + m), b2),
                            }
                        },
                    }
                },
            },
        }
    }
}


/// The encoded segment of one optional one-byte property.
pub open spec fn opt_u8_seg(id: u8, o: Option<u8>) -> Seq<u8> {
    match o {
        Some(v) => seq![id, v],
        None => seq![],
    }
}

/// The wire byte of a boolean property value.
pub open spec fn bool_byte(v: bool) -> u8 {
    if v {
        1
    } else {
        0
    }
}

/// The encoded segment of one optional boolean property.
pub open spec fn opt_bool_seg(id: u8, o: Option<bool>) -> Seq<u8> {
    match o {
        Some(v) => seq![id, bool_byte(v)],
        None => seq![],
    }
}

/// The encoded segment of one optional u16 property.
pub open spec fn opt_u16_seg(id: u8, o: Option<u16>) -> Seq<u8> {
    match o {
        Some(v) => seq![id] + crate::v5::encoder::spec_u16_be(v),
        None => seq![],
    }
}

/// The encoded segment of one optional u32 property.
pub open spec fn opt_u32_seg(id: u8, o: Option<u32>) -> Seq<u8> {
    match o {
        Some(v) => seq![id] + crate::v5::encoder::spec_u32_be(v),
        None => seq![],
    }
}

/// The encoded segment of one optional variable-length integer property.
pub open spec fn opt_varint_seg(id: u8, o: Option<u32>) -> Seq<u8> {
    match o {
        Some(v) => seq![id] + crate::v5::encoder::spec_varint(v as int),
        None => seq![],
    }
}

/// The encoded segment of one optional string or binary property.
pub open spec fn opt_str_seg(id: u8, o: Option<Seq<u8>>) -> Seq<u8> {
    match o {
        Some(s) => seq![id] + crate::v5::encoder::spec_len_prefixed(s),
        None => seq![],
    }
}

/// The encoded segment of one user property: id, key, value.
pub open spec fn spec_user_seg(p: (Seq<u8>, Seq<u8>)) -> Seq<u8> {
    seq![0x26u8] + crate::v5::encoder::spec_len_prefixed(p.0)
        + crate::v5::encoder::spec_len_prefixed(p.1)
}

/// The encoded segments of a whole user-property list, in order.
pub open spec fn spec_user_props_bytes(ups: Seq<(Seq<u8>, Seq<u8>)>) -> Seq<u8>
    decreases ups.len(),
{
    if ups.len() == 0 {
        seq![]
    } else {
        spec_user_seg(ups[0]) + spec_user_props_bytes(ups.drop_first())
    }
}

/// The properties whose payload is one byte.
pub open spec fn is_byte_prop(p: Property) -> bool {
    p == Property::PayloadFormatIndicator || p == Property::RequestProblemInformation || p
        == Property::RequestResponseInformation || p == Property::MaximumQoS || p
        == Property::RetainAvailable || p == Property::WildcardSubscriptionAvailable || p
        == Property::SubscriptionIdentifierAvailable || p == Property::SharedSubscriptionAvailable
}

/// The properties whose payload is a u16.
pub open spec fn is_word_prop(p: Property) -> bool {
    p == Property::ReceiveMaximum || p == Property::TopicAliasMaximum || p == Property::TopicAlias
        || p == Property::ServerKeepAlive
}

/// The properties whose payload is a u32.
pub open spec fn is_quad_prop(p: Property) -> bool {
    p == Property::SessionExpireInterval || p == Property::MessageExpireInterval || p
        == Property::WillDelayInterval || p == Property::MaximumPacketSize
}

/// The properties whose payload is a length-prefixed string.
pub open spec fn is_str_prop(p: Property) -> bool {
    p == Property::ContentType || p == Property::ResponseTopic || p
        == Property::AssignedClientIdentifier || p == Property::AuthenticationMethod || p
        == Property::ReasonString || p == Property::ServerReference
}

/// The properties whose payload is length-prefixed binary data.
pub open spec fn is_bin_prop(p: Property) -> bool {
    p == Property::CorrelationData || p == Property::AuthenticationData
}

/// One scanner step over a canonical segment: the id byte is read, the
/// payload parsed, and the value folded into the builder.
pub proof fn lemma_scan_step(
    f: PropertyFamily,
    p: Property,
    v: PropVal,
    payload: Seq<u8>,
    tail: Seq<u8>,
    b: BuilderView,
)
    requires
        spec_allows(f, p),
        1 <= payload.len(),
        spec_read_prop(p, payload + tail) == Ok::<(PropVal, int), MqttError>(
            (v, payload.len() as int),
        ),
    ensures
        spec_scan(f, seq![p.spec_id()] + payload + tail, b) == (match spec_apply(b, p, v) {
            Ok(b2) => spec_scan(f, tail, b2),
            Err(e) => Err::<BuilderView, MqttError>(e),
        }),
{
    let s = seq![p.spec_id()] + payload + tail;
    assert(s[0] == p.spec_id());
    assert(p.spec_id() < 0x80);
    assert(crate::v5::decoder::spec_decode_varint(s) == Ok::<(u32, int), MqttError>(
        (p.spec_id() as u32, 1),
    ));
    lemma_property_id_round_trip(p);
    assert(s.skip(1) =~= payload + tail);
    assert(s.skip(1 + payload.len() as int) =~= tail);
}

/// Scanning an optional one-byte segment.
pub proof fn lemma_scan_opt_u8(
    f: PropertyFamily,
    p: Property,
    o: Option<u8>,
    tail: Seq<u8>,
    b: BuilderView,
)
    requires
        spec_allows(f, p),
        is_byte_prop(p),
    ensures
        spec_scan(f, opt_u8_seg(p.spec_id(), o) + tail, b) == (match o {
            None => spec_scan(f, tail, b),
            Some(x) => match spec_apply(b, p, PropVal::Byte(x)) {
                Ok(b2) => spec_scan(f, tail, b2),
                Err(e) => Err::<BuilderView, MqttError>(e),
            },
        }),
{
    match o {
        None => {
            assert(opt_u8_seg(p.spec_id(), o) + tail =~= tail);
        },
        Some(x) => {
            let payload = seq![x];
            let t = payload + tail;
            assert(t[0] == x);
            assert(spec_read_prop(p, t) == Ok::<(PropVal, int), MqttError>((PropVal::Byte(x), 1)));
            assert(opt_u8_seg(p.spec_id(), o) + tail =~= seq![p.spec_id()] + payload + tail);
            lemma_scan_step(f, p, PropVal::Byte(x), payload, tail, b);
        },
    }
}

/// Scanning an optional boolean segment.
pub proof fn lemma_scan_opt_bool(
    f: PropertyFamily,
    p: Property,
    o: Option<bool>,
    tail: Seq<u8>,
    b: BuilderView,
)
    requires
        spec_allows(f, p),
        is_byte_prop(p),
    ensures
        spec_scan(f, opt_bool_seg(p.spec_id(), o) + tail, b) == (match o {
            None => spec_scan(f, tail, b),
            Some(x) => match spec_apply(b, p, PropVal::Byte(bool_byte(x))) {
                Ok(b2) => spec_scan(f, tail, b2),
                Err(e) => Err::<BuilderView, MqttError>(e),
            },
        }),
{
    match o {
        None => {
            lemma_scan_opt_u8(f, p, None, tail, b);
            assert(opt_bool_seg(p.spec_id(), o) =~= opt_u8_seg(p.spec_id(), None));
        },
        Some(x) => {
            lemma_scan_opt_u8(f, p, Some(bool_byte(x)), tail, b);
            assert(opt_bool_seg(p.spec_id(), o) =~= opt_u8_seg(p.spec_id(), Some(bool_byte(x))));
        },
    }
}

/// Scanning an optional u16 segment.
pub proof fn lemma_scan_opt_u16(
    f: PropertyFamily,
    p: Property,
    o: Option<u16>,
    tail: Seq<u8>,
    b: BuilderView,
)
    requires
        spec_allows(f, p),
        is_word_prop(p),
    ensures
        spec_scan(f, opt_u16_seg(p.spec_id(), o) + tail, b) == (match o {
            None => spec_scan(f, tail, b),
            Some(x) => match spec_apply(b, p, PropVal::Word(x)) {
                Ok(b2) => spec_scan(f, tail, b2),
                Err(e) => Err::<BuilderView, MqttError>(e),
            },
        }),
{
    match o {
        None => {
            assert(opt_u16_seg(p.spec_id(), o) + tail =~= tail);
        },
        Some(x) => {
            let payload = crate::v5::encoder::spec_u16_be(x);
            let t = payload + tail;
            crate::v5::decoder::lemma_u16_round_trip(x, tail);
            assert(spec_read_prop(p, t) == Ok::<(PropVal, int), MqttError>((PropVal::Word(x), 2)));
            assert(opt_u16_seg(p.spec_id(), o) + tail =~= seq![p.spec_id()] + payload + tail);
            lemma_scan_step(f, p, PropVal::Word(x), payload, tail, b);
        },
    }
}

/// Scanning an optional u32 segment.
pub proof fn lemma_scan_opt_u32(
    f: PropertyFamily,
    p: Property,
    o: Option<u32>,
    tail: Seq<u8>,
    b: BuilderView,
)
    requires
        spec_allows(f, p),
        is_quad_prop(p),
    ensures
        spec_scan(f, opt_u32_seg(p.spec_id(), o) + tail, b) == (match o {
            None => spec_scan(f, tail, b),
            Some(x) => match spec_apply(b, p, PropVal::Quad(x)) {
                Ok(b2) => spec_scan(f, tail, b2),
                Err(e) => Err::<BuilderView, MqttError>(e),
            },
        }),
{
    match o {
        None => {
            assert(opt_u32_seg(p.spec_id(), o) + tail =~= tail);
        },
        Some(x) => {
            let payload = crate::v5::encoder::spec_u32_be(x);
            let t = payload + tail;
            crate::v5::decoder::lemma_u32_round_trip(x, tail);
            assert(spec_read_prop(p, t) == Ok::<(PropVal, int), MqttError>((PropVal::Quad(x), 4)));
            assert(opt_u32_seg(p.spec_id(), o) + tail =~= seq![p.spec_id()] + payload + tail);
            lemma_scan_step(f, p, PropVal::Quad(x), payload, tail, b);
        },
    }
}

/// Scanning an optional variable-length integer segment.
pub proof fn lemma_scan_opt_varint(
    f: PropertyFamily,
    o: Option<u32>,
    tail: Seq<u8>,
    b: BuilderView,
)
    requires
        spec_allows(f, Property::SubscriptionIdentifier),
        o matches Some(x) ==> x <= crate::v5::encoder::VARINT_MAX,
    ensures
        spec_scan(f, opt_varint_seg(0x0B, o) + tail, b) == (match o {
            None => spec_scan(f, tail, b),
            Some(x) => match spec_apply(b, Property::SubscriptionIdentifier, PropVal::VarInt(x)) {
                Ok(b2) => spec_scan(f, tail, b2),
                Err(e) => Err::<BuilderView, MqttError>(e),
            },
        }),
{
    let p = Property::SubscriptionIdentifier;
    match o {
        None => {
            assert(opt_varint_seg(0x0B, o) + tail =~= tail);
        },
        Some(x) => {
            let payload = crate::v5::encoder::spec_varint(x as int);
            let t = payload + tail;
            crate::v5::decoder::lemma_varint_round_trip(x as int, tail);
            crate::v5::encoder::lemma_varint_len(x as int);
            assert(spec_read_prop(p, t) == Ok::<(PropVal, int), MqttError>(
                (PropVal::VarInt(x), payload.len() as int),
            ));
            assert(opt_varint_seg(0x0B, o) + tail =~= seq![p.spec_id()] + payload + tail);
            lemma_scan_step(f, p, PropVal::VarInt(x), payload, tail, b);
        },
    }
}

/// Scanning an optional string segment; the string must be nonempty, else the
/// wire carries "absent".
#[verifier::rlimit(100)]
#[verifier::spinoff_prover]
pub proof fn lemma_scan_opt_str(
    f: PropertyFamily,
    p: Property,
    o: Option<Seq<u8>>,
    tail: Seq<u8>,
    b: BuilderView,
)
    requires
        spec_allows(f, p),
        is_str_prop(p),
        o matches Some(s) ==> 1 <= s.len() <= 0xFFFF,
    ensures
        spec_scan(f, opt_str_seg(p.spec_id(), o) + tail, b) == (match o {
            None => spec_scan(f, tail, b),
            Some(s) => match spec_apply(b, p, PropVal::OptStr(Some(s))) {
                Ok(b2) => spec_scan(f, tail, b2),
                Err(e) => Err::<BuilderView, MqttError>(e),
            },
        }),
{
    match o {
        None => {
            assert(opt_str_seg(p.spec_id(), o) + tail =~= tail);
        },
        Some(s) => {
            let payload = crate::v5::encoder::spec_len_prefixed(s);
            let t = payload + tail;
            crate::v5::decoder::lemma_string_round_trip(s, tail);
            assert(spec_read_prop(p, t) == Ok::<(PropVal, int), MqttError>(
                (PropVal::OptStr(Some(s)), payload.len() as int),
            ));
            assert(opt_str_seg(p.spec_id(), o) + tail =~= seq![p.spec_id()] + payload + tail);
            lemma_scan_step(f, p, PropVal::OptStr(Some(s)), payload, tail, b);
        },
    }
}

/// Scanning an optional binary segment.
#[verifier::rlimit(100)]
#[verifier::spinoff_prover]
pub proof fn lemma_scan_opt_bin(
    f: PropertyFamily,
    p: Property,
    o: Option<Seq<u8>>,
    tail: Seq<u8>,
    b: BuilderView,
)
    requires
        spec_allows(f, p),
        is_bin_prop(p),
        o matches Some(s) ==> s.len() <= 0xFFFF,
    ensures
        spec_scan(f, opt_str_seg(p.spec_id(), o) + tail, b) == (match o {
            None => spec_scan(f, tail, b),
            Some(s) => match spec_apply(b, p, PropVal::Bin(s)) {
                Ok(b2) => spec_scan(f, tail, b2),
                Err(e) => Err::<BuilderView, MqttError>(e),
            },
        }),
{
    match o {
        None => {
            assert(opt_str_seg(p.spec_id(), o) + tail =~= tail);
        },
        Some(s) => {
            let payload = crate::v5::encoder::spec_len_prefixed(s);
            let t = payload + tail;
            crate::v5::decoder::lemma_binary_round_trip(s, tail);
            assert(spec_read_prop(p, t) == Ok::<(PropVal, int), MqttError>(
                (PropVal::Bin(s), payload.len() as int),
            ));
            assert(opt_str_seg(p.spec_id(), o) + tail =~= seq![p.spec_id()] + payload + tail);
            lemma_scan_step(f, p, PropVal::Bin(s), payload, tail, b);
        },
    }
}

/// Scanning one canonical user-property segment appends the pair to the
/// builder's list.
#[verifier::rlimit(100)]
#[verifier::spinoff_prover]
pub proof fn lemma_scan_user_seg(
    f: PropertyFamily,
    pair: (Seq<u8>, Seq<u8>),
    tail: Seq<u8>,
    b: BuilderView,
)
    requires
        spec_allows(f, Property::UserProperty),
        1 <= pair.0.len() <= 0xFFFF,
        1 <= pair.1.len() <= 0xFFFF,
    ensures
        spec_scan(f, spec_user_seg(pair) + tail, b) == spec_scan(
            f,
            tail,
            (BuilderView { user_properties: b.user_properties.push(pair), ..b }),
        ),
{
    let p = Property::UserProperty;
    let payload = crate::v5::encoder::spec_len_prefixed(pair.0)
        + crate::v5::encoder::spec_len_prefixed(pair.1);
    let t = payload + tail;
    crate::v5::decoder::lemma_string_round_trip(
        pair.0,
        crate::v5::encoder::spec_len_prefixed(pair.1) + tail,
    );
    assert(t =~= crate::v5::encoder::spec_len_prefixed(pair.0) + (
    crate::v5::encoder::spec_len_prefixed(pair.1) + tail));
    assert(t.skip(2 + pair.0.len() as int) =~= crate::v5::encoder::spec_len_prefixed(pair.1)
        + tail);
    crate::v5::decoder::lemma_string_round_trip(pair.1, tail);
    assert(spec_read_prop(p, t) == Ok::<(PropVal, int), MqttError>(
        (PropVal::Pair(Some(pair.0), Some(pair.1)), payload.len() as int),
    ));
    assert(spec_user_seg(pair) + tail =~= seq![p.spec_id()] + payload + tail);
    lemma_scan_step(f, p, PropVal::Pair(Some(pair.0), Some(pair.1)), payload, tail, b);
}

/// Scanning a whole canonical user-property list appends it to the builder's
/// list, in order.
pub proof fn lemma_scan_user_props(
    f: PropertyFamily,
    ups: Seq<(Seq<u8>, Seq<u8>)>,
    tail: Seq<u8>,
    b: BuilderView,
)
    requires
        spec_allows(f, Property::UserProperty),
        forall|i: int|
            0 <= i < ups.len() ==> 1 <= (#[trigger] ups[i]).0.len() <= 0xFFFF && 1
                <= ups[i].1.len() <= 0xFFFF,
    ensures
        spec_scan(f, spec_user_props_bytes(ups) + tail, b) == spec_scan(
            f,
            tail,
            (BuilderView { user_properties: b.user_properties + ups, ..b }),
        ),
    decreases ups.len(),
{
    if ups.len() == 0 {
        assert(spec_user_props_bytes(ups) + tail =~= tail);
        assert(b.user_properties + ups =~= b.user_properties);
        assert((BuilderView { user_properties: b.user_properties + ups, ..b }) =~= b);
    } else {
        let pair = ups[0];
        let rest = ups.drop_first();
        let tail2 = spec_user_props_bytes(rest) + tail;
        assert(spec_user_props_bytes(ups) + tail =~= spec_user_seg(pair) + tail2);
        lemma_scan_user_seg(f, pair, tail2, b);
        let b2 = BuilderView { user_properties: b.user_properties.push(pair), ..b };
        lemma_scan_user_props(f, rest, tail, b2);
        assert(b2.user_properties + rest =~= b.user_properties + ups);
    }
}

/// How many bytes a value occupies inside a properties region.
pub trait PropertiesSize {
    /// The byte count as a mathematical value.
    spec fn spec_size(&self) -> int;

    /// When the count can be computed without overflow.
    spec fn size_ok(&self) -> bool;

    fn size(&self) -> (r: usize)
        requires
            self.size_ok(),
        ensures
            r == self.spec_size(),
    ;
}

/// A user-property list's bytes split at any index into the bytes of the two
/// halves.
pub proof fn lemma_user_props_bytes_split(ups: Seq<(Seq<u8>, Seq<u8>)>, i: int)
    requires
        0 <= i <= ups.len(),
    ensures
        spec_user_props_bytes(ups) == spec_user_props_bytes(ups.take(i)) + spec_user_props_bytes(
            ups.skip(i),
        ),
    decreases i,
{
    if i == 0 {
        assert(ups.take(0) =~= Seq::<(Seq<u8>, Seq<u8>)>::empty());
        assert(ups.skip(0) =~= ups);
        assert(spec_user_props_bytes(ups) =~= spec_user_props_bytes(ups.take(0))
            + spec_user_props_bytes(ups.skip(0)));
    } else {
        let df = ups.drop_first();
        lemma_user_props_bytes_split(df, i - 1);
        assert(ups.take(i).drop_first() =~= df.take(i - 1));
        assert(ups.take(i)[0] == ups[0]);
        assert(df.skip(i - 1) =~= ups.skip(i));
        assert(spec_user_props_bytes(ups.take(i)) == spec_user_seg(ups[0])
            + spec_user_props_bytes(df.take(i - 1)));
        assert(spec_user_props_bytes(ups) =~= spec_user_props_bytes(ups.take(i))
            + spec_user_props_bytes(ups.skip(i)));
    }
}

/// One more user property appends its segment to the list's bytes.
pub proof fn lemma_user_props_bytes_take_step(ups: Seq<(Seq<u8>, Seq<u8>)>, i: int)
    requires
        0 <= i < ups.len(),
    ensures
        spec_user_props_bytes(ups.take(i + 1)) == spec_user_props_bytes(ups.take(i))
            + spec_user_seg(ups[i]),
{
    let t = ups.take(i + 1);
    lemma_user_props_bytes_split(t, i);
    assert(t.take(i) =~= ups.take(i));
    assert(t.skip(i) =~= seq![ups[i]]);
    let one = seq![ups[i]];
    assert(one.drop_first() =~= Seq::<(Seq<u8>, Seq<u8>)>::empty());
    assert(spec_user_props_bytes(one) == spec_user_seg(one[0]) + spec_user_props_bytes(
        one.drop_first(),
    ));
    assert(spec_user_props_bytes(one) =~= spec_user_seg(ups[i]));
}

/// Every prefix of a user-property list takes at most as many bytes as the
/// whole list.
pub proof fn lemma_user_props_prefix_le(ups: Seq<(Seq<u8>, Seq<u8>)>, i: int)
    requires
        0 <= i <= ups.len(),
    ensures
        spec_user_props_bytes(ups.take(i)).len() <= spec_user_props_bytes(ups).len(),
{
    lemma_user_props_bytes_split(ups, i);
}


/// Concatenation of byte sequences reassociates.
pub proof fn lemma_add_assoc(a: Seq<u8>, b: Seq<u8>, c: Seq<u8>)
    ensures
        (a + b) + c == a + (b + c),
{
    assert((a + b) + c =~= a + (b + c));
}

} // verus!
