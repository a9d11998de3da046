use vstd::prelude::*;

verus! {

use crate::v5::property::Property;
use crate::v5::types::QoS;
use crate::v5::types::ReasonCode;

/// Everything that can go wrong while decoding, encoding or driving the
/// acknowledgement handshakes.
#[derive(Debug, Clone, Copy, PartialEq, Eq, Structural)]
pub enum MqttError {
    UnspecifiedError,
    EndOfStream,
    MalformedPacket,
    MalformedVariableInteger(u32),
    MalformedReasonCode(u8),
    MalformedPacketType(u8),
    MalformedQoS(u8),
    MalformedRetain(u8),
    MalformedPropertyType(u32),
    UnacceptableProperty(Property),
    UndefinedPacketIdentifier(QoS),
    MoreThanOnceProperty,
    EmptyPropertyValue,
    PacketTooLarge,
    ImplementationSpecificError,
    UnsupportedProtocolVersion,
    ClientIdentifierNotValid,
    ServerUnavailable,
    ServerBusy,
    TopicFilterInvalid,
    TopicNameInvalid,
    NotAuthorized,
    BadUserNameOrPassword,
}

impl MqttError {
    /// The canonical reason code that an error projects to on the wire.
    pub open spec fn spec_reason_code(self) -> ReasonCode {
        match self {
            MqttError::UnspecifiedError => ReasonCode::UnspecifiedError,
            MqttError::EndOfStream => ReasonCode::MalformedPacket,
            MqttError::MalformedPacket => ReasonCode::MalformedPacket,
            MqttError::MalformedVariableInteger(_) => ReasonCode::MalformedPacket,
            MqttError::MalformedReasonCode(_) => ReasonCode::MalformedPacket,
            MqttError::MalformedPacketType(_) => ReasonCode::MalformedPacket,
            MqttError::MalformedQoS(_) => ReasonCode::MalformedPacket,
            MqttError::MalformedRetain(_) => ReasonCode::MalformedPacket,
            MqttError::MalformedPropertyType(_) => ReasonCode::MalformedPacket,
            MqttError::UnacceptableProperty(_) => ReasonCode::MalformedPacket,
            MqttError::UndefinedPacketIdentifier(_) => ReasonCode::ProtocolError,
            MqttError::MoreThanOnceProperty => ReasonCode::ProtocolError,
            MqttError::EmptyPropertyValue => ReasonCode::ProtocolError,
            MqttError::PacketTooLarge => ReasonCode::PacketTooLarge,
            MqttError::ImplementationSpecificError => ReasonCode::ImplementationSpecificError,
            MqttError::UnsupportedProtocolVersion => ReasonCode::UnsupportedProtocolVersion,
            MqttError::ClientIdentifierNotValid => ReasonCode::ClientIdentifiersNotValid,
            MqttError::ServerUnavailable => ReasonCode::ServerUnavailable,
            MqttError::ServerBusy => ReasonCode::ServerBusy,
            MqttError::TopicFilterInvalid => ReasonCode::TopicFilterInvalid,
            MqttError::TopicNameInvalid => ReasonCode::TopicNameInvalid,
            MqttError::NotAuthorized => ReasonCode::NotAuthorized,
            MqttError::BadUserNameOrPassword => ReasonCode::BadUserNameOrPassword,
        }
    }

    /// Project the error to the reason code that would be reported on the wire.
    pub fn to_reason_code(self) -> (r: ReasonCode)
        ensures
            r == self.spec_reason_code(),
    {
        match self {
            MqttError::UnspecifiedError => ReasonCode::UnspecifiedError,
            MqttError::EndOfStream => ReasonCode::MalformedPacket,
            MqttError::MalformedPacket => ReasonCode::MalformedPacket,
            MqttError::MalformedVariableInteger(_) => ReasonCode::MalformedPacket,
            MqttError::MalformedReasonCode(_) => ReasonCode::MalformedPacket,
            MqttError::MalformedPacketType(_) => ReasonCode::MalformedPacket,
            MqttError::MalformedQoS(_) => ReasonCode::MalformedPacket,
            MqttError::MalformedRetain(_) => ReasonCode::MalformedPacket,
            MqttError::MalformedPropertyType(_) => ReasonCode::MalformedPacket,
            MqttError::UnacceptableProperty(_) => ReasonCode::MalformedPacket,
            MqttError::UndefinedPacketIdentifier(_) => ReasonCode::ProtocolError,
            MqttError::MoreThanOnceProperty => ReasonCode::ProtocolError,
            MqttError::EmptyPropertyValue => ReasonCode::ProtocolError,
            MqttError::PacketTooLarge => ReasonCode::PacketTooLarge,
            MqttError::ImplementationSpecificError => ReasonCode::ImplementationSpecificError,
            MqttError::UnsupportedProtocolVersion => ReasonCode::UnsupportedProtocolVersion,
            MqttError::ClientIdentifierNotValid => ReasonCode::ClientIdentifiersNotValid,
            MqttError::ServerUnavailable => ReasonCode::ServerUnavailable,
            MqttError::ServerBusy => ReasonCode::ServerBusy,
            MqttError::TopicFilterInvalid => ReasonCode::TopicFilterInvalid,
            MqttError::TopicNameInvalid => ReasonCode::TopicNameInvalid,
            MqttError::NotAuthorized => ReasonCode::NotAuthorized,
            MqttError::BadUserNameOrPassword => ReasonCode::BadUserNameOrPassword,
        }
    }
}

} // verus!
