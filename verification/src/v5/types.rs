use vstd::prelude::*;

verus! {

use crate::v5::error::MqttError;

/// Quality-of-service level of a publication.
#[derive(Debug, Clone, Copy, PartialEq, Eq, Hash, Structural)]
pub enum QoS {
    AtMostOnce,
    AtLeastOnce,
    ExactlyOnce,
}

impl QoS {
    pub open spec fn spec_as_u8(self) -> u8 {
        match self {
            QoS::AtMostOnce => 0,
            QoS::AtLeastOnce => 1,
            QoS::ExactlyOnce => 2,
        }
    }

    pub open spec fn spec_try_from(v: u8) -> Result<QoS, MqttError> {
        if v == 0 {
            Ok(QoS::AtMostOnce)
        } else if v == 1 {
            Ok(QoS::AtLeastOnce)
        } else if v == 2 {
            Ok(QoS::ExactlyOnce)
        } else {
            Err(MqttError::MalformedQoS(v))
        }
    }

    pub fn as_u8(self) -> (r: u8)
        ensures
            r == self.spec_as_u8(),
    {
        match self {
            QoS::AtMostOnce => 0,
            QoS::AtLeastOnce => 1,
            QoS::ExactlyOnce => 2,
        }
    }

    pub fn try_from(v: u8) -> (r: Result<QoS, MqttError>)
        ensures
            r == Self::spec_try_from(v),
    {
        if v == 0 {
            Ok(QoS::AtMostOnce)
        } else if v == 1 {
            Ok(QoS::AtLeastOnce)
        } else if v == 2 {
            Ok(QoS::ExactlyOnce)
        } else {
            Err(MqttError::MalformedQoS(v))
        }
    }
}

/// When the broker forwards retained messages to a new subscription.
#[derive(Debug, Clone, Copy, PartialEq, Eq, Hash, Structural)]
pub enum Retain {
    SendAtTime,
    SendAtSubscribe,
    DoNotSend,
}

impl Retain {
    pub open spec fn spec_as_u8(self) -> u8 {
        match self {
            Retain::SendAtTime => 0,
            Retain::SendAtSubscribe => 1,
            Retain::DoNotSend => 2,
        }
    }

    pub open spec fn spec_try_from(v: u8) -> Result<Retain, MqttError> {
        if v == 0 {
            Ok(Retain::SendAtTime)
        } else if v == 1 {
            Ok(Retain::SendAtSubscribe)
        } else if v == 2 {
            Ok(Retain::DoNotSend)
        } else {
            Err(MqttError::MalformedRetain(v))
        }
    }

    pub fn as_u8(self) -> (r: u8)
        ensures
            r == self.spec_as_u8(),
    {
        match self {
            Retain::SendAtTime => 0,
            Retain::SendAtSubscribe => 1,
            Retain::DoNotSend => 2,
        }
    }

    pub fn try_from(v: u8) -> (r: Result<Retain, MqttError>)
        ensures
            r == Self::spec_try_from(v),
    {
        if v == 0 {
            Ok(Retain::SendAtTime)
        } else if v == 1 {
            Ok(Retain::SendAtSubscribe)
        } else if v == 2 {
            Ok(Retain::DoNotSend)
        } else {
            Err(MqttError::MalformedRetain(v))
        }
    }
}

/// The control packet kind carried by the first header byte. For Publish the
/// low nibble carries the dup, qos and retain flags.
#[derive(Debug, Clone, Copy, PartialEq, Eq, Structural)]
pub enum PacketType {
    Connect,
    ConnAck,
    Publish { dup: bool, qos: QoS, retain: bool },
    PubAck,
    PubRec,
    PubRel,
    PubComp,
    Subscribe,
    SubAck,
    UnSubscribe,
    UnSubAck,
    PingReq,
    PingResp,
    Disconnect,
    Auth,
}

impl PacketType {
    /// The header byte of the packet type, Publish flags merged into the low
    /// nibble.
    pub open spec fn spec_as_u8(self) -> u8 {
        match self {
            PacketType::Connect => 0x10,
            PacketType::ConnAck => 0x20,
            PacketType::Publish { dup, qos, retain } => (0x30 | ((if dup {
                8u8
            } else {
                0u8
            }) | ((qos.spec_as_u8() << 1) | (if retain {
                1u8
            } else {
                0u8
            })))) as u8,
            PacketType::PubAck => 0x40,
            PacketType::PubRec => 0x50,
            PacketType::PubRel => 0x62,
            PacketType::PubComp => 0x70,
            PacketType::Subscribe => 0x82,
            PacketType::SubAck => 0x90,
            PacketType::UnSubscribe => 0xA2,
            PacketType::UnSubAck => 0xB0,
            PacketType::PingReq => 0xC0,
            PacketType::PingResp => 0xD0,
            PacketType::Disconnect => 0xE0,
            PacketType::Auth => 0xF0,
        }
    }

    /// Which packet type a header byte denotes; bytes with a reserved low
    /// nibble are `MalformedPacketType`, a Publish byte with qos bits 11 is
    /// `MalformedQoS`.
    pub open spec fn spec_try_from(v: u8) -> Result<PacketType, MqttError> {
        if v == 0x10 {
            Ok(PacketType::Connect)
        } else if v == 0x20 {
            Ok(PacketType::ConnAck)
        } else if 0x30 <= v && v <= 0x3F {
            match QoS::spec_try_from((v & 0x06) >> 1) {
                Ok(qos) => Ok(
                    PacketType::Publish {
                        dup: (v & 0x08) != 0,
                        qos,
                        retain: (v & 0x01) != 0,
                    },
                ),
                Err(e) => Err(e),
            }
        } else if v == 0x40 {
            Ok(PacketType::PubAck)
        } else if v == 0x50 {
            Ok(PacketType::PubRec)
        } else if v == 0x62 {
            Ok(PacketType::PubRel)
        } else if v == 0x70 {
            Ok(PacketType::PubComp)
        } else if v == 0x82 {
            Ok(PacketType::Subscribe)
        } else if v == 0x90 {
            Ok(PacketType::SubAck)
        } else if v == 0xA2 {
            Ok(PacketType::UnSubscribe)
        } else if v == 0xB0 {
            Ok(PacketType::UnSubAck)
        } else if v == 0xC0 {
            Ok(PacketType::PingReq)
        } else if v == 0xD0 {
            Ok(PacketType::PingResp)
        } else if v == 0xE0 {
            Ok(PacketType::Disconnect)
        } else if v == 0xF0 {
            Ok(PacketType::Auth)
        } else {
            Err(MqttError::MalformedPacketType(v))
        }
    }

    pub fn as_u8(self) -> (r: u8)
        ensures
            r == self.spec_as_u8(),
    {
        match self {
            PacketType::Connect => 0x10,
            PacketType::ConnAck => 0x20,
            PacketType::Publish { dup, qos, retain } => {
                let d: u8 = if dup {
                    8
                } else {
                    0
                };
                let q: u8 = qos.as_u8();
                let t: u8 = if retain {
                    1
                } else {
                    0
                };
                0x30 | (d | ((q << 1) | t))
            },
            PacketType::PubAck => 0x40,
            PacketType::PubRec => 0x50,
            PacketType::PubRel => 0x62,
            PacketType::PubComp => 0x70,
            PacketType::Subscribe => 0x82,
            PacketType::SubAck => 0x90,
            PacketType::UnSubscribe => 0xA2,
            PacketType::UnSubAck => 0xB0,
            PacketType::PingReq => 0xC0,
            PacketType::PingResp => 0xD0,
            PacketType::Disconnect => 0xE0,
            PacketType::Auth => 0xF0,
        }
    }

    pub fn try_from(v: u8) -> (r: Result<PacketType, MqttError>)
        ensures
            r == Self::spec_try_from(v),
    {
        if v == 0x10 {
            Ok(PacketType::Connect)
        } else if 0x30 <= v && v <= 0x3F {
            match QoS::try_from((v & 0x06) >> 1) {
                Ok(qos) => Ok(
                    PacketType::Publish {
                        dup: (v & 0x08) != 0,
                        qos,
                        retain: (v & 0x01) != 0,
                    },
                ),
                Err(e) => Err(e),
            }
        } else if v == 0x20 {
            Ok(PacketType::ConnAck)
        } else if v == 0x40 {
            Ok(PacketType::PubAck)
        } else if v == 0x50 {
            Ok(PacketType::PubRec)
        } else if v == 0x62 {
            Ok(PacketType::PubRel)
        } else if v == 0x70 {
            Ok(PacketType::PubComp)
        } else if v == 0x82 {
            Ok(PacketType::Subscribe)
        } else if v == 0x90 {
            Ok(PacketType::SubAck)
        } else if v == 0xA2 {
            Ok(PacketType::UnSubscribe)
        } else if v == 0xB0 {
            Ok(PacketType::UnSubAck)
        } else if v == 0xC0 {
            Ok(PacketType::PingReq)
        } else if v == 0xD0 {
            Ok(PacketType::PingResp)
        } else if v == 0xE0 {
            Ok(PacketType::Disconnect)
        } else if v == 0xF0 {
            Ok(PacketType::Auth)
        } else {
            Err(MqttError::MalformedPacketType(v))
        }
    }
}

/// Every packet type decodes back from its own header byte.
pub proof fn lemma_packet_type_round_trip(t: PacketType)
    ensures
        PacketType::spec_try_from(t.spec_as_u8()) == Ok::<PacketType, MqttError>(t),
{
    match t {
        PacketType::Publish { dup, qos, retain } => {
            let d: u8 = if dup {
                8
            } else {
                0
            };
            let q: u8 = qos.spec_as_u8();
            let r: u8 = if retain {
                1
            } else {
                0
            };
            assert(q == 0 || q == 1 || q == 2);
            let v: u8 = (0x30 | (d | ((q << 1) | r))) as u8;
            assert(v == (0x30 | (d | ((q << 1) | r))) as u8 && (q == 0 || q == 1 || q == 2) && (d
                == 0 || d == 8) && (r == 0 || r == 1) ==> 0x30 <= v <= 0x3F && (v & 0x06) >> 1 == q
                && ((v & 0x08) != 0) == (d == 8) && ((v & 0x01) != 0) == (r == 1)) by (bit_vector);
        },
        _ => {},
    }
}

/// A header byte that decodes to a packet type is that type's own byte.
pub proof fn lemma_packet_type_byte_inverse(v: u8)
    ensures
        PacketType::spec_try_from(v) matches Ok(t) ==> t.spec_as_u8() == v,
{
    if 0x30 <= v && v <= 0x3F {
        assert(0x30 <= v && v <= 0x3F ==> (0x30 | ((v & 8) | (((((v & 0x06) >> 1)) << 1) | (v
            & 1)))) == v && (v & 0x06) >> 1 <= 3 && ((v & 8) == 0 || (v & 8) == 8) && ((v & 1) == 0
            || (v & 1) == 1)) by (bit_vector);
        match QoS::spec_try_from((v & 0x06) >> 1) {
            Ok(q) => {
                assert(q.spec_as_u8() == (v & 0x06) >> 1);
                let d: u8 = if (v & 0x08) != 0 {
                    8
                } else {
                    0
                };
                let rt: u8 = if (v & 0x01) != 0 {
                    1
                } else {
                    0
                };
                assert((v & 8) == 0 || (v & 8) == 8) by (bit_vector);
                assert((v & 1) == 0 || (v & 1) == 1) by (bit_vector);
                assert(d == (v & 8) && rt == (v & 1));
            },
            Err(_) => {},
        }
    }
}

/// The one-byte reason codes of MQTT v5; unknown bytes are rejected.
#[derive(Debug, Clone, Copy, PartialEq, Eq, Structural)]
pub enum ReasonCode {
    Success,
    GrantedQoS1,
    GrantedQoS2,
    DisconnectWithWill,
    NoSubscriptionExisted,
    UnspecifiedError,
    MalformedPacket,
    ProtocolError,
    ImplementationSpecificError,
    UnsupportedProtocolVersion,
    ClientIdentifiersNotValid,
    BadUserNameOrPassword,
    NotAuthorized,
    ServerUnavailable,
    ServerBusy,
    Banned,
    ServerShuttingDown,
    BadAuthenticationMethod,
    KeepAliveTimeout,
    SessionTakenOver,
    TopicFilterInvalid,
    TopicNameInvalid,
    PacketIdentifierInUse,
    PacketIdentifierNotFound,
    ReceiveMaximumExceeded,
    PacketTooLarge,
    QuotaExceeded,
    PayloadFormatInvalid,
    RetainNotSupported,
    QoSNotSupported,
    UseAnotherServer,
    ServerMoved,
    ConnectionRateExceeded,
}

impl ReasonCode {
    pub open spec fn spec_as_u8(self) -> u8 {
        match self {
            ReasonCode::Success => 0x00,
            ReasonCode::GrantedQoS1 => 0x01,
            ReasonCode::GrantedQoS2 => 0x02,
            ReasonCode::DisconnectWithWill => 0x04,
            ReasonCode::NoSubscriptionExisted => 0x11,
            ReasonCode::UnspecifiedError => 0x80,
            ReasonCode::MalformedPacket => 0x81,
            ReasonCode::ProtocolError => 0x82,
            ReasonCode::ImplementationSpecificError => 0x83,
            ReasonCode::UnsupportedProtocolVersion => 0x84,
            ReasonCode::ClientIdentifiersNotValid => 0x85,
            ReasonCode::BadUserNameOrPassword => 0x86,
            ReasonCode::NotAuthorized => 0x87,
            ReasonCode::ServerUnavailable => 0x88,
            ReasonCode::ServerBusy => 0x89,
            ReasonCode::Banned => 0x8A,
            ReasonCode::ServerShuttingDown => 0x8B,
            ReasonCode::BadAuthenticationMethod => 0x8C,
            ReasonCode::KeepAliveTimeout => 0x8D,
            ReasonCode::SessionTakenOver => 0x8E,
            ReasonCode::TopicFilterInvalid => 0x8F,
            ReasonCode::TopicNameInvalid => 0x90,
            ReasonCode::PacketIdentifierInUse => 0x91,
            ReasonCode::PacketIdentifierNotFound => 0x92,
            ReasonCode::ReceiveMaximumExceeded => 0x93,
            ReasonCode::PacketTooLarge => 0x95,
            ReasonCode::QuotaExceeded => 0x97,
            ReasonCode::PayloadFormatInvalid => 0x99,
            ReasonCode::RetainNotSupported => 0x9A,
            ReasonCode::QoSNotSupported => 0x9B,
            ReasonCode::UseAnotherServer => 0x9C,
            ReasonCode::ServerMoved => 0x9D,
            ReasonCode::ConnectionRateExceeded => 0x9F,
        }
    }

    pub open spec fn spec_try_from(b: u8) -> Result<ReasonCode, MqttError> {
        if b == 0x00 {
            Ok(ReasonCode::Success)
        } else if b == 0x01 {
            Ok(ReasonCode::GrantedQoS1)
        } else if b == 0x02 {
            Ok(ReasonCode::GrantedQoS2)
        } else if b == 0x04 {
            Ok(ReasonCode::DisconnectWithWill)
        } else if b == 0x11 {
            Ok(ReasonCode::NoSubscriptionExisted)
        } else if b == 0x80 {
            Ok(ReasonCode::UnspecifiedError)
        } else if b == 0x81 {
            Ok(ReasonCode::MalformedPacket)
        } else if b == 0x82 {
            Ok(ReasonCode::ProtocolError)
        } else if b == 0x83 {
            Ok(ReasonCode::ImplementationSpecificError)
        } else if b == 0x84 {
            Ok(ReasonCode::UnsupportedProtocolVersion)
        } else if b == 0x85 {
            Ok(ReasonCode::ClientIdentifiersNotValid)
        } else if b == 0x86 {
            Ok(ReasonCode::BadUserNameOrPassword)
        } else if b == 0x87 {
            Ok(ReasonCode::NotAuthorized)
        } else if b == 0x88 {
            Ok(ReasonCode::ServerUnavailable)
        } else if b == 0x89 {
            Ok(ReasonCode::ServerBusy)
        } else if b == 0x8A {
            Ok(ReasonCode::Banned)
        } else if b == 0x8B {
            Ok(ReasonCode::ServerShuttingDown)
        } else if b == 0x8C {
            Ok(ReasonCode::BadAuthenticationMethod)
        } else if b == 0x8D {
            Ok(ReasonCode::KeepAliveTimeout)
        } else if b == 0x8E {
            Ok(ReasonCode::SessionTakenOver)
        } else if b == 0x8F {
            Ok(ReasonCode::TopicFilterInvalid)
        } else if b == 0x90 {
            Ok(ReasonCode::TopicNameInvalid)
        } else if b == 0x91 {
            Ok(ReasonCode::PacketIdentifierInUse)
        } else if b == 0x92 {
            Ok(ReasonCode::PacketIdentifierNotFound)
        } else if b == 0x93 {
            Ok(ReasonCode::ReceiveMaximumExceeded)
        } else if b == 0x95 {
            Ok(ReasonCode::PacketTooLarge)
        } else if b == 0x97 {
            Ok(ReasonCode::QuotaExceeded)
        } else if b == 0x99 {
            Ok(ReasonCode::PayloadFormatInvalid)
        } else if b == 0x9A {
            Ok(ReasonCode::RetainNotSupported)
        } else if b == 0x9B {
            Ok(ReasonCode::QoSNotSupported)
        } else if b == 0x9C {
            Ok(ReasonCode::UseAnotherServer)
        } else if b == 0x9D {
            Ok(ReasonCode::ServerMoved)
        } else if b == 0x9F {
            Ok(ReasonCode::ConnectionRateExceeded)
        } else {
            Err(MqttError::MalformedReasonCode(b))
        }
    }

    pub fn as_u8(self) -> (r: u8)
        ensures
            r == self.spec_as_u8(),
    {
        match self {
            ReasonCode::Success => 0x00,
            ReasonCode::GrantedQoS1 => 0x01,
            ReasonCode::GrantedQoS2 => 0x02,
            ReasonCode::DisconnectWithWill => 0x04,
            ReasonCode::NoSubscriptionExisted => 0x11,
            ReasonCode::UnspecifiedError => 0x80,
            ReasonCode::MalformedPacket => 0x81,
            ReasonCode::ProtocolError => 0x82,
            ReasonCode::ImplementationSpecificError => 0x83,
            ReasonCode::UnsupportedProtocolVersion => 0x84,
            ReasonCode::ClientIdentifiersNotValid => 0x85,
            ReasonCode::BadUserNameOrPassword => 0x86,
            ReasonCode::NotAuthorized => 0x87,
            ReasonCode::ServerUnavailable => 0x88,
            ReasonCode::ServerBusy => 0x89,
            ReasonCode::Banned => 0x8A,
            ReasonCode::ServerShuttingDown => 0x8B,
            ReasonCode::BadAuthenticationMethod => 0x8C,
            ReasonCode::KeepAliveTimeout => 0x8D,
            ReasonCode::SessionTakenOver => 0x8E,
            ReasonCode::TopicFilterInvalid => 0x8F,
            ReasonCode::TopicNameInvalid => 0x90,
            ReasonCode::PacketIdentifierInUse => 0x91,
            ReasonCode::PacketIdentifierNotFound => 0x92,
            ReasonCode::ReceiveMaximumExceeded => 0x93,
            ReasonCode::PacketTooLarge => 0x95,
            ReasonCode::QuotaExceeded => 0x97,
            ReasonCode::PayloadFormatInvalid => 0x99,
            ReasonCode::RetainNotSupported => 0x9A,
            ReasonCode::QoSNotSupported => 0x9B,
            ReasonCode::UseAnotherServer => 0x9C,
            ReasonCode::ServerMoved => 0x9D,
            ReasonCode::ConnectionRateExceeded => 0x9F,
        }
    }

    pub fn try_from(b: u8) -> (r: Result<ReasonCode, MqttError>)
        ensures
            r == Self::spec_try_from(b),
    {
        if b == 0x00 {
            Ok(ReasonCode::Success)
        } else if b == 0x01 {
            Ok(ReasonCode::GrantedQoS1)
        } else if b == 0x02 {
            Ok(ReasonCode::GrantedQoS2)
        } else if b == 0x04 {
            Ok(ReasonCode::DisconnectWithWill)
        } else if b == 0x11 {
            Ok(ReasonCode::NoSubscriptionExisted)
        } else if b == 0x80 {
            Ok(ReasonCode::UnspecifiedError)
        } else if b == 0x81 {
            Ok(ReasonCode::MalformedPacket)
        } else if b == 0x82 {
            Ok(ReasonCode::ProtocolError)
        } else if b == 0x83 {
            Ok(ReasonCode::ImplementationSpecificError)
        } else if b == 0x84 {
            Ok(ReasonCode::UnsupportedProtocolVersion)
        } else if b == 0x85 {
            Ok(ReasonCode::ClientIdentifiersNotValid)
        } else if b == 0x86 {
            Ok(ReasonCode::BadUserNameOrPassword)
        } else if b == 0x87 {
            Ok(ReasonCode::NotAuthorized)
        } else if b == 0x88 {
            Ok(ReasonCode::ServerUnavailable)
        } else if b == 0x89 {
            Ok(ReasonCode::ServerBusy)
        } else if b == 0x8A {
            Ok(ReasonCode::Banned)
        } else if b == 0x8B {
            Ok(ReasonCode::ServerShuttingDown)
        } else if b == 0x8C {
            Ok(ReasonCode::BadAuthenticationMethod)
        } else if b == 0x8D {
            Ok(ReasonCode::KeepAliveTimeout)
        } else if b == 0x8E {
            Ok(ReasonCode::SessionTakenOver)
        } else if b == 0x8F {
            Ok(ReasonCode::TopicFilterInvalid)
        } else if b == 0x90 {
            Ok(ReasonCode::TopicNameInvalid)
        } else if b == 0x91 {
            Ok(ReasonCode::PacketIdentifierInUse)
        } else if b == 0x92 {
            Ok(ReasonCode::PacketIdentifierNotFound)
        } else if b == 0x93 {
            Ok(ReasonCode::ReceiveMaximumExceeded)
        } else if b == 0x95 {
            Ok(ReasonCode::PacketTooLarge)
        } else if b == 0x97 {
            Ok(ReasonCode::QuotaExceeded)
        } else if b == 0x99 {
            Ok(ReasonCode::PayloadFormatInvalid)
        } else if b == 0x9A {
            Ok(ReasonCode::RetainNotSupported)
        } else if b == 0x9B {
            Ok(ReasonCode::QoSNotSupported)
        } else if b == 0x9C {
            Ok(ReasonCode::UseAnotherServer)
        } else if b == 0x9D {
            Ok(ReasonCode::ServerMoved)
        } else if b == 0x9F {
            Ok(ReasonCode::ConnectionRateExceeded)
        } else {
            Err(MqttError::MalformedReasonCode(b))
        }
    }
}

/// Every reason code decodes back from its own byte.
pub proof fn lemma_reason_code_round_trip(r: ReasonCode)
    ensures
        ReasonCode::spec_try_from(r.spec_as_u8()) == Ok::<ReasonCode, MqttError>(r),
{
}

/// The per-filter options byte of a Subscribe packet.
#[derive(Debug, Clone, Copy, PartialEq, Eq, Hash, Structural)]
pub struct SubscriptionOptions {
    pub qos: QoS,
    pub nl: bool,
    pub rap: bool,
    pub retain: Retain,
}

impl SubscriptionOptions {
    /// The options byte: bits 1-0 qos, 2 nl, 3 rap, 5-4 retain policy.
    pub open spec fn spec_as_u8(self) -> u8 {
        (self.qos.spec_as_u8() | ((if self.nl {
            4u8
        } else {
            0u8
        }) | ((if self.rap {
            8u8
        } else {
            0u8
        }) | ((self.retain.spec_as_u8() << 4) as u8)))) as u8
    }

    pub open spec fn spec_try_from(v: u8) -> Result<SubscriptionOptions, MqttError> {
        match QoS::spec_try_from(v & 0x03) {
            Ok(qos) => match Retain::spec_try_from((v & 0x30) >> 4) {
                Ok(retain) => Ok(
                    SubscriptionOptions { qos, nl: (v & 0x04) != 0, rap: (v & 0x08) != 0, retain },
                ),
                Err(e) => Err(e),
            },
            Err(e) => Err(e),
        }
    }

    pub fn as_u8(self) -> (r: u8)
        ensures
            r == self.spec_as_u8(),
    {
        let n: u8 = if self.nl {
            4
        } else {
            0
        };
        let p: u8 = if self.rap {
            8
        } else {
            0
        };
        self.qos.as_u8() | (n | (p | (self.retain.as_u8() << 4)))
    }

    pub fn try_from(v: u8) -> (r: Result<SubscriptionOptions, MqttError>)
        ensures
            r == Self::spec_try_from(v),
    {
        match QoS::try_from(v & 0x03) {
            Ok(qos) => match Retain::try_from((v & 0x30) >> 4) {
                Ok(retain) => Ok(
                    SubscriptionOptions { qos, nl: (v & 0x04) != 0, rap: (v & 0x08) != 0, retain },
                ),
                Err(e) => Err(e),
            },
            Err(e) => Err(e),
        }
    }
}

/// Every subscription options record decodes back from its own byte.
pub proof fn lemma_subscription_options_round_trip(o: SubscriptionOptions)
    ensures
        SubscriptionOptions::spec_try_from(o.spec_as_u8()) == Ok::<
            SubscriptionOptions,
            MqttError,
        >(o),
{
    let q: u8 = o.qos.spec_as_u8();
    let n: u8 = if o.nl {
        4
    } else {
        0
    };
    let p: u8 = if o.rap {
        8
    } else {
        0
    };
    let t: u8 = o.retain.spec_as_u8();
    let v: u8 = (q | (n | (p | ((t << 4) as u8)))) as u8;
    assert(v == (q | (n | (p | ((t << 4) as u8)))) as u8 && (q == 0 || q == 1 || q == 2) && (t == 0
        || t == 1 || t == 2) && (n == 0 || n == 4) && (p == 0 || p == 8) ==> v & 0x03 == q && (v
        & 0x30) >> 4 == t && ((v & 0x04) != 0) == (n == 4) && ((v & 0x08) != 0) == (p
        == 8)) by (bit_vector);
}

/// Where the streaming decoder stands: waiting for a fixed header, or for the
/// body of a packet whose header was already read.
#[derive(Debug, Clone, Copy, PartialEq, Eq, Structural)]
pub enum PacketPart {
    FixedHeader,
    VariableHeader { remaining: usize, packet_type: PacketType },
}

/// The streaming codec: an optional maximum packet size and the current
/// decoding state.
#[derive(Debug)]
pub struct MqttCodec {
    pub maximum_packet_size: Option<u32>,
    pub part: PacketPart,
}

impl MqttCodec {
    pub fn new(maximum_packet_size: Option<u32>) -> (r: MqttCodec)
        ensures
            r.maximum_packet_size == maximum_packet_size,
            r.part == PacketPart::FixedHeader,
    {
        MqttCodec { maximum_packet_size, part: PacketPart::FixedHeader }
    }
}


/// A last-will message declared at Connect.
#[derive(Debug, PartialEq, Eq, Clone)]
pub struct Will {
    pub qos: QoS,
    pub retain: bool,
    pub properties: crate::v5::property::WillProperties,
    pub topic: crate::v5::string::MqttString,
    pub payload: Vec<u8>,
}

#[verifier::ext_equal]
pub ghost struct WillView {
    pub qos: QoS,
    pub retain: bool,
    pub properties: crate::v5::property::WillPropertiesView,
    pub topic: Seq<u8>,
    pub payload: Seq<u8>,
}

impl View for Will {
    type V = WillView;

    open spec fn view(&self) -> WillView {
        WillView {
            qos: self.qos,
            retain: self.retain,
            properties: self.properties@,
            topic: self.topic@,
            payload: self.payload@,
        }
    }
}

/// The view of an optional will record.
pub open spec fn opt_will_view(o: Option<Will>) -> Option<WillView> {
    match o {
        Some(w) => Some(w@),
        None => None,
    }
}

/// A Connect packet.
#[derive(Debug, PartialEq, Eq)]
pub struct Connect {
    pub reserved: bool,
    pub clean_start_flag: bool,
    pub keep_alive: u16,
    pub properties: crate::v5::property::ConnectProperties,
    pub client_identifier: Option<crate::v5::string::MqttString>,
    pub username: Option<crate::v5::string::MqttString>,
    pub password: Option<Vec<u8>>,
    pub will: Option<Will>,
}

#[verifier::ext_equal]
pub ghost struct ConnectView {
    pub reserved: bool,
    pub clean_start_flag: bool,
    pub keep_alive: u16,
    pub properties: crate::v5::property::ConnectPropertiesView,
    pub client_identifier: Option<Seq<u8>>,
    pub username: Option<Seq<u8>>,
    pub password: Option<Seq<u8>>,
    pub will: Option<WillView>,
}

impl View for Connect {
    type V = ConnectView;

    open spec fn view(&self) -> ConnectView {
        ConnectView {
            reserved: self.reserved,
            clean_start_flag: self.clean_start_flag,
            keep_alive: self.keep_alive,
            properties: self.properties@,
            client_identifier: crate::v5::property::opt_str_view(self.client_identifier),
            username: crate::v5::property::opt_str_view(self.username),
            password: crate::v5::property::opt_bytes_view(self.password),
            will: opt_will_view(self.will),
        }
    }
}

/// A ConnAck packet.
#[derive(Debug, PartialEq, Eq)]
pub struct ConnAck {
    pub session_present: bool,
    pub reason_code: ReasonCode,
    pub properties: crate::v5::property::ConnAckProperties,
}

#[verifier::ext_equal]
pub ghost struct ConnAckView {
    pub session_present: bool,
    pub reason_code: ReasonCode,
    pub properties: crate::v5::property::ConnAckPropertiesView,
}

impl View for ConnAck {
    type V = ConnAckView;

    open spec fn view(&self) -> ConnAckView {
        ConnAckView {
            session_present: self.session_present,
            reason_code: self.reason_code,
            properties: self.properties@,
        }
    }
}

/// A Publish packet.
#[derive(Debug, PartialEq, Eq, Clone)]
pub struct Publish {
    pub dup: bool,
    pub qos: QoS,
    pub retain: bool,
    pub topic_name: crate::v5::string::MqttString,
    pub packet_identifier: Option<u16>,
    pub properties: crate::v5::property::PublishProperties,
    pub payload: Vec<u8>,
}

#[verifier::ext_equal]
pub ghost struct PublishView {
    pub dup: bool,
    pub qos: QoS,
    pub retain: bool,
    pub topic_name: Seq<u8>,
    pub packet_identifier: Option<u16>,
    pub properties: crate::v5::property::PublishPropertiesView,
    pub payload: Seq<u8>,
}

impl View for Publish {
    type V = PublishView;

    open spec fn view(&self) -> PublishView {
        PublishView {
            dup: self.dup,
            qos: self.qos,
            retain: self.retain,
            topic_name: self.topic_name@,
            packet_identifier: self.packet_identifier,
            properties: self.properties@,
            payload: self.payload@,
        }
    }
}

/// The acknowledgement shared by PubAck, PubRec, PubRel and PubComp.
#[derive(Debug, PartialEq, Eq, Clone)]
pub struct PublishResponse {
    pub packet_identifier: u16,
    pub reason_code: ReasonCode,
    pub properties: crate::v5::property::ResponseProperties,
}

#[verifier::ext_equal]
pub ghost struct PublishResponseView {
    pub packet_identifier: u16,
    pub reason_code: ReasonCode,
    pub properties: crate::v5::property::ResponsePropertiesView,
}

impl View for PublishResponse {
    type V = PublishResponseView;

    open spec fn view(&self) -> PublishResponseView {
        PublishResponseView {
            packet_identifier: self.packet_identifier,
            reason_code: self.reason_code,
            properties: self.properties@,
        }
    }
}

/// A Disconnect packet.
#[derive(Debug, PartialEq, Eq)]
pub struct Disconnect {
    pub reason_code: ReasonCode,
    pub properties: crate::v5::property::DisconnectProperties,
}

#[verifier::ext_equal]
pub ghost struct DisconnectView {
    pub reason_code: ReasonCode,
    pub properties: crate::v5::property::DisconnectPropertiesView,
}

impl View for Disconnect {
    type V = DisconnectView;

    open spec fn view(&self) -> DisconnectView {
        DisconnectView { reason_code: self.reason_code, properties: self.properties@ }
    }
}

/// A Subscribe packet.
#[derive(Debug, PartialEq, Eq)]
pub struct Subscribe {
    pub packet_identifier: u16,
    pub properties: crate::v5::property::SubscribeProperties,
    pub topic_filters: Vec<(crate::v5::string::MqttString, SubscriptionOptions)>,
}

#[verifier::ext_equal]
pub ghost struct SubscribeView {
    pub packet_identifier: u16,
    pub properties: crate::v5::property::SubscribePropertiesView,
    pub topic_filters: Seq<(Seq<u8>, SubscriptionOptions)>,
}

/// The view of a topic-filter list.
pub open spec fn filters_view(
    v: Seq<(crate::v5::string::MqttString, SubscriptionOptions)>,
) -> Seq<(Seq<u8>, SubscriptionOptions)> {
    v.map_values(|p: (crate::v5::string::MqttString, SubscriptionOptions)| (p.0@, p.1))
}

impl View for Subscribe {
    type V = SubscribeView;

    open spec fn view(&self) -> SubscribeView {
        SubscribeView {
            packet_identifier: self.packet_identifier,
            properties: self.properties@,
            topic_filters: filters_view(self.topic_filters@),
        }
    }
}

/// A SubAck or UnSubAck packet.
#[derive(Debug, PartialEq, Eq)]
pub struct SubAck {
    pub packet_identifier: u16,
    pub properties: crate::v5::property::ResponseProperties,
    pub reason_codes: Vec<ReasonCode>,
}

#[verifier::ext_equal]
pub ghost struct SubAckView {
    pub packet_identifier: u16,
    pub properties: crate::v5::property::ResponsePropertiesView,
    pub reason_codes: Seq<ReasonCode>,
}

impl View for SubAck {
    type V = SubAckView;

    open spec fn view(&self) -> SubAckView {
        SubAckView {
            packet_identifier: self.packet_identifier,
            properties: self.properties@,
            reason_codes: self.reason_codes@,
        }
    }
}

/// An UnSubscribe packet.
#[derive(Debug, PartialEq, Eq)]
pub struct UnSubscribe {
    pub packet_identifier: u16,
    pub properties: crate::v5::property::UnSubscribeProperties,
    pub topic_filters: Vec<crate::v5::string::MqttString>,
}

#[verifier::ext_equal]
pub ghost struct UnSubscribeView {
    pub packet_identifier: u16,
    pub properties: crate::v5::property::UnSubscribePropertiesView,
    pub topic_filters: Seq<Seq<u8>>,
}

/// The view of a plain topic list.
pub open spec fn topics_view(v: Seq<crate::v5::string::MqttString>) -> Seq<Seq<u8>> {
    v.map_values(|s: crate::v5::string::MqttString| s@)
}

impl View for UnSubscribe {
    type V = UnSubscribeView;

    open spec fn view(&self) -> UnSubscribeView {
        UnSubscribeView {
            packet_identifier: self.packet_identifier,
            properties: self.properties@,
            topic_filters: topics_view(self.topic_filters@),
        }
    }
}

/// An Auth packet.
#[derive(Debug, PartialEq, Eq)]
pub struct Auth {
    pub reason_code: ReasonCode,
    pub properties: crate::v5::property::AuthProperties,
}

#[verifier::ext_equal]
pub ghost struct AuthView {
    pub reason_code: ReasonCode,
    pub properties: crate::v5::property::AuthPropertiesView,
}

impl View for Auth {
    type V = AuthView;

    open spec fn view(&self) -> AuthView {
        AuthView { reason_code: self.reason_code, properties: self.properties@ }
    }
}

/// The tagged union of the fifteen control packets.
#[derive(Debug, PartialEq, Eq)]
pub enum ControlPacket {
    Connect(Connect),
    ConnAck(ConnAck),
    Publish(Publish),
    PubAck(PublishResponse),
    PubRec(PublishResponse),
    PubRel(PublishResponse),
    PubComp(PublishResponse),
    Subscribe(Subscribe),
    SubAck(SubAck),
    UnSubscribe(UnSubscribe),
    UnSubAck(SubAck),
    PingReq,
    PingResp,
    Disconnect(Disconnect),
    Auth(Auth),
}

#[verifier::ext_equal]
pub ghost enum ControlPacketView {
    Connect(ConnectView),
    ConnAck(ConnAckView),
    Publish(PublishView),
    PubAck(PublishResponseView),
    PubRec(PublishResponseView),
    PubRel(PublishResponseView),
    PubComp(PublishResponseView),
    Subscribe(SubscribeView),
    SubAck(SubAckView),
    UnSubscribe(UnSubscribeView),
    UnSubAck(SubAckView),
    PingReq,
    PingResp,
    Disconnect(DisconnectView),
    Auth(AuthView),
}

impl View for ControlPacket {
    type V = ControlPacketView;

    open spec fn view(&self) -> ControlPacketView {
        match self {
            ControlPacket::Connect(c) => ControlPacketView::Connect(c@),
            ControlPacket::ConnAck(c) => ControlPacketView::ConnAck(c@),
            ControlPacket::Publish(c) => ControlPacketView::Publish(c@),
            ControlPacket::PubAck(c) => ControlPacketView::PubAck(c@),
            ControlPacket::PubRec(c) => ControlPacketView::PubRec(c@),
            ControlPacket::PubRel(c) => ControlPacketView::PubRel(c@),
            ControlPacket::PubComp(c) => ControlPacketView::PubComp(c@),
            ControlPacket::Subscribe(c) => ControlPacketView::Subscribe(c@),
            ControlPacket::SubAck(c) => ControlPacketView::SubAck(c@),
            ControlPacket::UnSubscribe(c) => ControlPacketView::UnSubscribe(c@),
            ControlPacket::UnSubAck(c) => ControlPacketView::UnSubAck(c@),
            ControlPacket::PingReq => ControlPacketView::PingReq,
            ControlPacket::PingResp => ControlPacketView::PingResp,
            ControlPacket::Disconnect(c) => ControlPacketView::Disconnect(c@),
            ControlPacket::Auth(c) => ControlPacketView::Auth(c@),
        }
    }
}

impl Connect {
    /// The flags byte of the Connect header, assembled from the record.
    pub open spec fn spec_flags(v: ConnectView) -> u8 {
        ((if v.reserved {
            1int
        } else {
            0int
        }) + (if v.clean_start_flag {
            2int
        } else {
            0int
        }) + (match v.will {
            Some(w) => 4 + 8 * w.qos.spec_as_u8() + (if w.retain {
                32int
            } else {
                0int
            }),
            None => 0int,
        }) + (if v.password is Some {
            64int
        } else {
            0int
        }) + (if v.username is Some {
            128int
        } else {
            0int
        })) as u8
    }

    /// Assemble the flags byte of the Connect header.
    pub fn get_flags(&self) -> (r: u8)
        ensures
            r == Self::spec_flags(self@),
    {
        let mut flags: u8 = 0;
        if self.reserved {
            flags = flags + 1;
        }
        if self.clean_start_flag {
            flags = flags + 2;
        }
        match &self.will {
            Some(w) => {
                flags = flags + 4;
                flags = flags + 8 * w.qos.as_u8();
                if w.retain {
                    flags = flags + 32;
                }
            },
            None => {},
        }
        if self.password.is_some() {
            flags = flags + 64;
        }
        if self.username.is_some() {
            flags = flags + 128;
        }
        flags
    }

    /// Split the flags byte of the Connect header into its parts: reserved,
    /// clean start, will present, will qos, will retain, password present,
    /// username present.
    pub open spec fn spec_split_flags(flags: u8) -> Result<
        (bool, bool, bool, QoS, bool, bool, bool),
        MqttError,
    > {
        match QoS::spec_try_from(((flags / 8) % 4) as u8) {
            Ok(q) => Ok(
                (
                    flags % 2 == 1,
                    (flags / 2) % 2 == 1,
                    (flags / 4) % 2 == 1,
                    q,
                    (flags / 32) % 2 == 1,
                    (flags / 64) % 2 == 1,
                    (flags / 128) % 2 == 1,
                ),
            ),
            Err(e) => Err(e),
        }
    }

    /// Split the flags byte of the Connect header into its parts.
    pub fn set_flags(flags: u8) -> (r: Result<(bool, bool, bool, QoS, bool, bool, bool), MqttError>)
        ensures
            r == Self::spec_split_flags(flags),
    {
        let reserved = flags % 2 == 1;
        let clean_start_flag = (flags / 2) % 2 == 1;
        let will_flag = (flags / 4) % 2 == 1;
        let will_retain_flag = (flags / 32) % 2 == 1;
        let password_flag = (flags / 64) % 2 == 1;
        let username_flag = (flags / 128) % 2 == 1;
        match QoS::try_from((flags / 8) % 4) {
            Ok(will_qos_flag) => Ok(
                (
                    reserved,
                    clean_start_flag,
                    will_flag,
                    will_qos_flag,
                    will_retain_flag,
                    password_flag,
                    username_flag,
                ),
            ),
            Err(e) => Err(e),
        }
    }
}

} // verus!
