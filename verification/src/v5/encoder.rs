use vstd::prelude::*;

verus! {

use crate::v5::error::MqttError;
use crate::v5::string::MqttString;
use crate::v5::types::MqttCodec;

/// Largest value a variable-length integer can carry (four 7-bit groups).
pub const VARINT_MAX: u32 = 0x0FFF_FFFF;

/// The byte layout of a variable-length integer: 7 payload bits per byte,
/// top bit set on every byte but the last.
pub open spec fn spec_varint(n: int) -> Seq<u8>
    decreases n,
{
    if n < 0x80 {
        seq![n as u8]
    } else {
        seq![(n % 0x80 + 0x80) as u8] + spec_varint(n / 0x80)
    }
}

/// How many bytes the variable-length encoding of n takes.
pub open spec fn spec_varint_len(n: int) -> int {
    if n < 0x80 {
        1
    } else if n < 0x4000 {
        2
    } else if n < 0x20_0000 {
        3
    } else {
        4
    }
}

pub proof fn lemma_varint_len(n: int)
    requires
        0 <= n <= VARINT_MAX,
    ensures
        spec_varint(n).len() == spec_varint_len(n),
        1 <= spec_varint(n).len() <= 4,
    decreases n,
{
    if n >= 0x80 {
        lemma_varint_len(n / 0x80);
    }
}

/// Big-endian bytes of a u16.
pub open spec fn spec_u16_be(n: u16) -> Seq<u8> {
    seq![(n / 0x100) as u8, (n % 0x100) as u8]
}

/// Big-endian bytes of a u32.
pub open spec fn spec_u32_be(n: u32) -> Seq<u8> {
    seq![
        (n / 0x100_0000) as u8,
        ((n / 0x1_0000) % 0x100) as u8,
        ((n / 0x100) % 0x100) as u8,
        (n % 0x100) as u8,
    ]
}

/// A length-prefixed string or binary segment: u16 length, then the bytes.
pub open spec fn spec_len_prefixed(s: Seq<u8>) -> Seq<u8> {
    spec_u16_be(s.len() as u16) + s
}

/// What every packet body computes before framing: the number of bytes
/// between the remaining-length varint and the end of the packet.
pub trait RemainingLength {
    /// The body length as a mathematical value.
    spec fn spec_remaining_length(&self) -> int;

    /// When the body is well-formed enough for the length to be computed
    /// without overflow.
    spec fn remaining_length_ok(&self) -> bool;

    fn remaining_length(&self) -> (r: usize)
        requires
            self.remaining_length_ok(),
        ensures
            r == self.spec_remaining_length(),
    ;
}

/// Append one byte.
pub fn write_u8(writer: &mut Vec<u8>, v: u8)
    ensures
        final(writer)@ == old(writer)@ + seq![v],
{
    writer.push(v);
}

/// Append a u16, big-endian.
pub fn write_u16(writer: &mut Vec<u8>, v: u16)
    ensures
        final(writer)@ == old(writer)@ + spec_u16_be(v),
{
    writer.push((v / 0x100) as u8);
    writer.push((v % 0x100) as u8);
    assert(final(writer)@ =~= old(writer)@ + spec_u16_be(v));
}

/// Append a u32, big-endian.
pub fn write_u32(writer: &mut Vec<u8>, v: u32)
    ensures
        final(writer)@ == old(writer)@ + spec_u32_be(v),
{
    writer.push((v / 0x100_0000) as u8);
    writer.push(((v / 0x1_0000) % 0x100) as u8);
    writer.push(((v / 0x100) % 0x100) as u8);
    writer.push((v % 0x100) as u8);
    assert(final(writer)@ =~= old(writer)@ + spec_u32_be(v));
}

/// Append all bytes of a slice.
pub fn write_bytes(writer: &mut Vec<u8>, bytes: &Vec<u8>)
    ensures
        final(writer)@ == old(writer)@ + bytes@,
{
    let mut i: usize = 0;
    while i < bytes.len()
        invariant
            i <= bytes@.len(),
            writer@ == old(writer)@ + bytes@.subrange(0, i as int),
        decreases bytes@.len() - i,
    {
        let b = bytes[i];
        writer.push(b);
        assert(writer@ =~= old(writer)@ + bytes@.subrange(0, i + 1));
        i = i + 1;
    }
    assert(bytes@.subrange(0, bytes@.len() as int) =~= bytes@);
}

/// Append a variable-length integer, one to four bytes.
pub fn encode_variable_integer(writer: &mut Vec<u8>, v: u32) -> (r: Result<(), MqttError>)
    requires
        v <= VARINT_MAX,
    ensures
        r is Ok,
        final(writer)@ == old(writer)@ + spec_varint(v as int),
{
    let mut value: u32 = v;
    loop
        invariant_except_break
            value <= VARINT_MAX,
            old(writer)@ + spec_varint(v as int) == writer@ + spec_varint(value as int),
        ensures
            writer@ == old(writer)@ + spec_varint(v as int),
        decreases value,
    {
        let ghost prev = value as int;
        let mut encoded: u8 = (value % 0x80) as u8;
        value = value / 0x80;
        if value > 0 {
            encoded = encoded + 0x80;
        }
        writer.push(encoded);
        if value == 0 {
            assert(spec_varint(prev) =~= seq![encoded]);
            assert(writer@ =~= old(writer)@ + spec_varint(v as int));
            break ;
        }
        assert(spec_varint(prev) =~= seq![encoded] + spec_varint(value as int));
        assert(writer@ + spec_varint(value as int) =~= old(writer)@ + spec_varint(v as int));
    }
    Ok(())
}

/// Append a length-prefixed UTF-8 string: u16 length, then the bytes.
pub fn encode_utf8_string(writer: &mut Vec<u8>, s: &MqttString) -> (r: Result<(), MqttError>)
    requires
        s.wf(),
    ensures
        r is Ok,
        final(writer)@ == old(writer)@ + spec_len_prefixed(s@),
{
    write_u16(writer, s.len() as u16);
    write_bytes(writer, s.as_bytes());
    assert(final(writer)@ =~= old(writer)@ + spec_len_prefixed(s@));
    Ok(())
}

/// Append a length-prefixed binary segment: u16 length, then the bytes.
pub fn encode_binary(writer: &mut Vec<u8>, bytes: &Vec<u8>) -> (r: Result<(), MqttError>)
    requires
        bytes@.len() <= 0xFFFF,
    ensures
        r is Ok,
        final(writer)@ == old(writer)@ + spec_len_prefixed(bytes@),
{
    write_u16(writer, bytes.len() as u16);
    write_bytes(writer, bytes);
    assert(final(writer)@ =~= old(writer)@ + spec_len_prefixed(bytes@));
    Ok(())
}

/// How many bytes the remaining-length varint of a body length takes.
pub fn varint_size(v: u32) -> (r: usize)
    ensures
        r == spec_varint_len(v as int),
{
    if v <= 0x7F {
        1
    } else if v <= 0x3FFF {
        2
    } else if v <= 0x1F_FFFF {
        3
    } else {
        4
    }
}


/// The header byte a packet is framed with.
pub open spec fn spec_packet_type_of(p: crate::v5::types::ControlPacketView) -> crate::v5::types::PacketType {
    match p {
        crate::v5::types::ControlPacketView::Connect(_) => crate::v5::types::PacketType::Connect,
        crate::v5::types::ControlPacketView::ConnAck(_) => crate::v5::types::PacketType::ConnAck,
        crate::v5::types::ControlPacketView::Publish(v) => crate::v5::types::PacketType::Publish {
            dup: v.dup,
            qos: v.qos,
            retain: v.retain,
        },
        crate::v5::types::ControlPacketView::PubAck(_) => crate::v5::types::PacketType::PubAck,
        crate::v5::types::ControlPacketView::PubRec(_) => crate::v5::types::PacketType::PubRec,
        crate::v5::types::ControlPacketView::PubRel(_) => crate::v5::types::PacketType::PubRel,
        crate::v5::types::ControlPacketView::PubComp(_) => crate::v5::types::PacketType::PubComp,
        crate::v5::types::ControlPacketView::Subscribe(_) => crate::v5::types::PacketType::Subscribe,
        crate::v5::types::ControlPacketView::SubAck(_) => crate::v5::types::PacketType::SubAck,
        crate::v5::types::ControlPacketView::UnSubscribe(_) => crate::v5::types::PacketType::UnSubscribe,
        crate::v5::types::ControlPacketView::UnSubAck(_) => crate::v5::types::PacketType::UnSubAck,
        crate::v5::types::ControlPacketView::PingReq => crate::v5::types::PacketType::PingReq,
        crate::v5::types::ControlPacketView::PingResp => crate::v5::types::PacketType::PingResp,
        crate::v5::types::ControlPacketView::Disconnect(_) => crate::v5::types::PacketType::Disconnect,
        crate::v5::types::ControlPacketView::Auth(_) => crate::v5::types::PacketType::Auth,
    }
}

/// The body bytes a packet is framed around.
pub open spec fn spec_body_bytes(p: crate::v5::types::ControlPacketView) -> Seq<u8> {
    match p {
        crate::v5::types::ControlPacketView::Connect(v) => crate::v5::connect::spec_connect_body(v),
        crate::v5::types::ControlPacketView::ConnAck(v) => crate::v5::connack::spec_connack_body(v),
        crate::v5::types::ControlPacketView::Publish(v) => crate::v5::publish::spec_publish_body(v),
        crate::v5::types::ControlPacketView::PubAck(v) => crate::v5::pubres::spec_response_body(v),
        crate::v5::types::ControlPacketView::PubRec(v) => crate::v5::pubres::spec_response_body(v),
        crate::v5::types::ControlPacketView::PubRel(v) => crate::v5::pubres::spec_response_body(v),
        crate::v5::types::ControlPacketView::PubComp(v) => crate::v5::pubres::spec_response_body(v),
        crate::v5::types::ControlPacketView::Subscribe(v) => crate::v5::subscribe::spec_subscribe_body(v),
        crate::v5::types::ControlPacketView::SubAck(v) => crate::v5::subscribe::spec_suback_body(v),
        crate::v5::types::ControlPacketView::UnSubscribe(v) => crate::v5::unsubscribe::spec_unsubscribe_body(v),
        crate::v5::types::ControlPacketView::UnSubAck(v) => crate::v5::subscribe::spec_suback_body(v),
        crate::v5::types::ControlPacketView::PingReq => seq![],
        crate::v5::types::ControlPacketView::PingResp => seq![],
        crate::v5::types::ControlPacketView::Disconnect(v) => crate::v5::disconnect::spec_disconnect_body(v),
        crate::v5::types::ControlPacketView::Auth(v) => crate::v5::auth::spec_auth_body(v),
    }
}

/// Size bounds under which a packet can be framed and encoded.
pub open spec fn packet_wf(p: crate::v5::types::ControlPacketView) -> bool {
    &&& match p {
        crate::v5::types::ControlPacketView::Connect(v) => crate::v5::connect::connect_wf(v),
        crate::v5::types::ControlPacketView::ConnAck(v) => crate::v5::connack::connack_wf(v),
        crate::v5::types::ControlPacketView::Publish(v) => crate::v5::publish::publish_wf(v),
        crate::v5::types::ControlPacketView::PubAck(v) => crate::v5::pubres::response_wf(v),
        crate::v5::types::ControlPacketView::PubRec(v) => crate::v5::pubres::response_wf(v),
        crate::v5::types::ControlPacketView::PubRel(v) => crate::v5::pubres::response_wf(v),
        crate::v5::types::ControlPacketView::PubComp(v) => crate::v5::pubres::response_wf(v),
        crate::v5::types::ControlPacketView::Subscribe(v) => crate::v5::subscribe::subscribe_wf(v),
        crate::v5::types::ControlPacketView::SubAck(v) => crate::v5::subscribe::suback_wf(v),
        crate::v5::types::ControlPacketView::UnSubscribe(v) => crate::v5::unsubscribe::unsubscribe_wf(v),
        crate::v5::types::ControlPacketView::UnSubAck(v) => crate::v5::subscribe::suback_wf(v),
        crate::v5::types::ControlPacketView::PingReq => true,
        crate::v5::types::ControlPacketView::PingResp => true,
        crate::v5::types::ControlPacketView::Disconnect(v) => crate::v5::disconnect::disconnect_wf(
            v,
        ),
        crate::v5::types::ControlPacketView::Auth(v) => crate::v5::auth::auth_wf(v),
    }
    &&& spec_body_bytes(p).len() <= VARINT_MAX
}

/// The full frame of a packet: the header byte, the remaining length, and
/// the body.
pub open spec fn spec_frame(p: crate::v5::types::ControlPacketView) -> Seq<u8> {
    seq![spec_packet_type_of(p).spec_as_u8()] + spec_varint(spec_body_bytes(p).len() as int)
        + spec_body_bytes(p)
}

/// Frame and append one Connect packet.
#[verifier::rlimit(100)]
#[verifier::spinoff_prover]
fn frame_connect(writer: &mut Vec<u8>, m: &crate::v5::types::Connect)
    requires
        crate::v5::connect::connect_wf(m@),
        crate::v5::connect::spec_connect_body(m@).len() <= VARINT_MAX,
    ensures
        final(writer)@ == old(writer)@ + spec_frame(
            crate::v5::types::ControlPacketView::Connect(m@),
        ),
{
    let ghost pv = crate::v5::types::ControlPacketView::Connect(m@);
    let len = m.remaining_length();
    write_u8(writer, crate::v5::types::PacketType::Connect.as_u8());
    let _ = encode_variable_integer(writer, len as u32);
    let _ = crate::v5::connect::encode_connect(writer, m);
    assert(final(writer)@ =~= old(writer)@ + spec_frame(pv));
}

/// Frame and append one ConnAck packet.
#[verifier::rlimit(100)]
#[verifier::spinoff_prover]
fn frame_connack(writer: &mut Vec<u8>, m: &crate::v5::types::ConnAck)
    requires
        crate::v5::connack::connack_wf(m@),
        crate::v5::connack::spec_connack_body(m@).len() <= VARINT_MAX,
    ensures
        final(writer)@ == old(writer)@ + spec_frame(
            crate::v5::types::ControlPacketView::ConnAck(m@),
        ),
{
    let ghost pv = crate::v5::types::ControlPacketView::ConnAck(m@);
    let len = m.remaining_length();
    write_u8(writer, crate::v5::types::PacketType::ConnAck.as_u8());
    let _ = encode_variable_integer(writer, len as u32);
    let _ = crate::v5::connack::encode_connack(writer, m);
    assert(final(writer)@ =~= old(writer)@ + spec_frame(pv));
}

/// Frame and append one Disconnect packet.
#[verifier::rlimit(100)]
#[verifier::spinoff_prover]
fn frame_disconnect(writer: &mut Vec<u8>, m: &crate::v5::types::Disconnect)
    requires
        crate::v5::disconnect::disconnect_wf(m@),
        crate::v5::disconnect::spec_disconnect_body(m@).len() <= VARINT_MAX,
    ensures
        final(writer)@ == old(writer)@ + spec_frame(
            crate::v5::types::ControlPacketView::Disconnect(m@),
        ),
{
    let ghost pv = crate::v5::types::ControlPacketView::Disconnect(m@);
    let len = m.remaining_length();
    write_u8(writer, crate::v5::types::PacketType::Disconnect.as_u8());
    let _ = encode_variable_integer(writer, len as u32);
    let _ = crate::v5::disconnect::encode_disconnect(writer, m);
    assert(final(writer)@ =~= old(writer)@ + spec_frame(pv));
}

/// Frame and append one Auth packet.
#[verifier::rlimit(100)]
#[verifier::spinoff_prover]
fn frame_auth(writer: &mut Vec<u8>, m: &crate::v5::types::Auth)
    requires
        crate::v5::auth::auth_wf(m@),
        crate::v5::auth::spec_auth_body(m@).len() <= VARINT_MAX,
    ensures
        final(writer)@ == old(writer)@ + spec_frame(
            crate::v5::types::ControlPacketView::Auth(m@),
        ),
{
    let ghost pv = crate::v5::types::ControlPacketView::Auth(m@);
    let len = m.remaining_length();
    write_u8(writer, crate::v5::types::PacketType::Auth.as_u8());
    let _ = encode_variable_integer(writer, len as u32);
    let _ = crate::v5::auth::encode_auth(writer, m);
    assert(final(writer)@ =~= old(writer)@ + spec_frame(pv));
}

/// Frame and append one Subscribe packet.
#[verifier::rlimit(100)]
#[verifier::spinoff_prover]
fn frame_subscribe(writer: &mut Vec<u8>, m: &crate::v5::types::Subscribe)
    requires
        crate::v5::subscribe::subscribe_wf(m@),
        crate::v5::subscribe::spec_subscribe_body(m@).len() <= VARINT_MAX,
    ensures
        final(writer)@ == old(writer)@ + spec_frame(
            crate::v5::types::ControlPacketView::Subscribe(m@),
        ),
{
    let ghost pv = crate::v5::types::ControlPacketView::Subscribe(m@);
    let len = m.remaining_length();
    write_u8(writer, crate::v5::types::PacketType::Subscribe.as_u8());
    let _ = encode_variable_integer(writer, len as u32);
    let _ = crate::v5::subscribe::encode_subscribe(writer, m);
    assert(final(writer)@ =~= old(writer)@ + spec_frame(pv));
}

/// Frame and append one UnSubscribe packet.
#[verifier::rlimit(100)]
#[verifier::spinoff_prover]
fn frame_unsubscribe(writer: &mut Vec<u8>, m: &crate::v5::types::UnSubscribe)
    requires
        crate::v5::unsubscribe::unsubscribe_wf(m@),
        crate::v5::unsubscribe::spec_unsubscribe_body(m@).len() <= VARINT_MAX,
    ensures
        final(writer)@ == old(writer)@ + spec_frame(
            crate::v5::types::ControlPacketView::UnSubscribe(m@),
        ),
{
    let ghost pv = crate::v5::types::ControlPacketView::UnSubscribe(m@);
    let len = m.remaining_length();
    write_u8(writer, crate::v5::types::PacketType::UnSubscribe.as_u8());
    let _ = encode_variable_integer(writer, len as u32);
    let _ = crate::v5::unsubscribe::encode_unsubscribe(writer, m);
    assert(final(writer)@ =~= old(writer)@ + spec_frame(pv));
}

/// Frame and append one acknowledgement packet under the given header type.
#[verifier::rlimit(100)]
#[verifier::spinoff_prover]
fn frame_response(writer: &mut Vec<u8>, t: crate::v5::types::PacketType, m: &crate::v5::types::PublishResponse)
    requires
        crate::v5::pubres::response_wf(m@),
        crate::v5::pubres::spec_response_body(m@).len() <= VARINT_MAX,
        t == crate::v5::types::PacketType::PubAck || t == crate::v5::types::PacketType::PubRec || t
            == crate::v5::types::PacketType::PubRel || t == crate::v5::types::PacketType::PubComp,
    ensures
        final(writer)@ == old(writer)@ + seq![t.spec_as_u8()] + spec_varint(
            crate::v5::pubres::spec_response_body(m@).len() as int,
        ) + crate::v5::pubres::spec_response_body(m@),
{
    let len = m.remaining_length();
    write_u8(writer, t.as_u8());
    let _ = encode_variable_integer(writer, len as u32);
    let _ = crate::v5::pubres::encode_publish_response(writer, m);
    assert(final(writer)@ =~= old(writer)@ + seq![t.spec_as_u8()] + spec_varint(
        crate::v5::pubres::spec_response_body(m@).len() as int,
    ) + crate::v5::pubres::spec_response_body(m@));
}

/// Frame and append one SubAck or UnSubAck packet under the given header
/// type.
#[verifier::rlimit(100)]
#[verifier::spinoff_prover]
fn frame_suback(writer: &mut Vec<u8>, t: crate::v5::types::PacketType, m: &crate::v5::types::SubAck)
    requires
        crate::v5::subscribe::suback_wf(m@),
        crate::v5::subscribe::spec_suback_body(m@).len() <= VARINT_MAX,
        t == crate::v5::types::PacketType::SubAck || t == crate::v5::types::PacketType::UnSubAck,
    ensures
        final(writer)@ == old(writer)@ + seq![t.spec_as_u8()] + spec_varint(
            crate::v5::subscribe::spec_suback_body(m@).len() as int,
        ) + crate::v5::subscribe::spec_suback_body(m@),
{
    let len = m.remaining_length();
    write_u8(writer, t.as_u8());
    let _ = encode_variable_integer(writer, len as u32);
    let _ = crate::v5::subscribe::encode_suback(writer, m);
    assert(final(writer)@ =~= old(writer)@ + seq![t.spec_as_u8()] + spec_varint(
        crate::v5::subscribe::spec_suback_body(m@).len() as int,
    ) + crate::v5::subscribe::spec_suback_body(m@));
}

/// Frame and append one Publish packet.
#[verifier::rlimit(100)]
#[verifier::spinoff_prover]
fn frame_publish(writer: &mut Vec<u8>, m: &crate::v5::types::Publish) -> (r: Result<
    (),
    MqttError,
>)
    requires
        crate::v5::publish::publish_wf(m@),
        crate::v5::publish::spec_publish_body(m@).len() <= VARINT_MAX,
    ensures
        match r {
            Ok(_) => (m@.qos == crate::v5::types::QoS::AtMostOnce || m@.packet_identifier is Some)
                && final(writer)@ == old(writer)@ + spec_frame(
                crate::v5::types::ControlPacketView::Publish(m@),
            ),
            Err(e) => m@.qos != crate::v5::types::QoS::AtMostOnce && m@.packet_identifier is None
                && e == MqttError::UndefinedPacketIdentifier(m@.qos),
        },
{
    let ghost pv = crate::v5::types::ControlPacketView::Publish(m@);
    if m.qos.as_u8() != 0 && m.packet_identifier.is_none() {
        return Err(MqttError::UndefinedPacketIdentifier(m.qos));
    }
    let len = m.remaining_length();
    let t = crate::v5::types::PacketType::Publish { dup: m.dup, qos: m.qos, retain: m.retain };
    write_u8(writer, t.as_u8());
    let _ = encode_variable_integer(writer, len as u32);
    let _ = crate::v5::publish::encode_publish(writer, m);
    assert(final(writer)@ =~= old(writer)@ + spec_frame(pv));
    Ok(())
}

impl MqttCodec {
    /// Frame and append one control packet: the header byte, the remaining
    /// length, then the body. A Publish above at-most-once without an
    /// identifier is `UndefinedPacketIdentifier`.
    #[verifier::rlimit(100)]
    #[verifier::spinoff_prover]
    pub fn encode(&mut self, packet: &crate::v5::types::ControlPacket, writer: &mut Vec<u8>) -> (r:
        Result<(), MqttError>)
        requires
            packet_wf(packet@),
        ensures
            *final(self) == *old(self),
            match r {
                Ok(_) => final(writer)@ == old(writer)@ + spec_frame(packet@),
                Err(e) => packet@ matches crate::v5::types::ControlPacketView::Publish(v)
                    && v.qos != crate::v5::types::QoS::AtMostOnce && v.packet_identifier is None
                    && e == MqttError::UndefinedPacketIdentifier(v.qos) && final(writer)@ == old(
                    writer,
                )@,
            },
    {
        match packet {
            crate::v5::types::ControlPacket::Connect(m) => {
                frame_connect(writer, m);
                Ok(())
            },
            crate::v5::types::ControlPacket::ConnAck(m) => {
                frame_connack(writer, m);
                Ok(())
            },
            crate::v5::types::ControlPacket::Publish(m) => {
                if m.qos.as_u8() != 0 && m.packet_identifier.is_none() {
                    return Err(MqttError::UndefinedPacketIdentifier(m.qos));
                }
                let _ = frame_publish(writer, m);
                Ok(())
            },
            crate::v5::types::ControlPacket::PubAck(m) => {
                frame_response(writer, crate::v5::types::PacketType::PubAck, m);
                Ok(())
            },
            crate::v5::types::ControlPacket::PubRec(m) => {
                frame_response(writer, crate::v5::types::PacketType::PubRec, m);
                Ok(())
            },
            crate::v5::types::ControlPacket::PubRel(m) => {
                frame_response(writer, crate::v5::types::PacketType::PubRel, m);
                Ok(())
            },
            crate::v5::types::ControlPacket::PubComp(m) => {
                frame_response(writer, crate::v5::types::PacketType::PubComp, m);
                Ok(())
            },
            crate::v5::types::ControlPacket::Subscribe(m) => {
                frame_subscribe(writer, m);
                Ok(())
            },
            crate::v5::types::ControlPacket::SubAck(m) => {
                frame_suback(writer, crate::v5::types::PacketType::SubAck, m);
                Ok(())
            },
            crate::v5::types::ControlPacket::UnSubscribe(m) => {
                frame_unsubscribe(writer, m);
                Ok(())
            },
            crate::v5::types::ControlPacket::UnSubAck(m) => {
                frame_suback(writer, crate::v5::types::PacketType::UnSubAck, m);
                Ok(())
            },
            crate::v5::types::ControlPacket::PingReq => {
                write_u8(writer, 0xC0);
                write_u8(writer, 0);
                assert(final(writer)@ =~= old(writer)@ + spec_frame(packet@));
                Ok(())
            },
            crate::v5::types::ControlPacket::PingResp => {
                write_u8(writer, 0xD0);
                write_u8(writer, 0);
                assert(final(writer)@ =~= old(writer)@ + spec_frame(packet@));
                Ok(())
            },
            crate::v5::types::ControlPacket::Disconnect(m) => {
                frame_disconnect(writer, m);
                Ok(())
            },
            crate::v5::types::ControlPacket::Auth(m) => {
                frame_auth(writer, m);
                Ok(())
            },
        }
    }
}

} // verus!
