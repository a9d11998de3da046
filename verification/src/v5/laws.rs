use vstd::prelude::*;

verus! {

use crate::v5::decoder::spec_decode_body;
use crate::v5::decoder::spec_frame_decode;
use crate::v5::decoder::FrameStep;
use crate::v5::encoder::lemma_varint_len;
use crate::v5::encoder::packet_wf;
use crate::v5::encoder::spec_body_bytes;
use crate::v5::encoder::spec_frame;
use crate::v5::encoder::spec_packet_type_of;
use crate::v5::encoder::spec_varint;
use crate::v5::encoder::spec_varint_len;
use crate::v5::error::MqttError;
use crate::v5::types::ControlPacketView;

/// The conditions under which a packet's body decodes back to it exactly:
/// optional strings and user-property halves carry at least one byte, a
/// Publish carries an identifier exactly when its qos asks for one, and the
/// properties outside each packet's whitelist are absent.
pub open spec fn packet_decodable(p: ControlPacketView) -> bool {
    match p {
        ControlPacketView::Connect(v) => crate::v5::connect::connect_decodable(v),
        ControlPacketView::ConnAck(v) => crate::v5::connack::connack_props_decodable(v.properties),
        ControlPacketView::Publish(v) => crate::v5::publish::publish_decodable(v),
        ControlPacketView::PubAck(v) => crate::v5::pubres::response_props_decodable(v.properties),
        ControlPacketView::PubRec(v) => crate::v5::pubres::response_props_decodable(v.properties),
        ControlPacketView::PubRel(v) => crate::v5::pubres::response_props_decodable(v.properties),
        ControlPacketView::PubComp(v) => crate::v5::pubres::response_props_decodable(v.properties),
        ControlPacketView::Subscribe(v) => crate::v5::subscribe::subscribe_decodable(v),
        ControlPacketView::SubAck(v) => crate::v5::pubres::response_props_decodable(v.properties),
        ControlPacketView::UnSubscribe(v) => crate::v5::unsubscribe::unsubscribe_decodable(v),
        ControlPacketView::UnSubAck(v) => crate::v5::pubres::response_props_decodable(v.properties),
        ControlPacketView::PingReq => true,
        ControlPacketView::PingResp => true,
        ControlPacketView::Disconnect(v) => crate::v5::disconnect::disconnect_props_decodable(
            v.properties,
        ),
        ControlPacketView::Auth(v) => crate::v5::auth::auth_props_decodable(v.properties),
    }
}

/// Decoding a body inverts encoding it, for every control packet whose body
/// decodes back exactly.
#[verifier::rlimit(100)]
#[verifier::spinoff_prover]
pub proof fn lemma_packet_round_trip(p: ControlPacketView)
    requires
        packet_wf(p),
        packet_decodable(p),
    ensures
        spec_decode_body(spec_packet_type_of(p), spec_body_bytes(p)) == Ok::<
            ControlPacketView,
            MqttError,
        >(p),
{
    reveal(spec_decode_body);
    match p {
        ControlPacketView::Connect(v) => {
            crate::v5::connect::lemma_connect_round_trip(v);
            assert(spec_decode_body(spec_packet_type_of(p), spec_body_bytes(p)) == Ok::<
                ControlPacketView,
                MqttError,
            >(p));
        },
        ControlPacketView::ConnAck(v) => {
            crate::v5::connack::lemma_connack_round_trip(v);
            assert(spec_decode_body(spec_packet_type_of(p), spec_body_bytes(p)) == Ok::<
                ControlPacketView,
                MqttError,
            >(p));
        },
        ControlPacketView::Publish(v) => {
            crate::v5::publish::lemma_publish_round_trip(v);
            assert(spec_packet_type_of(p) == (crate::v5::types::PacketType::Publish {
                dup: v.dup,
                qos: v.qos,
                retain: v.retain,
            }));
            assert(spec_decode_body(spec_packet_type_of(p), spec_body_bytes(p)) == Ok::<
                ControlPacketView,
                MqttError,
            >(p));
        },
        ControlPacketView::PubAck(v) => {
            crate::v5::pubres::lemma_response_round_trip(v);
            assert(spec_decode_body(spec_packet_type_of(p), spec_body_bytes(p)) == Ok::<
                ControlPacketView,
                MqttError,
            >(p));
        },
        ControlPacketView::PubRec(v) => {
            crate::v5::pubres::lemma_response_round_trip(v);
            assert(spec_decode_body(spec_packet_type_of(p), spec_body_bytes(p)) == Ok::<
                ControlPacketView,
                MqttError,
            >(p));
        },
        ControlPacketView::PubRel(v) => {
            crate::v5::pubres::lemma_response_round_trip(v);
            assert(spec_decode_body(spec_packet_type_of(p), spec_body_bytes(p)) == Ok::<
                ControlPacketView,
                MqttError,
            >(p));
        },
        ControlPacketView::PubComp(v) => {
            crate::v5::pubres::lemma_response_round_trip(v);
            assert(spec_decode_body(spec_packet_type_of(p), spec_body_bytes(p)) == Ok::<
                ControlPacketView,
                MqttError,
            >(p));
        },
        ControlPacketView::Subscribe(v) => {
            crate::v5::subscribe::lemma_subscribe_round_trip(v);
            assert(spec_decode_body(spec_packet_type_of(p), spec_body_bytes(p)) == Ok::<
                ControlPacketView,
                MqttError,
            >(p));
        },
        ControlPacketView::SubAck(v) => {
            crate::v5::subscribe::lemma_suback_round_trip(v);
            assert(spec_decode_body(spec_packet_type_of(p), spec_body_bytes(p)) == Ok::<
                ControlPacketView,
                MqttError,
            >(p));
        },
        ControlPacketView::UnSubscribe(v) => {
            crate::v5::unsubscribe::lemma_unsubscribe_round_trip(v);
            assert(spec_decode_body(spec_packet_type_of(p), spec_body_bytes(p)) == Ok::<
                ControlPacketView,
                MqttError,
            >(p));
        },
        ControlPacketView::UnSubAck(v) => {
            crate::v5::subscribe::lemma_suback_round_trip(v);
            assert(spec_decode_body(spec_packet_type_of(p), spec_body_bytes(p)) == Ok::<
                ControlPacketView,
                MqttError,
            >(p));
        },
        ControlPacketView::PingReq => {},
        ControlPacketView::PingResp => {},
        ControlPacketView::Disconnect(v) => {
            crate::v5::disconnect::lemma_disconnect_round_trip(v);
            assert(spec_decode_body(spec_packet_type_of(p), spec_body_bytes(p)) == Ok::<
                ControlPacketView,
                MqttError,
            >(p));
        },
        ControlPacketView::Auth(v) => {
            crate::v5::auth::lemma_auth_round_trip(v);
            assert(spec_decode_body(spec_packet_type_of(p), spec_body_bytes(p)) == Ok::<
                ControlPacketView,
                MqttError,
            >(p));
        },
    }
}

/// Feeding a whole encoded frame to the streaming decoder, with any bytes
/// after it, yields exactly that packet and leaves exactly those bytes: the
/// step every split-up delivery of a canonical stream converges to.
#[verifier::rlimit(100)]
#[verifier::spinoff_prover]
pub proof fn lemma_frame_round_trip(p: ControlPacketView, rest: Seq<u8>, max: Option<u32>)
    requires
        packet_wf(p),
        packet_decodable(p),
        max matches Some(m) ==> spec_body_bytes(p).len() + 2 <= m,
    ensures
        spec_frame_decode(max, spec_frame(p) + rest) == FrameStep::Packet(p, rest),
{
    let body = spec_body_bytes(p);
    let tb = spec_packet_type_of(p).spec_as_u8();
    let s = spec_frame(p) + rest;
    crate::v5::types::lemma_packet_type_round_trip(spec_packet_type_of(p));
    assert(s[0] == tb);
    crate::v5::decoder::lemma_varint_round_trip(body.len() as int, body + rest);
    lemma_varint_len(body.len() as int);
    let k = spec_varint_len(body.len() as int);
    assert(s.skip(1) =~= spec_varint(body.len() as int) + (body + rest));
    assert(s.skip(1 + k).take(body.len() as int) =~= body);
    assert(s.skip(1 + k + body.len() as int) =~= rest);
    lemma_packet_round_trip(p);
}

/// Two packets with the same canonical bytes are the same packet: a valid
/// byte sequence under the canonical property order determines its packet,
/// and re-encoding what was decoded from it gives the sequence back.
pub proof fn lemma_canonical_bytes_unique(p: ControlPacketView, q: ControlPacketView)
    requires
        packet_wf(p),
        packet_decodable(p),
        packet_wf(q),
        packet_decodable(q),
        spec_frame(p) == spec_frame(q),
    ensures
        p == q,
{
    lemma_frame_round_trip(p, Seq::empty(), None);
    lemma_frame_round_trip(q, Seq::empty(), None);
}

} // verus!
