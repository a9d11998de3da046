use vstd::prelude::*;

verus! {

use crate::v5::decoder::decode_binary;
use crate::v5::decoder::decode_utf8_string;
use crate::v5::decoder::decode_variable_integer;
use crate::v5::decoder::read_u16;
use crate::v5::decoder::read_u32;
use crate::v5::decoder::read_u8;
use crate::v5::decoder::read_vec;
use crate::v5::decoder::spec_decode_varint;
use crate::v5::encoder::encode_binary;
use crate::v5::encoder::encode_utf8_string;
use crate::v5::encoder::encode_variable_integer;
use crate::v5::encoder::lemma_varint_len;
use crate::v5::encoder::spec_varint;
use crate::v5::encoder::spec_varint_len;
use crate::v5::encoder::write_u16;
use crate::v5::encoder::write_u32;
use crate::v5::encoder::write_u8;
use crate::v5::encoder::RemainingLength;
use crate::v5::encoder::VARINT_MAX;
use crate::v5::error::MqttError;
use crate::v5::property::bool_byte;
use crate::v5::property::lemma_add_assoc;
use crate::v5::property::lemma_scan_opt_bin;
use crate::v5::property::lemma_scan_opt_bool;
use crate::v5::property::lemma_scan_opt_str;
use crate::v5::property::lemma_scan_opt_u16;
use crate::v5::property::lemma_scan_opt_u32;
use crate::v5::property::lemma_scan_opt_u8;
use crate::v5::property::lemma_scan_user_props;
use crate::v5::property::lemma_user_props_bytes_take_step;
use crate::v5::property::lemma_user_props_prefix_le;
use crate::v5::property::opt_bool_seg;
use crate::v5::property::opt_str_seg;
use crate::v5::property::opt_u16_seg;
use crate::v5::property::opt_u32_seg;
use crate::v5::property::opt_u8_seg;
use crate::v5::property::spec_scan;
use crate::v5::property::spec_user_props_bytes;
use crate::v5::property::BuilderView;
use crate::v5::property::ConnAckProperties;
use crate::v5::property::ConnAckPropertiesView;
use crate::v5::property::PropertiesBuilder;
use crate::v5::property::PropertiesSize;
use crate::v5::property::Property;
use crate::v5::property::PropertyFamily;
use crate::v5::property::PropVal;
use crate::v5::types::ConnAck;
use crate::v5::types::ConnAckView;
use crate::v5::types::ControlPacket;
use crate::v5::types::ControlPacketView;
use crate::v5::types::QoS;
use crate::v5::types::ReasonCode;

/// The byte of an optional maximum-qos property value.
pub open spec fn opt_qos_byte(o: Option<QoS>) -> Option<u8> {
    match o {
        Some(q) => Some(q.spec_as_u8()),
        None => None,
    }
}

/// Canonical segments: session expiry, receive maximum, maximum qos,
/// retain available.
pub open spec fn spec_connack_props_q1(p: ConnAckPropertiesView) -> Seq<u8> {
    opt_u32_seg(0x11, p.session_expire_interval) + opt_u16_seg(0x21, p.receive_maximum)
        + opt_u8_seg(0x24, opt_qos_byte(p.maximum_qos)) + opt_bool_seg(0x25, p.retain_available)
}

/// Canonical segments: maximum packet size, assigned client identifier,
/// topic alias maximum, reason string.
pub open spec fn spec_connack_props_q2(p: ConnAckPropertiesView) -> Seq<u8> {
    opt_u32_seg(0x27, p.maximum_packet_size) + opt_str_seg(0x12, p.assigned_client_identifier)
        + opt_u16_seg(0x22, p.topic_alias_maximum) + opt_str_seg(0x1F, p.reason_string)
}

/// Canonical segments: the three subscription capability flags.
pub open spec fn spec_connack_props_q3(p: ConnAckPropertiesView) -> Seq<u8> {
    opt_bool_seg(0x28, p.wildcard_subscription_available) + opt_bool_seg(
        0x29,
        p.subscription_identifier_available,
    ) + opt_bool_seg(0x2A, p.shared_subscription_available)
}

/// Canonical segments: server keep alive and the authentication pair.
pub open spec fn spec_connack_props_q4(p: ConnAckPropertiesView) -> Seq<u8> {
    opt_u16_seg(0x13, p.server_keep_alive) + opt_str_seg(0x15, p.authentication_method)
        + opt_str_seg(0x16, p.authentication_data)
}

/// The canonical segments before the user properties.
pub open spec fn spec_connack_props_front(p: ConnAckPropertiesView) -> Seq<u8> {
    spec_connack_props_q1(p) + spec_connack_props_q2(p)
}

/// The canonical segments after the user properties.
pub open spec fn spec_connack_props_back(p: ConnAckPropertiesView) -> Seq<u8> {
    spec_connack_props_q3(p) + spec_connack_props_q4(p)
}

/// The canonical bytes of a ConnAck packet's properties region.
pub open spec fn spec_connack_props_bytes(p: ConnAckPropertiesView) -> Seq<u8> {
    spec_connack_props_front(p) + spec_user_props_bytes(p.user_properties)
        + spec_connack_props_back(p)
}

/// Per-field size bounds under which each segment can be encoded.
pub open spec fn connack_props_wf(p: ConnAckPropertiesView) -> bool {
    &&& (p.assigned_client_identifier matches Some(s) ==> s.len() <= 0xFFFF)
    &&& (p.reason_string matches Some(s) ==> s.len() <= 0xFFFF)
    &&& (p.authentication_method matches Some(s) ==> s.len() <= 0xFFFF)
    &&& (p.authentication_data matches Some(s) ==> s.len() <= 0xFFFF)
    &&& (forall|i: int|
        0 <= i < p.user_properties.len() ==> (#[trigger] p.user_properties[i]).0.len() <= 0xFFFF
            && p.user_properties[i].1.len() <= 0xFFFF)
}

/// The whole region also fits a remaining-length varint.
pub open spec fn connack_props_fits(p: ConnAckPropertiesView) -> bool {
    spec_connack_props_bytes(p).len() <= VARINT_MAX
}

/// The stricter conditions under which decoding inverts encoding: optional
/// strings carry at least one byte, and the properties outside the ConnAck
/// whitelist are absent.
pub open spec fn connack_props_decodable(p: ConnAckPropertiesView) -> bool {
    &&& (p.assigned_client_identifier matches Some(s) ==> 1 <= s.len())
    &&& (p.reason_string matches Some(s) ==> 1 <= s.len())
    &&& (p.authentication_method matches Some(s) ==> 1 <= s.len())
    &&& (forall|i: int|
        0 <= i < p.user_properties.len() ==> 1 <= (#[trigger] p.user_properties[i]).0.len() && 1
            <= p.user_properties[i].1.len())
    &&& p.response_information is None
    &&& p.server_reference is None
}

/// How many bytes the first quarter of segments takes.
fn connack_q1_size(p: &ConnAckProperties) -> (r: usize)
    ensures
        r == spec_connack_props_q1(p@).len(),
        r <= 12,
{
    let mut len: usize = 0;
    if p.session_expire_interval.is_some() {
        len = len + 5;
    }
    if p.receive_maximum.is_some() {
        len = len + 3;
    }
    if p.maximum_qos.is_some() {
        len = len + 2;
    }
    if p.retain_available.is_some() {
        len = len + 2;
    }
    len
}

/// How many bytes the second quarter of segments takes.
fn connack_q2_size(p: &ConnAckProperties) -> (r: usize)
    requires
        connack_props_wf(p@),
    ensures
        r == spec_connack_props_q2(p@).len(),
        r <= 0x2_0010,
{
    let mut len: usize = 0;
    if p.maximum_packet_size.is_some() {
        len = len + 5;
    }
    match &p.assigned_client_identifier {
        Some(s) => {
            len = len + 3 + s.len();
        },
        None => {},
    }
    if p.topic_alias_maximum.is_some() {
        len = len + 3;
    }
    match &p.reason_string {
        Some(s) => {
            len = len + 3 + s.len();
        },
        None => {},
    }
    len
}

/// How many bytes the third quarter of segments takes.
fn connack_q3_size(p: &ConnAckProperties) -> (r: usize)
    ensures
        r == spec_connack_props_q3(p@).len(),
        r <= 6,
{
    let mut len: usize = 0;
    if p.wildcard_subscription_available.is_some() {
        len = len + 2;
    }
    if p.subscription_identifier_available.is_some() {
        len = len + 2;
    }
    if p.shared_subscription_available.is_some() {
        len = len + 2;
    }
    len
}

/// How many bytes the last quarter of segments takes.
fn connack_q4_size(p: &ConnAckProperties) -> (r: usize)
    requires
        connack_props_wf(p@),
    ensures
        r == spec_connack_props_q4(p@).len(),
        r <= 0x2_0009,
{
    let mut len: usize = 0;
    if p.server_keep_alive.is_some() {
        len = len + 3;
    }
    match &p.authentication_method {
        Some(s) => {
            len = len + 3 + s.len();
        },
        None => {},
    }
    match &p.authentication_data {
        Some(s) => {
            len = len + 3 + s.len();
        },
        None => {},
    }
    len
}

impl PropertiesSize for ConnAckProperties {
    open spec fn spec_size(&self) -> int {
        spec_connack_props_bytes(self@).len() as int
    }

    open spec fn size_ok(&self) -> bool {
        connack_props_wf(self@) && connack_props_fits(self@)
    }

    /// How many bytes the properties region takes on the wire.
    #[verifier::rlimit(100)]
    #[verifier::spinoff_prover]
    fn size(&self) -> (r: usize) {
        let ghost pv = self@;
        proof {
            assert(spec_connack_props_bytes(pv).len() == spec_connack_props_q1(pv).len()
                + spec_connack_props_q2(pv).len() + spec_user_props_bytes(
                pv.user_properties,
            ).len() + spec_connack_props_q3(pv).len() + spec_connack_props_q4(pv).len());
        }
        let s1 = connack_q1_size(self);
        let s2 = connack_q2_size(self);
        let s3 = connack_q3_size(self);
        let s4 = connack_q4_size(self);
        let mut users: usize = 0;
        let mut i: usize = 0;
        let n = self.user_properties.len();
        while i < n
            invariant
                i <= n,
                n == self.user_properties@.len(),
                connack_props_wf(pv),
                connack_props_fits(pv),
                pv == self@,
                users == spec_user_props_bytes(pv.user_properties.take(i as int)).len(),
                spec_user_props_bytes(pv.user_properties).len() <= VARINT_MAX,
            decreases n - i,
        {
            let pair = &self.user_properties[i];
            proof {
                assert(pv.user_properties[i as int] == (self.user_properties@[i as int].0@,
                self.user_properties@[i as int].1@));
                lemma_user_props_bytes_take_step(pv.user_properties, i as int);
                lemma_user_props_prefix_le(pv.user_properties, i + 1);
            }
            users = users + 5 + pair.0.len() + pair.1.len();
            i = i + 1;
        }
        proof {
            assert(pv.user_properties.take(n as int) =~= pv.user_properties);
        }
        s1 + s2 + users + s3 + s4
    }
}

/// Append the first quarter of the canonical segments.
#[verifier::rlimit(100)]
#[verifier::spinoff_prover]
fn encode_connack_props_q1(writer: &mut Vec<u8>, p: &ConnAckProperties)
    requires
        connack_props_wf(p@),
    ensures
        final(writer)@ == old(writer)@ + spec_connack_props_q1(p@),
{
    let ghost pv = p@;
    let ghost mid = writer@;
    match &p.session_expire_interval {
        Some(v) => {
            write_u8(writer, 0x11);
            write_u32(writer, *v);
        },
        None => {},
    }
    let ghost w1 = writer@;
    assert(w1 =~= mid + opt_u32_seg(0x11, pv.session_expire_interval));
    match &p.receive_maximum {
        Some(v) => {
            write_u8(writer, 0x21);
            write_u16(writer, *v);
        },
        None => {},
    }
    let ghost w2 = writer@;
    assert(w2 =~= w1 + opt_u16_seg(0x21, pv.receive_maximum));
    match &p.maximum_qos {
        Some(q) => {
            write_u8(writer, 0x24);
            write_u8(writer, q.as_u8());
        },
        None => {},
    }
    let ghost w3 = writer@;
    assert(w3 =~= w2 + opt_u8_seg(0x24, opt_qos_byte(pv.maximum_qos)));
    match &p.retain_available {
        Some(v) => {
            write_u8(writer, 0x25);
            write_u8(
                writer,
                if *v {
                    1
                } else {
                    0
                },
            );
        },
        None => {},
    }
    assert(writer@ =~= w3 + opt_bool_seg(0x25, pv.retain_available));
    assert(writer@ =~= mid + spec_connack_props_q1(pv));
}

/// Append the second quarter of the canonical segments.
#[verifier::rlimit(100)]
#[verifier::spinoff_prover]
fn encode_connack_props_q2(writer: &mut Vec<u8>, p: &ConnAckProperties)
    requires
        connack_props_wf(p@),
    ensures
        final(writer)@ == old(writer)@ + spec_connack_props_q2(p@),
{
    let ghost pv = p@;
    let ghost mid = writer@;
    match &p.maximum_packet_size {
        Some(v) => {
            write_u8(writer, 0x27);
            write_u32(writer, *v);
        },
        None => {},
    }
    let ghost w1 = writer@;
    assert(w1 =~= mid + opt_u32_seg(0x27, pv.maximum_packet_size));
    match &p.assigned_client_identifier {
        Some(s) => {
            write_u8(writer, 0x12);
            let _ = encode_utf8_string(writer, s);
        },
        None => {},
    }
    let ghost w2 = writer@;
    assert(w2 =~= w1 + opt_str_seg(0x12, pv.assigned_client_identifier));
    match &p.topic_alias_maximum {
        Some(v) => {
            write_u8(writer, 0x22);
            write_u16(writer, *v);
        },
        None => {},
    }
    let ghost w3 = writer@;
    assert(w3 =~= w2 + opt_u16_seg(0x22, pv.topic_alias_maximum));
    match &p.reason_string {
        Some(s) => {
            write_u8(writer, 0x1F);
            let _ = encode_utf8_string(writer, s);
        },
        None => {},
    }
    assert(writer@ =~= w3 + opt_str_seg(0x1F, pv.reason_string));
    assert(writer@ =~= mid + spec_connack_props_q2(pv));
}

/// Append the third quarter of the canonical segments.
#[verifier::rlimit(100)]
#[verifier::spinoff_prover]
fn encode_connack_props_q3(writer: &mut Vec<u8>, p: &ConnAckProperties)
    requires
        connack_props_wf(p@),
    ensures
        final(writer)@ == old(writer)@ + spec_connack_props_q3(p@),
{
    let ghost pv = p@;
    let ghost mid = writer@;
    match &p.wildcard_subscription_available {
        Some(v) => {
            write_u8(writer, 0x28);
            write_u8(
                writer,
                if *v {
                    1
                } else {
                    0
                },
            );
        },
        None => {},
    }
    let ghost w1 = writer@;
    assert(w1 =~= mid + opt_bool_seg(0x28, pv.wildcard_subscription_available));
    match &p.subscription_identifier_available {
        Some(v) => {
            write_u8(writer, 0x29);
            write_u8(
                writer,
                if *v {
                    1
                } else {
                    0
                },
            );
        },
        None => {},
    }
    let ghost w2 = writer@;
    assert(w2 =~= w1 + opt_bool_seg(0x29, pv.subscription_identifier_available));
    match &p.shared_subscription_available {
        Some(v) => {
            write_u8(writer, 0x2A);
            write_u8(
                writer,
                if *v {
                    1
                } else {
                    0
                },
            );
        },
        None => {},
    }
    assert(writer@ =~= w2 + opt_bool_seg(0x2A, pv.shared_subscription_available));
    assert(writer@ =~= mid + spec_connack_props_q3(pv));
}

/// Append the last quarter of the canonical segments.
#[verifier::rlimit(100)]
#[verifier::spinoff_prover]
fn encode_connack_props_q4(writer: &mut Vec<u8>, p: &ConnAckProperties)
    requires
        connack_props_wf(p@),
    ensures
        final(writer)@ == old(writer)@ + spec_connack_props_q4(p@),
{
    let ghost pv = p@;
    let ghost mid = writer@;
    match &p.server_keep_alive {
        Some(v) => {
            write_u8(writer, 0x13);
            write_u16(writer, *v);
        },
        None => {},
    }
    let ghost w1 = writer@;
    assert(w1 =~= mid + opt_u16_seg(0x13, pv.server_keep_alive));
    match &p.authentication_method {
        Some(s) => {
            write_u8(writer, 0x15);
            let _ = encode_utf8_string(writer, s);
        },
        None => {},
    }
    let ghost w2 = writer@;
    assert(w2 =~= w1 + opt_str_seg(0x15, pv.authentication_method));
    match &p.authentication_data {
        Some(s) => {
            write_u8(writer, 0x16);
            let _ = encode_binary(writer, s);
        },
        None => {},
    }
    assert(writer@ =~= w2 + opt_str_seg(0x16, pv.authentication_data));
    assert(writer@ =~= mid + spec_connack_props_q4(pv));
}

/// Append a whole ConnAck properties region: its length as a varint, then
/// the canonical segments.
#[verifier::rlimit(100)]
#[verifier::spinoff_prover]
pub fn encode_connack_properties(writer: &mut Vec<u8>, p: &ConnAckProperties) -> (r: Result<
    (),
    MqttError,
>)
    requires
        connack_props_wf(p@),
        connack_props_fits(p@),
    ensures
        r is Ok,
        final(writer)@ == old(writer)@ + spec_varint(spec_connack_props_bytes(p@).len() as int)
            + spec_connack_props_bytes(p@),
{
    let ghost pv = p@;
    let len = p.size();
    let _ = encode_variable_integer(writer, len as u32);
    let ghost w0 = writer@;
    encode_connack_props_q1(writer, p);
    encode_connack_props_q2(writer, p);
    proof {
        lemma_add_assoc(w0, spec_connack_props_q1(pv), spec_connack_props_q2(pv));
    }
    let ghost wf_ = writer@;
    assert(wf_ == w0 + spec_connack_props_front(pv));
    let ghost mid2 = writer@;
    let n = p.user_properties.len();
    let mut i: usize = 0;
    while i < n
        invariant
            i <= n,
            n == p.user_properties@.len(),
            connack_props_wf(pv),
            pv == p@,
            writer@ == mid2 + spec_user_props_bytes(pv.user_properties.take(i as int)),
        decreases n - i,
    {
        let pair = &p.user_properties[i];
        proof {
            assert(pv.user_properties[i as int] == (p.user_properties@[i as int].0@,
            p.user_properties@[i as int].1@));
        }
        write_u8(writer, 0x26);
        let _ = encode_utf8_string(writer, &pair.0);
        let _ = encode_utf8_string(writer, &pair.1);
        proof {
            lemma_user_props_bytes_take_step(pv.user_properties, i as int);
            assert(writer@ =~= mid2 + spec_user_props_bytes(pv.user_properties.take(i + 1)));
        }
        i = i + 1;
    }
    proof {
        assert(pv.user_properties.take(n as int) =~= pv.user_properties);
    }
    let ghost wu = writer@;
    assert(wu == w0 + spec_connack_props_front(pv) + spec_user_props_bytes(pv.user_properties));
    encode_connack_props_q3(writer, p);
    encode_connack_props_q4(writer, p);
    proof {
        lemma_add_assoc(wu, spec_connack_props_q3(pv), spec_connack_props_q4(pv));
        let fr = spec_connack_props_front(pv);
        let us = spec_user_props_bytes(pv.user_properties);
        let bk = spec_connack_props_back(pv);
        lemma_add_assoc(w0 + fr, us, bk);
        lemma_add_assoc(w0, fr, us + bk);
        lemma_add_assoc(fr, us, bk);
        assert(writer@ == w0 + spec_connack_props_bytes(pv));
    }
    Ok(())
}

/// Decode a ConnAck packet's properties region.
#[verifier::rlimit(100)]
#[verifier::spinoff_prover]
pub fn decode_connack_properties(reader: &Vec<u8>) -> (r: Result<ConnAckProperties, MqttError>)
    ensures
        match spec_scan(PropertyFamily::ConnAck, reader@, BuilderView::init()) {
            Ok(bv) => r matches Ok(p) && p@ == bv.spec_connack(),
            Err(e) => r == Err::<ConnAckProperties, MqttError>(e),
        },
{
    let ghost whole = reader@;
    let mut builder = PropertiesBuilder::default();
    let mut pos: usize = 0;
    let n = reader.len();
    assert(whole.skip(0) =~= whole);
    while pos < n
        invariant
            pos <= n,
            n == reader@.len(),
            whole == reader@,
            spec_scan(PropertyFamily::ConnAck, whole.skip(pos as int), builder@) == spec_scan(
                PropertyFamily::ConnAck,
                whole,
                BuilderView::init(),
            ),
        decreases n - pos,
    {
        let ghost s1 = whole.skip(pos as int);
        let pos0 = pos;
        let id = match decode_variable_integer(reader, &mut pos) {
            Ok(v) => v,
            Err(e) => {
                return Err(e);
            },
        };
        let ghost k = pos as int - pos0 as int;
        let property = match Property::try_from(id) {
            Ok(p) => p,
            Err(e) => {
                return Err(e);
            },
        };
        assert(whole.skip(pos as int) =~= s1.skip(k));
        match property {
            Property::SessionExpireInterval => {
                let v = match read_u32(reader, &mut pos) {
                    Ok(v) => v,
                    Err(e) => {
                        return Err(e);
                    },
                };
                builder = match builder.session_expire_interval(v) {
                    Ok(b) => b,
                    Err(e) => {
                        return Err(e);
                    },
                };
                assert(whole.skip(pos as int) =~= s1.skip(k + 4));
            },
            Property::ReceiveMaximum => {
                let v = match read_u16(reader, &mut pos) {
                    Ok(v) => v,
                    Err(e) => {
                        return Err(e);
                    },
                };
                builder = match builder.receive_maximum(v) {
                    Ok(b) => b,
                    Err(e) => {
                        return Err(e);
                    },
                };
                assert(whole.skip(pos as int) =~= s1.skip(k + 2));
            },
            Property::MaximumQoS => {
                let v = match read_u8(reader, &mut pos) {
                    Ok(v) => v,
                    Err(e) => {
                        return Err(e);
                    },
                };
                builder = match builder.maximum_qos(v) {
                    Ok(b) => b,
                    Err(e) => {
                        return Err(e);
                    },
                };
                assert(whole.skip(pos as int) =~= s1.skip(k + 1));
            },
            Property::RetainAvailable => {
                let v = match read_u8(reader, &mut pos) {
                    Ok(v) => v,
                    Err(e) => {
                        return Err(e);
                    },
                };
                builder = match builder.retain_available(v) {
                    Ok(b) => b,
                    Err(e) => {
                        return Err(e);
                    },
                };
                assert(whole.skip(pos as int) =~= s1.skip(k + 1));
            },
            Property::MaximumPacketSize => {
                let v = match read_u32(reader, &mut pos) {
                    Ok(v) => v,
                    Err(e) => {
                        return Err(e);
                    },
                };
                builder = match builder.maximum_packet_size(v) {
                    Ok(b) => b,
                    Err(e) => {
                        return Err(e);
                    },
                };
                assert(whole.skip(pos as int) =~= s1.skip(k + 4));
            },
            Property::AssignedClientIdentifier => {
                let pos1 = pos;
                let s = match decode_utf8_string(reader, &mut pos) {
                    Ok(v) => v,
                    Err(e) => {
                        return Err(e);
                    },
                };
                let ghost m = pos as int - pos1 as int;
                builder = match builder.assigned_client_identifier(s) {
                    Ok(b) => b,
                    Err(e) => {
                        return Err(e);
                    },
                };
                assert(whole.skip(pos as int) =~= s1.skip(k + m));
            },
            Property::TopicAliasMaximum => {
                let v = match read_u16(reader, &mut pos) {
                    Ok(v) => v,
                    Err(e) => {
                        return Err(e);
                    },
                };
                builder = match builder.topic_alias_maximum(v) {
                    Ok(b) => b,
                    Err(e) => {
                        return Err(e);
                    },
                };
                assert(whole.skip(pos as int) =~= s1.skip(k + 2));
            },
            Property::ReasonString => {
                let pos1 = pos;
                let s = match decode_utf8_string(reader, &mut pos) {
                    Ok(v) => v,
                    Err(e) => {
                        return Err(e);
                    },
                };
                let ghost m = pos as int - pos1 as int;
                builder = match builder.reason_string(s) {
                    Ok(b) => b,
                    Err(e) => {
                        return Err(e);
                    },
                };
                assert(whole.skip(pos as int) =~= s1.skip(k + m));
            },
            Property::UserProperty => {
                let pos1 = pos;
                let key = match decode_utf8_string(reader, &mut pos) {
                    Ok(v) => v,
                    Err(e) => {
                        return Err(e);
                    },
                };
                let ghost m1 = pos as int - pos1 as int;
                assert(whole.skip(pos as int) =~= s1.skip(k).skip(m1));
                let value = match decode_utf8_string(reader, &mut pos) {
                    Ok(v) => v,
                    Err(e) => {
                        return Err(e);
                    },
                };
                let ghost m = pos as int - pos1 as int;
                match (key, value) {
                    (Some(kk), Some(vv)) => {
                        builder = builder.user_property((kk, vv));
                    },
                    _ => {},
                }
                assert(whole.skip(pos as int) =~= s1.skip(k + m));
            },
            Property::WildcardSubscriptionAvailable => {
                let v = match read_u8(reader, &mut pos) {
                    Ok(v) => v,
                    Err(e) => {
                        return Err(e);
                    },
                };
                builder = match builder.wildcard_subscription_available(v) {
                    Ok(b) => b,
                    Err(e) => {
                        return Err(e);
                    },
                };
                assert(whole.skip(pos as int) =~= s1.skip(k + 1));
            },
            Property::SubscriptionIdentifierAvailable => {
                let v = match read_u8(reader, &mut pos) {
                    Ok(v) => v,
                    Err(e) => {
                        return Err(e);
                    },
                };
                builder = match builder.subscription_identifier_available(v) {
                    Ok(b) => b,
                    Err(e) => {
                        return Err(e);
                    },
                };
                assert(whole.skip(pos as int) =~= s1.skip(k + 1));
            },
            Property::SharedSubscriptionAvailable => {
                let v = match read_u8(reader, &mut pos) {
                    Ok(v) => v,
                    Err(e) => {
                        return Err(e);
                    },
                };
                builder = match builder.shared_subscription_available(v) {
                    Ok(b) => b,
                    Err(e) => {
                        return Err(e);
                    },
                };
                assert(whole.skip(pos as int) =~= s1.skip(k + 1));
            },
            Property::ServerKeepAlive => {
                let v = match read_u16(reader, &mut pos) {
                    Ok(v) => v,
                    Err(e) => {
                        return Err(e);
                    },
                };
                builder = match builder.server_keep_alive(v) {
                    Ok(b) => b,
                    Err(e) => {
                        return Err(e);
                    },
                };
                assert(whole.skip(pos as int) =~= s1.skip(k + 2));
            },
            Property::AuthenticationMethod => {
                let pos1 = pos;
                let s = match decode_utf8_string(reader, &mut pos) {
                    Ok(v) => v,
                    Err(e) => {
                        return Err(e);
                    },
                };
                let ghost m = pos as int - pos1 as int;
                match s {
                    Some(m_str) => {
                        builder = match builder.authentication_method(m_str) {
                            Ok(b) => b,
                            Err(e) => {
                                return Err(e);
                            },
                        };
                    },
                    None => {},
                }
                assert(whole.skip(pos as int) =~= s1.skip(k + m));
            },
            Property::AuthenticationData => {
                let pos1 = pos;
                let s = match decode_binary(reader, &mut pos) {
                    Ok(v) => v,
                    Err(e) => {
                        return Err(e);
                    },
                };
                let ghost m = pos as int - pos1 as int;
                builder = match builder.authentication_data(s) {
                    Ok(b) => b,
                    Err(e) => {
                        return Err(e);
                    },
                };
                assert(whole.skip(pos as int) =~= s1.skip(k + m));
            },
            other => {
                return Err(MqttError::UnacceptableProperty(other));
            },
        }
    }
    assert(whole.skip(n as int) =~= Seq::<u8>::empty());
    Ok(builder.connack())
}

/// What decoding a ConnAck body yields: the session-present flag, the reason
/// code, then the properties region behind its length prefix.
pub open spec fn spec_decode_connack(s: Seq<u8>) -> Result<ConnAckView, MqttError> {
    if s.len() < 3 {
        Err(MqttError::EndOfStream)
    } else {
        let session_present = s[0] % 2 == 1;
        match ReasonCode::spec_try_from(s[1]) {
            Err(e) => Err(e),
            Ok(rc) => match spec_decode_varint(s.skip(2)) {
                Err(e) => Err(e),
                Ok((plen, k)) => if s.len() - 2 - k < plen as int {
                    Err(MqttError::EndOfStream)
                } else {
                    match spec_scan(
                        PropertyFamily::ConnAck,
                        s.skip(2 + k).take(plen as int),
                        BuilderView::init(),
                    ) {
                        Err(e) => Err(e),
                        Ok(bv) => Ok(
                            ConnAckView {
                                session_present,
                                reason_code: rc,
                                properties: bv.spec_connack(),
                            },
                        ),
                    }
                },
            },
        }
    }
}

/// Decode the body of a ConnAck packet.
pub fn decode_connack(reader: &Vec<u8>) -> (r: Result<Option<ControlPacket>, MqttError>)
    ensures
        match spec_decode_connack(reader@) {
            Ok(v) => r matches Ok(Some(p)) && p@ == ControlPacketView::ConnAck(v),
            Err(e) => r == Err::<Option<ControlPacket>, MqttError>(e),
        },
{
    if reader.len() < 3 {
        return Err(MqttError::EndOfStream);
    }
    let mut pos: usize = 0;
    let flags = match read_u8(reader, &mut pos) {
        Ok(v) => v,
        Err(e) => {
            return Err(e);
        },
    };
    let session_present = flags % 2 == 1;
    let b = match read_u8(reader, &mut pos) {
        Ok(v) => v,
        Err(e) => {
            return Err(e);
        },
    };
    let reason_code = match ReasonCode::try_from(b) {
        Ok(v) => v,
        Err(e) => {
            return Err(e);
        },
    };
    let pos1 = pos;
    let plen = match decode_variable_integer(reader, &mut pos) {
        Ok(v) => v,
        Err(e) => {
            return Err(e);
        },
    };
    let ghost k = pos as int - pos1 as int;
    if reader.len() - pos < plen as usize {
        return Err(MqttError::EndOfStream);
    }
    let region = read_vec(reader, &mut pos, plen as usize);
    assert(region@ =~= reader@.skip(2 + k).take(plen as int));
    let properties = match decode_connack_properties(&region) {
        Ok(p) => p,
        Err(e) => {
            return Err(e);
        },
    };
    Ok(Some(ControlPacket::ConnAck(ConnAck { session_present, reason_code, properties })))
}

/// The canonical body bytes of a ConnAck packet.
pub open spec fn spec_connack_body(v: ConnAckView) -> Seq<u8> {
    seq![bool_byte(v.session_present), v.reason_code.spec_as_u8()] + spec_varint(
        spec_connack_props_bytes(v.properties).len() as int,
    ) + spec_connack_props_bytes(v.properties)
}

/// Size bounds under which the packet can be encoded.
pub open spec fn connack_wf(v: ConnAckView) -> bool {
    connack_props_wf(v.properties) && connack_props_fits(v.properties)
}

/// Append the body of a ConnAck packet.
pub fn encode_connack(writer: &mut Vec<u8>, msg: &ConnAck) -> (r: Result<(), MqttError>)
    requires
        connack_wf(msg@),
    ensures
        r is Ok,
        final(writer)@ == old(writer)@ + spec_connack_body(msg@),
{
    write_u8(
        writer,
        if msg.session_present {
            1
        } else {
            0
        },
    );
    write_u8(writer, msg.reason_code.as_u8());
    let _ = encode_connack_properties(writer, &msg.properties);
    assert(final(writer)@ =~= old(writer)@ + spec_connack_body(msg@));
    Ok(())
}

impl RemainingLength for ConnAck {
    open spec fn spec_remaining_length(&self) -> int {
        spec_connack_body(self@).len() as int
    }

    open spec fn remaining_length_ok(&self) -> bool {
        connack_wf(self@)
    }

    /// The body length: the flags byte, the reason code, then the properties
    /// region behind its length prefix.
    fn remaining_length(&self) -> (r: usize) {
        let props_len = self.properties.size();
        proof {
            lemma_varint_len(props_len as int);
        }
        let vlen = crate::v5::encoder::varint_size(props_len as u32);
        2 + vlen + props_len
    }
}

/// What the scanner's builder holds after the first quarter.
pub open spec fn connack_apply_q1(p: ConnAckPropertiesView, b: BuilderView) -> BuilderView {
    let b1 = match p.session_expire_interval {
        None => b,
        Some(v) => BuilderView { session_expire_interval: Some(v), ..b },
    };
    let b2 = match p.receive_maximum {
        None => b1,
        Some(v) => BuilderView { receive_maximum: Some(v), ..b1 },
    };
    let b3 = match p.maximum_qos {
        None => b2,
        Some(q) => BuilderView { maximum_qos: Some(q), ..b2 },
    };
    match p.retain_available {
        None => b3,
        Some(v) => BuilderView { retain_available: Some(v), ..b3 },
    }
}

/// What the scanner's builder holds after the second quarter.
pub open spec fn connack_apply_q2(p: ConnAckPropertiesView, b: BuilderView) -> BuilderView {
    let b1 = match p.maximum_packet_size {
        None => b,
        Some(v) => BuilderView { maximum_packet_size: Some(v), ..b },
    };
    let b2 = match p.assigned_client_identifier {
        None => b1,
        Some(s) => BuilderView { assigned_client_identifier: Some(s), ..b1 },
    };
    let b3 = match p.topic_alias_maximum {
        None => b2,
        Some(v) => BuilderView { topic_alias_maximum: Some(v), ..b2 },
    };
    match p.reason_string {
        None => b3,
        Some(s) => BuilderView { reason_string: Some(s), ..b3 },
    }
}

/// What the scanner's builder holds after the third quarter.
pub open spec fn connack_apply_q3(p: ConnAckPropertiesView, b: BuilderView) -> BuilderView {
    let b1 = match p.wildcard_subscription_available {
        None => b,
        Some(v) => BuilderView { wildcard_subscription_available: Some(v), ..b },
    };
    let b2 = match p.subscription_identifier_available {
        None => b1,
        Some(v) => BuilderView { subscription_identifier_available: Some(v), ..b1 },
    };
    match p.shared_subscription_available {
        None => b2,
        Some(v) => BuilderView { shared_subscription_available: Some(v), ..b2 },
    }
}

/// What the scanner's builder holds after the last quarter.
pub open spec fn connack_apply_q4(p: ConnAckPropertiesView, b: BuilderView) -> BuilderView {
    let b1 = match p.server_keep_alive {
        None => b,
        Some(v) => BuilderView { server_keep_alive: Some(v), ..b },
    };
    let b2 = match p.authentication_method {
        None => b1,
        Some(s) => BuilderView { authentication_method: Some(s), ..b1 },
    };
    match p.authentication_data {
        None => b2,
        Some(s) => BuilderView { authentication_data: Some(s), ..b2 },
    }
}

/// Scanning the first quarter fills exactly its slots.
#[verifier::rlimit(100)]
#[verifier::spinoff_prover]
pub proof fn lemma_scan_connack_q1(p: ConnAckPropertiesView, tail: Seq<u8>, b: BuilderView)
    requires
        connack_props_wf(p),
        connack_props_decodable(p),
        b.session_expire_interval is None,
        b.receive_maximum is None,
        b.maximum_qos is None,
        b.retain_available is None,
    ensures
        spec_scan(PropertyFamily::ConnAck, spec_connack_props_q1(p) + tail, b) == spec_scan(
            PropertyFamily::ConnAck,
            tail,
            connack_apply_q1(p, b),
        ),
{
    let f = PropertyFamily::ConnAck;
    let a1 = opt_u32_seg(0x11, p.session_expire_interval);
    let a2 = opt_u16_seg(0x21, p.receive_maximum);
    let a3 = opt_u8_seg(0x24, opt_qos_byte(p.maximum_qos));
    let a4 = opt_bool_seg(0x25, p.retain_available);
    let t3 = a4 + tail;
    let t2 = a3 + t3;
    let t1 = a2 + t2;
    lemma_add_assoc(a1 + a2 + a3, a4, tail);
    lemma_add_assoc(a1 + a2, a3, t3);
    lemma_add_assoc(a1, a2, t2);
    assert(spec_connack_props_q1(p) + tail == a1 + t1);
    lemma_scan_opt_u32(f, Property::SessionExpireInterval, p.session_expire_interval, t1, b);
    let b1 = match p.session_expire_interval {
        None => b,
        Some(v) => BuilderView { session_expire_interval: Some(v), ..b },
    };
    lemma_scan_opt_u16(f, Property::ReceiveMaximum, p.receive_maximum, t2, b1);
    let b2 = match p.receive_maximum {
        None => b1,
        Some(v) => BuilderView { receive_maximum: Some(v), ..b1 },
    };
    lemma_scan_opt_u8(f, Property::MaximumQoS, opt_qos_byte(p.maximum_qos), t3, b2);
    let b3 = match p.maximum_qos {
        None => b2,
        Some(q) => BuilderView { maximum_qos: Some(q), ..b2 },
    };
    lemma_scan_opt_bool(f, Property::RetainAvailable, p.retain_available, tail, b3);
}

/// Scanning the second quarter fills exactly its slots.
#[verifier::rlimit(100)]
#[verifier::spinoff_prover]
pub proof fn lemma_scan_connack_q2(p: ConnAckPropertiesView, tail: Seq<u8>, b: BuilderView)
    requires
        connack_props_wf(p),
        connack_props_decodable(p),
        b.maximum_packet_size is None,
        b.assigned_client_identifier is None,
        b.topic_alias_maximum is None,
        b.reason_string is None,
    ensures
        spec_scan(PropertyFamily::ConnAck, spec_connack_props_q2(p) + tail, b) == spec_scan(
            PropertyFamily::ConnAck,
            tail,
            connack_apply_q2(p, b),
        ),
{
    let f = PropertyFamily::ConnAck;
    let a1 = opt_u32_seg(0x27, p.maximum_packet_size);
    let a2 = opt_str_seg(0x12, p.assigned_client_identifier);
    let a3 = opt_u16_seg(0x22, p.topic_alias_maximum);
    let a4 = opt_str_seg(0x1F, p.reason_string);
    let t3 = a4 + tail;
    let t2 = a3 + t3;
    let t1 = a2 + t2;
    lemma_add_assoc(a1 + a2 + a3, a4, tail);
    lemma_add_assoc(a1 + a2, a3, t3);
    lemma_add_assoc(a1, a2, t2);
    assert(spec_connack_props_q2(p) + tail == a1 + t1);
    lemma_scan_opt_u32(f, Property::MaximumPacketSize, p.maximum_packet_size, t1, b);
    let b1 = match p.maximum_packet_size {
        None => b,
        Some(v) => BuilderView { maximum_packet_size: Some(v), ..b },
    };
    lemma_scan_opt_str(f, Property::AssignedClientIdentifier, p.assigned_client_identifier, t2, b1);
    let b2 = match p.assigned_client_identifier {
        None => b1,
        Some(s) => BuilderView { assigned_client_identifier: Some(s), ..b1 },
    };
    lemma_scan_opt_u16(f, Property::TopicAliasMaximum, p.topic_alias_maximum, t3, b2);
    let b3 = match p.topic_alias_maximum {
        None => b2,
        Some(v) => BuilderView { topic_alias_maximum: Some(v), ..b2 },
    };
    lemma_scan_opt_str(f, Property::ReasonString, p.reason_string, tail, b3);
}

/// Scanning the third quarter fills exactly its slots.
#[verifier::rlimit(100)]
#[verifier::spinoff_prover]
pub proof fn lemma_scan_connack_q3(p: ConnAckPropertiesView, tail: Seq<u8>, b: BuilderView)
    requires
        connack_props_wf(p),
        connack_props_decodable(p),
        b.wildcard_subscription_available is None,
        b.subscription_identifier_available is None,
        b.shared_subscription_available is None,
    ensures
        spec_scan(PropertyFamily::ConnAck, spec_connack_props_q3(p) + tail, b) == spec_scan(
            PropertyFamily::ConnAck,
            tail,
            connack_apply_q3(p, b),
        ),
{
    let f = PropertyFamily::ConnAck;
    let a1 = opt_bool_seg(0x28, p.wildcard_subscription_available);
    let a2 = opt_bool_seg(0x29, p.subscription_identifier_available);
    let a3 = opt_bool_seg(0x2A, p.shared_subscription_available);
    let t2 = a3 + tail;
    let t1 = a2 + t2;
    lemma_add_assoc(a1 + a2, a3, tail);
    lemma_add_assoc(a1, a2, t2);
    assert(spec_connack_props_q3(p) + tail == a1 + t1);
    lemma_scan_opt_bool(
        f,
        Property::WildcardSubscriptionAvailable,
        p.wildcard_subscription_available,
        t1,
        b,
    );
    let b1 = match p.wildcard_subscription_available {
        None => b,
        Some(v) => BuilderView { wildcard_subscription_available: Some(v), ..b },
    };
    lemma_scan_opt_bool(
        f,
        Property::SubscriptionIdentifierAvailable,
        p.subscription_identifier_available,
        t2,
        b1,
    );
    let b2 = match p.subscription_identifier_available {
        None => b1,
        Some(v) => BuilderView { subscription_identifier_available: Some(v), ..b1 },
    };
    lemma_scan_opt_bool(
        f,
        Property::SharedSubscriptionAvailable,
        p.shared_subscription_available,
        tail,
        b2,
    );
}

/// Scanning the last quarter fills exactly its slots.
#[verifier::rlimit(100)]
#[verifier::spinoff_prover]
pub proof fn lemma_scan_connack_q4(p: ConnAckPropertiesView, b: BuilderView)
    requires
        connack_props_wf(p),
        connack_props_decodable(p),
        b.server_keep_alive is None,
        b.authentication_method is None,
        b.authentication_data is None,
    ensures
        spec_scan(PropertyFamily::ConnAck, spec_connack_props_q4(p), b) == Ok::<
            BuilderView,
            MqttError,
        >(connack_apply_q4(p, b)),
{
    let f = PropertyFamily::ConnAck;
    let a1 = opt_u16_seg(0x13, p.server_keep_alive);
    let a2 = opt_str_seg(0x15, p.authentication_method);
    let a3 = opt_str_seg(0x16, p.authentication_data);
    let t2 = a3;
    let t1 = a2 + t2;
    lemma_add_assoc(a1, a2, t2);
    assert(spec_connack_props_q4(p) == a1 + t1);
    lemma_scan_opt_u16(f, Property::ServerKeepAlive, p.server_keep_alive, t1, b);
    let b1 = match p.server_keep_alive {
        None => b,
        Some(v) => BuilderView { server_keep_alive: Some(v), ..b },
    };
    lemma_scan_opt_str(f, Property::AuthenticationMethod, p.authentication_method, t2, b1);
    let b2 = match p.authentication_method {
        None => b1,
        Some(s) => BuilderView { authentication_method: Some(s), ..b1 },
    };
    assert(a3 =~= a3 + Seq::<u8>::empty());
    lemma_scan_opt_bin(f, Property::AuthenticationData, p.authentication_data, Seq::empty(), b2);
}

/// The builder state after a full canonical scan.
pub open spec fn connack_apply_all(p: ConnAckPropertiesView) -> BuilderView {
    let b8 = connack_apply_q2(p, connack_apply_q1(p, BuilderView::init()));
    let b9 = BuilderView { user_properties: b8.user_properties + p.user_properties, ..b8 };
    connack_apply_q4(p, connack_apply_q3(p, b9))
}

/// Projecting the fully scanned builder yields the properties back.
#[verifier::rlimit(100)]
#[verifier::spinoff_prover]
pub proof fn lemma_connack_project(p: ConnAckPropertiesView)
    requires
        p.response_information is None,
        p.server_reference is None,
    ensures
        connack_apply_all(p).spec_connack() == p,
{
    let b15 = connack_apply_all(p);
    assert(b15.user_properties =~= p.user_properties);
    assert(b15.spec_connack() =~= p);
}

/// Scanning the canonical properties of a ConnAck packet recovers them.
#[verifier::rlimit(100)]
#[verifier::spinoff_prover]
pub proof fn lemma_scan_connack_canonical(p: ConnAckPropertiesView)
    requires
        connack_props_wf(p),
        connack_props_decodable(p),
    ensures
        spec_scan(PropertyFamily::ConnAck, spec_connack_props_bytes(p), BuilderView::init())
            matches Ok(bv) && bv.spec_connack() == p,
{
    let f = PropertyFamily::ConnAck;
    let init = BuilderView::init();
    let q1 = spec_connack_props_q1(p);
    let q2 = spec_connack_props_q2(p);
    let q3 = spec_connack_props_q3(p);
    let q4 = spec_connack_props_q4(p);
    let users = spec_user_props_bytes(p.user_properties);
    lemma_add_assoc(q1 + q2, users, q3 + q4);
    lemma_add_assoc(q1, q2, users + (q3 + q4));
    lemma_add_assoc(q2, users, q3 + q4);
    lemma_add_assoc(users, q3, q4);
    assert(spec_connack_props_bytes(p) == q1 + (q2 + (users + (q3 + q4))));
    lemma_scan_connack_q1(p, q2 + (users + (q3 + q4)), init);
    let b4 = connack_apply_q1(p, init);
    lemma_scan_connack_q2(p, users + (q3 + q4), b4);
    let b8 = connack_apply_q2(p, b4);
    lemma_scan_user_props(f, p.user_properties, q3 + q4, b8);
    let b9 = BuilderView { user_properties: b8.user_properties + p.user_properties, ..b8 };
    lemma_scan_connack_q3(p, q4, b9);
    let b12 = connack_apply_q3(p, b9);
    lemma_scan_connack_q4(p, b12);
    assert(connack_apply_q4(p, b12) == connack_apply_all(p));
    lemma_connack_project(p);
}

/// The shape of a reason-and-properties body: where each piece of the
/// canonical layout lands.
#[verifier::rlimit(100)]
#[verifier::spinoff_prover]
pub proof fn lemma_connack_body_pieces(b0: u8, b1: u8, props: Seq<u8>)
    requires
        props.len() <= VARINT_MAX,
    ensures
        ({
            let s = seq![b0, b1] + spec_varint(props.len() as int) + props;
            let k = spec_varint_len(props.len() as int);
            &&& s.len() >= 3
            &&& s[0] == b0
            &&& s[1] == b1
            &&& spec_decode_varint(s.skip(2)) == Ok::<(u32, int), MqttError>(
                (props.len() as u32, k),
            )
            &&& s.len() - 2 - k == props.len()
            &&& s.skip(2 + k).take(props.len() as int) == props
        }),
{
    let s = seq![b0, b1] + spec_varint(props.len() as int) + props;
    let k = spec_varint_len(props.len() as int);
    crate::v5::decoder::lemma_varint_round_trip(props.len() as int, props);
    lemma_varint_len(props.len() as int);
    assert(s.skip(2) =~= spec_varint(props.len() as int) + props);
    assert(s.skip(2 + k).take(props.len() as int) =~= props);
}

/// Decoding inverts encoding for every well-formed ConnAck packet.
#[verifier::rlimit(100)]
#[verifier::spinoff_prover]
pub proof fn lemma_connack_round_trip(v: ConnAckView)
    requires
        connack_wf(v),
        connack_props_decodable(v.properties),
    ensures
        spec_decode_connack(spec_connack_body(v)) == Ok::<ConnAckView, MqttError>(v),
{
    let props = spec_connack_props_bytes(v.properties);
    lemma_connack_body_pieces(
        bool_byte(v.session_present),
        v.reason_code.spec_as_u8(),
        props,
    );
    assert((bool_byte(v.session_present) % 2 == 1) == v.session_present);
    crate::v5::types::lemma_reason_code_round_trip(v.reason_code);
    lemma_scan_connack_canonical(v.properties);
}

} // verus!
