use vstd::prelude::*;

verus! {

use crate::v5::decoder::decode_binary;
use crate::v5::decoder::decode_utf8_string;
use crate::v5::decoder::decode_variable_integer;
use crate::v5::decoder::lemma_skip_add;
use crate::v5::decoder::read_u16;
use crate::v5::decoder::read_u32;
use crate::v5::decoder::read_u8;
use crate::v5::decoder::read_vec;
use crate::v5::decoder::spec_decode_binary;
use crate::v5::decoder::spec_decode_string;
use crate::v5::decoder::spec_decode_varint;
use crate::v5::decoder::spec_u16_of;
use crate::v5::encoder::encode_binary;
use crate::v5::encoder::encode_utf8_string;
use crate::v5::encoder::encode_variable_integer;
use crate::v5::encoder::lemma_varint_len;
use crate::v5::encoder::spec_len_prefixed;
use crate::v5::encoder::spec_u16_be;
use crate::v5::encoder::spec_varint;
use crate::v5::encoder::spec_varint_len;
use crate::v5::encoder::varint_size;
use crate::v5::encoder::write_u16;
use crate::v5::encoder::write_u32;
use crate::v5::encoder::write_u8;
use crate::v5::encoder::RemainingLength;
use crate::v5::encoder::VARINT_MAX;
use crate::v5::error::MqttError;
use crate::v5::property::bool_byte;
use crate::v5::property::lemma_add_assoc;
use crate::v5::property::lemma_scan_opt_bin;
use crate::v5::property::lemma_scan_opt_bool;
use crate::v5::property::lemma_scan_opt_str;
use crate::v5::property::lemma_scan_opt_u16;
use crate::v5::property::lemma_scan_opt_u32;
use crate::v5::property::lemma_scan_user_props;
use crate::v5::property::lemma_user_props_bytes_take_step;
use crate::v5::property::lemma_user_props_prefix_le;
use crate::v5::property::opt_bool_seg;
use crate::v5::property::opt_str_seg;
use crate::v5::property::opt_u16_seg;
use crate::v5::property::opt_u32_seg;
use crate::v5::property::spec_scan;
use crate::v5::property::spec_user_props_bytes;
use crate::v5::property::BuilderView;
use crate::v5::property::ConnectProperties;
use crate::v5::property::ConnectPropertiesView;
use crate::v5::property::PropertiesBuilder;
use crate::v5::property::PropertiesSize;
use crate::v5::property::Property;
use crate::v5::property::PropertyFamily;
use crate::v5::types::Connect;
use crate::v5::types::ConnectView;
use crate::v5::types::QoS;
use crate::v5::types::Will;
use crate::v5::types::WillView;
use crate::v5::will::decode_will_properties;
use crate::v5::will::encode_will_properties;
use crate::v5::will::lemma_scan_will_canonical;
use crate::v5::will::spec_will_props_bytes;
use crate::v5::will::will_props_decodable;
use crate::v5::will::will_props_fits;
use crate::v5::will::will_props_wf;

/// The canonical numeric segments of a Connect properties region.
pub open spec fn spec_connect_props_q1(p: ConnectPropertiesView) -> Seq<u8> {
    opt_u32_seg(0x11, p.session_expire_interval) + opt_u16_seg(0x21, p.receive_maximum)
        + opt_u32_seg(0x27, p.maximum_packet_size) + opt_u16_seg(0x22, p.topic_alias_maximum)
}

/// The canonical boolean segments of a Connect properties region.
pub open spec fn spec_connect_props_q2(p: ConnectPropertiesView) -> Seq<u8> {
    opt_bool_seg(0x19, p.request_response_information) + opt_bool_seg(
        0x17,
        p.request_problem_information,
    )
}

/// The canonical authentication segments of a Connect properties region.
pub open spec fn spec_connect_props_q3(p: ConnectPropertiesView) -> Seq<u8> {
    opt_str_seg(0x15, p.authentication_method) + opt_str_seg(0x16, p.authentication_data)
}

/// The canonical bytes of a Connect properties region.
pub open spec fn spec_connect_props_bytes(p: ConnectPropertiesView) -> Seq<u8> {
    spec_connect_props_q1(p) + spec_connect_props_q2(p) + spec_user_props_bytes(p.user_properties)
        + spec_connect_props_q3(p)
}

/// Per-field size bounds under which each segment can be encoded.
pub open spec fn connect_props_wf(p: ConnectPropertiesView) -> bool {
    &&& (p.authentication_method matches Some(s) ==> s.len() <= 0xFFFF)
    &&& (p.authentication_data matches Some(s) ==> s.len() <= 0xFFFF)
    &&& (forall|i: int|
        0 <= i < p.user_properties.len() ==> (#[trigger] p.user_properties[i]).0.len() <= 0xFFFF
            && p.user_properties[i].1.len() <= 0xFFFF)
}

/// The whole region also fits a remaining-length varint.
pub open spec fn connect_props_fits(p: ConnectPropertiesView) -> bool {
    spec_connect_props_bytes(p).len() <= VARINT_MAX
}

/// The stricter conditions under which decoding inverts encoding.
pub open spec fn connect_props_decodable(p: ConnectPropertiesView) -> bool {
    &&& (p.authentication_method matches Some(s) ==> 1 <= s.len())
    &&& (forall|i: int|
        0 <= i < p.user_properties.len() ==> 1 <= (#[trigger] p.user_properties[i]).0.len() && 1
            <= p.user_properties[i].1.len())
}

impl PropertiesSize for ConnectProperties {
    open spec fn spec_size(&self) -> int {
        spec_connect_props_bytes(self@).len() as int
    }

    open spec fn size_ok(&self) -> bool {
        connect_props_wf(self@) && connect_props_fits(self@)
    }

    /// How many bytes the properties region takes on the wire.
    #[verifier::rlimit(100)]
    #[verifier::spinoff_prover]
    fn size(&self) -> (r: usize) {
        let ghost pv = self@;
        let mut len: usize = 0;
        if self.session_expire_interval.is_some() {
            len = len + 5;
        }
        if self.receive_maximum.is_some() {
            len = len + 3;
        }
        if self.maximum_packet_size.is_some() {
            len = len + 5;
        }
        if self.topic_alias_maximum.is_some() {
            len = len + 3;
        }
        assert(len as int == spec_connect_props_q1(pv).len());
        let ghost l1 = len as int;
        if self.request_response_information.is_some() {
            len = len + 2;
        }
        if self.request_problem_information.is_some() {
            len = len + 2;
        }
        assert(len as int == l1 + spec_connect_props_q2(pv).len());
        let ghost base = len as int;
        let mut i: usize = 0;
        let n = self.user_properties.len();
        while i < n
            invariant
                i <= n,
                n == self.user_properties@.len(),
                connect_props_wf(pv),
                connect_props_fits(pv),
                pv == self@,
                base == spec_connect_props_q1(pv).len() + spec_connect_props_q2(pv).len(),
                len == base + spec_user_props_bytes(pv.user_properties.take(i as int)).len(),
            decreases n - i,
        {
            let pair = &self.user_properties[i];
            proof {
                assert(pv.user_properties[i as int] == (self.user_properties@[i as int].0@,
                self.user_properties@[i as int].1@));
                lemma_user_props_bytes_take_step(pv.user_properties, i as int);
                lemma_user_props_prefix_le(pv.user_properties, i + 1);
            }
            len = len + 5 + pair.0.len() + pair.1.len();
            i = i + 1;
        }
        proof {
            assert(pv.user_properties.take(n as int) =~= pv.user_properties);
        }
        let ghost l3 = len as int;
        match &self.authentication_method {
            Some(s) => {
                len = len + 3 + s.len();
            },
            None => {},
        }
        match &self.authentication_data {
            Some(s) => {
                len = len + 3 + s.len();
            },
            None => {},
        }
        assert(len as int == l3 + spec_connect_props_q3(pv).len());
        len
    }
}

/// Append the numeric Connect segments.
#[verifier::rlimit(100)]
#[verifier::spinoff_prover]
fn encode_connect_props_q1(writer: &mut Vec<u8>, p: &ConnectProperties)
    ensures
        final(writer)@ == old(writer)@ + spec_connect_props_q1(p@),
{
    let ghost pv = p@;
    let ghost mid = writer@;
    match &p.session_expire_interval {
        Some(v) => {
            write_u8(writer, 0x11);
            write_u32(writer, *v);
        },
        None => {},
    }
    let ghost w1 = writer@;
    assert(w1 =~= mid + opt_u32_seg(0x11, pv.session_expire_interval));
    match &p.receive_maximum {
        Some(v) => {
            write_u8(writer, 0x21);
            write_u16(writer, *v);
        },
        None => {},
    }
    let ghost w2 = writer@;
    assert(w2 =~= w1 + opt_u16_seg(0x21, pv.receive_maximum));
    match &p.maximum_packet_size {
        Some(v) => {
            write_u8(writer, 0x27);
            write_u32(writer, *v);
        },
        None => {},
    }
    let ghost w3 = writer@;
    assert(w3 =~= w2 + opt_u32_seg(0x27, pv.maximum_packet_size));
    match &p.topic_alias_maximum {
        Some(v) => {
            write_u8(writer, 0x22);
            write_u16(writer, *v);
        },
        None => {},
    }
    assert(writer@ =~= w3 + opt_u16_seg(0x22, pv.topic_alias_maximum));
    assert(writer@ =~= mid + spec_connect_props_q1(pv));
}

/// Append the boolean Connect segments.
#[verifier::rlimit(100)]
#[verifier::spinoff_prover]
fn encode_connect_props_q2(writer: &mut Vec<u8>, p: &ConnectProperties)
    ensures
        final(writer)@ == old(writer)@ + spec_connect_props_q2(p@),
{
    let ghost pv = p@;
    let ghost mid = writer@;
    match &p.request_response_information {
        Some(v) => {
            write_u8(writer, 0x19);
            write_u8(
                writer,
                if *v {
                    1
                } else {
                    0
                },
            );
        },
        None => {},
    }
    let ghost w1 = writer@;
    assert(w1 =~= mid + opt_bool_seg(0x19, pv.request_response_information));
    match &p.request_problem_information {
        Some(v) => {
            write_u8(writer, 0x17);
            write_u8(
                writer,
                if *v {
                    1
                } else {
                    0
                },
            );
        },
        None => {},
    }
    assert(writer@ =~= w1 + opt_bool_seg(0x17, pv.request_problem_information));
    assert(writer@ =~= mid + spec_connect_props_q2(pv));
}

/// Append the authentication Connect segments.
#[verifier::rlimit(100)]
#[verifier::spinoff_prover]
fn encode_connect_props_q3(writer: &mut Vec<u8>, p: &ConnectProperties)
    requires
        connect_props_wf(p@),
    ensures
        final(writer)@ == old(writer)@ + spec_connect_props_q3(p@),
{
    let ghost pv = p@;
    let ghost mid = writer@;
    match &p.authentication_method {
        Some(s) => {
            write_u8(writer, 0x15);
            let _ = encode_utf8_string(writer, s);
        },
        None => {},
    }
    let ghost w1 = writer@;
    assert(w1 =~= mid + opt_str_seg(0x15, pv.authentication_method));
    match &p.authentication_data {
        Some(s) => {
            write_u8(writer, 0x16);
            let _ = encode_binary(writer, s);
        },
        None => {},
    }
    assert(writer@ =~= w1 + opt_str_seg(0x16, pv.authentication_data));
    assert(writer@ =~= mid + spec_connect_props_q3(pv));
}

/// Append a whole Connect properties region: its length as a varint, then
/// the canonical segments.
#[verifier::rlimit(100)]
#[verifier::spinoff_prover]
pub fn encode_connect_properties(writer: &mut Vec<u8>, p: &ConnectProperties) -> (r: Result<
    (),
    MqttError,
>)
    requires
        connect_props_wf(p@),
        connect_props_fits(p@),
    ensures
        r is Ok,
        final(writer)@ == old(writer)@ + spec_varint(spec_connect_props_bytes(p@).len() as int)
            + spec_connect_props_bytes(p@),
{
    let ghost pv = p@;
    let len = p.size();
    let _ = encode_variable_integer(writer, len as u32);
    let ghost w0 = writer@;
    encode_connect_props_q1(writer, p);
    encode_connect_props_q2(writer, p);
    proof {
        lemma_add_assoc(w0, spec_connect_props_q1(pv), spec_connect_props_q2(pv));
    }
    let ghost mid2 = writer@;
    assert(mid2 == w0 + (spec_connect_props_q1(pv) + spec_connect_props_q2(pv)));
    let n = p.user_properties.len();
    let mut i: usize = 0;
    while i < n
        invariant
            i <= n,
            n == p.user_properties@.len(),
            connect_props_wf(pv),
            pv == p@,
            writer@ == mid2 + spec_user_props_bytes(pv.user_properties.take(i as int)),
        decreases n - i,
    {
        let pair = &p.user_properties[i];
        proof {
            assert(pv.user_properties[i as int] == (p.user_properties@[i as int].0@,
            p.user_properties@[i as int].1@));
        }
        write_u8(writer, 0x26);
        let _ = encode_utf8_string(writer, &pair.0);
        let _ = encode_utf8_string(writer, &pair.1);
        proof {
            lemma_user_props_bytes_take_step(pv.user_properties, i as int);
            assert(writer@ =~= mid2 + spec_user_props_bytes(pv.user_properties.take(i + 1)));
        }
        i = i + 1;
    }
    proof {
        assert(pv.user_properties.take(n as int) =~= pv.user_properties);
    }
    encode_connect_props_q3(writer, p);
    proof {
        let q12 = spec_connect_props_q1(pv) + spec_connect_props_q2(pv);
        let us = spec_user_props_bytes(pv.user_properties);
        let q3 = spec_connect_props_q3(pv);
        lemma_add_assoc(w0, q12, us);
        lemma_add_assoc(w0, q12 + us, q3);
        assert(writer@ == w0 + spec_connect_props_bytes(pv));
    }
    Ok(())
}

/// Decode a Connect packet's properties region.
#[verifier::rlimit(100)]
#[verifier::spinoff_prover]
pub fn decode_connect_properties(reader: &Vec<u8>) -> (r: Result<ConnectProperties, MqttError>)
    ensures
        match spec_scan(PropertyFamily::Connect, reader@, BuilderView::init()) {
            Ok(bv) => r matches Ok(p) && p@ == bv.spec_connect(),
            Err(e) => r == Err::<ConnectProperties, MqttError>(e),
        },
{
    let ghost whole = reader@;
    let mut builder = PropertiesBuilder::default();
    let mut pos: usize = 0;
    let n = reader.len();
    assert(whole.skip(0) =~= whole);
    while pos < n
        invariant
            pos <= n,
            n == reader@.len(),
            whole == reader@,
            spec_scan(PropertyFamily::Connect, whole.skip(pos as int), builder@) == spec_scan(
                PropertyFamily::Connect,
                whole,
                BuilderView::init(),
            ),
        decreases n - pos,
    {
        let ghost s1 = whole.skip(pos as int);
        let pos0 = pos;
        let id = match decode_variable_integer(reader, &mut pos) {
            Ok(v) => v,
            Err(e) => {
                return Err(e);
            },
        };
        let ghost k = pos as int - pos0 as int;
        let property = match Property::try_from(id) {
            Ok(p) => p,
            Err(e) => {
                return Err(e);
            },
        };
        proof {
            lemma_skip_add(whole, pos0 as int, k);
        }
        match property {
            Property::SessionExpireInterval => {
                let v = match read_u32(reader, &mut pos) {
                    Ok(v) => v,
                    Err(e) => {
                        return Err(e);
                    },
                };
                builder = match builder.session_expire_interval(v) {
                    Ok(b) => b,
                    Err(e) => {
                        return Err(e);
                    },
                };
                proof {
                    lemma_skip_add(whole, pos0 as int, k + 4);
                }
            },
            Property::ReceiveMaximum => {
                let v = match read_u16(reader, &mut pos) {
                    Ok(v) => v,
                    Err(e) => {
                        return Err(e);
                    },
                };
                builder = match builder.receive_maximum(v) {
                    Ok(b) => b,
                    Err(e) => {
                        return Err(e);
                    },
                };
                proof {
                    lemma_skip_add(whole, pos0 as int, k + 2);
                }
            },
            Property::MaximumPacketSize => {
                let v = match read_u32(reader, &mut pos) {
                    Ok(v) => v,
                    Err(e) => {
                        return Err(e);
                    },
                };
                builder = match builder.maximum_packet_size(v) {
                    Ok(b) => b,
                    Err(e) => {
                        return Err(e);
                    },
                };
                proof {
                    lemma_skip_add(whole, pos0 as int, k + 4);
                }
            },
            Property::TopicAliasMaximum => {
                let v = match read_u16(reader, &mut pos) {
                    Ok(v) => v,
                    Err(e) => {
                        return Err(e);
                    },
                };
                builder = match builder.topic_alias_maximum(v) {
                    Ok(b) => b,
                    Err(e) => {
                        return Err(e);
                    },
                };
                proof {
                    lemma_skip_add(whole, pos0 as int, k + 2);
                }
            },
            Property::RequestResponseInformation => {
                let v = match read_u8(reader, &mut pos) {
                    Ok(v) => v,
                    Err(e) => {
                        return Err(e);
                    },
                };
                builder = match builder.request_response_information(v) {
                    Ok(b) => b,
                    Err(e) => {
                        return Err(e);
                    },
                };
                proof {
                    lemma_skip_add(whole, pos0 as int, k + 1);
                }
            },
            Property::RequestProblemInformation => {
                let v = match read_u8(reader, &mut pos) {
                    Ok(v) => v,
                    Err(e) => {
                        return Err(e);
                    },
                };
                builder = match builder.request_problem_information(v) {
                    Ok(b) => b,
                    Err(e) => {
                        return Err(e);
                    },
                };
                proof {
                    lemma_skip_add(whole, pos0 as int, k + 1);
                }
            },
            Property::UserProperty => {
                let pos1 = pos;
                let key = match decode_utf8_string(reader, &mut pos) {
                    Ok(v) => v,
                    Err(e) => {
                        return Err(e);
                    },
                };
                let ghost m1 = pos as int - pos1 as int;
                proof {
                    lemma_skip_add(whole.skip(pos0 as int), k, m1);
                    lemma_skip_add(whole, pos0 as int, k + m1);
                }
                let value = match decode_utf8_string(reader, &mut pos) {
                    Ok(v) => v,
                    Err(e) => {
                        return Err(e);
                    },
                };
                let ghost m = pos as int - pos1 as int;
                match (key, value) {
                    (Some(kk), Some(vv)) => {
                        builder = builder.user_property((kk, vv));
                    },
                    _ => {},
                }
                proof {
                    lemma_skip_add(whole, pos0 as int, k + m);
                }
            },
            Property::AuthenticationMethod => {
                let pos1 = pos;
                let s = match decode_utf8_string(reader, &mut pos) {
                    Ok(v) => v,
                    Err(e) => {
                        return Err(e);
                    },
                };
                let ghost m = pos as int - pos1 as int;
                match s {
                    Some(m_str) => {
                        builder = match builder.authentication_method(m_str) {
                            Ok(b) => b,
                            Err(e) => {
                                return Err(e);
                            },
                        };
                    },
                    None => {},
                }
                proof {
                    lemma_skip_add(whole, pos0 as int, k + m);
                }
            },
            Property::AuthenticationData => {
                let pos1 = pos;
                let s = match decode_binary(reader, &mut pos) {
                    Ok(v) => v,
                    Err(e) => {
                        return Err(e);
                    },
                };
                let ghost m = pos as int - pos1 as int;
                builder = match builder.authentication_data(s) {
                    Ok(b) => b,
                    Err(e) => {
                        return Err(e);
                    },
                };
                proof {
                    lemma_skip_add(whole, pos0 as int, k + m);
                }
            },
            other => {
                return Err(MqttError::UnacceptableProperty(other));
            },
        }
    }
    assert(whole.skip(n as int) =~= Seq::<u8>::empty());
    Ok(builder.connect())
}

/// The length-prefixed protocol name that opens every Connect body.
pub open spec fn spec_mqtt_name() -> Seq<u8> {
    seq![0u8, 4u8, 0x4Du8, 0x51u8, 0x54u8, 0x54u8]
}

/// The bytes of the optional client identifier: an absent one is written as
/// an empty string.
pub open spec fn spec_client_id_bytes(o: Option<Seq<u8>>) -> Seq<u8> {
    match o {
        Some(s) => spec_len_prefixed(s),
        None => seq![0u8, 0u8],
    }
}

/// The bytes of the optional will record: its properties region, topic and
/// length-prefixed payload.
pub open spec fn spec_will_block(o: Option<WillView>) -> Seq<u8> {
    match o {
        Some(w) => spec_varint(spec_will_props_bytes(w.properties).len() as int)
            + spec_will_props_bytes(w.properties) + spec_len_prefixed(w.topic) + spec_len_prefixed(
            w.payload,
        ),
        None => seq![],
    }
}

/// The bytes of an optional length-prefixed field.
pub open spec fn spec_opt_lp(o: Option<Seq<u8>>) -> Seq<u8> {
    match o {
        Some(s) => spec_len_prefixed(s),
        None => seq![],
    }
}

/// The canonical body bytes of a Connect packet.
pub open spec fn spec_connect_body(v: ConnectView) -> Seq<u8> {
    spec_mqtt_name() + seq![5u8, Connect::spec_flags(v)] + spec_u16_be(v.keep_alive) + spec_varint(
        spec_connect_props_bytes(v.properties).len() as int,
    ) + spec_connect_props_bytes(v.properties) + spec_client_id_bytes(v.client_identifier)
        + spec_will_block(v.will) + spec_opt_lp(v.username) + spec_opt_lp(v.password)
}

/// Size bounds under which the packet can be encoded.
pub open spec fn connect_wf(v: ConnectView) -> bool {
    &&& connect_props_wf(v.properties)
    &&& connect_props_fits(v.properties)
    &&& (v.client_identifier matches Some(s) ==> s.len() <= 0xFFFF)
    &&& (v.username matches Some(s) ==> s.len() <= 0xFFFF)
    &&& (v.password matches Some(s) ==> s.len() <= 0xFFFF)
    &&& (v.will matches Some(w) ==> will_props_wf(w.properties) && will_props_fits(w.properties)
        && w.topic.len() <= 0xFFFF && w.payload.len() <= 0xFFFF)
    &&& spec_connect_body(v).len() <= VARINT_MAX
}

/// The stricter conditions under which decoding inverts encoding.
pub open spec fn connect_decodable(v: ConnectView) -> bool {
    &&& !v.reserved
    &&& connect_props_decodable(v.properties)
    &&& (v.client_identifier matches Some(s) ==> 1 <= s.len())
    &&& (v.username matches Some(s) ==> 1 <= s.len())
    &&& (v.will matches Some(w) ==> will_props_decodable(w.properties) && 1 <= w.topic.len())
}

/// What decoding a will block at the head of t yields: the record and how
/// many bytes it took.
#[verifier::opaque]
pub open spec fn spec_decode_will_block(qos: QoS, retain: bool, t: Seq<u8>) -> Result<
    (WillView, int),
    MqttError,
> {
    match spec_decode_varint(t) {
        Err(e) => Err(e),
        Ok((wplen, k)) => if t.len() - k < wplen as int {
            Err(MqttError::EndOfStream)
        } else {
            match spec_scan(
                PropertyFamily::Will,
                t.skip(k).take(wplen as int),
                BuilderView::init(),
            ) {
                Err(e) => Err(e),
                Ok(bv) => match spec_decode_string(t.skip(k + wplen as int)) {
                    Err(e) => Err(e),
                    Ok((None, _)) => Err(MqttError::UnspecifiedError),
                    Ok((Some(topic), k2)) => match spec_decode_binary(
                        t.skip(k + wplen as int).skip(k2),
                    ) {
                        Err(e) => Err(e),
                        Ok((payload, k3)) => Ok(
                            (
                                WillView {
                                    qos,
                                    retain,
                                    properties: bv.spec_will(),
                                    topic,
                                    payload,
                                },
                                k + wplen as int + k2 + k3,
                            ),
                        ),
                    },
                },
            }
        },
    }
}

/// What decoding the credential fields at the end of a Connect body yields.
#[verifier::opaque]
pub open spec fn spec_decode_creds(un_flag: bool, pw_flag: bool, t: Seq<u8>) -> Result<
    (Option<Seq<u8>>, Option<Seq<u8>>),
    MqttError,
> {
    if un_flag {
        match spec_decode_string(t) {
            Err(e) => Err(e),
            Ok((un, k)) => if pw_flag {
                match spec_decode_binary(t.skip(k)) {
                    Err(e) => Err(e),
                    Ok((pw, _)) => Ok((un, Some(pw))),
                }
            } else {
                Ok((un, None))
            },
        }
    } else {
        if pw_flag {
            match spec_decode_binary(t) {
                Err(e) => Err(e),
                Ok((pw, _)) => Ok((None, Some(pw))),
            }
        } else {
            Ok((None, None))
        }
    }
}

/// What decoding the remainder of a Connect body after the properties
/// yields: client identifier, will, and credentials.
pub open spec fn spec_decode_connect_tail(
    clean_start_flag: bool,
    keep_alive: u16,
    props: ConnectPropertiesView,
    will_flag: bool,
    will_qos: QoS,
    will_retain: bool,
    pw_flag: bool,
    un_flag: bool,
    t: Seq<u8>,
) -> Result<ConnectView, MqttError> {
    match spec_decode_string(t) {
        Err(e) => Err(e),
        Ok((cid, k2)) => {
            let t2 = t.skip(k2);
            if will_flag {
                match spec_decode_will_block(will_qos, will_retain, t2) {
                    Err(e) => Err(e),
                    Ok((w, k3)) => match spec_decode_creds(un_flag, pw_flag, t2.skip(k3)) {
                        Err(e) => Err(e),
                        Ok((un, pw)) => Ok(
                            ConnectView {
                                reserved: false,
                                clean_start_flag,
                                keep_alive,
                                properties: props,
                                client_identifier: cid,
                                username: un,
                                password: pw,
                                will: Some(w),
                            },
                        ),
                    },
                }
            } else {
                match spec_decode_creds(un_flag, pw_flag, t2) {
                    Err(e) => Err(e),
                    Ok((un, pw)) => Ok(
                        ConnectView {
                            reserved: false,
                            clean_start_flag,
                            keep_alive,
                            properties: props,
                            client_identifier: cid,
                            username: un,
                            password: pw,
                            will: None,
                        },
                    ),
                }
            }
        },
    }
}

/// What decoding a Connect body after the fixed head yields: the properties
/// region, the client identifier, the will, and the credentials.
pub open spec fn spec_decode_connect_after_head(
    clean_start_flag: bool,
    keep_alive: u16,
    will_flag: bool,
    will_qos: QoS,
    will_retain: bool,
    pw_flag: bool,
    un_flag: bool,
    t: Seq<u8>,
) -> Result<ConnectView, MqttError> {
    match spec_decode_varint(t) {
        Err(e) => Err(e),
        Ok((plen, k)) => if t.len() - k < plen as int {
            Err(MqttError::EndOfStream)
        } else {
            match spec_scan(
                PropertyFamily::Connect,
                t.skip(k).take(plen as int),
                BuilderView::init(),
            ) {
                Err(e) => Err(e),
                Ok(bv) => spec_decode_connect_tail(
                    clean_start_flag,
                    keep_alive,
                    bv.spec_connect(),
                    will_flag,
                    will_qos,
                    will_retain,
                    pw_flag,
                    un_flag,
                    t.skip(k + plen as int),
                ),
            }
        },
    }
}

/// What decoding a Connect body yields.
pub open spec fn spec_decode_connect(s: Seq<u8>) -> Result<ConnectView, MqttError> {
    match spec_decode_string(s) {
        Err(e) => Err(e),
        Ok((None, _)) => Err(MqttError::UnsupportedProtocolVersion),
        Ok((Some(name), kp)) => if name != seq![0x4Du8, 0x51u8, 0x54u8, 0x54u8] {
            Err(MqttError::UnsupportedProtocolVersion)
        } else if s.len() - kp < 4 {
            Err(MqttError::EndOfStream)
        } else if s[kp] != 5 {
            Err(MqttError::UnsupportedProtocolVersion)
        } else {
            match Connect::spec_split_flags(s[kp + 1]) {
                Err(e) => Err(e),
                Ok((reserved, clean, will_flag, will_qos, will_retain, pw_flag, un_flag)) => if
                    reserved {
                    Err(MqttError::MalformedPacket)
                } else {
                    spec_decode_connect_after_head(
                        clean,
                        spec_u16_of(s[kp + 2], s[kp + 3]),
                        will_flag,
                        will_qos,
                        will_retain,
                        pw_flag,
                        un_flag,
                        s.skip(kp + 4),
                    )
                },
            }
        },
    }
}

/// Decode a will record at the current offset.
#[verifier::rlimit(100)]
#[verifier::spinoff_prover]
fn decode_will_block(reader: &Vec<u8>, pos: &mut usize, qos: QoS, retain: bool) -> (r: Result<
    Will,
    MqttError,
>)
    requires
        *old(pos) <= reader@.len(),
    ensures
        *old(pos) <= *final(pos) <= reader@.len(),
        match spec_decode_will_block(qos, retain, reader@.skip(*old(pos) as int)) {
            Ok(p) => r matches Ok(w) && w@ == p.0 && *final(pos) == *old(pos) + p.1,
            Err(e) => r == Err::<Will, MqttError>(e),
        },
{
    proof {
        reveal(spec_decode_will_block);
    }
    let ghost wbase = *old(pos) as int;
    let pos2 = *pos;
    let wplen = match decode_variable_integer(reader, pos) {
        Ok(v) => v,
        Err(e) => {
            return Err(e);
        },
    };
    let ghost wk = *pos as int - pos2 as int;
    if reader.len() - *pos < wplen as usize {
        return Err(MqttError::EndOfStream);
    }
    let wregion = read_vec(reader, pos, wplen as usize);
    proof {
        lemma_skip_add(reader@, wbase, wk);
        assert(wregion@ =~= reader@.skip(wbase).skip(wk).take(wplen as int));
    }
    let wprops = match decode_will_properties(&wregion) {
        Ok(p) => p,
        Err(e) => {
            return Err(e);
        },
    };
    proof {
        lemma_skip_add(reader@, wbase, wk + wplen as int);
    }
    let ghost tbase = *pos as int;
    let topic = match decode_utf8_string(reader, pos) {
        Ok(Some(tp)) => tp,
        Ok(None) => {
            return Err(MqttError::UnspecifiedError);
        },
        Err(e) => {
            return Err(e);
        },
    };
    proof {
        lemma_skip_add(reader@.skip(wbase), wk + wplen as int, tbase - wbase - wk - wplen as int);
        lemma_skip_add(reader@, wbase, tbase - wbase);
    }
    let ghost k2 = *pos as int - tbase;
    let payload = match decode_binary(reader, pos) {
        Ok(v) => v,
        Err(e) => {
            proof {
                lemma_skip_add(reader@.skip(wbase), wk + wplen as int, k2 + tbase - wbase - wk
                    - wplen as int);
                lemma_skip_add(reader@, wbase, tbase + k2 - wbase);
            }
            return Err(e);
        },
    };
    proof {
        lemma_skip_add(reader@.skip(wbase), wk + wplen as int, k2 + tbase - wbase - wk
            - wplen as int);
        lemma_skip_add(reader@, wbase, tbase + k2 - wbase);
    }
    Ok(Will { qos, retain, properties: wprops, topic, payload })
}

/// Decode the optional username and password fields.
#[verifier::rlimit(100)]
#[verifier::spinoff_prover]
fn decode_connect_creds(reader: &Vec<u8>, from: usize, un_flag: bool, pw_flag: bool) -> (r: Result<
    (Option<crate::v5::string::MqttString>, Option<Vec<u8>>),
    MqttError,
>)
    requires
        from <= reader@.len(),
    ensures
        match spec_decode_creds(un_flag, pw_flag, reader@.skip(from as int)) {
            Ok(p) => r matches Ok(c) && crate::v5::property::opt_str_view(c.0) == p.0
                && crate::v5::property::opt_bytes_view(c.1) == p.1,
            Err(e) => r == Err::<
                (Option<crate::v5::string::MqttString>, Option<Vec<u8>>),
                MqttError,
            >(e),
        },
{
    proof {
        reveal(spec_decode_creds);
    }
    let mut pos: usize = from;
    let username = if un_flag {
        match decode_utf8_string(reader, &mut pos) {
            Ok(v) => v,
            Err(e) => {
                return Err(e);
            },
        }
    } else {
        None
    };
    proof {
        lemma_skip_add(reader@, from as int, pos as int - from as int);
    }
    let password = if pw_flag {
        match decode_binary(reader, &mut pos) {
            Ok(v) => Some(v),
            Err(e) => {
                return Err(e);
            },
        }
    } else {
        None
    };
    Ok((username, password))
}

/// Decode the credentials and assemble the packet, after the optional will.
#[verifier::rlimit(100)]
#[verifier::spinoff_prover]
fn decode_connect_finish(
    reader: &Vec<u8>,
    from: usize,
    clean_start_flag: bool,
    keep_alive: u16,
    properties: ConnectProperties,
    client_identifier: Option<crate::v5::string::MqttString>,
    will: Option<Will>,
    pw_flag: bool,
    un_flag: bool,
) -> (r: Result<Connect, MqttError>)
    requires
        from <= reader@.len(),
    ensures
        match spec_decode_creds(un_flag, pw_flag, reader@.skip(from as int)) {
            Ok(p) => r matches Ok(c) && c@ == (ConnectView {
                reserved: false,
                clean_start_flag,
                keep_alive,
                properties: properties@,
                client_identifier: crate::v5::property::opt_str_view(client_identifier),
                username: p.0,
                password: p.1,
                will: crate::v5::types::opt_will_view(will),
            }),
            Err(e) => r == Err::<Connect, MqttError>(e),
        },
{
    let (username, password) = match decode_connect_creds(reader, from, un_flag, pw_flag) {
        Ok(c) => c,
        Err(e) => {
            return Err(e);
        },
    };
    Ok(
        Connect {
            reserved: false,
            clean_start_flag,
            keep_alive,
            properties,
            client_identifier,
            username,
            password,
            will,
        },
    )
}

/// Decode the client identifier, will and credentials of a Connect body.
#[verifier::rlimit(100)]
#[verifier::spinoff_prover]
fn decode_connect_tail_exec(
    reader: &Vec<u8>,
    from: usize,
    clean_start_flag: bool,
    keep_alive: u16,
    properties: ConnectProperties,
    will_flag: bool,
    will_qos: QoS,
    will_retain: bool,
    pw_flag: bool,
    un_flag: bool,
) -> (r: Result<Connect, MqttError>)
    requires
        from <= reader@.len(),
    ensures
        match spec_decode_connect_tail(
            clean_start_flag,
            keep_alive,
            properties@,
            will_flag,
            will_qos,
            will_retain,
            pw_flag,
            un_flag,
            reader@.skip(from as int),
        ) {
            Ok(v) => r matches Ok(c) && c@ == v,
            Err(e) => r == Err::<Connect, MqttError>(e),
        },
{
    let ghost t = reader@.skip(from as int);
    let mut pos: usize = from;
    let client_identifier = match decode_utf8_string(reader, &mut pos) {
        Ok(v) => v,
        Err(e) => {
            return Err(e);
        },
    };
    let ghost k2 = pos as int - from as int;
    proof {
        lemma_skip_add(reader@, from as int, k2);
    }
    let ghost t2base = pos as int;
    if will_flag {
        let w = match decode_will_block(reader, &mut pos, will_qos, will_retain) {
            Ok(w) => w,
            Err(e) => {
                return Err(e);
            },
        };
        proof {
            lemma_skip_add(reader@.skip(from as int), k2, pos as int - t2base);
            lemma_skip_add(reader@, t2base, pos as int - t2base);
        }
        decode_connect_finish(
            reader,
            pos,
            clean_start_flag,
            keep_alive,
            properties,
            client_identifier,
            Some(w),
            pw_flag,
            un_flag,
        )
    } else {
        decode_connect_finish(
            reader,
            pos,
            clean_start_flag,
            keep_alive,
            properties,
            client_identifier,
            None,
            pw_flag,
            un_flag,
        )
    }
}

/// Decode the remainder of a Connect body after the fixed head.
#[verifier::rlimit(100)]
#[verifier::spinoff_prover]
fn decode_connect_rest(
    reader: &Vec<u8>,
    from: usize,
    clean_start_flag: bool,
    keep_alive: u16,
    will_flag: bool,
    will_qos: QoS,
    will_retain: bool,
    pw_flag: bool,
    un_flag: bool,
) -> (r: Result<Connect, MqttError>)
    requires
        from <= reader@.len(),
    ensures
        match spec_decode_connect_after_head(
            clean_start_flag,
            keep_alive,
            will_flag,
            will_qos,
            will_retain,
            pw_flag,
            un_flag,
            reader@.skip(from as int),
        ) {
            Ok(v) => r matches Ok(c) && c@ == v,
            Err(e) => r == Err::<Connect, MqttError>(e),
        },
{
    let ghost t = reader@.skip(from as int);
    let mut pos: usize = from;
    let plen = match decode_variable_integer(reader, &mut pos) {
        Ok(v) => v,
        Err(e) => {
            return Err(e);
        },
    };
    let ghost k = pos as int - from as int;
    if reader.len() - pos < plen as usize {
        return Err(MqttError::EndOfStream);
    }
    let region = read_vec(reader, &mut pos, plen as usize);
    proof {
        lemma_skip_add(reader@, from as int, k);
        assert(region@ =~= t.skip(k).take(plen as int));
    }
    let properties = match decode_connect_properties(&region) {
        Ok(p) => p,
        Err(e) => {
            return Err(e);
        },
    };
    proof {
        lemma_skip_add(reader@, from as int, k + plen as int);
    }
    decode_connect_tail_exec(
        reader,
        pos,
        clean_start_flag,
        keep_alive,
        properties,
        will_flag,
        will_qos,
        will_retain,
        pw_flag,
        un_flag,
    )
}

/// Read and check the length-prefixed protocol name "MQTT" that opens every
/// Connect body.
#[verifier::rlimit(100)]
#[verifier::spinoff_prover]
fn read_protocol_name(reader: &Vec<u8>, pos: &mut usize) -> (r: Result<(), MqttError>)
    requires
        *old(pos) <= reader@.len(),
    ensures
        ({
            let s = reader@.skip(*old(pos) as int);
            match r {
                Ok(_) => spec_decode_string(s) matches Ok(p) && p.0 == Some(
                    seq![0x4Du8, 0x51u8, 0x54u8, 0x54u8],
                ) && *final(pos) == *old(pos) + p.1,
                Err(e) => match spec_decode_string(s) {
                    Err(e2) => e == e2,
                    Ok((None, _)) => e == MqttError::UnsupportedProtocolVersion,
                    Ok((Some(nm), _)) => nm != seq![0x4Du8, 0x51u8, 0x54u8, 0x54u8] && e
                        == MqttError::UnsupportedProtocolVersion,
                },
            }
        }),
{
    let name = match decode_utf8_string(reader, pos) {
        Ok(Some(n)) => n,
        Ok(None) => {
            return Err(MqttError::UnsupportedProtocolVersion);
        },
        Err(e) => {
            return Err(e);
        },
    };
    let nb = name.as_bytes();
    if nb.len() == 4 && nb[0] == 0x4D && nb[1] == 0x51 && nb[2] == 0x54 && nb[3] == 0x54 {
        proof {
            assert(name@ =~= seq![0x4Du8, 0x51u8, 0x54u8, 0x54u8]);
        }
        Ok(())
    } else {
        proof {
            if name@ == seq![0x4Du8, 0x51u8, 0x54u8, 0x54u8] {
                assert(name@.len() == 4 && name@[0] == 0x4D && name@[1] == 0x51 && name@[2] == 0x54
                    && name@[3] == 0x54);
            }
        }
        Err(MqttError::UnsupportedProtocolVersion)
    }
}

/// Read the fixed four bytes after the protocol name: version, flags and
/// keep-alive; a missing byte is `EndOfStream`, a version other than 5 is
/// `UnsupportedProtocolVersion`.
#[verifier::rlimit(100)]
#[verifier::spinoff_prover]
fn decode_connect_fixed(reader: &Vec<u8>, pos: &mut usize) -> (r: Result<(u8, u16), MqttError>)
    requires
        *old(pos) <= reader@.len(),
    ensures
        match r {
            Ok(p) => reader@.len() - *old(pos) >= 4 && reader@[*old(pos) as int] == 5 && p.0
                == reader@[*old(pos) + 1] && p.1 == spec_u16_of(
                reader@[*old(pos) + 2],
                reader@[*old(pos) + 3],
            ) && *final(pos) == *old(pos) + 4,
            Err(e) => (e == MqttError::EndOfStream && reader@.len() - *old(pos) < 4) || (e
                == MqttError::UnsupportedProtocolVersion && reader@.len() - *old(pos) >= 4
                && reader@[*old(pos) as int] != 5),
        },
{
    if reader.len() - *pos < 4 {
        return Err(MqttError::EndOfStream);
    }
    let version = match read_u8(reader, pos) {
        Ok(v) => v,
        Err(e) => {
            return Err(e);
        },
    };
    if version != 5 {
        return Err(MqttError::UnsupportedProtocolVersion);
    }
    let flags = match read_u8(reader, pos) {
        Ok(v) => v,
        Err(e) => {
            return Err(e);
        },
    };
    let keep_alive = match read_u16(reader, pos) {
        Ok(v) => v,
        Err(e) => {
            return Err(e);
        },
    };
    Ok((flags, keep_alive))
}

/// Decode the body of a Connect packet.
#[verifier::rlimit(100)]
#[verifier::spinoff_prover]
pub fn decode_connect(reader: &Vec<u8>) -> (r: Result<Connect, MqttError>)
    ensures
        match spec_decode_connect(reader@) {
            Ok(v) => r matches Ok(c) && c@ == v,
            Err(e) => r == Err::<Connect, MqttError>(e),
        },
{
    let mut pos: usize = 0;
    assert(reader@.skip(0) =~= reader@);
    match read_protocol_name(reader, &mut pos) {
        Ok(_) => {},
        Err(e) => {
            return Err(e);
        },
    }
    let ghost kp = pos as int;
    let (flags, keep_alive) = match decode_connect_fixed(reader, &mut pos) {
        Ok(p) => p,
        Err(e) => {
            return Err(e);
        },
    };
    let (reserved, clean_start_flag, will_flag, will_qos_flag, will_retain_flag, password_flag,
    username_flag) = match Connect::set_flags(flags) {
        Ok(t) => t,
        Err(e) => {
            return Err(e);
        },
    };
    if reserved {
        return Err(MqttError::MalformedPacket);
    }
    decode_connect_rest(
        reader,
        pos,
        clean_start_flag,
        keep_alive,
        will_flag,
        will_qos_flag,
        will_retain_flag,
        password_flag,
        username_flag,
    )
}

/// How many bytes a Will record occupies inside a Connect body.
impl PropertiesSize for Will {
    open spec fn spec_size(&self) -> int {
        spec_will_block(Some(self@)).len() as int
    }

    open spec fn size_ok(&self) -> bool {
        will_props_wf(self@.properties) && will_props_fits(self@.properties) && self@.topic.len()
            <= 0xFFFF && self@.payload.len() <= 0xFFFF
    }

    /// The will block length: its properties region behind a length prefix,
    /// the topic, and the length-prefixed payload.
    fn size(&self) -> (r: usize) {
        let wplen = self.properties.size();
        proof {
            lemma_varint_len(wplen as int);
        }
        let vlen = varint_size(wplen as u32);
        vlen + wplen + 2 + self.topic.len() + 2 + self.payload.len()
    }
}

/// Append the will block of a Connect body.
#[verifier::rlimit(100)]
#[verifier::spinoff_prover]
fn encode_will_block(writer: &mut Vec<u8>, w: &Will)
    requires
        will_props_wf(w@.properties),
        will_props_fits(w@.properties),
        w@.topic.len() <= 0xFFFF,
        w@.payload.len() <= 0xFFFF,
    ensures
        final(writer)@ == old(writer)@ + spec_will_block(Some(w@)),
{
    let _ = encode_will_properties(writer, &w.properties);
    let _ = encode_utf8_string(writer, &w.topic);
    let _ = encode_binary(writer, &w.payload);
    assert(final(writer)@ =~= old(writer)@ + spec_will_block(Some(w@)));
}

/// Append the body of a Connect packet.
#[verifier::rlimit(100)]
#[verifier::spinoff_prover]
pub fn encode_connect(writer: &mut Vec<u8>, msg: &Connect) -> (r: Result<(), MqttError>)
    requires
        connect_wf(msg@),
    ensures
        r is Ok,
        final(writer)@ == old(writer)@ + spec_connect_body(msg@),
{
    let ghost mv = msg@;
    let ghost w0 = writer@;
    write_u16(writer, 4);
    write_u8(writer, 0x4D);
    write_u8(writer, 0x51);
    write_u8(writer, 0x54);
    write_u8(writer, 0x54);
    let ghost p1 = writer@;
    assert(p1 =~= w0 + spec_mqtt_name());
    write_u8(writer, 5);
    let flags = msg.get_flags();
    write_u8(writer, flags);
    let ghost p2 = writer@;
    assert(p2 =~= w0 + spec_mqtt_name() + seq![5u8, Connect::spec_flags(mv)]);
    write_u16(writer, msg.keep_alive);
    let ghost p3 = writer@;
    assert(p3 =~= p2 + spec_u16_be(mv.keep_alive));
    let _ = encode_connect_properties(writer, &msg.properties);
    let ghost p4 = writer@;
    assert(p4 =~= p3 + spec_varint(spec_connect_props_bytes(mv.properties).len() as int)
        + spec_connect_props_bytes(mv.properties));
    match &msg.client_identifier {
        Some(s) => {
            let _ = encode_utf8_string(writer, s);
        },
        None => {
            write_u16(writer, 0);
        },
    }
    let ghost p5 = writer@;
    assert(p5 =~= p4 + spec_client_id_bytes(mv.client_identifier));
    match &msg.will {
        Some(w) => {
            encode_will_block(writer, w);
        },
        None => {},
    }
    let ghost p6 = writer@;
    assert(p6 =~= p5 + spec_will_block(mv.will));
    match &msg.username {
        Some(s) => {
            let _ = encode_utf8_string(writer, s);
        },
        None => {},
    }
    let ghost p7 = writer@;
    assert(p7 =~= p6 + spec_opt_lp(mv.username));
    match &msg.password {
        Some(s) => {
            let _ = encode_binary(writer, s);
        },
        None => {},
    }
    assert(writer@ =~= p7 + spec_opt_lp(mv.password));
    assert(writer@ =~= w0 + spec_connect_body(mv));
    Ok(())
}

impl RemainingLength for Connect {
    open spec fn spec_remaining_length(&self) -> int {
        spec_connect_body(self@).len() as int
    }

    open spec fn remaining_length_ok(&self) -> bool {
        connect_wf(self@)
    }

    /// The body length: the ten-byte head, the properties region behind its
    /// length prefix, the client identifier, the will block, and the
    /// credentials.
    #[verifier::rlimit(100)]
    #[verifier::spinoff_prover]
    fn remaining_length(&self) -> (r: usize) {
        let props_len = self.properties.size();
        proof {
            lemma_varint_len(props_len as int);
        }
        let vlen = varint_size(props_len as u32);
        let mut len: usize = 10 + vlen + props_len;
        match &self.client_identifier {
            Some(s) => {
                len = len + 2 + s.len();
            },
            None => {
                len = len + 2;
            },
        }
        match &self.will {
            Some(w) => {
                len = len + w.size();
            },
            None => {},
        }
        match &self.username {
            Some(s) => {
                len = len + 2 + s.len();
            },
            None => {},
        }
        match &self.password {
            Some(s) => {
                len = len + 2 + s.len();
            },
            None => {},
        }
        proof {
            assert(spec_connect_body(self@).len() == spec_mqtt_name().len() + 2 + spec_u16_be(
                self@.keep_alive,
            ).len() + spec_varint(spec_connect_props_bytes(self@.properties).len() as int).len()
                + spec_connect_props_bytes(self@.properties).len() + spec_client_id_bytes(
                self@.client_identifier,
            ).len() + spec_will_block(self@.will).len() + spec_opt_lp(self@.username).len()
                + spec_opt_lp(self@.password).len());
        }
        len
    }
}

/// Splitting the assembled Connect flags byte recovers every flag.
#[verifier::rlimit(100)]
#[verifier::spinoff_prover]
pub proof fn lemma_connect_flags_round_trip(v: ConnectView)
    requires
        !v.reserved,
    ensures
        Connect::spec_split_flags(Connect::spec_flags(v)) == Ok::<
            (bool, bool, bool, QoS, bool, bool, bool),
            MqttError,
        >(
            (
                false,
                v.clean_start_flag,
                v.will is Some,
                match v.will {
                    Some(w) => w.qos,
                    None => QoS::AtMostOnce,
                },
                match v.will {
                    Some(w) => w.retain,
                    None => false,
                },
                v.password is Some,
                v.username is Some,
            ),
        ),
{
    let c: u8 = bool_byte(v.clean_start_flag);
    let w: u8 = if v.will is Some {
        1
    } else {
        0
    };
    let q: u8 = match v.will {
        Some(wl) => wl.qos.spec_as_u8(),
        None => 0,
    };
    let t: u8 = match v.will {
        Some(wl) => bool_byte(wl.retain),
        None => 0,
    };
    let pw: u8 = if v.password is Some {
        1
    } else {
        0
    };
    let un: u8 = if v.username is Some {
        1
    } else {
        0
    };
    let f: u8 = Connect::spec_flags(v);
    assert(f == 2 * c + 4 * w + 8 * q + 32 * t + 64 * pw + 128 * un);
    assert(c <= 1 && w <= 1 && q <= 2 && t <= 1 && pw <= 1 && un <= 1);
    assert(f == 2 * c + 4 * w + 8 * q + 32 * t + 64 * pw + 128 * un && c <= 1 && w <= 1 && q <= 2
        && t <= 1 && pw <= 1 && un <= 1 ==> f % 2 == 0 && (f / 2) % 2 == c && (f / 4) % 2 == w && (
    f / 8) % 4 == q && (f / 32) % 2 == t && (f / 64) % 2 == pw && (f / 128) % 2
        == un) by (bit_vector);
    assert(v.will is None ==> q == 0 && QoS::spec_try_from(0) == Ok::<QoS, MqttError>(
        QoS::AtMostOnce,
    ));
}

/// What the scanner's builder holds after the numeric Connect segments.
pub open spec fn connect_apply_q1(p: ConnectPropertiesView, b: BuilderView) -> BuilderView {
    let b1 = match p.session_expire_interval {
        None => b,
        Some(v) => BuilderView { session_expire_interval: Some(v), ..b },
    };
    let b2 = match p.receive_maximum {
        None => b1,
        Some(v) => BuilderView { receive_maximum: Some(v), ..b1 },
    };
    let b3 = match p.maximum_packet_size {
        None => b2,
        Some(v) => BuilderView { maximum_packet_size: Some(v), ..b2 },
    };
    match p.topic_alias_maximum {
        None => b3,
        Some(v) => BuilderView { topic_alias_maximum: Some(v), ..b3 },
    }
}

/// What the scanner's builder holds after the boolean Connect segments.
pub open spec fn connect_apply_q2(p: ConnectPropertiesView, b: BuilderView) -> BuilderView {
    let b1 = match p.request_response_information {
        None => b,
        Some(v) => BuilderView { request_response_information: Some(v), ..b },
    };
    match p.request_problem_information {
        None => b1,
        Some(v) => BuilderView { request_problem_information: Some(v), ..b1 },
    }
}

/// What the scanner's builder holds after the authentication segments.
pub open spec fn connect_apply_q3(p: ConnectPropertiesView, b: BuilderView) -> BuilderView {
    let b1 = match p.authentication_method {
        None => b,
        Some(v) => BuilderView { authentication_method: Some(v), ..b },
    };
    match p.authentication_data {
        None => b1,
        Some(v) => BuilderView { authentication_data: Some(v), ..b1 },
    }
}

/// Scanning the numeric Connect segments fills exactly their slots.
#[verifier::rlimit(100)]
#[verifier::spinoff_prover]
pub proof fn lemma_scan_connect_q1(p: ConnectPropertiesView, tail: Seq<u8>, b: BuilderView)
    requires
        b.session_expire_interval is None,
        b.receive_maximum is None,
        b.maximum_packet_size is None,
        b.topic_alias_maximum is None,
    ensures
        spec_scan(PropertyFamily::Connect, spec_connect_props_q1(p) + tail, b) == spec_scan(
            PropertyFamily::Connect,
            tail,
            connect_apply_q1(p, b),
        ),
{
    let f = PropertyFamily::Connect;
    let a1 = opt_u32_seg(0x11, p.session_expire_interval);
    let a2 = opt_u16_seg(0x21, p.receive_maximum);
    let a3 = opt_u32_seg(0x27, p.maximum_packet_size);
    let a4 = opt_u16_seg(0x22, p.topic_alias_maximum);
    let t3 = a4 + tail;
    let t2 = a3 + t3;
    let t1 = a2 + t2;
    lemma_add_assoc(a1 + a2 + a3, a4, tail);
    lemma_add_assoc(a1 + a2, a3, t3);
    lemma_add_assoc(a1, a2, t2);
    assert(spec_connect_props_q1(p) + tail == a1 + t1);
    lemma_scan_opt_u32(f, Property::SessionExpireInterval, p.session_expire_interval, t1, b);
    let b1 = match p.session_expire_interval {
        None => b,
        Some(v) => BuilderView { session_expire_interval: Some(v), ..b },
    };
    lemma_scan_opt_u16(f, Property::ReceiveMaximum, p.receive_maximum, t2, b1);
    let b2 = match p.receive_maximum {
        None => b1,
        Some(v) => BuilderView { receive_maximum: Some(v), ..b1 },
    };
    lemma_scan_opt_u32(f, Property::MaximumPacketSize, p.maximum_packet_size, t3, b2);
    let b3 = match p.maximum_packet_size {
        None => b2,
        Some(v) => BuilderView { maximum_packet_size: Some(v), ..b2 },
    };
    lemma_scan_opt_u16(f, Property::TopicAliasMaximum, p.topic_alias_maximum, tail, b3);
}

/// Scanning the boolean Connect segments fills exactly their slots.
#[verifier::rlimit(100)]
#[verifier::spinoff_prover]
pub proof fn lemma_scan_connect_q2(p: ConnectPropertiesView, tail: Seq<u8>, b: BuilderView)
    requires
        b.request_response_information is None,
        b.request_problem_information is None,
    ensures
        spec_scan(PropertyFamily::Connect, spec_connect_props_q2(p) + tail, b) == spec_scan(
            PropertyFamily::Connect,
            tail,
            connect_apply_q2(p, b),
        ),
{
    let f = PropertyFamily::Connect;
    let a1 = opt_bool_seg(0x19, p.request_response_information);
    let a2 = opt_bool_seg(0x17, p.request_problem_information);
    let t1 = a2 + tail;
    lemma_add_assoc(a1, a2, tail);
    assert(spec_connect_props_q2(p) + tail == a1 + t1);
    lemma_scan_opt_bool(
        f,
        Property::RequestResponseInformation,
        p.request_response_information,
        t1,
        b,
    );
    let b1 = match p.request_response_information {
        None => b,
        Some(v) => BuilderView { request_response_information: Some(v), ..b },
    };
    lemma_scan_opt_bool(
        f,
        Property::RequestProblemInformation,
        p.request_problem_information,
        tail,
        b1,
    );
}

/// Scanning the authentication Connect segments fills exactly their slots.
#[verifier::rlimit(100)]
#[verifier::spinoff_prover]
pub proof fn lemma_scan_connect_q3(p: ConnectPropertiesView, b: BuilderView)
    requires
        connect_props_wf(p),
        connect_props_decodable(p),
        b.authentication_method is None,
        b.authentication_data is None,
    ensures
        spec_scan(PropertyFamily::Connect, spec_connect_props_q3(p), b) == Ok::<
            BuilderView,
            MqttError,
        >(connect_apply_q3(p, b)),
{
    let f = PropertyFamily::Connect;
    let a1 = opt_str_seg(0x15, p.authentication_method);
    let a2 = opt_str_seg(0x16, p.authentication_data);
    assert(spec_connect_props_q3(p) == a1 + a2);
    lemma_scan_opt_str(f, Property::AuthenticationMethod, p.authentication_method, a2, b);
    let b1 = match p.authentication_method {
        None => b,
        Some(v) => BuilderView { authentication_method: Some(v), ..b },
    };
    assert(a2 =~= a2 + Seq::<u8>::empty());
    lemma_scan_opt_bin(f, Property::AuthenticationData, p.authentication_data, Seq::empty(), b1);
}

/// The builder state after a full canonical Connect scan.
pub open spec fn connect_apply_all(p: ConnectPropertiesView) -> BuilderView {
    let b6 = connect_apply_q2(p, connect_apply_q1(p, BuilderView::init()));
    let b7 = BuilderView { user_properties: b6.user_properties + p.user_properties, ..b6 };
    connect_apply_q3(p, b7)
}

/// Projecting the fully scanned builder yields the properties back.
#[verifier::rlimit(100)]
#[verifier::spinoff_prover]
pub proof fn lemma_connect_project(p: ConnectPropertiesView)
    ensures
        connect_apply_all(p).spec_connect() == p,
{
    let b9 = connect_apply_all(p);
    assert(b9.user_properties =~= p.user_properties);
    assert(b9.spec_connect() =~= p);
}

/// Scanning the canonical properties of a Connect packet recovers them.
#[verifier::rlimit(100)]
#[verifier::spinoff_prover]
pub proof fn lemma_scan_connect_canonical(p: ConnectPropertiesView)
    requires
        connect_props_wf(p),
        connect_props_decodable(p),
    ensures
        spec_scan(PropertyFamily::Connect, spec_connect_props_bytes(p), BuilderView::init())
            matches Ok(bv) && bv.spec_connect() == p,
{
    let f = PropertyFamily::Connect;
    let init = BuilderView::init();
    let q1 = spec_connect_props_q1(p);
    let q2 = spec_connect_props_q2(p);
    let q3 = spec_connect_props_q3(p);
    let users = spec_user_props_bytes(p.user_properties);
    lemma_add_assoc(q1 + q2, users, q3);
    lemma_add_assoc(q1, q2, users + q3);
    lemma_add_assoc(q2, users, q3);
    assert(spec_connect_props_bytes(p) == q1 + (q2 + (users + q3)));
    lemma_scan_connect_q1(p, q2 + (users + q3), init);
    let b4 = connect_apply_q1(p, init);
    lemma_scan_connect_q2(p, users + q3, b4);
    let b6 = connect_apply_q2(p, b4);
    lemma_scan_user_props(f, p.user_properties, q3, b6);
    let b7 = BuilderView { user_properties: b6.user_properties + p.user_properties, ..b6 };
    lemma_scan_connect_q3(p, b7);
    assert(connect_apply_q3(p, b7) == connect_apply_all(p));
    lemma_connect_project(p);
}

/// Decoding inverts encoding for every well-formed will block, whatever
/// follows it.
#[verifier::rlimit(100)]
#[verifier::spinoff_prover]
pub proof fn lemma_will_block_round_trip(w: WillView, rest: Seq<u8>)
    requires
        will_props_wf(w.properties),
        will_props_fits(w.properties),
        will_props_decodable(w.properties),
        1 <= w.topic.len() <= 0xFFFF,
        w.payload.len() <= 0xFFFF,
    ensures
        spec_decode_will_block(w.qos, w.retain, spec_will_block(Some(w)) + rest) == Ok::<
            (WillView, int),
            MqttError,
        >((w, spec_will_block(Some(w)).len() as int)),
{
    reveal(spec_decode_will_block);
    let wprops = spec_will_props_bytes(w.properties);
    let k = crate::v5::encoder::spec_varint_len(wprops.len() as int);
    let t = spec_will_block(Some(w)) + rest;
    crate::v5::decoder::lemma_varint_round_trip(
        wprops.len() as int,
        wprops + spec_len_prefixed(w.topic) + spec_len_prefixed(w.payload) + rest,
    );
    lemma_varint_len(wprops.len() as int);
    assert(t =~= spec_varint(wprops.len() as int) + (wprops + spec_len_prefixed(w.topic)
        + spec_len_prefixed(w.payload) + rest));
    assert(t.skip(k).take(wprops.len() as int) =~= wprops);
    lemma_scan_will_canonical(w.properties);
    assert(t.skip(k + wprops.len() as int) =~= spec_len_prefixed(w.topic) + (spec_len_prefixed(
        w.payload,
    ) + rest));
    crate::v5::decoder::lemma_string_round_trip(w.topic, spec_len_prefixed(w.payload) + rest);
    let k2 = 2 + w.topic.len() as int;
    assert(t.skip(k + wprops.len() as int).skip(k2) =~= spec_len_prefixed(w.payload) + rest);
    crate::v5::decoder::lemma_binary_round_trip(w.payload, rest);
    assert(k + wprops.len() as int + k2 + (2 + w.payload.len() as int) == spec_will_block(
        Some(w),
    ).len() as int);
}

/// Decoding inverts encoding for the credential fields.
#[verifier::rlimit(100)]
#[verifier::spinoff_prover]
pub proof fn lemma_creds_round_trip(un: Option<Seq<u8>>, pw: Option<Seq<u8>>)
    requires
        un matches Some(s) ==> 1 <= s.len() <= 0xFFFF,
        pw matches Some(s) ==> s.len() <= 0xFFFF,
    ensures
        spec_decode_creds(un is Some, pw is Some, spec_opt_lp(un) + spec_opt_lp(pw)) == Ok::<
            (Option<Seq<u8>>, Option<Seq<u8>>),
            MqttError,
        >((un, pw)),
{
    reveal(spec_decode_creds);
    let t = spec_opt_lp(un) + spec_opt_lp(pw);
    match un {
        Some(u) => {
            crate::v5::decoder::lemma_string_round_trip(u, spec_opt_lp(pw));
            assert(t =~= spec_len_prefixed(u) + spec_opt_lp(pw));
            assert(t.skip(2 + u.len() as int) =~= spec_opt_lp(pw));
            match pw {
                Some(b) => {
                    crate::v5::decoder::lemma_binary_round_trip(b, Seq::empty());
                    assert(spec_len_prefixed(b) + Seq::<u8>::empty() =~= spec_len_prefixed(b));
                },
                None => {},
            }
        },
        None => {
            assert(t =~= spec_opt_lp(pw));
            match pw {
                Some(b) => {
                    crate::v5::decoder::lemma_binary_round_trip(b, Seq::empty());
                    assert(spec_len_prefixed(b) + Seq::<u8>::empty() =~= spec_len_prefixed(b));
                },
                None => {},
            }
        },
    }
}

/// Decoding inverts encoding for the tail of a Connect body.
#[verifier::rlimit(100)]
#[verifier::spinoff_prover]
pub proof fn lemma_connect_tail_round_trip(v: ConnectView)
    requires
        !v.reserved,
        v.client_identifier matches Some(s) ==> 1 <= s.len() <= 0xFFFF,
        v.username matches Some(s) ==> 1 <= s.len() <= 0xFFFF,
        v.password matches Some(s) ==> s.len() <= 0xFFFF,
        v.will matches Some(w) ==> will_props_wf(w.properties) && will_props_fits(w.properties)
            && will_props_decodable(w.properties) && 1 <= w.topic.len() <= 0xFFFF
            && w.payload.len() <= 0xFFFF,
    ensures
        spec_decode_connect_tail(
            v.clean_start_flag,
            v.keep_alive,
            v.properties,
            v.will is Some,
            match v.will {
                Some(w) => w.qos,
                None => QoS::AtMostOnce,
            },
            match v.will {
                Some(w) => w.retain,
                None => false,
            },
            v.password is Some,
            v.username is Some,
            spec_client_id_bytes(v.client_identifier) + spec_will_block(v.will) + spec_opt_lp(
                v.username,
            ) + spec_opt_lp(v.password),
        ) == Ok::<ConnectView, MqttError>(v),
{
    let cid = spec_client_id_bytes(v.client_identifier);
    let wb = spec_will_block(v.will);
    let creds = spec_opt_lp(v.username) + spec_opt_lp(v.password);
    let t = cid + wb + spec_opt_lp(v.username) + spec_opt_lp(v.password);
    lemma_add_assoc(cid + wb, spec_opt_lp(v.username), spec_opt_lp(v.password));
    lemma_add_assoc(cid, wb, creds);
    assert(t == cid + (wb + creds));
    let k2: int = match v.client_identifier {
        Some(s) => 2 + s.len() as int,
        None => 2,
    };
    match v.client_identifier {
        Some(cs) => {
            crate::v5::decoder::lemma_string_round_trip(cs, wb + creds);
        },
        None => {
            crate::v5::decoder::lemma_empty_string_round_trip(wb + creds);
            assert(cid =~= spec_len_prefixed(Seq::<u8>::empty()));
        },
    }
    assert(t.skip(k2) =~= wb + creds);
    lemma_creds_round_trip(v.username, v.password);
    match v.will {
        Some(w) => {
            lemma_will_block_round_trip(w, creds);
            assert((wb + creds).skip(wb.len() as int) =~= creds);
        },
        None => {
            assert(wb + creds =~= creds);
        },
    }
}

/// Decoding inverts encoding for the part of a Connect body after the fixed
/// head.
#[verifier::rlimit(100)]
#[verifier::spinoff_prover]
pub proof fn lemma_connect_after_head_round_trip(v: ConnectView)
    requires
        connect_wf(v),
        connect_decodable(v),
    ensures
        ({
            let props = spec_connect_props_bytes(v.properties);
            let tailb = spec_client_id_bytes(v.client_identifier) + spec_will_block(v.will)
                + spec_opt_lp(v.username) + spec_opt_lp(v.password);
            spec_decode_connect_after_head(
                v.clean_start_flag,
                v.keep_alive,
                v.will is Some,
                match v.will {
                    Some(w) => w.qos,
                    None => QoS::AtMostOnce,
                },
                match v.will {
                    Some(w) => w.retain,
                    None => false,
                },
                v.password is Some,
                v.username is Some,
                spec_varint(props.len() as int) + props + tailb,
            ) == Ok::<ConnectView, MqttError>(v)
        }),
{
    let props = spec_connect_props_bytes(v.properties);
    let tailb = spec_client_id_bytes(v.client_identifier) + spec_will_block(v.will) + spec_opt_lp(
        v.username,
    ) + spec_opt_lp(v.password);
    let t = spec_varint(props.len() as int) + props + tailb;
    let k = spec_varint_len(props.len() as int);
    crate::v5::decoder::lemma_varint_round_trip(props.len() as int, props + tailb);
    lemma_varint_len(props.len() as int);
    assert(t =~= spec_varint(props.len() as int) + (props + tailb));
    assert(t.skip(k).take(props.len() as int) =~= props);
    assert(t.skip(k + props.len() as int) =~= tailb);
    lemma_scan_connect_canonical(v.properties);
    lemma_connect_tail_round_trip(v);
}

/// The shape of the head of a Connect body, over abstract remainder bytes.
#[verifier::rlimit(100)]
#[verifier::spinoff_prover]
pub proof fn lemma_connect_head_pieces(flags: u8, ka: u16, t: Seq<u8>)
    ensures
        ({
            let s = spec_mqtt_name() + seq![5u8, flags] + spec_u16_be(ka) + t;
            &&& spec_decode_string(s) == Ok::<(Option<Seq<u8>>, int), MqttError>(
                (Some(seq![0x4Du8, 0x51u8, 0x54u8, 0x54u8]), 6),
            )
            &&& s.len() - 6 >= 4
            &&& s[6] == 5u8
            &&& s[7] == flags
            &&& spec_u16_of(s[8], s[9]) == ka
            &&& s.skip(10) == t
        }),
{
    let s = spec_mqtt_name() + seq![5u8, flags] + spec_u16_be(ka) + t;
    let name = seq![0x4Du8, 0x51u8, 0x54u8, 0x54u8];
    let rest = seq![5u8, flags] + spec_u16_be(ka) + t;
    crate::v5::decoder::lemma_string_round_trip(
        name,
        seq![5u8, flags] + (spec_u16_be(ka) + t),
    );
    assert(s =~= spec_len_prefixed(name) + (seq![5u8, flags] + (spec_u16_be(ka) + t)));
    assert(s[6] == 5u8);
    assert(s[7] == flags);
    assert(s[8] == spec_u16_be(ka)[0] && s[9] == spec_u16_be(ka)[1]);
    crate::v5::decoder::lemma_u16_round_trip(ka, t);
    assert(s.skip(10) =~= t);
}

/// Decoding inverts encoding for every well-formed Connect packet.
#[verifier::rlimit(100)]
#[verifier::spinoff_prover]
pub proof fn lemma_connect_round_trip(v: ConnectView)
    requires
        connect_wf(v),
        connect_decodable(v),
    ensures
        spec_decode_connect(spec_connect_body(v)) == Ok::<ConnectView, MqttError>(v),
{
    let props = spec_connect_props_bytes(v.properties);
    let tailb = spec_client_id_bytes(v.client_identifier) + spec_will_block(v.will) + spec_opt_lp(
        v.username,
    ) + spec_opt_lp(v.password);
    let t = spec_varint(props.len() as int) + props + tailb;
    let s = spec_connect_body(v);
    lemma_connect_head_pieces(Connect::spec_flags(v), v.keep_alive, t);
    assert(s =~= spec_mqtt_name() + seq![5u8, Connect::spec_flags(v)] + spec_u16_be(v.keep_alive)
        + t);
    lemma_connect_flags_round_trip(v);
    lemma_connect_after_head_round_trip(v);
}

} // verus!
