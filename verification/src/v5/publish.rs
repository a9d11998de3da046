use vstd::prelude::*;

verus! {

use crate::v5::decoder::decode_binary;
use crate::v5::decoder::decode_utf8_string;
use crate::v5::decoder::decode_variable_integer;
use crate::v5::decoder::lemma_skip_add;
use crate::v5::decoder::read_u16;
use crate::v5::decoder::read_u8;
use crate::v5::decoder::read_vec;
use crate::v5::decoder::spec_decode_string;
use crate::v5::decoder::spec_decode_varint;
use crate::v5::decoder::spec_u16_of;
use crate::v5::encoder::encode_binary;
use crate::v5::encoder::encode_utf8_string;
use crate::v5::encoder::encode_variable_integer;
use crate::v5::encoder::lemma_varint_len;
use crate::v5::encoder::spec_len_prefixed;
use crate::v5::encoder::spec_u16_be;
use crate::v5::encoder::spec_varint;
use crate::v5::encoder::spec_varint_len;
use crate::v5::encoder::varint_size;
use crate::v5::encoder::write_bytes;
use crate::v5::encoder::write_u16;
use crate::v5::encoder::write_u8;
use crate::v5::encoder::RemainingLength;
use crate::v5::encoder::VARINT_MAX;
use crate::v5::error::MqttError;
use crate::v5::property::lemma_add_assoc;
use crate::v5::property::lemma_scan_opt_bin;
use crate::v5::property::lemma_scan_opt_bool;
use crate::v5::property::lemma_scan_opt_str;
use crate::v5::property::lemma_scan_opt_u16;
use crate::v5::property::lemma_scan_opt_u32;
use crate::v5::property::lemma_scan_opt_varint;
use crate::v5::property::lemma_scan_user_props;
use crate::v5::property::lemma_user_props_bytes_take_step;
use crate::v5::property::lemma_user_props_prefix_le;
use crate::v5::property::opt_bool_seg;
use crate::v5::property::opt_str_seg;
use crate::v5::property::opt_u16_seg;
use crate::v5::property::opt_u32_seg;
use crate::v5::property::opt_varint_seg;
use crate::v5::property::spec_scan;
use crate::v5::property::spec_user_props_bytes;
use crate::v5::property::BuilderView;
use crate::v5::property::PropertiesBuilder;
use crate::v5::property::PropertiesSize;
use crate::v5::property::Property;
use crate::v5::property::PropertyFamily;
use crate::v5::property::PublishProperties;
use crate::v5::property::PublishPropertiesView;
use crate::v5::types::ControlPacket;
use crate::v5::types::ControlPacketView;
use crate::v5::types::Publish;
use crate::v5::types::PublishView;
use crate::v5::types::QoS;

/// The canonical numeric segments of a Publish properties region: format
/// indicator, message expiry, topic alias.
pub open spec fn spec_publish_props_h1(p: PublishPropertiesView) -> Seq<u8> {
    opt_bool_seg(0x01, p.payload_format_indicator) + opt_u32_seg(0x02, p.message_expire_interval)
        + opt_u16_seg(0x23, p.topic_alias)
}

/// The canonical string segments before the user properties: response topic
/// and correlation data.
pub open spec fn spec_publish_props_h2(p: PublishPropertiesView) -> Seq<u8> {
    opt_str_seg(0x08, p.response_topic) + opt_str_seg(0x09, p.correlation_data)
}

/// The canonical segments after the user properties: subscription
/// identifier and content type.
pub open spec fn spec_publish_props_h3(p: PublishPropertiesView) -> Seq<u8> {
    opt_varint_seg(0x0B, p.subscription_identifier) + opt_str_seg(0x03, p.content_type)
}

/// The canonical bytes of a Publish properties region.
pub open spec fn spec_publish_props_bytes(p: PublishPropertiesView) -> Seq<u8> {
    spec_publish_props_h1(p) + spec_publish_props_h2(p) + spec_user_props_bytes(p.user_properties)
        + spec_publish_props_h3(p)
}

/// Per-field size bounds under which each segment can be encoded.
pub open spec fn publish_props_wf(p: PublishPropertiesView) -> bool {
    &&& (p.response_topic matches Some(s) ==> s.len() <= 0xFFFF)
    &&& (p.correlation_data matches Some(s) ==> s.len() <= 0xFFFF)
    &&& (p.content_type matches Some(s) ==> s.len() <= 0xFFFF)
    &&& (p.subscription_identifier matches Some(v) ==> v <= VARINT_MAX)
    &&& (forall|i: int|
        0 <= i < p.user_properties.len() ==> (#[trigger] p.user_properties[i]).0.len() <= 0xFFFF
            && p.user_properties[i].1.len() <= 0xFFFF)
}

/// The whole region also fits a remaining-length varint.
pub open spec fn publish_props_fits(p: PublishPropertiesView) -> bool {
    spec_publish_props_bytes(p).len() <= VARINT_MAX
}

/// The stricter conditions under which decoding inverts encoding.
pub open spec fn publish_props_decodable(p: PublishPropertiesView) -> bool {
    &&& (p.response_topic matches Some(s) ==> 1 <= s.len())
    &&& (p.content_type matches Some(s) ==> 1 <= s.len())
    &&& (forall|i: int|
        0 <= i < p.user_properties.len() ==> 1 <= (#[trigger] p.user_properties[i]).0.len() && 1
            <= p.user_properties[i].1.len())
}

impl PropertiesSize for PublishProperties {
    open spec fn spec_size(&self) -> int {
        spec_publish_props_bytes(self@).len() as int
    }

    open spec fn size_ok(&self) -> bool {
        publish_props_wf(self@) && publish_props_fits(self@)
    }

    /// How many bytes the properties region takes on the wire.
    #[verifier::rlimit(100)]
    #[verifier::spinoff_prover]
    fn size(&self) -> (r: usize) {
        let ghost pv = self@;
        let mut len: usize = 0;
        if self.payload_format_indicator.is_some() {
            len = len + 2;
        }
        if self.message_expire_interval.is_some() {
            len = len + 5;
        }
        if self.topic_alias.is_some() {
            len = len + 3;
        }
        assert(len as int == spec_publish_props_h1(pv).len());
        let ghost l1 = len as int;
        match &self.response_topic {
            Some(s) => {
                len = len + 3 + s.len();
            },
            None => {},
        }
        match &self.correlation_data {
            Some(s) => {
                len = len + 3 + s.len();
            },
            None => {},
        }
        assert(len as int == l1 + spec_publish_props_h2(pv).len());
        let ghost base = len as int;
        let mut i: usize = 0;
        let n = self.user_properties.len();
        while i < n
            invariant
                i <= n,
                n == self.user_properties@.len(),
                publish_props_wf(pv),
                publish_props_fits(pv),
                pv == self@,
                base == spec_publish_props_h1(pv).len() + spec_publish_props_h2(pv).len(),
                len == base + spec_user_props_bytes(pv.user_properties.take(i as int)).len(),
            decreases n - i,
        {
            let pair = &self.user_properties[i];
            proof {
                assert(pv.user_properties[i as int] == (self.user_properties@[i as int].0@,
                self.user_properties@[i as int].1@));
                lemma_user_props_bytes_take_step(pv.user_properties, i as int);
                lemma_user_props_prefix_le(pv.user_properties, i + 1);
            }
            len = len + 5 + pair.0.len() + pair.1.len();
            i = i + 1;
        }
        proof {
            assert(pv.user_properties.take(n as int) =~= pv.user_properties);
        }
        let ghost l3 = len as int;
        match &self.subscription_identifier {
            Some(v) => {
                proof {
                    lemma_varint_len(*v as int);
                }
                len = len + 1 + varint_size(*v);
            },
            None => {},
        }
        match &self.content_type {
            Some(s) => {
                len = len + 3 + s.len();
            },
            None => {},
        }
        assert(len as int == l3 + spec_publish_props_h3(pv).len());
        len
    }
}

/// Append the numeric Publish segments.
#[verifier::rlimit(100)]
#[verifier::spinoff_prover]
fn encode_publish_props_h1(writer: &mut Vec<u8>, p: &PublishProperties)
    ensures
        final(writer)@ == old(writer)@ + spec_publish_props_h1(p@),
{
    let ghost pv = p@;
    let ghost mid = writer@;
    match &p.payload_format_indicator {
        Some(v) => {
            write_u8(writer, 0x01);
            write_u8(
                writer,
                if *v {
                    1
                } else {
                    0
                },
            );
        },
        None => {},
    }
    let ghost w1 = writer@;
    assert(w1 =~= mid + opt_bool_seg(0x01, pv.payload_format_indicator));
    match &p.message_expire_interval {
        Some(v) => {
            write_u8(writer, 0x02);
            crate::v5::encoder::write_u32(writer, *v);
        },
        None => {},
    }
    let ghost w2 = writer@;
    assert(w2 =~= w1 + opt_u32_seg(0x02, pv.message_expire_interval));
    match &p.topic_alias {
        Some(v) => {
            write_u8(writer, 0x23);
            write_u16(writer, *v);
        },
        None => {},
    }
    assert(writer@ =~= w2 + opt_u16_seg(0x23, pv.topic_alias));
    assert(writer@ =~= mid + spec_publish_props_h1(pv));
}

/// Append the response topic and correlation data segments.
#[verifier::rlimit(100)]
#[verifier::spinoff_prover]
fn encode_publish_props_h2(writer: &mut Vec<u8>, p: &PublishProperties)
    requires
        publish_props_wf(p@),
    ensures
        final(writer)@ == old(writer)@ + spec_publish_props_h2(p@),
{
    let ghost pv = p@;
    let ghost mid = writer@;
    match &p.response_topic {
        Some(s) => {
            write_u8(writer, 0x08);
            let _ = encode_utf8_string(writer, s);
        },
        None => {},
    }
    let ghost w1 = writer@;
    assert(w1 =~= mid + opt_str_seg(0x08, pv.response_topic));
    match &p.correlation_data {
        Some(s) => {
            write_u8(writer, 0x09);
            let _ = encode_binary(writer, s);
        },
        None => {},
    }
    assert(writer@ =~= w1 + opt_str_seg(0x09, pv.correlation_data));
    assert(writer@ =~= mid + spec_publish_props_h2(pv));
}

/// Append the subscription identifier and content type segments.
#[verifier::rlimit(100)]
#[verifier::spinoff_prover]
fn encode_publish_props_h3(writer: &mut Vec<u8>, p: &PublishProperties)
    requires
        publish_props_wf(p@),
    ensures
        final(writer)@ == old(writer)@ + spec_publish_props_h3(p@),
{
    let ghost pv = p@;
    let ghost mid = writer@;
    match &p.subscription_identifier {
        Some(v) => {
            write_u8(writer, 0x0B);
            let _ = encode_variable_integer(writer, *v);
        },
        None => {},
    }
    let ghost w1 = writer@;
    assert(w1 =~= mid + opt_varint_seg(0x0B, pv.subscription_identifier));
    match &p.content_type {
        Some(s) => {
            write_u8(writer, 0x03);
            let _ = encode_utf8_string(writer, s);
        },
        None => {},
    }
    assert(writer@ =~= w1 + opt_str_seg(0x03, pv.content_type));
    assert(writer@ =~= mid + spec_publish_props_h3(pv));
}

/// Append a whole Publish properties region: its length as a varint, then
/// the canonical segments.
#[verifier::rlimit(100)]
#[verifier::spinoff_prover]
pub fn encode_publish_properties(writer: &mut Vec<u8>, p: &PublishProperties) -> (r: Result<
    (),
    MqttError,
>)
    requires
        publish_props_wf(p@),
        publish_props_fits(p@),
    ensures
        r is Ok,
        final(writer)@ == old(writer)@ + spec_varint(spec_publish_props_bytes(p@).len() as int)
            + spec_publish_props_bytes(p@),
{
    let ghost pv = p@;
    let len = p.size();
    let _ = encode_variable_integer(writer, len as u32);
    let ghost w0 = writer@;
    encode_publish_props_h1(writer, p);
    encode_publish_props_h2(writer, p);
    proof {
        lemma_add_assoc(w0, spec_publish_props_h1(pv), spec_publish_props_h2(pv));
    }
    let ghost mid2 = writer@;
    assert(mid2 == w0 + (spec_publish_props_h1(pv) + spec_publish_props_h2(pv)));
    let n = p.user_properties.len();
    let mut i: usize = 0;
    while i < n
        invariant
            i <= n,
            n == p.user_properties@.len(),
            publish_props_wf(pv),
            pv == p@,
            writer@ == mid2 + spec_user_props_bytes(pv.user_properties.take(i as int)),
        decreases n - i,
    {
        let pair = &p.user_properties[i];
        proof {
            assert(pv.user_properties[i as int] == (p.user_properties@[i as int].0@,
            p.user_properties@[i as int].1@));
        }
        write_u8(writer, 0x26);
        let _ = encode_utf8_string(writer, &pair.0);
        let _ = encode_utf8_string(writer, &pair.1);
        proof {
            lemma_user_props_bytes_take_step(pv.user_properties, i as int);
            assert(writer@ =~= mid2 + spec_user_props_bytes(pv.user_properties.take(i + 1)));
        }
        i = i + 1;
    }
    proof {
        assert(pv.user_properties.take(n as int) =~= pv.user_properties);
    }
    let ghost wu = writer@;
    encode_publish_props_h3(writer, p);
    proof {
        let h12 = spec_publish_props_h1(pv) + spec_publish_props_h2(pv);
        let us = spec_user_props_bytes(pv.user_properties);
        let h3 = spec_publish_props_h3(pv);
        lemma_add_assoc(w0, h12, us);
        lemma_add_assoc(w0, h12 + us, h3);
        assert(writer@ == w0 + spec_publish_props_bytes(pv));
    }
    Ok(())
}

/// Decode a Publish packet's properties region.
#[verifier::rlimit(100)]
#[verifier::spinoff_prover]
pub fn decode_publish_properties(reader: &Vec<u8>) -> (r: Result<PublishProperties, MqttError>)
    ensures
        match spec_scan(PropertyFamily::Publish, reader@, BuilderView::init()) {
            Ok(bv) => r matches Ok(p) && p@ == bv.spec_publish(),
            Err(e) => r == Err::<PublishProperties, MqttError>(e),
        },
{
    let ghost whole = reader@;
    let mut builder = PropertiesBuilder::default();
    let mut pos: usize = 0;
    let n = reader.len();
    assert(whole.skip(0) =~= whole);
    while pos < n
        invariant
            pos <= n,
            n == reader@.len(),
            whole == reader@,
            spec_scan(PropertyFamily::Publish, whole.skip(pos as int), builder@) == spec_scan(
                PropertyFamily::Publish,
                whole,
                BuilderView::init(),
            ),
        decreases n - pos,
    {
        let ghost s1 = whole.skip(pos as int);
        let pos0 = pos;
        let id = match decode_variable_integer(reader, &mut pos) {
            Ok(v) => v,
            Err(e) => {
                return Err(e);
            },
        };
        let ghost k = pos as int - pos0 as int;
        let property = match Property::try_from(id) {
            Ok(p) => p,
            Err(e) => {
                return Err(e);
            },
        };
        proof {
            lemma_skip_add(whole, pos0 as int, k);
        }
        match property {
            Property::PayloadFormatIndicator => {
                let v = match read_u8(reader, &mut pos) {
                    Ok(v) => v,
                    Err(e) => {
                        return Err(e);
                    },
                };
                builder = match builder.payload_format_indicator(v) {
                    Ok(b) => b,
                    Err(e) => {
                        return Err(e);
                    },
                };
                proof {
                    lemma_skip_add(whole, pos0 as int, k + 1);
                }
            },
            Property::MessageExpireInterval => {
                let v = match crate::v5::decoder::read_u32(reader, &mut pos) {
                    Ok(v) => v,
                    Err(e) => {
                        return Err(e);
                    },
                };
                builder = match builder.message_expire_interval(v) {
                    Ok(b) => b,
                    Err(e) => {
                        return Err(e);
                    },
                };
                proof {
                    lemma_skip_add(whole, pos0 as int, k + 4);
                }
            },
            Property::TopicAlias => {
                let v = match read_u16(reader, &mut pos) {
                    Ok(v) => v,
                    Err(e) => {
                        return Err(e);
                    },
                };
                builder = match builder.topic_alias(v) {
                    Ok(b) => b,
                    Err(e) => {
                        return Err(e);
                    },
                };
                proof {
                    lemma_skip_add(whole, pos0 as int, k + 2);
                }
            },
            Property::ResponseTopic => {
                let pos1 = pos;
                let s = match decode_utf8_string(reader, &mut pos) {
                    Ok(v) => v,
                    Err(e) => {
                        return Err(e);
                    },
                };
                let ghost m = pos as int - pos1 as int;
                builder = match builder.response_topic(s) {
                    Ok(b) => b,
                    Err(e) => {
                        return Err(e);
                    },
                };
                proof {
                    lemma_skip_add(whole, pos0 as int, k + m);
                }
            },
            Property::CorrelationData => {
                let pos1 = pos;
                let s = match decode_binary(reader, &mut pos) {
                    Ok(v) => v,
                    Err(e) => {
                        return Err(e);
                    },
                };
                let ghost m = pos as int - pos1 as int;
                builder = match builder.correlation_data(Some(s)) {
                    Ok(b) => b,
                    Err(e) => {
                        return Err(e);
                    },
                };
                proof {
                    lemma_skip_add(whole, pos0 as int, k + m);
                }
            },
            Property::SubscriptionIdentifier => {
                let pos1 = pos;
                let v = match decode_variable_integer(reader, &mut pos) {
                    Ok(v) => v,
                    Err(e) => {
                        return Err(e);
                    },
                };
                let ghost m = pos as int - pos1 as int;
                builder = match builder.subscription_identifier(v) {
                    Ok(b) => b,
                    Err(e) => {
                        return Err(e);
                    },
                };
                proof {
                    lemma_skip_add(whole, pos0 as int, k + m);
                }
            },
            Property::ContentType => {
                let pos1 = pos;
                let s = match decode_utf8_string(reader, &mut pos) {
                    Ok(v) => v,
                    Err(e) => {
                        return Err(e);
                    },
                };
                let ghost m = pos as int - pos1 as int;
                builder = match builder.content_type(s) {
                    Ok(b) => b,
                    Err(e) => {
                        return Err(e);
                    },
                };
                proof {
                    lemma_skip_add(whole, pos0 as int, k + m);
                }
            },
            Property::UserProperty => {
                let pos1 = pos;
                let key = match decode_utf8_string(reader, &mut pos) {
                    Ok(v) => v,
                    Err(e) => {
                        return Err(e);
                    },
                };
                let ghost m1 = pos as int - pos1 as int;
                proof {
                    lemma_skip_add(whole.skip(pos0 as int), k, m1);
                    lemma_skip_add(whole, pos0 as int, k + m1);
                }
                let value = match decode_utf8_string(reader, &mut pos) {
                    Ok(v) => v,
                    Err(e) => {
                        return Err(e);
                    },
                };
                let ghost m = pos as int - pos1 as int;
                match (key, value) {
                    (Some(kk), Some(vv)) => {
                        builder = builder.user_property((kk, vv));
                    },
                    _ => {},
                }
                proof {
                    lemma_skip_add(whole, pos0 as int, k + m);
                }
            },
            other => {
                return Err(MqttError::UnacceptableProperty(other));
            },
        }
    }
    assert(whole.skip(n as int) =~= Seq::<u8>::empty());
    Ok(builder.publish())
}

/// What decoding the tail of a Publish body after the topic and identifier
/// yields: the properties region behind its length prefix, then the payload.
pub open spec fn spec_decode_publish_tail(
    dup: bool,
    qos: QoS,
    retain: bool,
    topic: Seq<u8>,
    pid: Option<u16>,
    t: Seq<u8>,
) -> Result<PublishView, MqttError> {
    match spec_decode_varint(t) {
        Err(e) => Err(e),
        Ok((plen, k)) => if t.len() - k < plen as int {
            Err(MqttError::EndOfStream)
        } else {
            match spec_scan(
                PropertyFamily::Publish,
                t.skip(k).take(plen as int),
                BuilderView::init(),
            ) {
                Err(e) => Err(e),
                Ok(bv) => Ok(
                    PublishView {
                        dup,
                        qos,
                        retain,
                        topic_name: topic,
                        packet_identifier: pid,
                        properties: bv.spec_publish(),
                        payload: t.skip(k + plen as int),
                    },
                ),
            }
        },
    }
}

/// What decoding a Publish body yields: the topic, an identifier when the
/// qos asks for one, the properties, and the rest as the payload.
pub open spec fn spec_decode_publish(dup: bool, qos: QoS, retain: bool, s: Seq<u8>) -> Result<
    PublishView,
    MqttError,
> {
    if s.len() < 3 {
        Err(MqttError::EndOfStream)
    } else {
        match spec_decode_string(s) {
            Err(e) => Err(e),
            Ok((None, _)) => Err(MqttError::TopicFilterInvalid),
            Ok((Some(t), k0)) => if qos == QoS::AtMostOnce {
                spec_decode_publish_tail(dup, qos, retain, t, None, s.skip(k0))
            } else {
                if s.len() - k0 < 2 {
                    Err(MqttError::EndOfStream)
                } else {
                    spec_decode_publish_tail(
                        dup,
                        qos,
                        retain,
                        t,
                        Some(spec_u16_of(s[k0], s[k0 + 1])),
                        s.skip(k0 + 2),
                    )
                }
            },
        }
    }
}

/// Decode the body of a Publish packet, whose header flags are already
/// known.
#[verifier::rlimit(100)]
#[verifier::spinoff_prover]
pub fn decode_publish(dup: bool, qos: QoS, retain: bool, reader: &Vec<u8>) -> (r: Result<
    Option<ControlPacket>,
    MqttError,
>)
    ensures
        match spec_decode_publish(dup, qos, retain, reader@) {
            Ok(v) => r matches Ok(Some(p)) && p@ == ControlPacketView::Publish(v),
            Err(e) => r == Err::<Option<ControlPacket>, MqttError>(e),
        },
{
    if reader.len() < 3 {
        return Err(MqttError::EndOfStream);
    }
    let mut pos: usize = 0;
    let topic_name = match decode_utf8_string(reader, &mut pos) {
        Ok(Some(t)) => t,
        Ok(None) => {
            return Err(MqttError::TopicFilterInvalid);
        },
        Err(e) => {
            return Err(e);
        },
    };
    let ghost k0 = pos as int;
    let packet_identifier = if qos.as_u8() == 0 {
        None
    } else {
        match read_u16(reader, &mut pos) {
            Ok(v) => Some(v),
            Err(e) => {
                return Err(e);
            },
        }
    };
    let ghost tail_start = pos as int;
    let ghost t = reader@.skip(tail_start);
    let pos1 = pos;
    let plen = match decode_variable_integer(reader, &mut pos) {
        Ok(v) => v,
        Err(e) => {
            return Err(e);
        },
    };
    let ghost k = pos as int - pos1 as int;
    if reader.len() - pos < plen as usize {
        return Err(MqttError::EndOfStream);
    }
    let region = read_vec(reader, &mut pos, plen as usize);
    proof {
        lemma_skip_add(reader@, tail_start, k);
        assert(region@ =~= t.skip(k).take(plen as int));
    }
    let properties = match decode_publish_properties(&region) {
        Ok(p) => p,
        Err(e) => {
            return Err(e);
        },
    };
    let remaining = reader.len() - pos;
    let payload = read_vec(reader, &mut pos, remaining);
    proof {
        lemma_skip_add(reader@, tail_start, k + plen as int);
        assert(payload@ =~= t.skip(k + plen as int));
    }
    Ok(
        Some(
            ControlPacket::Publish(
                Publish { dup, qos, retain, topic_name, packet_identifier, properties, payload },
            ),
        ),
    )
}

/// The bytes of the identifier field: written only when the qos asks for an
/// acknowledgement and an identifier is carried.
pub open spec fn spec_pid_bytes(v: PublishView) -> Seq<u8> {
    if v.qos == QoS::AtMostOnce {
        seq![]
    } else {
        match v.packet_identifier {
            Some(p) => spec_u16_be(p),
            None => seq![],
        }
    }
}

/// The canonical body bytes of a Publish packet.
pub open spec fn spec_publish_body(v: PublishView) -> Seq<u8> {
    spec_len_prefixed(v.topic_name) + spec_pid_bytes(v) + spec_varint(
        spec_publish_props_bytes(v.properties).len() as int,
    ) + spec_publish_props_bytes(v.properties) + v.payload
}

/// Size bounds under which the packet can be encoded.
pub open spec fn publish_wf(v: PublishView) -> bool {
    &&& v.topic_name.len() <= 0xFFFF
    &&& publish_props_wf(v.properties)
    &&& publish_props_fits(v.properties)
    &&& spec_publish_body(v).len() <= VARINT_MAX
}

/// The stricter conditions under which decoding inverts encoding: the topic
/// is nonempty and the identifier is present exactly when the qos asks for
/// one.
pub open spec fn publish_decodable(v: PublishView) -> bool {
    &&& 1 <= v.topic_name.len()
    &&& publish_props_decodable(v.properties)
    &&& (v.packet_identifier is Some <==> v.qos != QoS::AtMostOnce)
}

/// Append the body of a Publish packet; a qos above at-most-once without an
/// identifier is `UndefinedPacketIdentifier`.
#[verifier::rlimit(100)]
#[verifier::spinoff_prover]
pub fn encode_publish(writer: &mut Vec<u8>, msg: &Publish) -> (r: Result<(), MqttError>)
    requires
        publish_wf(msg@),
    ensures
        match r {
            Ok(_) => (msg@.qos == QoS::AtMostOnce || msg@.packet_identifier is Some)
                && final(writer)@ == old(writer)@ + spec_publish_body(msg@),
            Err(e) => msg@.qos != QoS::AtMostOnce && msg@.packet_identifier is None && e
                == MqttError::UndefinedPacketIdentifier(msg@.qos)
                && final(writer)@ == old(writer)@ + spec_len_prefixed(msg@.topic_name),
        },
{
    let ghost mv = msg@;
    let _ = encode_utf8_string(writer, &msg.topic_name);
    if msg.qos.as_u8() != 0 {
        match &msg.packet_identifier {
            Some(v) => {
                write_u16(writer, *v);
            },
            None => {
                return Err(MqttError::UndefinedPacketIdentifier(msg.qos));
            },
        }
    }
    let ghost w1 = writer@;
    assert(w1 =~= old(writer)@ + spec_len_prefixed(mv.topic_name) + spec_pid_bytes(mv));
    let _ = encode_publish_properties(writer, &msg.properties);
    write_bytes(writer, &msg.payload);
    assert(final(writer)@ =~= old(writer)@ + spec_publish_body(mv));
    Ok(())
}

impl Publish {
    /// The full packet size on the wire: header byte, length varint, body.
    pub fn size(&self) -> (r: usize)
        requires
            self.remaining_length_ok(),
    ensures
            r == 1 + spec_varint_len(self.spec_remaining_length()) + self.spec_remaining_length(),
    {
        let len = self.remaining_length();
        proof {
            lemma_varint_len(len as int);
        }
        1 + varint_size(len as u32) + len
    }
}

impl RemainingLength for Publish {
    open spec fn spec_remaining_length(&self) -> int {
        spec_publish_body(self@).len() as int
    }

    open spec fn remaining_length_ok(&self) -> bool {
        publish_wf(self@)
    }

    /// The body length: topic, optional identifier, properties region behind
    /// its length prefix, then the payload.
    #[verifier::rlimit(100)]
    #[verifier::spinoff_prover]
    fn remaining_length(&self) -> (r: usize) {
        let props_len = self.properties.size();
        proof {
            lemma_varint_len(props_len as int);
        }
        let vlen = varint_size(props_len as u32);
        let pid_len: usize = if self.qos.as_u8() != 0 && self.packet_identifier.is_some() {
            2
        } else {
            0
        };
        2 + self.topic_name.len() + pid_len + vlen + props_len + self.payload.len()
    }
}

/// Scanning the canonical properties of a Publish packet recovers them.
#[verifier::rlimit(100)]
#[verifier::spinoff_prover]
pub proof fn lemma_scan_publish_canonical(p: PublishPropertiesView)
    requires
        publish_props_wf(p),
        publish_props_decodable(p),
    ensures
        spec_scan(PropertyFamily::Publish, spec_publish_props_bytes(p), BuilderView::init())
            matches Ok(bv) && bv.spec_publish() == p,
{
    let f = PropertyFamily::Publish;
    let init = BuilderView::init();
    let users = spec_user_props_bytes(p.user_properties);
    let a1 = opt_bool_seg(0x01, p.payload_format_indicator);
    let a2 = opt_u32_seg(0x02, p.message_expire_interval);
    let a3 = opt_u16_seg(0x23, p.topic_alias);
    let a4 = opt_str_seg(0x08, p.response_topic);
    let a5 = opt_str_seg(0x09, p.correlation_data);
    let a6 = opt_varint_seg(0x0B, p.subscription_identifier);
    let a7 = opt_str_seg(0x03, p.content_type);
    let h3 = a6 + a7;
    let t6 = a7;
    let t5 = users + h3;
    let t4 = a5 + t5;
    let t3 = a4 + t4;
    let t2 = a3 + t3;
    let t1 = a2 + t2;
    lemma_add_assoc(a1 + a2 + a3, a4 + a5, users + h3);
    lemma_add_assoc(a1 + a2, a3, t3);
    lemma_add_assoc(a1, a2, t2);
    lemma_add_assoc(a4, a5, t5);
    lemma_add_assoc(a1 + a2 + a3, a4 + a5, t5);
    lemma_add_assoc(a1 + a2 + a3 + (a4 + a5), users, h3);
    assert((a1 + a2 + a3 + (a4 + a5)) + (users + h3) =~= spec_publish_props_bytes(p));
    assert(spec_publish_props_bytes(p) == a1 + t1);
    lemma_scan_opt_bool(f, Property::PayloadFormatIndicator, p.payload_format_indicator, t1, init);
    let b1 = match p.payload_format_indicator {
        None => init,
        Some(v) => BuilderView { payload_format_indicator: Some(v), ..init },
    };
    lemma_scan_opt_u32(f, Property::MessageExpireInterval, p.message_expire_interval, t2, b1);
    let b2 = match p.message_expire_interval {
        None => b1,
        Some(v) => BuilderView { message_expire_interval: Some(v), ..b1 },
    };
    lemma_scan_opt_u16(f, Property::TopicAlias, p.topic_alias, t3, b2);
    let b3 = match p.topic_alias {
        None => b2,
        Some(v) => BuilderView { topic_alias: Some(v), ..b2 },
    };
    lemma_scan_opt_str(f, Property::ResponseTopic, p.response_topic, t4, b3);
    let b4 = match p.response_topic {
        None => b3,
        Some(s) => BuilderView { response_topic: Some(s), ..b3 },
    };
    lemma_scan_opt_bin(f, Property::CorrelationData, p.correlation_data, t5, b4);
    let b5 = match p.correlation_data {
        None => b4,
        Some(s) => BuilderView { correlation_data: Some(s), ..b4 },
    };
    lemma_scan_user_props(f, p.user_properties, h3, b5);
    let b6 = BuilderView { user_properties: b5.user_properties + p.user_properties, ..b5 };
    lemma_scan_opt_varint(f, p.subscription_identifier, t6, b6);
    let b7 = match p.subscription_identifier {
        None => b6,
        Some(v) => BuilderView { subscription_identifier: Some(v), ..b6 },
    };
    assert(a7 =~= a7 + Seq::<u8>::empty());
    lemma_scan_opt_str(f, Property::ContentType, p.content_type, Seq::empty(), b7);
    let b8 = match p.content_type {
        None => b7,
        Some(s) => BuilderView { content_type: Some(s), ..b7 },
    };
    assert(b8.user_properties =~= p.user_properties);
    assert(b8.spec_publish() =~= p);
}

/// The shape of the tail of a Publish body: where the properties region and
/// the payload land.
#[verifier::rlimit(100)]
#[verifier::spinoff_prover]
pub proof fn lemma_publish_tail_pieces(props: Seq<u8>, payload: Seq<u8>)
    requires
        props.len() <= VARINT_MAX,
    ensures
        ({
            let t = spec_varint(props.len() as int) + props + payload;
            let k = spec_varint_len(props.len() as int);
            &&& spec_decode_varint(t) == Ok::<(u32, int), MqttError>((props.len() as u32, k))
            &&& t.len() - k == props.len() + payload.len()
            &&& t.skip(k).take(props.len() as int) == props
            &&& t.skip(k + props.len() as int) == payload
        }),
{
    let t = spec_varint(props.len() as int) + props + payload;
    let k = spec_varint_len(props.len() as int);
    crate::v5::decoder::lemma_varint_round_trip(props.len() as int, props + payload);
    lemma_varint_len(props.len() as int);
    assert(t =~= spec_varint(props.len() as int) + (props + payload));
    assert(t.skip(k).take(props.len() as int) =~= props);
    assert(t.skip(k + props.len() as int) =~= payload);
}

/// Decoding the tail of a canonical Publish body recovers the packet.
#[verifier::rlimit(100)]
#[verifier::spinoff_prover]
pub proof fn lemma_publish_decode_tail(v: PublishView)
    requires
        publish_wf(v),
        publish_decodable(v),
    ensures
        ({
            let props = spec_publish_props_bytes(v.properties);
            let t = spec_varint(props.len() as int) + props + v.payload;
            spec_decode_publish_tail(
                v.dup,
                v.qos,
                v.retain,
                v.topic_name,
                v.packet_identifier,
                t,
            ) == Ok::<PublishView, MqttError>(v)
        }),
{
    let props = spec_publish_props_bytes(v.properties);
    lemma_publish_tail_pieces(props, v.payload);
    lemma_scan_publish_canonical(v.properties);
}

/// The shape of the head of a Publish body: where the topic and the
/// identifier land, over abstract remainder bytes.
#[verifier::rlimit(100)]
#[verifier::spinoff_prover]
pub proof fn lemma_publish_head_pieces(topic: Seq<u8>, pidb: Seq<u8>, t: Seq<u8>)
    requires
        1 <= topic.len() <= 0xFFFF,
    ensures
        ({
            let s = spec_len_prefixed(topic) + pidb + t;
            let k0 = 2 + topic.len() as int;
            &&& s.len() >= 3
            &&& spec_decode_string(s) == Ok::<(Option<Seq<u8>>, int), MqttError>((Some(topic), k0))
            &&& s.skip(k0) == pidb + t
            &&& (pidb.len() == 2 ==> s.len() - k0 >= 2 && spec_u16_of(s[k0], s[k0 + 1])
                == spec_u16_of(pidb[0], pidb[1]) && s.skip(k0 + 2) == t)
        }),
{
    let s = spec_len_prefixed(topic) + pidb + t;
    let k0 = 2 + topic.len() as int;
    lemma_add_assoc(spec_len_prefixed(topic), pidb, t);
    crate::v5::decoder::lemma_string_round_trip(topic, pidb + t);
    assert(s.skip(k0) =~= pidb + t);
    if pidb.len() == 2 {
        assert(s[k0] == pidb[0] && s[k0 + 1] == pidb[1]);
        assert(s.skip(k0 + 2) =~= t);
    }
}

/// Decoding inverts encoding for every well-formed Publish packet.
#[verifier::rlimit(100)]
#[verifier::spinoff_prover]
pub proof fn lemma_publish_round_trip(v: PublishView)
    requires
        publish_wf(v),
        publish_decodable(v),
    ensures
        spec_decode_publish(v.dup, v.qos, v.retain, spec_publish_body(v)) == Ok::<
            PublishView,
            MqttError,
        >(v),
{
    let props = spec_publish_props_bytes(v.properties);
    let s = spec_publish_body(v);
    let t = spec_varint(props.len() as int) + props + v.payload;
    let k0 = 2 + v.topic_name.len() as int;
    let lp = spec_len_prefixed(v.topic_name);
    let pidb = spec_pid_bytes(v);
    lemma_add_assoc(lp, pidb, spec_varint(props.len() as int));
    lemma_add_assoc(lp + pidb, spec_varint(props.len() as int), props);
    lemma_add_assoc(lp + pidb, spec_varint(props.len() as int) + props, v.payload);
    assert(s == lp + pidb + t);
    lemma_publish_head_pieces(v.topic_name, spec_pid_bytes(v), t);
    lemma_publish_decode_tail(v);
    match v.packet_identifier {
        None => {
            assert(spec_pid_bytes(v) + t =~= t);
        },
        Some(pid) => {
            crate::v5::decoder::lemma_u16_round_trip(pid, t);
            assert(spec_u16_of(spec_pid_bytes(v)[0], spec_pid_bytes(v)[1]) == pid);
        },
    }
}

} // verus!
