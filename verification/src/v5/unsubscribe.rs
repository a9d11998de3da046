use vstd::prelude::*;

verus! {

use crate::v5::decoder::decode_utf8_string;
use crate::v5::decoder::decode_variable_integer;
use crate::v5::decoder::read_u16;
use crate::v5::decoder::read_vec;
use crate::v5::decoder::spec_decode_string;
use crate::v5::decoder::spec_decode_varint;
use crate::v5::decoder::spec_u16_of;
use crate::v5::encoder::encode_utf8_string;
use crate::v5::encoder::encode_variable_integer;
use crate::v5::encoder::lemma_varint_len;
use crate::v5::encoder::spec_len_prefixed;
use crate::v5::encoder::spec_u16_be;
use crate::v5::encoder::spec_varint;
use crate::v5::encoder::spec_varint_len;
use crate::v5::encoder::write_u16;
use crate::v5::encoder::write_u8;
use crate::v5::encoder::RemainingLength;
use crate::v5::encoder::VARINT_MAX;
use crate::v5::error::MqttError;
use crate::v5::property::lemma_scan_user_props;
use crate::v5::property::lemma_user_props_bytes_take_step;
use crate::v5::property::lemma_user_props_prefix_le;
use crate::v5::property::spec_scan;
use crate::v5::property::spec_user_props_bytes;
use crate::v5::property::BuilderView;
use crate::v5::property::PropertiesBuilder;
use crate::v5::property::PropertiesSize;
use crate::v5::property::Property;
use crate::v5::property::PropertyFamily;
use crate::v5::property::UnSubscribeProperties;
use crate::v5::property::UnSubscribePropertiesView;
use crate::v5::string::MqttString;
use crate::v5::types::topics_view;
use crate::v5::types::ControlPacket;
use crate::v5::types::ControlPacketView;
use crate::v5::types::UnSubscribe;
use crate::v5::types::UnSubscribeView;

/// The canonical bytes of an UnSubscribe packet's properties region.
pub open spec fn spec_unsubscribe_props_bytes(p: UnSubscribePropertiesView) -> Seq<u8> {
    spec_user_props_bytes(p.user_properties)
}

/// Size bounds under which the properties can be encoded.
pub open spec fn unsubscribe_props_wf(p: UnSubscribePropertiesView) -> bool {
    &&& (forall|i: int|
        0 <= i < p.user_properties.len() ==> (#[trigger] p.user_properties[i]).0.len() <= 0xFFFF
            && p.user_properties[i].1.len() <= 0xFFFF)
    &&& spec_unsubscribe_props_bytes(p).len() <= VARINT_MAX
}

/// The stricter conditions under which decoding inverts encoding.
pub open spec fn unsubscribe_props_decodable(p: UnSubscribePropertiesView) -> bool {
    forall|i: int|
        0 <= i < p.user_properties.len() ==> 1 <= (#[trigger] p.user_properties[i]).0.len() && 1
            <= p.user_properties[i].1.len()
}

impl PropertiesSize for UnSubscribeProperties {
    open spec fn spec_size(&self) -> int {
        spec_unsubscribe_props_bytes(self@).len() as int
    }

    open spec fn size_ok(&self) -> bool {
        unsubscribe_props_wf(self@)
    }

    /// How many bytes the properties region takes on the wire.
    fn size(&self) -> (r: usize) {
        let ghost pv = self@;
        let mut len: usize = 0;
        let mut i: usize = 0;
        let n = self.user_properties.len();
        while i < n
            invariant
                i <= n,
                n == self.user_properties@.len(),
                unsubscribe_props_wf(pv),
                pv == self@,
                len == spec_user_props_bytes(pv.user_properties.take(i as int)).len(),
            decreases n - i,
        {
            let pair = &self.user_properties[i];
            proof {
                assert(pv.user_properties[i as int] == (self.user_properties@[i as int].0@,
                self.user_properties@[i as int].1@));
                lemma_user_props_bytes_take_step(pv.user_properties, i as int);
                lemma_user_props_prefix_le(pv.user_properties, i + 1);
            }
            len = len + 5 + pair.0.len() + pair.1.len();
            i = i + 1;
        }
        proof {
            assert(pv.user_properties.take(n as int) =~= pv.user_properties);
        }
        len
    }
}

/// Append a whole UnSubscribe properties region: its length as a varint,
/// then the user properties.
pub fn encode_unsubscribe_properties(writer: &mut Vec<u8>, p: &UnSubscribeProperties) -> (r:
    Result<(), MqttError>)
    requires
        unsubscribe_props_wf(p@),
    ensures
        r is Ok,
        final(writer)@ == old(writer)@ + spec_varint(spec_unsubscribe_props_bytes(p@).len() as int)
            + spec_unsubscribe_props_bytes(p@),
{
    let ghost pv = p@;
    let len = p.size();
    let _ = encode_variable_integer(writer, len as u32);
    let ghost mid2 = writer@;
    let n = p.user_properties.len();
    let mut i: usize = 0;
    while i < n
        invariant
            i <= n,
            n == p.user_properties@.len(),
            unsubscribe_props_wf(pv),
            pv == p@,
            writer@ == mid2 + spec_user_props_bytes(pv.user_properties.take(i as int)),
        decreases n - i,
    {
        let pair = &p.user_properties[i];
        proof {
            assert(pv.user_properties[i as int] == (p.user_properties@[i as int].0@,
            p.user_properties@[i as int].1@));
        }
        write_u8(writer, 0x26);
        let _ = encode_utf8_string(writer, &pair.0);
        let _ = encode_utf8_string(writer, &pair.1);
        proof {
            lemma_user_props_bytes_take_step(pv.user_properties, i as int);
            assert(writer@ =~= mid2 + spec_user_props_bytes(pv.user_properties.take(i + 1)));
        }
        i = i + 1;
    }
    proof {
        assert(pv.user_properties.take(n as int) =~= pv.user_properties);
        assert(writer@ =~= old(writer)@ + spec_varint(spec_unsubscribe_props_bytes(
            pv,
        ).len() as int) + spec_unsubscribe_props_bytes(pv));
    }
    Ok(())
}

/// Decode an UnSubscribe packet's properties region, which may hold only
/// user properties.
#[verifier::rlimit(100)]
#[verifier::spinoff_prover]
pub fn decode_unsubscribe_properties(reader: &Vec<u8>) -> (r: Result<
    UnSubscribeProperties,
    MqttError,
>)
    ensures
        match spec_scan(PropertyFamily::UnSubscribe, reader@, BuilderView::init()) {
            Ok(bv) => r matches Ok(p) && p@ == bv.spec_unsubscribe(),
            Err(e) => r == Err::<UnSubscribeProperties, MqttError>(e),
        },
{
    let ghost whole = reader@;
    let mut builder = PropertiesBuilder::default();
    let mut pos: usize = 0;
    let n = reader.len();
    assert(whole.skip(0) =~= whole);
    while pos < n
        invariant
            pos <= n,
            n == reader@.len(),
            whole == reader@,
            spec_scan(PropertyFamily::UnSubscribe, whole.skip(pos as int), builder@) == spec_scan(
                PropertyFamily::UnSubscribe,
                whole,
                BuilderView::init(),
            ),
        decreases n - pos,
    {
        let ghost s1 = whole.skip(pos as int);
        let pos0 = pos;
        let id = match decode_variable_integer(reader, &mut pos) {
            Ok(v) => v,
            Err(e) => {
                return Err(e);
            },
        };
        let ghost k = pos as int - pos0 as int;
        let property = match Property::try_from(id) {
            Ok(p) => p,
            Err(e) => {
                return Err(e);
            },
        };
        assert(whole.skip(pos as int) =~= s1.skip(k));
        match property {
            Property::UserProperty => {
                let pos1 = pos;
                let key = match decode_utf8_string(reader, &mut pos) {
                    Ok(v) => v,
                    Err(e) => {
                        return Err(e);
                    },
                };
                let ghost m1 = pos as int - pos1 as int;
                assert(whole.skip(pos as int) =~= s1.skip(k).skip(m1));
                let value = match decode_utf8_string(reader, &mut pos) {
                    Ok(v) => v,
                    Err(e) => {
                        return Err(e);
                    },
                };
                let ghost m = pos as int - pos1 as int;
                match (key, value) {
                    (Some(kk), Some(vv)) => {
                        builder = builder.user_property((kk, vv));
                    },
                    _ => {},
                }
                assert(whole.skip(pos as int) =~= s1.skip(k + m));
            },
            other => {
                return Err(MqttError::UnacceptableProperty(other));
            },
        }
    }
    assert(whole.skip(n as int) =~= Seq::<u8>::empty());
    Ok(builder.unsubscribe())
}

/// The canonical bytes of a topic-filter list: one length-prefixed string
/// per filter.
pub open spec fn spec_topics_bytes(ts: Seq<Seq<u8>>) -> Seq<u8>
    decreases ts.len(),
{
    if ts.len() == 0 {
        seq![]
    } else {
        spec_len_prefixed(ts[0]) + spec_topics_bytes(ts.drop_first())
    }
}

/// What decoding a topic-filter list until the end of the region yields; an
/// absent filter is `TopicFilterInvalid`.
pub open spec fn spec_decode_topics(s: Seq<u8>) -> Result<Seq<Seq<u8>>, MqttError>
    decreases s.len(),
{
    if s.len() == 0 {
        Ok(Seq::empty())
    } else {
        match spec_decode_string(s) {
            Err(e) => Err(e),
            Ok((None, _)) => Err(MqttError::TopicFilterInvalid),
            Ok((Some(t), k)) => if k < 2 || k > s.len() {
                Err(MqttError::EndOfStream)
            } else {
                match spec_decode_topics(s.skip(k)) {
                    Err(e) => Err(e),
                    Ok(rest) => Ok(seq![t] + rest),
                }
            },
        }
    }
}

/// One more topic appends its segment to the list's bytes.
pub proof fn lemma_topics_bytes_take_step(ts: Seq<Seq<u8>>, i: int)
    requires
        0 <= i < ts.len(),
    ensures
        spec_topics_bytes(ts.take(i + 1)) == spec_topics_bytes(ts.take(i)) + spec_len_prefixed(
            ts[i],
        ),
    decreases i,
{
    if i == 0 {
        let one = ts.take(1);
        assert(one.drop_first() =~= Seq::<Seq<u8>>::empty());
        assert(one[0] == ts[0]);
        assert(ts.take(0) =~= Seq::<Seq<u8>>::empty());
        assert(spec_topics_bytes(one) =~= spec_topics_bytes(ts.take(0)) + spec_len_prefixed(
            ts[0],
        ));
    } else {
        lemma_topics_bytes_take_step(ts.drop_first(), i - 1);
        assert(ts.take(i + 1).drop_first() =~= ts.drop_first().take(i));
        assert(ts.take(i).drop_first() =~= ts.drop_first().take(i - 1));
        assert(ts.take(i + 1)[0] == ts[0]);
        assert(ts.take(i)[0] == ts[0]);
        assert(ts.drop_first()[i - 1] == ts[i]);
        assert(spec_topics_bytes(ts.take(i + 1)) =~= spec_topics_bytes(ts.take(i))
            + spec_len_prefixed(ts[i]));
    }
}

/// Decoding inverts encoding for every list of nonempty topic filters.
pub proof fn lemma_topics_round_trip(ts: Seq<Seq<u8>>)
    requires
        forall|i: int| 0 <= i < ts.len() ==> 1 <= (#[trigger] ts[i]).len() <= 0xFFFF,
    ensures
        spec_decode_topics(spec_topics_bytes(ts)) == Ok::<Seq<Seq<u8>>, MqttError>(ts),
    decreases ts.len(),
{
    if ts.len() == 0 {
        assert(spec_topics_bytes(ts) =~= Seq::<u8>::empty());
        assert(ts =~= Seq::<Seq<u8>>::empty());
    } else {
        let rest = ts.drop_first();
        let tail = spec_topics_bytes(rest);
        crate::v5::decoder::lemma_string_round_trip(ts[0], tail);
        let s = spec_topics_bytes(ts);
        assert(s =~= spec_len_prefixed(ts[0]) + tail);
        assert(s.skip(2 + ts[0].len() as int) =~= tail);
        lemma_topics_round_trip(rest);
        assert(seq![ts[0]] + rest =~= ts);
    }
}

/// Decode topic filters from the given offset until the end of the buffer.
pub fn decode_unsubscribe_payload(reader: &Vec<u8>, from: usize) -> (r: Result<
    Vec<MqttString>,
    MqttError,
>)
    requires
        from <= reader@.len(),
    ensures
        match spec_decode_topics(reader@.skip(from as int)) {
            Ok(ts) => r matches Ok(v) && topics_view(v@) == ts,
            Err(e) => r == Err::<Vec<MqttString>, MqttError>(e),
        },
{
    let ghost whole = reader@;
    let ghost start = from as int;
    let mut pos_v: usize = from;
    let pos = &mut pos_v;
    let mut out: Vec<MqttString> = Vec::new();
    let n = reader.len();
    assert(topics_view(out@) =~= Seq::<Seq<u8>>::empty());
    while *pos < n
        invariant
            *pos <= n,
            n == reader@.len(),
            whole == reader@,
            start == from as int,
            start <= *pos as int,
            ({
                match spec_decode_topics(whole.skip(*pos as int)) {
                    Ok(rest) => spec_decode_topics(whole.skip(start)) == Ok::<
                        Seq<Seq<u8>>,
                        MqttError,
                    >(topics_view(out@) + rest),
                    Err(e) => spec_decode_topics(whole.skip(start)) == Err::<
                        Seq<Seq<u8>>,
                        MqttError,
                    >(e),
                }
            }),
        decreases n - *pos,
    {
        let ghost s1 = whole.skip(*pos as int);
        let ghost acc0 = topics_view(out@);
        let pos1 = *pos;
        let t = match decode_utf8_string(reader, pos) {
            Ok(Some(t)) => t,
            Ok(None) => {
                proof {
                    assert(s1.len() > 0);
                    assert(spec_decode_string(s1) == Ok::<(Option<Seq<u8>>, int), MqttError>(
                        (None, 2),
                    ));
                    assert(spec_decode_topics(s1) == Err::<Seq<Seq<u8>>, MqttError>(
                        MqttError::TopicFilterInvalid,
                    ));
                    assert(spec_decode_topics(whole.skip(start)) == Err::<Seq<Seq<u8>>, MqttError>(
                        MqttError::TopicFilterInvalid,
                    ));
                }
                return Err(MqttError::TopicFilterInvalid);
            },
            Err(e) => {
                proof {
                    assert(s1.len() > 0);
                    assert(spec_decode_topics(s1) == Err::<Seq<Seq<u8>>, MqttError>(e));
                    assert(spec_decode_topics(whole.skip(start)) == Err::<Seq<Seq<u8>>, MqttError>(
                        e,
                    ));
                }
                return Err(e);
            },
        };
        let ghost k = *pos as int - pos1 as int;
        out.push(t);
        proof {
            assert(whole.skip(*pos as int) =~= s1.skip(k));
            assert(topics_view(out@) =~= acc0.push(t@));
            match spec_decode_topics(whole.skip(*pos as int)) {
                Ok(rest) => {
                    assert(topics_view(out@) + rest =~= acc0 + (seq![t@] + rest));
                },
                Err(e) => {},
            }
        }
    }
    assert(whole.skip(n as int) =~= Seq::<u8>::empty());
    assert(topics_view(out@) + Seq::<Seq<u8>>::empty() =~= topics_view(out@));
    Ok(out)
}

/// What decoding an UnSubscribe body yields: the packet identifier, the
/// properties region behind its length prefix, then the filters.
pub open spec fn spec_decode_unsubscribe(s: Seq<u8>) -> Result<UnSubscribeView, MqttError> {
    if s.len() < 2 {
        Err(MqttError::EndOfStream)
    } else {
        let pid = spec_u16_of(s[0], s[1]);
        match spec_decode_varint(s.skip(2)) {
            Err(e) => Err(e),
            Ok((plen, k)) => if s.len() - 2 - k < plen as int {
                Err(MqttError::EndOfStream)
            } else {
                match spec_scan(
                    PropertyFamily::UnSubscribe,
                    s.skip(2 + k).take(plen as int),
                    BuilderView::init(),
                ) {
                    Err(e) => Err(e),
                    Ok(bv) => match spec_decode_topics(s.skip(2 + k + plen as int)) {
                        Err(e) => Err(e),
                        Ok(ts) => Ok(
                            UnSubscribeView {
                                packet_identifier: pid,
                                properties: bv.spec_unsubscribe(),
                                topic_filters: ts,
                            },
                        ),
                    },
                }
            },
        }
    }
}

/// Decode the body of an UnSubscribe packet.
pub fn decode_unsubscribe(reader: &Vec<u8>) -> (r: Result<Option<ControlPacket>, MqttError>)
    ensures
        match spec_decode_unsubscribe(reader@) {
            Ok(v) => r matches Ok(Some(p)) && p@ == ControlPacketView::UnSubscribe(v),
            Err(e) => r == Err::<Option<ControlPacket>, MqttError>(e),
        },
{
    let mut pos: usize = 0;
    let packet_identifier = match read_u16(reader, &mut pos) {
        Ok(v) => v,
        Err(e) => {
            return Err(e);
        },
    };
    let pos1 = pos;
    let plen = match decode_variable_integer(reader, &mut pos) {
        Ok(v) => v,
        Err(e) => {
            return Err(e);
        },
    };
    let ghost k = pos as int - pos1 as int;
    if reader.len() - pos < plen as usize {
        return Err(MqttError::EndOfStream);
    }
    let region = read_vec(reader, &mut pos, plen as usize);
    assert(region@ =~= reader@.skip(2 + k).take(plen as int));
    let properties = match decode_unsubscribe_properties(&region) {
        Ok(p) => p,
        Err(e) => {
            return Err(e);
        },
    };
    let topic_filters = match decode_unsubscribe_payload(reader, pos) {
        Ok(v) => v,
        Err(e) => {
            proof {
                assert(reader@.skip(2 + k + plen as int) =~= reader@.skip(
                    (2 + k + plen as int) as int,
                ));
            }
            return Err(e);
        },
    };
    Ok(
        Some(
            ControlPacket::UnSubscribe(
                UnSubscribe { packet_identifier, properties, topic_filters },
            ),
        ),
    )
}

/// The canonical body bytes of an UnSubscribe packet.
pub open spec fn spec_unsubscribe_body(v: UnSubscribeView) -> Seq<u8> {
    spec_u16_be(v.packet_identifier) + spec_varint(
        spec_unsubscribe_props_bytes(v.properties).len() as int,
    ) + spec_unsubscribe_props_bytes(v.properties) + spec_topics_bytes(v.topic_filters)
}

/// Size bounds under which the packet can be encoded.
pub open spec fn unsubscribe_wf(v: UnSubscribeView) -> bool {
    &&& unsubscribe_props_wf(v.properties)
    &&& (forall|i: int| 0 <= i < v.topic_filters.len() ==> (#[trigger] v.topic_filters[i]).len() <= 0xFFFF)
    &&& spec_unsubscribe_body(v).len() <= VARINT_MAX
}

/// The stricter conditions under which decoding inverts encoding: every
/// filter carries at least one byte.
pub open spec fn unsubscribe_decodable(v: UnSubscribeView) -> bool {
    &&& unsubscribe_props_decodable(v.properties)
    &&& (forall|i: int| 0 <= i < v.topic_filters.len() ==> 1 <= (#[trigger] v.topic_filters[i]).len())
}

/// Append the body of an UnSubscribe packet.
pub fn encode_unsubscribe(writer: &mut Vec<u8>, msg: &UnSubscribe) -> (r: Result<(), MqttError>)
    requires
        unsubscribe_wf(msg@),
    ensures
        r is Ok,
        final(writer)@ == old(writer)@ + spec_unsubscribe_body(msg@),
{
    let ghost mv = msg@;
    write_u16(writer, msg.packet_identifier);
    let _ = encode_unsubscribe_properties(writer, &msg.properties);
    let ghost mid = writer@;
    let n = msg.topic_filters.len();
    let mut i: usize = 0;
    while i < n
        invariant
            i <= n,
            n == msg.topic_filters@.len(),
            unsubscribe_wf(mv),
            mv == msg@,
            writer@ == mid + spec_topics_bytes(mv.topic_filters.take(i as int)),
        decreases n - i,
    {
        let t = &msg.topic_filters[i];
        proof {
            assert(mv.topic_filters[i as int] == msg.topic_filters@[i as int]@);
        }
        let _ = encode_utf8_string(writer, t);
        proof {
            lemma_topics_bytes_take_step(mv.topic_filters, i as int);
            assert(writer@ =~= mid + spec_topics_bytes(mv.topic_filters.take(i + 1)));
        }
        i = i + 1;
    }
    proof {
        assert(mv.topic_filters.take(n as int) =~= mv.topic_filters);
        assert(writer@ =~= old(writer)@ + spec_unsubscribe_body(mv));
    }
    Ok(())
}

impl RemainingLength for UnSubscribe {
    open spec fn spec_remaining_length(&self) -> int {
        spec_unsubscribe_body(self@).len() as int
    }

    open spec fn remaining_length_ok(&self) -> bool {
        unsubscribe_wf(self@)
    }

    /// The body length: identifier, properties region behind its length
    /// prefix, then the filters.
    fn remaining_length(&self) -> (r: usize) {
        let ghost mv = self@;
        let props_len = self.properties.size();
        proof {
            lemma_varint_len(props_len as int);
        }
        let vlen = crate::v5::encoder::varint_size(props_len as u32);
        let mut len: usize = 2 + vlen + props_len;
        let ghost base = len as int;
        let n = self.topic_filters.len();
        let mut i: usize = 0;
        while i < n
            invariant
                i <= n,
                n == self.topic_filters@.len(),
                unsubscribe_wf(mv),
                mv == self@,
                base == 2 + spec_varint_len(spec_unsubscribe_props_bytes(mv.properties).len() as int)
                    + spec_unsubscribe_props_bytes(mv.properties).len(),
                len == base + spec_topics_bytes(mv.topic_filters.take(i as int)).len(),
            decreases n - i,
        {
            let t = &self.topic_filters[i];
            proof {
                assert(mv.topic_filters[i as int] == self.topic_filters@[i as int]@);
                lemma_topics_bytes_take_step(mv.topic_filters, i as int);
                lemma_topics_prefix_le(mv.topic_filters, i + 1);
                lemma_unsubscribe_body_parts(mv);
            }
            len = len + 2 + t.len();
            i = i + 1;
        }
        proof {
            assert(mv.topic_filters.take(n as int) =~= mv.topic_filters);
            lemma_unsubscribe_body_parts(mv);
        }
        len
    }
}

/// Every prefix of a topic list takes at most as many bytes as the whole
/// list.
pub proof fn lemma_topics_prefix_le(ts: Seq<Seq<u8>>, i: int)
    requires
        0 <= i <= ts.len(),
    ensures
        spec_topics_bytes(ts.take(i)).len() <= spec_topics_bytes(ts).len(),
    decreases ts.len() - i,
{
    if i < ts.len() {
        lemma_topics_bytes_take_step(ts, i);
        lemma_topics_prefix_le(ts, i + 1);
        assert(ts.take(ts.len() as int) =~= ts);
    } else {
        assert(ts.take(i) =~= ts);
    }
}

/// The body of an UnSubscribe packet is exactly its parts laid end to end.
pub proof fn lemma_unsubscribe_body_parts(v: UnSubscribeView)
    ensures
        spec_unsubscribe_body(v).len() == 2 + spec_varint(
            spec_unsubscribe_props_bytes(v.properties).len() as int,
        ).len() + spec_unsubscribe_props_bytes(v.properties).len() + spec_topics_bytes(
            v.topic_filters,
        ).len(),
{
}

/// Decoding inverts encoding for every well-formed UnSubscribe packet.
#[verifier::rlimit(100)]
#[verifier::spinoff_prover]
pub proof fn lemma_unsubscribe_round_trip(v: UnSubscribeView)
    requires
        unsubscribe_wf(v),
        unsubscribe_decodable(v),
    ensures
        spec_decode_unsubscribe(spec_unsubscribe_body(v)) == Ok::<UnSubscribeView, MqttError>(v),
{
    let props = spec_unsubscribe_props_bytes(v.properties);
    let topics = spec_topics_bytes(v.topic_filters);
    let s = spec_unsubscribe_body(v);
    let rest1 = spec_varint(props.len() as int) + props + topics;
    assert(s =~= spec_u16_be(v.packet_identifier) + rest1);
    crate::v5::decoder::lemma_u16_round_trip(v.packet_identifier, rest1);
    assert(s[0] == (spec_u16_be(v.packet_identifier) + rest1)[0]);
    assert(s[1] == (spec_u16_be(v.packet_identifier) + rest1)[1]);
    crate::v5::decoder::lemma_varint_round_trip(props.len() as int, props + topics);
    lemma_varint_len(props.len() as int);
    let k = spec_varint_len(props.len() as int);
    assert(s.skip(2) =~= spec_varint(props.len() as int) + (props + topics));
    assert(s.skip(2 + k).take(props.len() as int) =~= props);
    lemma_scan_unsubscribe_canonical(v.properties);
    assert(s.skip(2 + k + props.len() as int) =~= topics);
    lemma_topics_round_trip(v.topic_filters);
}

/// Scanning the canonical properties of an UnSubscribe packet recovers them.
#[verifier::rlimit(100)]
#[verifier::spinoff_prover]
pub proof fn lemma_scan_unsubscribe_canonical(p: UnSubscribePropertiesView)
    requires
        unsubscribe_props_wf(p),
        unsubscribe_props_decodable(p),
    ensures
        spec_scan(PropertyFamily::UnSubscribe, spec_unsubscribe_props_bytes(p), BuilderView::init())
            matches Ok(bv) && bv.spec_unsubscribe() == p,
{
    let f = PropertyFamily::UnSubscribe;
    let init = BuilderView::init();
    let users = spec_user_props_bytes(p.user_properties);
    assert(users =~= users + Seq::<u8>::empty());
    lemma_scan_user_props(f, p.user_properties, Seq::empty(), init);
    let b1 = BuilderView { user_properties: init.user_properties + p.user_properties, ..init };
    assert(b1.user_properties =~= p.user_properties);
    assert(b1.spec_unsubscribe() =~= p);
}

} // verus!
