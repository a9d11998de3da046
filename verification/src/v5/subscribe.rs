use vstd::prelude::*;

verus! {

use crate::v5::decoder::decode_utf8_string;
use crate::v5::decoder::decode_variable_integer;
use crate::v5::decoder::read_u16;
use crate::v5::decoder::read_u8;
use crate::v5::decoder::read_vec;
use crate::v5::decoder::spec_decode_string;
use crate::v5::decoder::spec_decode_varint;
use crate::v5::decoder::spec_u16_of;
use crate::v5::encoder::encode_utf8_string;
use crate::v5::encoder::encode_variable_integer;
use crate::v5::encoder::lemma_varint_len;
use crate::v5::encoder::spec_len_prefixed;
use crate::v5::encoder::spec_u16_be;
use crate::v5::encoder::spec_varint;
use crate::v5::encoder::spec_varint_len;
use crate::v5::encoder::write_u16;
use crate::v5::encoder::write_u8;
use crate::v5::encoder::RemainingLength;
use crate::v5::encoder::VARINT_MAX;
use crate::v5::error::MqttError;
use crate::v5::property::lemma_scan_opt_varint;
use crate::v5::property::lemma_scan_user_props;
use crate::v5::property::lemma_user_props_bytes_take_step;
use crate::v5::property::lemma_user_props_prefix_le;
use crate::v5::property::opt_varint_seg;
use crate::v5::property::spec_scan;
use crate::v5::property::spec_user_props_bytes;
use crate::v5::property::BuilderView;
use crate::v5::property::PropertiesBuilder;
use crate::v5::property::PropertiesSize;
use crate::v5::property::Property;
use crate::v5::property::PropertyFamily;
use crate::v5::property::SubscribeProperties;
use crate::v5::property::SubscribePropertiesView;
use crate::v5::pubres::decode_response_properties;
use crate::v5::pubres::encode_response_properties;
use crate::v5::pubres::response_props_decodable;
use crate::v5::pubres::response_props_wf;
use crate::v5::pubres::spec_response_props_bytes;
use crate::v5::string::MqttString;
use crate::v5::types::filters_view;
use crate::v5::types::ControlPacket;
use crate::v5::types::ControlPacketView;
use crate::v5::types::ReasonCode;
use crate::v5::types::SubAck;
use crate::v5::types::SubAckView;
use crate::v5::types::Subscribe;
use crate::v5::types::SubscribeView;
use crate::v5::types::SubscriptionOptions;

/// The canonical bytes of a Subscribe packet's properties region.
pub open spec fn spec_subscribe_props_bytes(p: SubscribePropertiesView) -> Seq<u8> {
    opt_varint_seg(0x0B, p.subscription_identifier) + spec_user_props_bytes(p.user_properties)
}

/// Size bounds under which the properties can be encoded.
pub open spec fn subscribe_props_wf(p: SubscribePropertiesView) -> bool {
    &&& (p.subscription_identifier matches Some(v) ==> v <= VARINT_MAX)
    &&& (forall|i: int|
        0 <= i < p.user_properties.len() ==> (#[trigger] p.user_properties[i]).0.len() <= 0xFFFF
            && p.user_properties[i].1.len() <= 0xFFFF)
    &&& spec_subscribe_props_bytes(p).len() <= VARINT_MAX
}

/// The stricter conditions under which decoding inverts encoding.
pub open spec fn subscribe_props_decodable(p: SubscribePropertiesView) -> bool {
    forall|i: int|
        0 <= i < p.user_properties.len() ==> 1 <= (#[trigger] p.user_properties[i]).0.len() && 1
            <= p.user_properties[i].1.len()
}

impl PropertiesSize for SubscribeProperties {
    open spec fn spec_size(&self) -> int {
        spec_subscribe_props_bytes(self@).len() as int
    }

    open spec fn size_ok(&self) -> bool {
        subscribe_props_wf(self@)
    }

    /// How many bytes the properties region takes on the wire.
    fn size(&self) -> (r: usize) {
        let ghost pv = self@;
        let mut len: usize = 0;
        match &self.subscription_identifier {
            Some(v) => {
                proof {
                    lemma_varint_len(*v as int);
                }
                len = 1 + crate::v5::encoder::varint_size(*v);
            },
            None => {},
        }
        let ghost base = len as int;
        assert(base == opt_varint_seg(0x0B, pv.subscription_identifier).len());
        let mut i: usize = 0;
        let n = self.user_properties.len();
        while i < n
            invariant
                i <= n,
                n == self.user_properties@.len(),
                subscribe_props_wf(pv),
                pv == self@,
                base == opt_varint_seg(0x0B, pv.subscription_identifier).len(),
                len == base + spec_user_props_bytes(pv.user_properties.take(i as int)).len(),
            decreases n - i,
        {
            let pair = &self.user_properties[i];
            proof {
                assert(pv.user_properties[i as int] == (self.user_properties@[i as int].0@,
                self.user_properties@[i as int].1@));
                lemma_user_props_bytes_take_step(pv.user_properties, i as int);
                lemma_user_props_prefix_le(pv.user_properties, i + 1);
            }
            len = len + 5 + pair.0.len() + pair.1.len();
            i = i + 1;
        }
        proof {
            assert(pv.user_properties.take(n as int) =~= pv.user_properties);
        }
        len
    }
}

/// Append a whole Subscribe properties region: its length as a varint, then
/// the canonical segments.
pub fn encode_subscribe_properties(writer: &mut Vec<u8>, p: &SubscribeProperties) -> (r: Result<
    (),
    MqttError,
>)
    requires
        subscribe_props_wf(p@),
    ensures
        r is Ok,
        final(writer)@ == old(writer)@ + spec_varint(spec_subscribe_props_bytes(p@).len() as int)
            + spec_subscribe_props_bytes(p@),
{
    let ghost pv = p@;
    let len = p.size();
    let _ = encode_variable_integer(writer, len as u32);
    let ghost mid = writer@;
    match &p.subscription_identifier {
        Some(v) => {
            write_u8(writer, 0x0B);
            let _ = encode_variable_integer(writer, *v);
        },
        None => {},
    }
    assert(writer@ =~= mid + opt_varint_seg(0x0B, pv.subscription_identifier));
    let ghost mid2 = writer@;
    let n = p.user_properties.len();
    let mut i: usize = 0;
    while i < n
        invariant
            i <= n,
            n == p.user_properties@.len(),
            subscribe_props_wf(pv),
            pv == p@,
            writer@ == mid2 + spec_user_props_bytes(pv.user_properties.take(i as int)),
        decreases n - i,
    {
        let pair = &p.user_properties[i];
        proof {
            assert(pv.user_properties[i as int] == (p.user_properties@[i as int].0@,
            p.user_properties@[i as int].1@));
        }
        write_u8(writer, 0x26);
        let _ = encode_utf8_string(writer, &pair.0);
        let _ = encode_utf8_string(writer, &pair.1);
        proof {
            lemma_user_props_bytes_take_step(pv.user_properties, i as int);
            assert(writer@ =~= mid2 + spec_user_props_bytes(pv.user_properties.take(i + 1)));
        }
        i = i + 1;
    }
    proof {
        assert(pv.user_properties.take(n as int) =~= pv.user_properties);
        assert(writer@ =~= old(writer)@ + spec_varint(spec_subscribe_props_bytes(pv).len() as int)
            + spec_subscribe_props_bytes(pv));
    }
    Ok(())
}

/// Decode a Subscribe packet's properties region.
#[verifier::rlimit(100)]
#[verifier::spinoff_prover]
pub fn decode_subscribe_properties(reader: &Vec<u8>) -> (r: Result<SubscribeProperties, MqttError>)
    ensures
        match spec_scan(PropertyFamily::Subscribe, reader@, BuilderView::init()) {
            Ok(bv) => r matches Ok(p) && p@ == bv.spec_subscribe(),
            Err(e) => r == Err::<SubscribeProperties, MqttError>(e),
        },
{
    let ghost whole = reader@;
    let mut builder = PropertiesBuilder::default();
    let mut pos: usize = 0;
    let n = reader.len();
    assert(whole.skip(0) =~= whole);
    while pos < n
        invariant
            pos <= n,
            n == reader@.len(),
            whole == reader@,
            spec_scan(PropertyFamily::Subscribe, whole.skip(pos as int), builder@) == spec_scan(
                PropertyFamily::Subscribe,
                whole,
                BuilderView::init(),
            ),
        decreases n - pos,
    {
        let ghost s1 = whole.skip(pos as int);
        let pos0 = pos;
        let id = match decode_variable_integer(reader, &mut pos) {
            Ok(v) => v,
            Err(e) => {
                return Err(e);
            },
        };
        let ghost k = pos as int - pos0 as int;
        let property = match Property::try_from(id) {
            Ok(p) => p,
            Err(e) => {
                return Err(e);
            },
        };
        assert(whole.skip(pos as int) =~= s1.skip(k));
        match property {
            Property::SubscriptionIdentifier => {
                let pos1 = pos;
                let v = match decode_variable_integer(reader, &mut pos) {
                    Ok(v) => v,
                    Err(e) => {
                        return Err(e);
                    },
                };
                let ghost m = pos as int - pos1 as int;
                builder = match builder.subscription_identifier(v) {
                    Ok(b) => b,
                    Err(e) => {
                        return Err(e);
                    },
                };
                assert(whole.skip(pos as int) =~= s1.skip(k + m));
            },
            Property::UserProperty => {
                let pos1 = pos;
                let key = match decode_utf8_string(reader, &mut pos) {
                    Ok(v) => v,
                    Err(e) => {
                        return Err(e);
                    },
                };
                let ghost m1 = pos as int - pos1 as int;
                assert(whole.skip(pos as int) =~= s1.skip(k).skip(m1));
                let value = match decode_utf8_string(reader, &mut pos) {
                    Ok(v) => v,
                    Err(e) => {
                        return Err(e);
                    },
                };
                let ghost m = pos as int - pos1 as int;
                match (key, value) {
                    (Some(kk), Some(vv)) => {
                        builder = builder.user_property((kk, vv));
                    },
                    _ => {},
                }
                assert(whole.skip(pos as int) =~= s1.skip(k + m));
            },
            other => {
                return Err(MqttError::UnacceptableProperty(other));
            },
        }
    }
    assert(whole.skip(n as int) =~= Seq::<u8>::empty());
    Ok(builder.subscribe())
}

/// The canonical bytes of a filter list: one length-prefixed string and one
/// options byte per filter.
pub open spec fn spec_filters_bytes(fs: Seq<(Seq<u8>, SubscriptionOptions)>) -> Seq<u8>
    decreases fs.len(),
{
    if fs.len() == 0 {
        seq![]
    } else {
        spec_len_prefixed(fs[0].0) + seq![fs[0].1.spec_as_u8()] + spec_filters_bytes(
            fs.drop_first(),
        )
    }
}

/// What decoding a filter list until the end of the region yields.
pub open spec fn spec_decode_filters(s: Seq<u8>) -> Result<
    Seq<(Seq<u8>, SubscriptionOptions)>,
    MqttError,
>
    decreases s.len(),
{
    if s.len() == 0 {
        Ok(Seq::empty())
    } else {
        match spec_decode_string(s) {
            Err(e) => Err(e),
            Ok((None, _)) => Err(MqttError::TopicFilterInvalid),
            Ok((Some(t), k)) => if k < 2 || s.len() - k < 1 {
                Err(MqttError::EndOfStream)
            } else {
                match SubscriptionOptions::spec_try_from(s[k]) {
                    Err(e) => Err(e),
                    Ok(o) => match spec_decode_filters(s.skip(k + 1)) {
                        Err(e) => Err(e),
                        Ok(rest) => Ok(seq![(t, o)] + rest),
                    },
                }
            },
        }
    }
}

/// One more filter appends its segment to the list's bytes.
pub proof fn lemma_filters_bytes_take_step(fs: Seq<(Seq<u8>, SubscriptionOptions)>, i: int)
    requires
        0 <= i < fs.len(),
    ensures
        spec_filters_bytes(fs.take(i + 1)) == spec_filters_bytes(fs.take(i)) + spec_len_prefixed(
            fs[i].0,
        ) + seq![fs[i].1.spec_as_u8()],
    decreases i,
{
    if i == 0 {
        let one = fs.take(1);
        assert(one.drop_first() =~= Seq::<(Seq<u8>, SubscriptionOptions)>::empty());
        assert(one[0] == fs[0]);
        assert(fs.take(0) =~= Seq::<(Seq<u8>, SubscriptionOptions)>::empty());
        assert(spec_filters_bytes(one) =~= spec_filters_bytes(fs.take(0)) + spec_len_prefixed(
            fs[0].0,
        ) + seq![fs[0].1.spec_as_u8()]);
    } else {
        lemma_filters_bytes_take_step(fs.drop_first(), i - 1);
        assert(fs.take(i + 1).drop_first() =~= fs.drop_first().take(i));
        assert(fs.take(i).drop_first() =~= fs.drop_first().take(i - 1));
        assert(fs.take(i + 1)[0] == fs[0]);
        assert(fs.take(i)[0] == fs[0]);
        assert(fs.drop_first()[i - 1] == fs[i]);
        assert(spec_filters_bytes(fs.take(i + 1)) =~= spec_filters_bytes(fs.take(i))
            + spec_len_prefixed(fs[i].0) + seq![fs[i].1.spec_as_u8()]);
    }
}

/// Every prefix of a filter list takes at most as many bytes as the whole
/// list.
pub proof fn lemma_filters_prefix_le(fs: Seq<(Seq<u8>, SubscriptionOptions)>, i: int)
    requires
        0 <= i <= fs.len(),
    ensures
        spec_filters_bytes(fs.take(i)).len() <= spec_filters_bytes(fs).len(),
    decreases fs.len() - i,
{
    if i < fs.len() {
        lemma_filters_bytes_take_step(fs, i);
        lemma_filters_prefix_le(fs, i + 1);
        assert(fs.take(fs.len() as int) =~= fs);
    } else {
        assert(fs.take(i) =~= fs);
    }
}

/// Decoding inverts encoding for every list of nonempty filters.
#[verifier::rlimit(100)]
#[verifier::spinoff_prover]
pub proof fn lemma_filters_round_trip(fs: Seq<(Seq<u8>, SubscriptionOptions)>)
    requires
        forall|i: int| 0 <= i < fs.len() ==> 1 <= (#[trigger] fs[i]).0.len() <= 0xFFFF,
    ensures
        spec_decode_filters(spec_filters_bytes(fs)) == Ok::<
            Seq<(Seq<u8>, SubscriptionOptions)>,
            MqttError,
        >(fs),
    decreases fs.len(),
{
    if fs.len() == 0 {
        assert(spec_filters_bytes(fs) =~= Seq::<u8>::empty());
        assert(fs =~= Seq::<(Seq<u8>, SubscriptionOptions)>::empty());
    } else {
        let rest = fs.drop_first();
        let tail = seq![fs[0].1.spec_as_u8()] + spec_filters_bytes(rest);
        crate::v5::decoder::lemma_string_round_trip(fs[0].0, tail);
        let s = spec_filters_bytes(fs);
        assert(s =~= spec_len_prefixed(fs[0].0) + tail);
        let k = 2 + fs[0].0.len() as int;
        assert(s[k] == fs[0].1.spec_as_u8());
        crate::v5::types::lemma_subscription_options_round_trip(fs[0].1);
        assert(s.skip(k + 1) =~= spec_filters_bytes(rest));
        lemma_filters_round_trip(rest);
        assert(seq![(fs[0].0, fs[0].1)] + rest =~= fs);
    }
}

/// Decode subscription filters from the given offset until the end of the
/// buffer.
#[verifier::rlimit(100)]
#[verifier::spinoff_prover]
pub fn decode_subscribe_payload(reader: &Vec<u8>, from: usize) -> (r: Result<
    Vec<(MqttString, SubscriptionOptions)>,
    MqttError,
>)
    requires
        from <= reader@.len(),
    ensures
        match spec_decode_filters(reader@.skip(from as int)) {
            Ok(fs) => r matches Ok(v) && filters_view(v@) == fs,
            Err(e) => r == Err::<Vec<(MqttString, SubscriptionOptions)>, MqttError>(e),
        },
{
    let ghost whole = reader@;
    let ghost start = from as int;
    let mut pos_v: usize = from;
    let pos = &mut pos_v;
    let mut out: Vec<(MqttString, SubscriptionOptions)> = Vec::new();
    let n = reader.len();
    assert(filters_view(out@) =~= Seq::<(Seq<u8>, SubscriptionOptions)>::empty());
    while *pos < n
        invariant
            *pos <= n,
            n == reader@.len(),
            whole == reader@,
            start == from as int,
            start <= *pos as int,
            ({
                match spec_decode_filters(whole.skip(*pos as int)) {
                    Ok(rest) => spec_decode_filters(whole.skip(start)) == Ok::<
                        Seq<(Seq<u8>, SubscriptionOptions)>,
                        MqttError,
                    >(filters_view(out@) + rest),
                    Err(e) => spec_decode_filters(whole.skip(start)) == Err::<
                        Seq<(Seq<u8>, SubscriptionOptions)>,
                        MqttError,
                    >(e),
                }
            }),
        decreases n - *pos,
    {
        let ghost s1 = whole.skip(*pos as int);
        let ghost acc0 = filters_view(out@);
        let pos1 = *pos;
        let t = match decode_utf8_string(reader, pos) {
            Ok(Some(t)) => t,
            Ok(None) => {
                return Err(MqttError::TopicFilterInvalid);
            },
            Err(e) => {
                return Err(e);
            },
        };
        let ghost k = *pos as int - pos1 as int;
        let b = match read_u8(reader, pos) {
            Ok(v) => v,
            Err(e) => {
                return Err(e);
            },
        };
        assert(b == s1[k]);
        let o = match SubscriptionOptions::try_from(b) {
            Ok(v) => v,
            Err(e) => {
                return Err(e);
            },
        };
        out.push((t, o));
        proof {
            assert(whole.skip(*pos as int) =~= s1.skip(k + 1));
            assert(filters_view(out@) =~= acc0.push((t@, o)));
            match spec_decode_filters(whole.skip(*pos as int)) {
                Ok(rest) => {
                    assert(filters_view(out@) + rest =~= acc0 + (seq![(t@, o)] + rest));
                },
                Err(e) => {},
            }
        }
    }
    assert(whole.skip(n as int) =~= Seq::<u8>::empty());
    assert(filters_view(out@) + Seq::<(Seq<u8>, SubscriptionOptions)>::empty() =~= filters_view(
        out@,
    ));
    Ok(out)
}

/// What decoding a Subscribe body yields: the packet identifier, the
/// properties region behind its length prefix, then the filters.
pub open spec fn spec_decode_subscribe(s: Seq<u8>) -> Result<SubscribeView, MqttError> {
    if s.len() < 2 {
        Err(MqttError::EndOfStream)
    } else {
        let pid = spec_u16_of(s[0], s[1]);
        match spec_decode_varint(s.skip(2)) {
            Err(e) => Err(e),
            Ok((plen, k)) => if s.len() - 2 - k < plen as int {
                Err(MqttError::EndOfStream)
            } else {
                match spec_scan(
                    PropertyFamily::Subscribe,
                    s.skip(2 + k).take(plen as int),
                    BuilderView::init(),
                ) {
                    Err(e) => Err(e),
                    Ok(bv) => match spec_decode_filters(s.skip(2 + k + plen as int)) {
                        Err(e) => Err(e),
                        Ok(fs) => Ok(
                            SubscribeView {
                                packet_identifier: pid,
                                properties: bv.spec_subscribe(),
                                topic_filters: fs,
                            },
                        ),
                    },
                }
            },
        }
    }
}

/// Decode the body of a Subscribe packet.
pub fn decode_subscribe(reader: &Vec<u8>) -> (r: Result<Option<ControlPacket>, MqttError>)
    ensures
        match spec_decode_subscribe(reader@) {
            Ok(v) => r matches Ok(Some(p)) && p@ == ControlPacketView::Subscribe(v),
            Err(e) => r == Err::<Option<ControlPacket>, MqttError>(e),
        },
{
    let mut pos: usize = 0;
    let packet_identifier = match read_u16(reader, &mut pos) {
        Ok(v) => v,
        Err(e) => {
            return Err(e);
        },
    };
    let pos1 = pos;
    let plen = match decode_variable_integer(reader, &mut pos) {
        Ok(v) => v,
        Err(e) => {
            return Err(e);
        },
    };
    let ghost k = pos as int - pos1 as int;
    if reader.len() - pos < plen as usize {
        return Err(MqttError::EndOfStream);
    }
    let region = read_vec(reader, &mut pos, plen as usize);
    assert(region@ =~= reader@.skip(2 + k).take(plen as int));
    let properties = match decode_subscribe_properties(&region) {
        Ok(p) => p,
        Err(e) => {
            return Err(e);
        },
    };
    let topic_filters = match decode_subscribe_payload(reader, pos) {
        Ok(v) => v,
        Err(e) => {
            return Err(e);
        },
    };
    Ok(Some(ControlPacket::Subscribe(Subscribe { packet_identifier, properties, topic_filters })))
}

/// The canonical body bytes of a Subscribe packet.
pub open spec fn spec_subscribe_body(v: SubscribeView) -> Seq<u8> {
    spec_u16_be(v.packet_identifier) + spec_varint(
        spec_subscribe_props_bytes(v.properties).len() as int,
    ) + spec_subscribe_props_bytes(v.properties) + spec_filters_bytes(v.topic_filters)
}

/// Size bounds under which the packet can be encoded.
pub open spec fn subscribe_wf(v: SubscribeView) -> bool {
    &&& subscribe_props_wf(v.properties)
    &&& (forall|i: int|
        0 <= i < v.topic_filters.len() ==> (#[trigger] v.topic_filters[i]).0.len() <= 0xFFFF)
    &&& spec_subscribe_body(v).len() <= VARINT_MAX
}

/// The stricter conditions under which decoding inverts encoding: every
/// filter carries at least one byte.
pub open spec fn subscribe_decodable(v: SubscribeView) -> bool {
    &&& subscribe_props_decodable(v.properties)
    &&& (forall|i: int|
        0 <= i < v.topic_filters.len() ==> 1 <= (#[trigger] v.topic_filters[i]).0.len())
}

/// Append the body of a Subscribe packet.
pub fn encode_subscribe(writer: &mut Vec<u8>, msg: &Subscribe) -> (r: Result<(), MqttError>)
    requires
        subscribe_wf(msg@),
    ensures
        r is Ok,
        final(writer)@ == old(writer)@ + spec_subscribe_body(msg@),
{
    let ghost mv = msg@;
    write_u16(writer, msg.packet_identifier);
    let _ = encode_subscribe_properties(writer, &msg.properties);
    let ghost mid = writer@;
    let n = msg.topic_filters.len();
    let mut i: usize = 0;
    while i < n
        invariant
            i <= n,
            n == msg.topic_filters@.len(),
            subscribe_wf(mv),
            mv == msg@,
            writer@ == mid + spec_filters_bytes(mv.topic_filters.take(i as int)),
        decreases n - i,
    {
        let f = &msg.topic_filters[i];
        proof {
            assert(mv.topic_filters[i as int] == (msg.topic_filters@[i as int].0@,
            msg.topic_filters@[i as int].1));
        }
        let _ = encode_utf8_string(writer, &f.0);
        write_u8(writer, f.1.as_u8());
        proof {
            lemma_filters_bytes_take_step(mv.topic_filters, i as int);
            assert(writer@ =~= mid + spec_filters_bytes(mv.topic_filters.take(i + 1)));
        }
        i = i + 1;
    }
    proof {
        assert(mv.topic_filters.take(n as int) =~= mv.topic_filters);
        assert(writer@ =~= old(writer)@ + spec_subscribe_body(mv));
    }
    Ok(())
}

impl RemainingLength for Subscribe {
    open spec fn spec_remaining_length(&self) -> int {
        spec_subscribe_body(self@).len() as int
    }

    open spec fn remaining_length_ok(&self) -> bool {
        subscribe_wf(self@)
    }

    /// The body length: identifier, properties region behind its length
    /// prefix, then the filters with their option bytes.
    fn remaining_length(&self) -> (r: usize) {
        let ghost mv = self@;
        let props_len = self.properties.size();
        proof {
            lemma_varint_len(props_len as int);
        }
        let vlen = crate::v5::encoder::varint_size(props_len as u32);
        let mut len: usize = 2 + vlen + props_len;
        let ghost base = len as int;
        let n = self.topic_filters.len();
        let mut i: usize = 0;
        while i < n
            invariant
                i <= n,
                n == self.topic_filters@.len(),
                subscribe_wf(mv),
                mv == self@,
                base == 2 + spec_varint_len(spec_subscribe_props_bytes(mv.properties).len() as int)
                    + spec_subscribe_props_bytes(mv.properties).len(),
                len == base + spec_filters_bytes(mv.topic_filters.take(i as int)).len(),
            decreases n - i,
        {
            let f = &self.topic_filters[i];
            proof {
                assert(mv.topic_filters[i as int] == (self.topic_filters@[i as int].0@,
                self.topic_filters@[i as int].1));
                lemma_filters_bytes_take_step(mv.topic_filters, i as int);
                lemma_filters_prefix_le(mv.topic_filters, i + 1);
                lemma_subscribe_body_parts(mv);
            }
            len = len + 2 + f.0.len() + 1;
            i = i + 1;
        }
        proof {
            assert(mv.topic_filters.take(n as int) =~= mv.topic_filters);
            lemma_subscribe_body_parts(mv);
        }
        len
    }
}

/// The body of a Subscribe packet is exactly its parts laid end to end.
pub proof fn lemma_subscribe_body_parts(v: SubscribeView)
    ensures
        spec_subscribe_body(v).len() == 2 + spec_varint(
            spec_subscribe_props_bytes(v.properties).len() as int,
        ).len() + spec_subscribe_props_bytes(v.properties).len() + spec_filters_bytes(
            v.topic_filters,
        ).len(),
{
}

/// Scanning the canonical properties of a Subscribe packet recovers them.
#[verifier::rlimit(100)]
#[verifier::spinoff_prover]
pub proof fn lemma_scan_subscribe_canonical(p: SubscribePropertiesView)
    requires
        subscribe_props_wf(p),
        subscribe_props_decodable(p),
    ensures
        spec_scan(PropertyFamily::Subscribe, spec_subscribe_props_bytes(p), BuilderView::init())
            matches Ok(bv) && bv.spec_subscribe() == p,
{
    let f = PropertyFamily::Subscribe;
    let init = BuilderView::init();
    let users = spec_user_props_bytes(p.user_properties);
    assert(spec_subscribe_props_bytes(p) =~= opt_varint_seg(0x0B, p.subscription_identifier)
        + users);
    lemma_scan_opt_varint(f, p.subscription_identifier, users, init);
    let b1 = match p.subscription_identifier {
        None => init,
        Some(v) => BuilderView { subscription_identifier: Some(v), ..init },
    };
    assert(users =~= users + Seq::<u8>::empty());
    lemma_scan_user_props(f, p.user_properties, Seq::empty(), b1);
    let b2 = BuilderView { user_properties: b1.user_properties + p.user_properties, ..b1 };
    assert(b2.user_properties =~= p.user_properties);
    assert(b2.spec_subscribe() =~= p);
}

/// Decoding inverts encoding for every well-formed Subscribe packet.
#[verifier::rlimit(100)]
#[verifier::spinoff_prover]
pub proof fn lemma_subscribe_round_trip(v: SubscribeView)
    requires
        subscribe_wf(v),
        subscribe_decodable(v),
    ensures
        spec_decode_subscribe(spec_subscribe_body(v)) == Ok::<SubscribeView, MqttError>(v),
{
    let props = spec_subscribe_props_bytes(v.properties);
    let filters = spec_filters_bytes(v.topic_filters);
    let s = spec_subscribe_body(v);
    let rest1 = spec_varint(props.len() as int) + props + filters;
    assert(s =~= spec_u16_be(v.packet_identifier) + rest1);
    crate::v5::decoder::lemma_u16_round_trip(v.packet_identifier, rest1);
    assert(s[0] == (spec_u16_be(v.packet_identifier) + rest1)[0]);
    assert(s[1] == (spec_u16_be(v.packet_identifier) + rest1)[1]);
    crate::v5::decoder::lemma_varint_round_trip(props.len() as int, props + filters);
    lemma_varint_len(props.len() as int);
    let k = spec_varint_len(props.len() as int);
    assert(s.skip(2) =~= spec_varint(props.len() as int) + (props + filters));
    assert(s.skip(2 + k).take(props.len() as int) =~= props);
    lemma_scan_subscribe_canonical(v.properties);
    assert(s.skip(2 + k + props.len() as int) =~= filters);
    lemma_filters_round_trip(v.topic_filters);
}

/// The canonical bytes of a reason-code list: one byte per code.
pub open spec fn spec_codes_bytes(cs: Seq<ReasonCode>) -> Seq<u8>
    decreases cs.len(),
{
    if cs.len() == 0 {
        seq![]
    } else {
        seq![cs[0].spec_as_u8()] + spec_codes_bytes(cs.drop_first())
    }
}

/// What decoding a reason-code list until the end of the region yields.
pub open spec fn spec_decode_codes(s: Seq<u8>) -> Result<Seq<ReasonCode>, MqttError>
    decreases s.len(),
{
    if s.len() == 0 {
        Ok(Seq::empty())
    } else {
        match ReasonCode::spec_try_from(s[0]) {
            Err(e) => Err(e),
            Ok(c) => match spec_decode_codes(s.drop_first()) {
                Err(e) => Err(e),
                Ok(rest) => Ok(seq![c] + rest),
            },
        }
    }
}

/// One more code appends its byte to the list's bytes.
pub proof fn lemma_codes_bytes_take_step(cs: Seq<ReasonCode>, i: int)
    requires
        0 <= i < cs.len(),
    ensures
        spec_codes_bytes(cs.take(i + 1)) == spec_codes_bytes(cs.take(i)) + seq![
            cs[i].spec_as_u8(),
        ],
    decreases i,
{
    if i == 0 {
        let one = cs.take(1);
        assert(one.drop_first() =~= Seq::<ReasonCode>::empty());
        assert(one[0] == cs[0]);
        assert(cs.take(0) =~= Seq::<ReasonCode>::empty());
        assert(spec_codes_bytes(one) =~= spec_codes_bytes(cs.take(0)) + seq![cs[0].spec_as_u8()]);
    } else {
        lemma_codes_bytes_take_step(cs.drop_first(), i - 1);
        assert(cs.take(i + 1).drop_first() =~= cs.drop_first().take(i));
        assert(cs.take(i).drop_first() =~= cs.drop_first().take(i - 1));
        assert(cs.take(i + 1)[0] == cs[0]);
        assert(cs.take(i)[0] == cs[0]);
        assert(cs.drop_first()[i - 1] == cs[i]);
        assert(spec_codes_bytes(cs.take(i + 1)) =~= spec_codes_bytes(cs.take(i)) + seq![
            cs[i].spec_as_u8(),
        ]);
    }
}

/// A code list takes exactly one byte per code.
pub proof fn lemma_codes_bytes_len(cs: Seq<ReasonCode>)
    ensures
        spec_codes_bytes(cs).len() == cs.len(),
    decreases cs.len(),
{
    if cs.len() > 0 {
        lemma_codes_bytes_len(cs.drop_first());
    }
}

/// Decoding inverts encoding for every reason-code list.
pub proof fn lemma_codes_round_trip(cs: Seq<ReasonCode>)
    ensures
        spec_decode_codes(spec_codes_bytes(cs)) == Ok::<Seq<ReasonCode>, MqttError>(cs),
    decreases cs.len(),
{
    if cs.len() == 0 {
        assert(spec_codes_bytes(cs) =~= Seq::<u8>::empty());
        assert(cs =~= Seq::<ReasonCode>::empty());
    } else {
        let rest = cs.drop_first();
        let s = spec_codes_bytes(cs);
        assert(s[0] == cs[0].spec_as_u8());
        crate::v5::types::lemma_reason_code_round_trip(cs[0]);
        assert(s.drop_first() =~= spec_codes_bytes(rest));
        lemma_codes_round_trip(rest);
        assert(seq![cs[0]] + rest =~= cs);
    }
}

/// What decoding a SubAck body yields: the packet identifier, the
/// acknowledgement properties, then one reason code per filter.
pub open spec fn spec_decode_suback(s: Seq<u8>) -> Result<SubAckView, MqttError> {
    if s.len() < 2 {
        Err(MqttError::EndOfStream)
    } else {
        let pid = spec_u16_of(s[0], s[1]);
        match spec_decode_varint(s.skip(2)) {
            Err(e) => Err(e),
            Ok((plen, k)) => if s.len() - 2 - k < plen as int {
                Err(MqttError::EndOfStream)
            } else {
                match spec_scan(
                    PropertyFamily::PubRes,
                    s.skip(2 + k).take(plen as int),
                    BuilderView::init(),
                ) {
                    Err(e) => Err(e),
                    Ok(bv) => match spec_decode_codes(s.skip(2 + k + plen as int)) {
                        Err(e) => Err(e),
                        Ok(cs) => Ok(
                            SubAckView {
                                packet_identifier: pid,
                                properties: bv.spec_pubres(),
                                reason_codes: cs,
                            },
                        ),
                    },
                }
            },
        }
    }
}

/// Decode reason codes from the given offset until the end of the buffer.
pub fn decode_suback_payload(reader: &Vec<u8>, from: usize) -> (r: Result<
    Vec<ReasonCode>,
    MqttError,
>)
    requires
        from <= reader@.len(),
    ensures
        match spec_decode_codes(reader@.skip(from as int)) {
            Ok(cs) => r matches Ok(v) && v@ == cs,
            Err(e) => r == Err::<Vec<ReasonCode>, MqttError>(e),
        },
{
    let ghost whole = reader@;
    let ghost start = from as int;
    let mut pos: usize = from;
    let mut out: Vec<ReasonCode> = Vec::new();
    let n = reader.len();
    assert(whole.skip(start) =~= whole.skip(pos as int));
    while pos < n
        invariant
            pos <= n,
            n == reader@.len(),
            whole == reader@,
            start == from as int,
            start <= pos as int,
            ({
                match spec_decode_codes(whole.skip(pos as int)) {
                    Ok(rest) => spec_decode_codes(whole.skip(start)) == Ok::<
                        Seq<ReasonCode>,
                        MqttError,
                    >(out@ + rest),
                    Err(e) => spec_decode_codes(whole.skip(start)) == Err::<
                        Seq<ReasonCode>,
                        MqttError,
                    >(e),
                }
            }),
        decreases n - pos,
    {
        let ghost s1 = whole.skip(pos as int);
        let ghost acc0 = out@;
        let b = match read_u8(reader, &mut pos) {
            Ok(v) => v,
            Err(e) => {
                return Err(e);
            },
        };
        assert(b == s1[0]);
        let c = match ReasonCode::try_from(b) {
            Ok(v) => v,
            Err(e) => {
                return Err(e);
            },
        };
        out.push(c);
        proof {
            assert(whole.skip(pos as int) =~= s1.drop_first());
            match spec_decode_codes(whole.skip(pos as int)) {
                Ok(rest) => {
                    assert(out@ + rest =~= acc0 + (seq![c] + rest));
                },
                Err(e) => {},
            }
        }
    }
    assert(whole.skip(n as int) =~= Seq::<u8>::empty());
    assert(out@ + Seq::<ReasonCode>::empty() =~= out@);
    Ok(out)
}

/// Decode the body of a SubAck or UnSubAck packet.
#[verifier::rlimit(100)]
#[verifier::spinoff_prover]
pub fn decode_suback(reader: &Vec<u8>) -> (r: Result<SubAck, MqttError>)
    ensures
        match spec_decode_suback(reader@) {
            Ok(v) => r matches Ok(p) && p@ == v,
            Err(e) => r == Err::<SubAck, MqttError>(e),
        },
{
    let mut pos: usize = 0;
    let packet_identifier = match read_u16(reader, &mut pos) {
        Ok(v) => v,
        Err(e) => {
            return Err(e);
        },
    };
    let pos1 = pos;
    let plen = match decode_variable_integer(reader, &mut pos) {
        Ok(v) => v,
        Err(e) => {
            return Err(e);
        },
    };
    let ghost k = pos as int - pos1 as int;
    if reader.len() - pos < plen as usize {
        return Err(MqttError::EndOfStream);
    }
    let region = read_vec(reader, &mut pos, plen as usize);
    assert(region@ =~= reader@.skip(2 + k).take(plen as int));
    let properties = match decode_response_properties(&region) {
        Ok(p) => p,
        Err(e) => {
            return Err(e);
        },
    };
    let reason_codes = match decode_suback_payload(reader, pos) {
        Ok(v) => v,
        Err(e) => {
            return Err(e);
        },
    };
    Ok(SubAck { packet_identifier, properties, reason_codes })
}

/// The canonical body bytes of a SubAck or UnSubAck packet.
pub open spec fn spec_suback_body(v: SubAckView) -> Seq<u8> {
    spec_u16_be(v.packet_identifier) + spec_varint(
        spec_response_props_bytes(v.properties).len() as int,
    ) + spec_response_props_bytes(v.properties) + spec_codes_bytes(v.reason_codes)
}

/// Size bounds under which the packet can be encoded.
pub open spec fn suback_wf(v: SubAckView) -> bool {
    &&& response_props_wf(v.properties)
    &&& spec_suback_body(v).len() <= VARINT_MAX
}

/// Append the body of a SubAck or UnSubAck packet.
pub fn encode_suback(writer: &mut Vec<u8>, msg: &SubAck) -> (r: Result<(), MqttError>)
    requires
        suback_wf(msg@),
    ensures
        r is Ok,
        final(writer)@ == old(writer)@ + spec_suback_body(msg@),
{
    let ghost mv = msg@;
    write_u16(writer, msg.packet_identifier);
    let _ = encode_response_properties(writer, &msg.properties);
    let ghost mid = writer@;
    let n = msg.reason_codes.len();
    let mut i: usize = 0;
    while i < n
        invariant
            i <= n,
            n == msg.reason_codes@.len(),
            mv == msg@,
            writer@ == mid + spec_codes_bytes(mv.reason_codes.take(i as int)),
        decreases n - i,
    {
        let c = msg.reason_codes[i];
        write_u8(writer, c.as_u8());
        proof {
            lemma_codes_bytes_take_step(mv.reason_codes, i as int);
            assert(writer@ =~= mid + spec_codes_bytes(mv.reason_codes.take(i + 1)));
        }
        i = i + 1;
    }
    proof {
        assert(mv.reason_codes.take(n as int) =~= mv.reason_codes);
        assert(writer@ =~= old(writer)@ + spec_suback_body(mv));
    }
    Ok(())
}

impl RemainingLength for SubAck {
    open spec fn spec_remaining_length(&self) -> int {
        spec_suback_body(self@).len() as int
    }

    open spec fn remaining_length_ok(&self) -> bool {
        suback_wf(self@)
    }

    /// The body length: identifier, the acknowledgement properties region,
    /// then one byte per reason code.
    fn remaining_length(&self) -> (r: usize) {
        let props_len = self.properties.size();
        proof {
            lemma_varint_len(props_len as int);
            lemma_codes_bytes_len(self@.reason_codes);
            lemma_suback_body_parts(self@);
        }
        let vlen = crate::v5::encoder::varint_size(props_len as u32);
        2 + vlen + props_len + self.reason_codes.len()
    }
}

/// The body of a SubAck packet is exactly its parts laid end to end.
pub proof fn lemma_suback_body_parts(v: SubAckView)
    ensures
        spec_suback_body(v).len() == 2 + spec_varint(
            spec_response_props_bytes(v.properties).len() as int,
        ).len() + spec_response_props_bytes(v.properties).len() + spec_codes_bytes(
            v.reason_codes,
        ).len(),
{
}

/// Decoding inverts encoding for every well-formed SubAck packet.
#[verifier::rlimit(100)]
#[verifier::spinoff_prover]
pub proof fn lemma_suback_round_trip(v: SubAckView)
    requires
        suback_wf(v),
        response_props_decodable(v.properties),
    ensures
        spec_decode_suback(spec_suback_body(v)) == Ok::<SubAckView, MqttError>(v),
{
    let props = spec_response_props_bytes(v.properties);
    let codes = spec_codes_bytes(v.reason_codes);
    let s = spec_suback_body(v);
    let rest1 = spec_varint(props.len() as int) + props + codes;
    assert(s =~= spec_u16_be(v.packet_identifier) + rest1);
    crate::v5::decoder::lemma_u16_round_trip(v.packet_identifier, rest1);
    assert(s[0] == (spec_u16_be(v.packet_identifier) + rest1)[0]);
    assert(s[1] == (spec_u16_be(v.packet_identifier) + rest1)[1]);
    crate::v5::decoder::lemma_varint_round_trip(props.len() as int, props + codes);
    lemma_varint_len(props.len() as int);
    let k = spec_varint_len(props.len() as int);
    assert(s.skip(2) =~= spec_varint(props.len() as int) + (props + codes));
    assert(s.skip(2 + k).take(props.len() as int) =~= props);
    crate::v5::pubres::lemma_scan_response_canonical(v.properties);
    assert(s.skip(2 + k + props.len() as int) =~= codes);
    lemma_codes_round_trip(v.reason_codes);
}

} // verus!
