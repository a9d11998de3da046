use vstd::prelude::*;

verus! {

use crate::v5::decoder::decode_variable_integer;
use crate::v5::decoder::decode_utf8_string;
use crate::v5::decoder::read_u16;
use crate::v5::decoder::read_u8;
use crate::v5::decoder::read_vec;
use crate::v5::decoder::spec_decode_varint;
use crate::v5::decoder::spec_u16_of;
use crate::v5::encoder::encode_utf8_string;
use crate::v5::encoder::encode_variable_integer;
use crate::v5::encoder::lemma_varint_len;
use crate::v5::encoder::spec_len_prefixed;
use crate::v5::encoder::spec_u16_be;
use crate::v5::encoder::spec_varint;
use crate::v5::encoder::spec_varint_len;
use crate::v5::encoder::write_u16;
use crate::v5::encoder::write_u8;
use crate::v5::encoder::RemainingLength;
use crate::v5::encoder::VARINT_MAX;
use crate::v5::error::MqttError;
use crate::v5::property::lemma_scan_opt_str;
use crate::v5::property::lemma_scan_user_props;
use crate::v5::property::lemma_user_props_bytes_take_step;
use crate::v5::property::lemma_user_props_prefix_le;
use crate::v5::property::opt_str_seg;
use crate::v5::property::spec_scan;
use crate::v5::property::spec_user_props_bytes;
use crate::v5::property::BuilderView;
use crate::v5::property::PropertiesBuilder;
use crate::v5::property::PropertiesSize;
use crate::v5::property::Property;
use crate::v5::property::PropertyFamily;
use crate::v5::property::ResponseProperties;
use crate::v5::property::ResponsePropertiesView;
use crate::v5::types::PublishResponse;
use crate::v5::types::PublishResponseView;
use crate::v5::types::ReasonCode;

/// The canonical bytes of an acknowledgement's properties region.
pub open spec fn spec_response_props_bytes(p: ResponsePropertiesView) -> Seq<u8> {
    opt_str_seg(0x1F, p.reason_string) + spec_user_props_bytes(p.user_properties)
}

/// Size bounds under which the properties can be encoded.
pub open spec fn response_props_wf(p: ResponsePropertiesView) -> bool {
    &&& (p.reason_string matches Some(s) ==> s.len() <= 0xFFFF)
    &&& (forall|i: int|
        0 <= i < p.user_properties.len() ==> (#[trigger] p.user_properties[i]).0.len() <= 0xFFFF
            && p.user_properties[i].1.len() <= 0xFFFF)
    &&& spec_response_props_bytes(p).len() <= VARINT_MAX
}

/// The stricter conditions under which decoding inverts encoding: optional
/// strings and user-property halves carry at least one byte.
pub open spec fn response_props_decodable(p: ResponsePropertiesView) -> bool {
    &&& (p.reason_string matches Some(s) ==> 1 <= s.len())
    &&& (forall|i: int|
        0 <= i < p.user_properties.len() ==> 1 <= (#[trigger] p.user_properties[i]).0.len() && 1
            <= p.user_properties[i].1.len())
}

impl PropertiesSize for ResponseProperties {
    open spec fn spec_size(&self) -> int {
        spec_response_props_bytes(self@).len() as int
    }

    open spec fn size_ok(&self) -> bool {
        response_props_wf(self@)
    }

    /// How many bytes the properties region takes on the wire.
    fn size(&self) -> (r: usize) {
        let ghost pv = self@;
        let mut len: usize = 0;
        match &self.reason_string {
            Some(s) => {
                len = 3 + s.len();
            },
            None => {},
        }
        let ghost base = len as int;
        assert(base == opt_str_seg(0x1F, pv.reason_string).len());
        let mut i: usize = 0;
        let n = self.user_properties.len();
        while i < n
            invariant
                i <= n,
                n == self.user_properties@.len(),
                response_props_wf(pv),
                pv == self@,
                base == opt_str_seg(0x1F, pv.reason_string).len(),
                len == base + spec_user_props_bytes(pv.user_properties.take(i as int)).len(),
            decreases n - i,
        {
            let pair = &self.user_properties[i];
            proof {
                assert(pv.user_properties[i as int] == (self.user_properties@[i as int].0@,
                self.user_properties@[i as int].1@));
                lemma_user_props_bytes_take_step(pv.user_properties, i as int);
                lemma_user_props_prefix_le(pv.user_properties, i + 1);
            }
            len = len + 5 + pair.0.len() + pair.1.len();
            i = i + 1;
        }
        proof {
            assert(pv.user_properties.take(n as int) =~= pv.user_properties);
        }
        len
    }
}

/// Append a whole properties region: its length as a varint, then the
/// canonical segments.
pub fn encode_response_properties(writer: &mut Vec<u8>, p: &ResponseProperties) -> (r: Result<
    (),
    MqttError,
>)
    requires
        response_props_wf(p@),
    ensures
        r is Ok,
        final(writer)@ == old(writer)@ + spec_varint(spec_response_props_bytes(p@).len() as int)
            + spec_response_props_bytes(p@),
{
    let ghost pv = p@;
    let len = p.size();
    let _ = encode_variable_integer(writer, len as u32);
    let ghost mid = writer@;
    match &p.reason_string {
        Some(s) => {
            write_u8(writer, 0x1F);
            let _ = encode_utf8_string(writer, s);
        },
        None => {},
    }
    assert(writer@ =~= mid + opt_str_seg(0x1F, pv.reason_string));
    let ghost mid2 = writer@;
    let n = p.user_properties.len();
    let mut i: usize = 0;
    while i < n
        invariant
            i <= n,
            n == p.user_properties@.len(),
            response_props_wf(pv),
            pv == p@,
            writer@ == mid2 + spec_user_props_bytes(pv.user_properties.take(i as int)),
        decreases n - i,
    {
        let pair = &p.user_properties[i];
        proof {
            assert(pv.user_properties[i as int] == (p.user_properties@[i as int].0@,
            p.user_properties@[i as int].1@));
        }
        write_u8(writer, 0x26);
        let _ = encode_utf8_string(writer, &pair.0);
        let _ = encode_utf8_string(writer, &pair.1);
        proof {
            lemma_user_props_bytes_take_step(pv.user_properties, i as int);
            assert(writer@ =~= mid2 + spec_user_props_bytes(
                pv.user_properties.take(i + 1),
            ));
        }
        i = i + 1;
    }
    proof {
        assert(pv.user_properties.take(n as int) =~= pv.user_properties);
        assert(writer@ =~= old(writer)@ + spec_varint(spec_response_props_bytes(pv).len() as int)
            + spec_response_props_bytes(pv));
    }
    Ok(())
}

/// Decode an acknowledgement's properties region, which holds only a reason
/// string and user properties.
#[verifier::rlimit(100)]
#[verifier::spinoff_prover]
pub fn decode_response_properties(reader: &Vec<u8>) -> (r: Result<ResponseProperties, MqttError>)
    ensures
        match spec_scan(PropertyFamily::PubRes, reader@, BuilderView::init()) {
            Ok(bv) => r matches Ok(p) && p@ == bv.spec_pubres(),
            Err(e) => r == Err::<ResponseProperties, MqttError>(e),
        },
{
    let ghost whole = reader@;
    let mut builder = PropertiesBuilder::default();
    let mut pos: usize = 0;
    let n = reader.len();
    assert(whole.skip(0) =~= whole);
    while pos < n
        invariant
            pos <= n,
            n == reader@.len(),
            whole == reader@,
            spec_scan(PropertyFamily::PubRes, whole.skip(pos as int), builder@) == spec_scan(
                PropertyFamily::PubRes,
                whole,
                BuilderView::init(),
            ),
        decreases n - pos,
    {
        let ghost s1 = whole.skip(pos as int);
        let ghost b0 = builder@;
        let pos0 = pos;
        let id = match decode_variable_integer(reader, &mut pos) {
            Ok(v) => v,
            Err(e) => {
                return Err(e);
            },
        };
        let ghost k = pos as int - pos0 as int;
        let property = match Property::try_from(id) {
            Ok(p) => p,
            Err(e) => {
                return Err(e);
            },
        };
        assert(whole.skip(pos as int) =~= s1.skip(k));
        match property {
            Property::ReasonString => {
                let pos1 = pos;
                let s = match decode_utf8_string(reader, &mut pos) {
                    Ok(v) => v,
                    Err(e) => {
                        return Err(e);
                    },
                };
                let ghost m = pos as int - pos1 as int;
                builder = match builder.reason_string(s) {
                    Ok(b) => b,
                    Err(e) => {
                        return Err(e);
                    },
                };
                assert(whole.skip(pos as int) =~= s1.skip(k + m));
            },
            Property::UserProperty => {
                let pos1 = pos;
                let key = match decode_utf8_string(reader, &mut pos) {
                    Ok(v) => v,
                    Err(e) => {
                        return Err(e);
                    },
                };
                let ghost m1 = pos as int - pos1 as int;
                assert(whole.skip(pos as int) =~= s1.skip(k).skip(m1));
                let value = match decode_utf8_string(reader, &mut pos) {
                    Ok(v) => v,
                    Err(e) => {
                        return Err(e);
                    },
                };
                let ghost m = pos as int - pos1 as int;
                match (key, value) {
                    (Some(kk), Some(vv)) => {
                        builder = builder.user_property((kk, vv));
                    },
                    _ => {},
                }
                assert(whole.skip(pos as int) =~= s1.skip(k + m));
            },
            other => {
                return Err(MqttError::UnacceptableProperty(other));
            },
        }
    }
    assert(whole.skip(n as int) =~= Seq::<u8>::empty());
    Ok(builder.pubres())
}

/// What decoding an acknowledgement body yields: the packet identifier, then
/// an optional reason code and properties; a two-byte body means success with
/// no properties.
pub open spec fn spec_decode_response(s: Seq<u8>) -> Result<PublishResponseView, MqttError> {
    if s.len() < 2 {
        Err(MqttError::EndOfStream)
    } else {
        let pid = spec_u16_of(s[0], s[1]);
        if s.len() == 2 {
            Ok(
                PublishResponseView {
                    packet_identifier: pid,
                    reason_code: ReasonCode::Success,
                    properties: ResponsePropertiesView {
                        reason_string: None,
                        user_properties: Seq::empty(),
                    },
                },
            )
        } else {
            match ReasonCode::spec_try_from(s[2]) {
                Err(e) => Err(e),
                Ok(rc) => match spec_decode_varint(s.skip(3)) {
                    Err(e) => Err(e),
                    Ok((plen, k)) => if s.len() - 3 - k < plen as int {
                        Err(MqttError::EndOfStream)
                    } else {
                        match spec_scan(
                            PropertyFamily::PubRes,
                            s.skip(3 + k).take(plen as int),
                            BuilderView::init(),
                        ) {
                            Err(e) => Err(e),
                            Ok(bv) => Ok(
                                PublishResponseView {
                                    packet_identifier: pid,
                                    reason_code: rc,
                                    properties: bv.spec_pubres(),
                                },
                            ),
                        }
                    },
                },
            }
        }
    }
}

/// Decode the body of a PubAck, PubRec, PubRel or PubComp packet.
pub fn decode_publish_response(reader: &Vec<u8>) -> (r: Result<PublishResponse, MqttError>)
    ensures
        match spec_decode_response(reader@) {
            Ok(v) => r matches Ok(p) && p@ == v,
            Err(e) => r == Err::<PublishResponse, MqttError>(e),
        },
{
    let mut pos: usize = 0;
    let packet_identifier = match read_u16(reader, &mut pos) {
        Ok(v) => v,
        Err(e) => {
            return Err(e);
        },
    };
    if reader.len() == 2 {
        return Ok(
            PublishResponse {
                packet_identifier,
                reason_code: ReasonCode::Success,
                properties: ResponseProperties { reason_string: None, user_properties: Vec::new() },
            },
        );
    }
    let b = match read_u8(reader, &mut pos) {
        Ok(v) => v,
        Err(e) => {
            return Err(e);
        },
    };
    let reason_code = match ReasonCode::try_from(b) {
        Ok(v) => v,
        Err(e) => {
            return Err(e);
        },
    };
    let ghost k = 0int;
    let pos3 = pos;
    let plen = match decode_variable_integer(reader, &mut pos) {
        Ok(v) => v,
        Err(e) => {
            proof {
                assert(reader@.skip(3) =~= reader@.skip(pos3 as int));
            }
            return Err(e);
        },
    };
    let ghost k = pos as int - pos3 as int;
    assert(reader@.skip(3) =~= reader@.skip(pos3 as int));
    if reader.len() - pos < plen as usize {
        return Err(MqttError::EndOfStream);
    }
    let region = read_vec(reader, &mut pos, plen as usize);
    assert(region@ =~= reader@.skip(3 + k).take(plen as int));
    let properties = match decode_response_properties(&region) {
        Ok(p) => p,
        Err(e) => {
            return Err(e);
        },
    };
    Ok(PublishResponse { packet_identifier, reason_code, properties })
}

/// The canonical body bytes of an acknowledgement packet.
pub open spec fn spec_response_body(v: PublishResponseView) -> Seq<u8> {
    spec_u16_be(v.packet_identifier) + seq![v.reason_code.spec_as_u8()] + spec_varint(
        spec_response_props_bytes(v.properties).len() as int,
    ) + spec_response_props_bytes(v.properties)
}

/// Size bounds under which the packet can be encoded.
pub open spec fn response_wf(v: PublishResponseView) -> bool {
    response_props_wf(v.properties)
}

/// Append the body of a PubAck, PubRec, PubRel or PubComp packet.
pub fn encode_publish_response(writer: &mut Vec<u8>, msg: &PublishResponse) -> (r: Result<
    (),
    MqttError,
>)
    requires
        response_wf(msg@),
    ensures
        r is Ok,
        final(writer)@ == old(writer)@ + spec_response_body(msg@),
{
    write_u16(writer, msg.packet_identifier);
    write_u8(writer, msg.reason_code.as_u8());
    let _ = encode_response_properties(writer, &msg.properties);
    assert(final(writer)@ =~= old(writer)@ + spec_response_body(msg@));
    Ok(())
}

impl RemainingLength for PublishResponse {
    open spec fn spec_remaining_length(&self) -> int {
        spec_response_body(self@).len() as int
    }

    open spec fn remaining_length_ok(&self) -> bool {
        response_wf(self@)
    }

    /// The body length: identifier, reason code, then the properties region
    /// behind its length prefix.
    fn remaining_length(&self) -> (r: usize) {
        let props_len = self.properties.size();
        proof {
            lemma_varint_len(props_len as int);
        }
        let vlen = crate::v5::encoder::varint_size(props_len as u32);
        3 + vlen + props_len
    }
}

/// Decoding inverts encoding for every well-formed acknowledgement packet.
#[verifier::rlimit(100)]
#[verifier::spinoff_prover]
pub proof fn lemma_response_round_trip(v: PublishResponseView)
    requires
        response_wf(v),
        response_props_decodable(v.properties),
    ensures
        spec_decode_response(spec_response_body(v)) == Ok::<PublishResponseView, MqttError>(v),
{
    let props = spec_response_props_bytes(v.properties);
    let s = spec_response_body(v);
    let rest1 = seq![v.reason_code.spec_as_u8()] + spec_varint(props.len() as int) + props;
    assert(s =~= spec_u16_be(v.packet_identifier) + rest1);
    crate::v5::decoder::lemma_u16_round_trip(v.packet_identifier, rest1);
    assert(s[0] == (spec_u16_be(v.packet_identifier) + rest1)[0]);
    assert(s[1] == (spec_u16_be(v.packet_identifier) + rest1)[1]);
    crate::v5::types::lemma_reason_code_round_trip(v.reason_code);
    assert(s.len() > 2);
    assert(s[2] == v.reason_code.spec_as_u8());
    crate::v5::decoder::lemma_varint_round_trip(props.len() as int, props);
    lemma_varint_len(props.len() as int);
    let k = spec_varint_len(props.len() as int);
    assert(s.skip(3) =~= spec_varint(props.len() as int) + props);
    assert(s.skip(3 + k).take(props.len() as int) =~= props);
    lemma_scan_response_canonical(v.properties);
}

/// Scanning the canonical properties of an acknowledgement recovers them.
pub proof fn lemma_scan_response_canonical(p: ResponsePropertiesView)
    requires
        response_props_wf(p),
        response_props_decodable(p),
    ensures
        spec_scan(PropertyFamily::PubRes, spec_response_props_bytes(p), BuilderView::init())
            matches Ok(bv) && bv.spec_pubres() == p,
{
    let f = PropertyFamily::PubRes;
    let init = BuilderView::init();
    let users = spec_user_props_bytes(p.user_properties);
    assert(spec_response_props_bytes(p) =~= opt_str_seg(0x1F, p.reason_string) + users);
    lemma_scan_opt_str(f, Property::ReasonString, p.reason_string, users, init);
    let b1 = match p.reason_string {
        None => init,
        Some(s) => BuilderView { reason_string: Some(s), ..init },
    };
    assert(users =~= users + Seq::<u8>::empty());
    lemma_scan_user_props(f, p.user_properties, Seq::empty(), b1);
    let b2 = BuilderView { user_properties: b1.user_properties + p.user_properties, ..b1 };
    assert(b2.user_properties =~= p.user_properties);
    assert(b2.spec_pubres() =~= p);
}

} // verus!
