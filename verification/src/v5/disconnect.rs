use vstd::prelude::*;

verus! {

use crate::v5::decoder::decode_utf8_string;
use crate::v5::decoder::decode_variable_integer;
use crate::v5::decoder::read_u32;
use crate::v5::decoder::read_u8;
use crate::v5::decoder::read_vec;
use crate::v5::decoder::spec_decode_varint;
use crate::v5::encoder::encode_utf8_string;
use crate::v5::encoder::encode_variable_integer;
use crate::v5::encoder::lemma_varint_len;
use crate::v5::encoder::spec_varint;
use crate::v5::encoder::spec_varint_len;
use crate::v5::encoder::write_u32;
use crate::v5::encoder::write_u8;
use crate::v5::encoder::RemainingLength;
use crate::v5::encoder::VARINT_MAX;
use crate::v5::error::MqttError;
use crate::v5::property::lemma_scan_opt_str;
use crate::v5::property::lemma_scan_opt_u32;
use crate::v5::property::lemma_scan_user_props;
use crate::v5::property::lemma_user_props_bytes_take_step;
use crate::v5::property::lemma_user_props_prefix_le;
use crate::v5::property::opt_str_seg;
use crate::v5::property::opt_u32_seg;
use crate::v5::property::spec_scan;
use crate::v5::property::spec_user_props_bytes;
use crate::v5::property::BuilderView;
use crate::v5::property::DisconnectProperties;
use crate::v5::property::DisconnectPropertiesView;
use crate::v5::property::PropertiesBuilder;
use crate::v5::property::PropertiesSize;
use crate::v5::property::Property;
use crate::v5::property::PropertyFamily;
use crate::v5::property::PropVal;
use crate::v5::types::ControlPacket;
use crate::v5::types::ControlPacketView;
use crate::v5::types::Disconnect;
use crate::v5::types::DisconnectView;
use crate::v5::types::ReasonCode;

/// The canonical bytes of a Disconnect packet's properties region.
pub open spec fn spec_disconnect_props_bytes(p: DisconnectPropertiesView) -> Seq<u8> {
    opt_u32_seg(0x11, p.session_expire_interval) + opt_str_seg(0x1F, p.reason_string)
        + spec_user_props_bytes(p.user_properties) + opt_str_seg(0x1C, p.server_reference)
}

/// Size bounds under which the properties can be encoded.
pub open spec fn disconnect_props_wf(p: DisconnectPropertiesView) -> bool {
    &&& (p.reason_string matches Some(s) ==> s.len() <= 0xFFFF)
    &&& (p.server_reference matches Some(s) ==> s.len() <= 0xFFFF)
    &&& (forall|i: int|
        0 <= i < p.user_properties.len() ==> (#[trigger] p.user_properties[i]).0.len() <= 0xFFFF
            && p.user_properties[i].1.len() <= 0xFFFF)
    &&& spec_disconnect_props_bytes(p).len() <= VARINT_MAX
}

/// The stricter conditions under which decoding inverts encoding.
pub open spec fn disconnect_props_decodable(p: DisconnectPropertiesView) -> bool {
    &&& (p.reason_string matches Some(s) ==> 1 <= s.len())
    &&& (p.server_reference matches Some(s) ==> 1 <= s.len())
    &&& (forall|i: int|
        0 <= i < p.user_properties.len() ==> 1 <= (#[trigger] p.user_properties[i]).0.len() && 1
            <= p.user_properties[i].1.len())
}

impl PropertiesSize for DisconnectProperties {
    open spec fn spec_size(&self) -> int {
        spec_disconnect_props_bytes(self@).len() as int
    }

    open spec fn size_ok(&self) -> bool {
        disconnect_props_wf(self@)
    }

    /// How many bytes the properties region takes on the wire.
    fn size(&self) -> (r: usize) {
        let ghost pv = self@;
        let mut len: usize = 0;
        if self.session_expire_interval.is_some() {
            len = 5;
        }
        match &self.reason_string {
            Some(s) => {
                len = len + 3 + s.len();
            },
            None => {},
        }
        let ghost base = len as int;
        assert(base == opt_u32_seg(0x11, pv.session_expire_interval).len() + opt_str_seg(
            0x1F,
            pv.reason_string,
        ).len());
        let mut i: usize = 0;
        let n = self.user_properties.len();
        while i < n
            invariant
                i <= n,
                n == self.user_properties@.len(),
                disconnect_props_wf(pv),
                pv == self@,
                base == opt_u32_seg(0x11, pv.session_expire_interval).len() + opt_str_seg(
                    0x1F,
                    pv.reason_string,
                ).len(),
                len == base + spec_user_props_bytes(pv.user_properties.take(i as int)).len(),
            decreases n - i,
        {
            let pair = &self.user_properties[i];
            proof {
                assert(pv.user_properties[i as int] == (self.user_properties@[i as int].0@,
                self.user_properties@[i as int].1@));
                lemma_user_props_bytes_take_step(pv.user_properties, i as int);
                lemma_user_props_prefix_le(pv.user_properties, i + 1);
            }
            len = len + 5 + pair.0.len() + pair.1.len();
            i = i + 1;
        }
        proof {
            assert(pv.user_properties.take(n as int) =~= pv.user_properties);
        }
        match &self.server_reference {
            Some(s) => {
                len = len + 3 + s.len();
            },
            None => {},
        }
        len
    }
}

/// Append a whole Disconnect properties region: its length as a varint, then
/// the canonical segments.
pub fn encode_disconnect_properties(writer: &mut Vec<u8>, p: &DisconnectProperties) -> (r: Result<
    (),
    MqttError,
>)
    requires
        disconnect_props_wf(p@),
    ensures
        r is Ok,
        final(writer)@ == old(writer)@ + spec_varint(spec_disconnect_props_bytes(p@).len() as int)
            + spec_disconnect_props_bytes(p@),
{
    let ghost pv = p@;
    let len = p.size();
    let _ = encode_variable_integer(writer, len as u32);
    let ghost mid = writer@;
    match &p.session_expire_interval {
        Some(v) => {
            write_u8(writer, 0x11);
            write_u32(writer, *v);
        },
        None => {},
    }
    assert(writer@ =~= mid + opt_u32_seg(0x11, pv.session_expire_interval));
    match &p.reason_string {
        Some(s) => {
            write_u8(writer, 0x1F);
            let _ = encode_utf8_string(writer, s);
        },
        None => {},
    }
    assert(writer@ =~= mid + opt_u32_seg(0x11, pv.session_expire_interval) + opt_str_seg(
        0x1F,
        pv.reason_string,
    ));
    let ghost mid2 = writer@;
    let n = p.user_properties.len();
    let mut i: usize = 0;
    while i < n
        invariant
            i <= n,
            n == p.user_properties@.len(),
            disconnect_props_wf(pv),
            pv == p@,
            writer@ == mid2 + spec_user_props_bytes(pv.user_properties.take(i as int)),
        decreases n - i,
    {
        let pair = &p.user_properties[i];
        proof {
            assert(pv.user_properties[i as int] == (p.user_properties@[i as int].0@,
            p.user_properties@[i as int].1@));
        }
        write_u8(writer, 0x26);
        let _ = encode_utf8_string(writer, &pair.0);
        let _ = encode_utf8_string(writer, &pair.1);
        proof {
            lemma_user_props_bytes_take_step(pv.user_properties, i as int);
            assert(writer@ =~= mid2 + spec_user_props_bytes(pv.user_properties.take(i + 1)));
        }
        i = i + 1;
    }
    proof {
        assert(pv.user_properties.take(n as int) =~= pv.user_properties);
    }
    match &p.server_reference {
        Some(s) => {
            write_u8(writer, 0x1C);
            let _ = encode_utf8_string(writer, s);
        },
        None => {},
    }
    assert(writer@ =~= old(writer)@ + spec_varint(spec_disconnect_props_bytes(pv).len() as int)
        + spec_disconnect_props_bytes(pv));
    Ok(())
}

/// Decode a Disconnect packet's properties region.
#[verifier::rlimit(100)]
#[verifier::spinoff_prover]
pub fn decode_disconnect_properties(reader: &Vec<u8>) -> (r: Result<
    DisconnectProperties,
    MqttError,
>)
    ensures
        match spec_scan(PropertyFamily::Disconnect, reader@, BuilderView::init()) {
            Ok(bv) => r matches Ok(p) && p@ == bv.spec_disconnect(),
            Err(e) => r == Err::<DisconnectProperties, MqttError>(e),
        },
{
    let ghost whole = reader@;
    let mut builder = PropertiesBuilder::default();
    let mut pos: usize = 0;
    let n = reader.len();
    assert(whole.skip(0) =~= whole);
    while pos < n
        invariant
            pos <= n,
            n == reader@.len(),
            whole == reader@,
            spec_scan(PropertyFamily::Disconnect, whole.skip(pos as int), builder@) == spec_scan(
                PropertyFamily::Disconnect,
                whole,
                BuilderView::init(),
            ),
        decreases n - pos,
    {
        let ghost s1 = whole.skip(pos as int);
        let pos0 = pos;
        let id = match decode_variable_integer(reader, &mut pos) {
            Ok(v) => v,
            Err(e) => {
                return Err(e);
            },
        };
        let ghost k = pos as int - pos0 as int;
        let property = match Property::try_from(id) {
            Ok(p) => p,
            Err(e) => {
                return Err(e);
            },
        };
        assert(whole.skip(pos as int) =~= s1.skip(k));
        match property {
            Property::SessionExpireInterval => {
                let v = match read_u32(reader, &mut pos) {
                    Ok(v) => v,
                    Err(e) => {
                        return Err(e);
                    },
                };
                builder = match builder.session_expire_interval(v) {
                    Ok(b) => b,
                    Err(e) => {
                        return Err(e);
                    },
                };
                assert(whole.skip(pos as int) =~= s1.skip(k + 4));
            },
            Property::ReasonString => {
                let pos1 = pos;
                let s = match decode_utf8_string(reader, &mut pos) {
                    Ok(v) => v,
                    Err(e) => {
                        return Err(e);
                    },
                };
                let ghost m = pos as int - pos1 as int;
                builder = match builder.reason_string(s) {
                    Ok(b) => b,
                    Err(e) => {
                        return Err(e);
                    },
                };
                assert(whole.skip(pos as int) =~= s1.skip(k + m));
            },
            Property::ServerReference => {
                let pos1 = pos;
                let s = match decode_utf8_string(reader, &mut pos) {
                    Ok(v) => v,
                    Err(e) => {
                        return Err(e);
                    },
                };
                let ghost m = pos as int - pos1 as int;
                builder = match builder.server_reference(s) {
                    Ok(b) => b,
                    Err(e) => {
                        return Err(e);
                    },
                };
                assert(whole.skip(pos as int) =~= s1.skip(k + m));
            },
            Property::UserProperty => {
                let pos1 = pos;
                let key = match decode_utf8_string(reader, &mut pos) {
                    Ok(v) => v,
                    Err(e) => {
                        return Err(e);
                    },
                };
                let ghost m1 = pos as int - pos1 as int;
                assert(whole.skip(pos as int) =~= s1.skip(k).skip(m1));
                let value = match decode_utf8_string(reader, &mut pos) {
                    Ok(v) => v,
                    Err(e) => {
                        return Err(e);
                    },
                };
                let ghost m = pos as int - pos1 as int;
                match (key, value) {
                    (Some(kk), Some(vv)) => {
                        builder = builder.user_property((kk, vv));
                    },
                    _ => {},
                }
                assert(whole.skip(pos as int) =~= s1.skip(k + m));
            },
            other => {
                return Err(MqttError::UnacceptableProperty(other));
            },
        }
    }
    assert(whole.skip(n as int) =~= Seq::<u8>::empty());
    Ok(builder.disconnect())
}

/// The properties of an empty Disconnect body: all absent.
pub open spec fn spec_empty_disconnect_props() -> DisconnectPropertiesView {
    DisconnectPropertiesView {
        session_expire_interval: None,
        reason_string: None,
        user_properties: Seq::empty(),
        server_reference: None,
    }
}

/// What decoding a Disconnect body yields: both the reason code and the
/// properties may be absent, defaulting to success with no properties.
pub open spec fn spec_decode_disconnect(s: Seq<u8>) -> Result<DisconnectView, MqttError> {
    if s.len() == 0 {
        Ok(
            DisconnectView {
                reason_code: ReasonCode::Success,
                properties: spec_empty_disconnect_props(),
            },
        )
    } else {
        match ReasonCode::spec_try_from(s[0]) {
            Err(e) => Err(e),
            Ok(rc) => if s.len() == 1 {
                Ok(DisconnectView { reason_code: rc, properties: spec_empty_disconnect_props() })
            } else {
                match spec_decode_varint(s.skip(1)) {
                    Err(e) => Err(e),
                    Ok((plen, k)) => if s.len() - 1 - k < plen as int {
                        Err(MqttError::EndOfStream)
                    } else {
                        match spec_scan(
                            PropertyFamily::Disconnect,
                            s.skip(1 + k).take(plen as int),
                            BuilderView::init(),
                        ) {
                            Err(e) => Err(e),
                            Ok(bv) => Ok(
                                DisconnectView { reason_code: rc, properties: bv.spec_disconnect() },
                            ),
                        }
                    },
                }
            },
        }
    }
}

/// Decode the body of a Disconnect packet.
pub fn decode_disconnect(reader: &Vec<u8>) -> (r: Result<Option<ControlPacket>, MqttError>)
    ensures
        match spec_decode_disconnect(reader@) {
            Ok(v) => r matches Ok(Some(p)) && p@ == ControlPacketView::Disconnect(v),
            Err(e) => r == Err::<Option<ControlPacket>, MqttError>(e),
        },
{
    let mut pos: usize = 0;
    if reader.len() == 0 {
        return Ok(
            Some(
                ControlPacket::Disconnect(
                    Disconnect {
                        reason_code: ReasonCode::Success,
                        properties: DisconnectProperties {
                            session_expire_interval: None,
                            reason_string: None,
                            user_properties: Vec::new(),
                            server_reference: None,
                        },
                    },
                ),
            ),
        );
    }
    let b = match read_u8(reader, &mut pos) {
        Ok(v) => v,
        Err(e) => {
            return Err(e);
        },
    };
    let reason_code = match ReasonCode::try_from(b) {
        Ok(v) => v,
        Err(e) => {
            return Err(e);
        },
    };
    if reader.len() == 1 {
        return Ok(
            Some(
                ControlPacket::Disconnect(
                    Disconnect {
                        reason_code,
                        properties: DisconnectProperties {
                            session_expire_interval: None,
                            reason_string: None,
                            user_properties: Vec::new(),
                            server_reference: None,
                        },
                    },
                ),
            ),
        );
    }
    let pos1 = pos;
    let plen = match decode_variable_integer(reader, &mut pos) {
        Ok(v) => v,
        Err(e) => {
            return Err(e);
        },
    };
    let ghost k = pos as int - pos1 as int;
    if reader.len() - pos < plen as usize {
        return Err(MqttError::EndOfStream);
    }
    let region = read_vec(reader, &mut pos, plen as usize);
    assert(region@ =~= reader@.skip(1 + k).take(plen as int));
    let properties = match decode_disconnect_properties(&region) {
        Ok(p) => p,
        Err(e) => {
            return Err(e);
        },
    };
    Ok(Some(ControlPacket::Disconnect(Disconnect { reason_code, properties })))
}

/// The canonical body bytes of a Disconnect packet.
pub open spec fn spec_disconnect_body(v: DisconnectView) -> Seq<u8> {
    seq![v.reason_code.spec_as_u8()] + spec_varint(
        spec_disconnect_props_bytes(v.properties).len() as int,
    ) + spec_disconnect_props_bytes(v.properties)
}

/// Size bounds under which the packet can be encoded.
pub open spec fn disconnect_wf(v: DisconnectView) -> bool {
    disconnect_props_wf(v.properties)
}

/// Append the body of a Disconnect packet.
pub fn encode_disconnect(writer: &mut Vec<u8>, msg: &Disconnect) -> (r: Result<(), MqttError>)
    requires
        disconnect_wf(msg@),
    ensures
        r is Ok,
        final(writer)@ == old(writer)@ + spec_disconnect_body(msg@),
{
    write_u8(writer, msg.reason_code.as_u8());
    let _ = encode_disconnect_properties(writer, &msg.properties);
    assert(final(writer)@ =~= old(writer)@ + spec_disconnect_body(msg@));
    Ok(())
}

impl RemainingLength for Disconnect {
    open spec fn spec_remaining_length(&self) -> int {
        spec_disconnect_body(self@).len() as int
    }

    open spec fn remaining_length_ok(&self) -> bool {
        disconnect_wf(self@)
    }

    /// The body length: the reason code, then the properties region behind
    /// its length prefix.
    fn remaining_length(&self) -> (r: usize) {
        let props_len = self.properties.size();
        proof {
            lemma_varint_len(props_len as int);
        }
        let vlen = crate::v5::encoder::varint_size(props_len as u32);
        1 + vlen + props_len
    }
}

/// Scanning the canonical properties of a Disconnect packet recovers them.
#[verifier::rlimit(100)]
#[verifier::spinoff_prover]
pub proof fn lemma_scan_disconnect_canonical(p: DisconnectPropertiesView)
    requires
        disconnect_props_wf(p),
        disconnect_props_decodable(p),
    ensures
        spec_scan(PropertyFamily::Disconnect, spec_disconnect_props_bytes(p), BuilderView::init())
            matches Ok(bv) && bv.spec_disconnect() == p,
{
    let f = PropertyFamily::Disconnect;
    let init = BuilderView::init();
    let seg4 = opt_str_seg(0x1C, p.server_reference);
    let t3 = spec_user_props_bytes(p.user_properties) + seg4;
    let t2 = opt_str_seg(0x1F, p.reason_string) + t3;
    assert(spec_disconnect_props_bytes(p) =~= opt_u32_seg(0x11, p.session_expire_interval) + t2);
    lemma_scan_opt_u32(f, Property::SessionExpireInterval, p.session_expire_interval, t2, init);
    let b1 = match p.session_expire_interval {
        None => init,
        Some(v) => BuilderView { session_expire_interval: Some(v), ..init },
    };
    lemma_scan_opt_str(f, Property::ReasonString, p.reason_string, t3, b1);
    let b2 = match p.reason_string {
        None => b1,
        Some(s) => BuilderView { reason_string: Some(s), ..b1 },
    };
    lemma_scan_user_props(f, p.user_properties, seg4, b2);
    let b3 = BuilderView { user_properties: b2.user_properties + p.user_properties, ..b2 };
    assert(seg4 =~= seg4 + Seq::<u8>::empty());
    lemma_scan_opt_str(f, Property::ServerReference, p.server_reference, Seq::empty(), b3);
    let b4 = match p.server_reference {
        None => b3,
        Some(s) => BuilderView { server_reference: Some(s), ..b3 },
    };
    assert(b4.user_properties =~= p.user_properties);
    assert(b4.spec_disconnect() =~= p);
}

/// Decoding inverts encoding for every well-formed Disconnect packet.
#[verifier::rlimit(100)]
#[verifier::spinoff_prover]
pub proof fn lemma_disconnect_round_trip(v: DisconnectView)
    requires
        disconnect_wf(v),
        disconnect_props_decodable(v.properties),
    ensures
        spec_decode_disconnect(spec_disconnect_body(v)) == Ok::<DisconnectView, MqttError>(v),
{
    let props = spec_disconnect_props_bytes(v.properties);
    let s = spec_disconnect_body(v);
    crate::v5::types::lemma_reason_code_round_trip(v.reason_code);
    assert(s[0] == v.reason_code.spec_as_u8());
    assert(s.len() >= 2);
    crate::v5::decoder::lemma_varint_round_trip(props.len() as int, props);
    lemma_varint_len(props.len() as int);
    let k = spec_varint_len(props.len() as int);
    assert(s.skip(1) =~= spec_varint(props.len() as int) + props);
    assert(s.skip(1 + k).take(props.len() as int) =~= props);
    lemma_scan_disconnect_canonical(v.properties);
}

} // verus!
