use vstd::prelude::*;

verus! {

use crate::v5::decoder::decode_binary;
use crate::v5::decoder::decode_utf8_string;
use crate::v5::decoder::decode_variable_integer;
use crate::v5::decoder::read_u8;
use crate::v5::decoder::read_vec;
use crate::v5::decoder::spec_decode_varint;
use crate::v5::encoder::encode_binary;
use crate::v5::encoder::encode_utf8_string;
use crate::v5::encoder::encode_variable_integer;
use crate::v5::encoder::lemma_varint_len;
use crate::v5::encoder::spec_varint;
use crate::v5::encoder::spec_varint_len;
use crate::v5::encoder::write_u8;
use crate::v5::encoder::RemainingLength;
use crate::v5::encoder::VARINT_MAX;
use crate::v5::error::MqttError;
use crate::v5::property::lemma_scan_opt_bin;
use crate::v5::property::lemma_scan_opt_str;
use crate::v5::property::lemma_scan_user_props;
use crate::v5::property::lemma_user_props_bytes_take_step;
use crate::v5::property::lemma_user_props_prefix_le;
use crate::v5::property::opt_str_seg;
use crate::v5::property::spec_scan;
use crate::v5::property::spec_user_props_bytes;
use crate::v5::property::AuthProperties;
use crate::v5::property::AuthPropertiesView;
use crate::v5::property::BuilderView;
use crate::v5::property::PropertiesBuilder;
use crate::v5::property::PropertiesSize;
use crate::v5::property::Property;
use crate::v5::property::PropertyFamily;
use crate::v5::types::Auth;
use crate::v5::types::AuthView;
use crate::v5::types::ControlPacket;
use crate::v5::types::ControlPacketView;
use crate::v5::types::ReasonCode;

/// The canonical bytes of an Auth packet's properties region.
pub open spec fn spec_auth_props_bytes(p: AuthPropertiesView) -> Seq<u8> {
    opt_str_seg(0x15, p.authentication_method) + opt_str_seg(0x16, p.authentication_data)
        + opt_str_seg(0x1F, p.reason_string) + spec_user_props_bytes(p.user_properties)
}

/// Size bounds under which the properties can be encoded.
pub open spec fn auth_props_wf(p: AuthPropertiesView) -> bool {
    &&& (p.authentication_method matches Some(s) ==> s.len() <= 0xFFFF)
    &&& (p.authentication_data matches Some(s) ==> s.len() <= 0xFFFF)
    &&& (p.reason_string matches Some(s) ==> s.len() <= 0xFFFF)
    &&& (forall|i: int|
        0 <= i < p.user_properties.len() ==> (#[trigger] p.user_properties[i]).0.len() <= 0xFFFF
            && p.user_properties[i].1.len() <= 0xFFFF)
    &&& spec_auth_props_bytes(p).len() <= VARINT_MAX
}

/// The stricter conditions under which decoding inverts encoding.
pub open spec fn auth_props_decodable(p: AuthPropertiesView) -> bool {
    &&& (p.authentication_method matches Some(s) ==> 1 <= s.len())
    &&& (p.reason_string matches Some(s) ==> 1 <= s.len())
    &&& (forall|i: int|
        0 <= i < p.user_properties.len() ==> 1 <= (#[trigger] p.user_properties[i]).0.len() && 1
            <= p.user_properties[i].1.len())
}

impl PropertiesSize for AuthProperties {
    open spec fn spec_size(&self) -> int {
        spec_auth_props_bytes(self@).len() as int
    }

    open spec fn size_ok(&self) -> bool {
        auth_props_wf(self@)
    }

    /// How many bytes the properties region takes on the wire.
    fn size(&self) -> (r: usize) {
        let ghost pv = self@;
        let mut len: usize = 0;
        match &self.authentication_method {
            Some(s) => {
                len = len + 3 + s.len();
            },
            None => {},
        }
        match &self.authentication_data {
            Some(s) => {
                len = len + 3 + s.len();
            },
            None => {},
        }
        match &self.reason_string {
            Some(s) => {
                len = len + 3 + s.len();
            },
            None => {},
        }
        let ghost base = len as int;
        assert(base == opt_str_seg(0x15, pv.authentication_method).len() + opt_str_seg(
            0x16,
            pv.authentication_data,
        ).len() + opt_str_seg(0x1F, pv.reason_string).len());
        let mut i: usize = 0;
        let n = self.user_properties.len();
        while i < n
            invariant
                i <= n,
                n == self.user_properties@.len(),
                auth_props_wf(pv),
                pv == self@,
                base == opt_str_seg(0x15, pv.authentication_method).len() + opt_str_seg(
                    0x16,
                    pv.authentication_data,
                ).len() + opt_str_seg(0x1F, pv.reason_string).len(),
                len == base + spec_user_props_bytes(pv.user_properties.take(i as int)).len(),
            decreases n - i,
        {
            let pair = &self.user_properties[i];
            proof {
                assert(pv.user_properties[i as int] == (self.user_properties@[i as int].0@,
                self.user_properties@[i as int].1@));
                lemma_user_props_bytes_take_step(pv.user_properties, i as int);
                lemma_user_props_prefix_le(pv.user_properties, i + 1);
            }
            len = len + 5 + pair.0.len() + pair.1.len();
            i = i + 1;
        }
        proof {
            assert(pv.user_properties.take(n as int) =~= pv.user_properties);
        }
        len
    }
}

/// Append a whole Auth properties region: its length as a varint, then the
/// canonical segments.
pub fn encode_auth_properties(writer: &mut Vec<u8>, p: &AuthProperties) -> (r: Result<
    (),
    MqttError,
>)
    requires
        auth_props_wf(p@),
    ensures
        r is Ok,
        final(writer)@ == old(writer)@ + spec_varint(spec_auth_props_bytes(p@).len() as int)
            + spec_auth_props_bytes(p@),
{
    let ghost pv = p@;
    let len = p.size();
    let _ = encode_variable_integer(writer, len as u32);
    let ghost mid = writer@;
    match &p.authentication_method {
        Some(s) => {
            write_u8(writer, 0x15);
            let _ = encode_utf8_string(writer, s);
        },
        None => {},
    }
    assert(writer@ =~= mid + opt_str_seg(0x15, pv.authentication_method));
    match &p.authentication_data {
        Some(s) => {
            write_u8(writer, 0x16);
            let _ = encode_binary(writer, s);
        },
        None => {},
    }
    assert(writer@ =~= mid + opt_str_seg(0x15, pv.authentication_method) + opt_str_seg(
        0x16,
        pv.authentication_data,
    ));
    match &p.reason_string {
        Some(s) => {
            write_u8(writer, 0x1F);
            let _ = encode_utf8_string(writer, s);
        },
        None => {},
    }
    assert(writer@ =~= mid + opt_str_seg(0x15, pv.authentication_method) + opt_str_seg(
        0x16,
        pv.authentication_data,
    ) + opt_str_seg(0x1F, pv.reason_string));
    let ghost mid2 = writer@;
    let n = p.user_properties.len();
    let mut i: usize = 0;
    while i < n
        invariant
            i <= n,
            n == p.user_properties@.len(),
            auth_props_wf(pv),
            pv == p@,
            writer@ == mid2 + spec_user_props_bytes(pv.user_properties.take(i as int)),
        decreases n - i,
    {
        let pair = &p.user_properties[i];
        proof {
            assert(pv.user_properties[i as int] == (p.user_properties@[i as int].0@,
            p.user_properties@[i as int].1@));
        }
        write_u8(writer, 0x26);
        let _ = encode_utf8_string(writer, &pair.0);
        let _ = encode_utf8_string(writer, &pair.1);
        proof {
            lemma_user_props_bytes_take_step(pv.user_properties, i as int);
            assert(writer@ =~= mid2 + spec_user_props_bytes(pv.user_properties.take(i + 1)));
        }
        i = i + 1;
    }
    proof {
        assert(pv.user_properties.take(n as int) =~= pv.user_properties);
        assert(writer@ =~= old(writer)@ + spec_varint(spec_auth_props_bytes(pv).len() as int)
            + spec_auth_props_bytes(pv));
    }
    Ok(())
}

/// Decode an Auth packet's properties region.
#[verifier::rlimit(100)]
#[verifier::spinoff_prover]
pub fn decode_auth_properties(reader: &Vec<u8>) -> (r: Result<AuthProperties, MqttError>)
    ensures
        match spec_scan(PropertyFamily::Auth, reader@, BuilderView::init()) {
            Ok(bv) => r matches Ok(p) && p@ == bv.spec_auth(),
            Err(e) => r == Err::<AuthProperties, MqttError>(e),
        },
{
    let ghost whole = reader@;
    let mut builder = PropertiesBuilder::default();
    let mut pos: usize = 0;
    let n = reader.len();
    assert(whole.skip(0) =~= whole);
    while pos < n
        invariant
            pos <= n,
            n == reader@.len(),
            whole == reader@,
            spec_scan(PropertyFamily::Auth, whole.skip(pos as int), builder@) == spec_scan(
                PropertyFamily::Auth,
                whole,
                BuilderView::init(),
            ),
        decreases n - pos,
    {
        let ghost s1 = whole.skip(pos as int);
        let pos0 = pos;
        let id = match decode_variable_integer(reader, &mut pos) {
            Ok(v) => v,
            Err(e) => {
                return Err(e);
            },
        };
        let ghost k = pos as int - pos0 as int;
        let property = match Property::try_from(id) {
            Ok(p) => p,
            Err(e) => {
                return Err(e);
            },
        };
        assert(whole.skip(pos as int) =~= s1.skip(k));
        match property {
            Property::AuthenticationMethod => {
                let pos1 = pos;
                let s = match decode_utf8_string(reader, &mut pos) {
                    Ok(v) => v,
                    Err(e) => {
                        return Err(e);
                    },
                };
                let ghost m = pos as int - pos1 as int;
                match s {
                    Some(m_str) => {
                        builder = match builder.authentication_method(m_str) {
                            Ok(b) => b,
                            Err(e) => {
                                return Err(e);
                            },
                        };
                    },
                    None => {},
                }
                assert(whole.skip(pos as int) =~= s1.skip(k + m));
            },
            Property::AuthenticationData => {
                let pos1 = pos;
                let s = match decode_binary(reader, &mut pos) {
                    Ok(v) => v,
                    Err(e) => {
                        return Err(e);
                    },
                };
                let ghost m = pos as int - pos1 as int;
                builder = match builder.authentication_data(s) {
                    Ok(b) => b,
                    Err(e) => {
                        return Err(e);
                    },
                };
                assert(whole.skip(pos as int) =~= s1.skip(k + m));
            },
            Property::ReasonString => {
                let pos1 = pos;
                let s = match decode_utf8_string(reader, &mut pos) {
                    Ok(v) => v,
                    Err(e) => {
                        return Err(e);
                    },
                };
                let ghost m = pos as int - pos1 as int;
                builder = match builder.reason_string(s) {
                    Ok(b) => b,
                    Err(e) => {
                        return Err(e);
                    },
                };
                assert(whole.skip(pos as int) =~= s1.skip(k + m));
            },
            Property::UserProperty => {
                let pos1 = pos;
                let key = match decode_utf8_string(reader, &mut pos) {
                    Ok(v) => v,
                    Err(e) => {
                        return Err(e);
                    },
                };
                let ghost m1 = pos as int - pos1 as int;
                assert(whole.skip(pos as int) =~= s1.skip(k).skip(m1));
                let value = match decode_utf8_string(reader, &mut pos) {
                    Ok(v) => v,
                    Err(e) => {
                        return Err(e);
                    },
                };
                let ghost m = pos as int - pos1 as int;
                match (key, value) {
                    (Some(kk), Some(vv)) => {
                        builder = builder.user_property((kk, vv));
                    },
                    _ => {},
                }
                assert(whole.skip(pos as int) =~= s1.skip(k + m));
            },
            other => {
                return Err(MqttError::UnacceptableProperty(other));
            },
        }
    }
    assert(whole.skip(n as int) =~= Seq::<u8>::empty());
    Ok(builder.auth())
}

/// What decoding an Auth body yields: the reason code, then the properties
/// region behind its length prefix.
pub open spec fn spec_decode_auth(s: Seq<u8>) -> Result<AuthView, MqttError> {
    if s.len() < 1 {
        Err(MqttError::EndOfStream)
    } else {
        match ReasonCode::spec_try_from(s[0]) {
            Err(e) => Err(e),
            Ok(rc) => match spec_decode_varint(s.skip(1)) {
                Err(e) => Err(e),
                Ok((plen, k)) => if s.len() - 1 - k < plen as int {
                    Err(MqttError::EndOfStream)
                } else {
                    match spec_scan(
                        PropertyFamily::Auth,
                        s.skip(1 + k).take(plen as int),
                        BuilderView::init(),
                    ) {
                        Err(e) => Err(e),
                        Ok(bv) => Ok(AuthView { reason_code: rc, properties: bv.spec_auth() }),
                    }
                },
            },
        }
    }
}

/// Decode the body of an Auth packet.
pub fn decode_auth(reader: &Vec<u8>) -> (r: Result<Option<ControlPacket>, MqttError>)
    ensures
        match spec_decode_auth(reader@) {
            Ok(v) => r matches Ok(Some(p)) && p@ == ControlPacketView::Auth(v),
            Err(e) => r == Err::<Option<ControlPacket>, MqttError>(e),
        },
{
    let mut pos: usize = 0;
    let b = match read_u8(reader, &mut pos) {
        Ok(v) => v,
        Err(e) => {
            return Err(e);
        },
    };
    let reason_code = match ReasonCode::try_from(b) {
        Ok(v) => v,
        Err(e) => {
            return Err(e);
        },
    };
    let pos1 = pos;
    let plen = match decode_variable_integer(reader, &mut pos) {
        Ok(v) => v,
        Err(e) => {
            return Err(e);
        },
    };
    let ghost k = pos as int - pos1 as int;
    if reader.len() - pos < plen as usize {
        return Err(MqttError::EndOfStream);
    }
    let region = read_vec(reader, &mut pos, plen as usize);
    assert(region@ =~= reader@.skip(1 + k).take(plen as int));
    let properties = match decode_auth_properties(&region) {
        Ok(p) => p,
        Err(e) => {
            return Err(e);
        },
    };
    Ok(Some(ControlPacket::Auth(Auth { reason_code, properties })))
}

/// The canonical body bytes of an Auth packet.
pub open spec fn spec_auth_body(v: AuthView) -> Seq<u8> {
    seq![v.reason_code.spec_as_u8()] + spec_varint(spec_auth_props_bytes(v.properties).len() as int)
        + spec_auth_props_bytes(v.properties)
}

/// Size bounds under which the packet can be encoded.
pub open spec fn auth_wf(v: AuthView) -> bool {
    auth_props_wf(v.properties)
}

/// Append the body of an Auth packet.
pub fn encode_auth(writer: &mut Vec<u8>, msg: &Auth) -> (r: Result<(), MqttError>)
    requires
        auth_wf(msg@),
    ensures
        r is Ok,
        final(writer)@ == old(writer)@ + spec_auth_body(msg@),
{
    write_u8(writer, msg.reason_code.as_u8());
    let _ = encode_auth_properties(writer, &msg.properties);
    assert(final(writer)@ =~= old(writer)@ + spec_auth_body(msg@));
    Ok(())
}

impl RemainingLength for Auth {
    open spec fn spec_remaining_length(&self) -> int {
        spec_auth_body(self@).len() as int
    }

    open spec fn remaining_length_ok(&self) -> bool {
        auth_wf(self@)
    }

    /// The body length: the reason code, then the properties region behind
    /// its length prefix.
    fn remaining_length(&self) -> (r: usize) {
        let props_len = self.properties.size();
        proof {
            lemma_varint_len(props_len as int);
        }
        let vlen = crate::v5::encoder::varint_size(props_len as u32);
        1 + vlen + props_len
    }
}

/// Scanning the canonical properties of an Auth packet recovers them.
#[verifier::rlimit(100)]
#[verifier::spinoff_prover]
pub proof fn lemma_scan_auth_canonical(p: AuthPropertiesView)
    requires
        auth_props_wf(p),
        auth_props_decodable(p),
    ensures
        spec_scan(PropertyFamily::Auth, spec_auth_props_bytes(p), BuilderView::init()) matches Ok(
            bv,
        ) && bv.spec_auth() == p,
{
    let f = PropertyFamily::Auth;
    let init = BuilderView::init();
    let users = spec_user_props_bytes(p.user_properties);
    let t3 = opt_str_seg(0x1F, p.reason_string) + users;
    let t2 = opt_str_seg(0x16, p.authentication_data) + t3;
    assert(spec_auth_props_bytes(p) =~= opt_str_seg(0x15, p.authentication_method) + t2);
    lemma_scan_opt_str(f, Property::AuthenticationMethod, p.authentication_method, t2, init);
    let b1 = match p.authentication_method {
        None => init,
        Some(s) => BuilderView { authentication_method: Some(s), ..init },
    };
    lemma_scan_opt_bin(f, Property::AuthenticationData, p.authentication_data, t3, b1);
    let b2 = match p.authentication_data {
        None => b1,
        Some(s) => BuilderView { authentication_data: Some(s), ..b1 },
    };
    lemma_scan_opt_str(f, Property::ReasonString, p.reason_string, users, b2);
    let b3 = match p.reason_string {
        None => b2,
        Some(s) => BuilderView { reason_string: Some(s), ..b2 },
    };
    assert(users =~= users + Seq::<u8>::empty());
    lemma_scan_user_props(f, p.user_properties, Seq::empty(), b3);
    let b4 = BuilderView { user_properties: b3.user_properties + p.user_properties, ..b3 };
    assert(b4.user_properties =~= p.user_properties);
    assert(b4.spec_auth() =~= p);
}

/// Decoding inverts encoding for every well-formed Auth packet.
#[verifier::rlimit(100)]
#[verifier::spinoff_prover]
pub proof fn lemma_auth_round_trip(v: AuthView)
    requires
        auth_wf(v),
        auth_props_decodable(v.properties),
    ensures
        spec_decode_auth(spec_auth_body(v)) == Ok::<AuthView, MqttError>(v),
{
    let props = spec_auth_props_bytes(v.properties);
    let s = spec_auth_body(v);
    crate::v5::types::lemma_reason_code_round_trip(v.reason_code);
    assert(s[0] == v.reason_code.spec_as_u8());
    crate::v5::decoder::lemma_varint_round_trip(props.len() as int, props);
    lemma_varint_len(props.len() as int);
    let k = spec_varint_len(props.len() as int);
    assert(s.skip(1) =~= spec_varint(props.len() as int) + props);
    assert(s.skip(1 + k).take(props.len() as int) =~= props);
    lemma_scan_auth_canonical(v.properties);
}

} // verus!
