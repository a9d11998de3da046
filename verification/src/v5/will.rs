use vstd::prelude::*;

verus! {

use crate::v5::decoder::decode_binary;
use crate::v5::decoder::lemma_skip_add;
use crate::v5::decoder::decode_utf8_string;
use crate::v5::decoder::decode_variable_integer;
use crate::v5::decoder::read_u32;
use crate::v5::decoder::read_u8;
use crate::v5::encoder::encode_binary;
use crate::v5::encoder::encode_utf8_string;
use crate::v5::encoder::encode_variable_integer;
use crate::v5::encoder::lemma_varint_len;
use crate::v5::encoder::spec_varint;
use crate::v5::encoder::write_u32;
use crate::v5::encoder::write_u8;
use crate::v5::encoder::VARINT_MAX;
use crate::v5::error::MqttError;
use crate::v5::property::lemma_add_assoc;
use crate::v5::property::lemma_scan_opt_bin;
use crate::v5::property::lemma_scan_opt_bool;
use crate::v5::property::lemma_scan_opt_str;
use crate::v5::property::lemma_scan_opt_u32;
use crate::v5::property::lemma_scan_user_props;
use crate::v5::property::lemma_user_props_bytes_take_step;
use crate::v5::property::lemma_user_props_prefix_le;
use crate::v5::property::opt_bool_seg;
use crate::v5::property::opt_str_seg;
use crate::v5::property::opt_u32_seg;
use crate::v5::property::spec_scan;
use crate::v5::property::spec_user_props_bytes;
use crate::v5::property::BuilderView;
use crate::v5::property::PropertiesBuilder;
use crate::v5::property::PropertiesSize;
use crate::v5::property::Property;
use crate::v5::property::PropertyFamily;
use crate::v5::property::WillProperties;
use crate::v5::property::WillPropertiesView;

/// The canonical segments of a Will properties region before the user
/// properties: the delay (always present), the format indicator, the expiry,
/// the content type, the response topic, and the correlation data.
pub open spec fn spec_will_props_h1(p: WillPropertiesView) -> Seq<u8> {
    opt_u32_seg(0x18, Some(p.will_delay_interval)) + opt_bool_seg(0x01, p.payload_format_indicator)
        + opt_u32_seg(0x02, p.message_expire_interval)
}

/// The canonical string-valued segments of a Will properties region.
pub open spec fn spec_will_props_h2(p: WillPropertiesView) -> Seq<u8> {
    opt_str_seg(0x03, p.content_type) + opt_str_seg(0x08, p.response_topic) + opt_str_seg(
        0x09,
        p.correlation_data,
    )
}

/// The canonical segments of a Will properties region before the user
/// properties.
pub open spec fn spec_will_props_front(p: WillPropertiesView) -> Seq<u8> {
    spec_will_props_h1(p) + spec_will_props_h2(p)
}

/// The canonical bytes of a Will properties region.
pub open spec fn spec_will_props_bytes(p: WillPropertiesView) -> Seq<u8> {
    spec_will_props_front(p) + spec_user_props_bytes(p.user_properties)
}

/// Per-field size bounds under which each segment can be encoded.
pub open spec fn will_props_wf(p: WillPropertiesView) -> bool {
    &&& (p.content_type matches Some(s) ==> s.len() <= 0xFFFF)
    &&& (p.response_topic matches Some(s) ==> s.len() <= 0xFFFF)
    &&& (p.correlation_data matches Some(s) ==> s.len() <= 0xFFFF)
    &&& (forall|i: int|
        0 <= i < p.user_properties.len() ==> (#[trigger] p.user_properties[i]).0.len() <= 0xFFFF
            && p.user_properties[i].1.len() <= 0xFFFF)
}

/// The whole region also fits a remaining-length varint.
pub open spec fn will_props_fits(p: WillPropertiesView) -> bool {
    spec_will_props_bytes(p).len() <= VARINT_MAX
}

/// The stricter conditions under which decoding inverts encoding.
pub open spec fn will_props_decodable(p: WillPropertiesView) -> bool {
    &&& (p.content_type matches Some(s) ==> 1 <= s.len())
    &&& (p.response_topic matches Some(s) ==> 1 <= s.len())
    &&& (forall|i: int|
        0 <= i < p.user_properties.len() ==> 1 <= (#[trigger] p.user_properties[i]).0.len() && 1
            <= p.user_properties[i].1.len())
}

impl PropertiesSize for WillProperties {
    open spec fn spec_size(&self) -> int {
        spec_will_props_bytes(self@).len() as int
    }

    open spec fn size_ok(&self) -> bool {
        will_props_wf(self@) && will_props_fits(self@)
    }

    /// How many bytes the properties region takes on the wire.
    #[verifier::rlimit(100)]
    #[verifier::spinoff_prover]
    fn size(&self) -> (r: usize) {
        let ghost pv = self@;
        let mut len: usize = 5;
        if self.payload_format_indicator.is_some() {
            len = len + 2;
        }
        if self.message_expire_interval.is_some() {
            len = len + 5;
        }
        match &self.content_type {
            Some(s) => {
                len = len + 3 + s.len();
            },
            None => {},
        }
        match &self.response_topic {
            Some(s) => {
                len = len + 3 + s.len();
            },
            None => {},
        }
        match &self.correlation_data {
            Some(s) => {
                len = len + 3 + s.len();
            },
            None => {},
        }
        let ghost base = len as int;
        assert(base == spec_will_props_h1(pv).len() + spec_will_props_h2(pv).len());
        assert(base == spec_will_props_front(pv).len());
        let mut i: usize = 0;
        let n = self.user_properties.len();
        while i < n
            invariant
                i <= n,
                n == self.user_properties@.len(),
                will_props_wf(pv),
                will_props_fits(pv),
                pv == self@,
                base == spec_will_props_front(pv).len(),
                len == base + spec_user_props_bytes(pv.user_properties.take(i as int)).len(),
            decreases n - i,
        {
            let pair = &self.user_properties[i];
            proof {
                assert(pv.user_properties[i as int] == (self.user_properties@[i as int].0@,
                self.user_properties@[i as int].1@));
                lemma_user_props_bytes_take_step(pv.user_properties, i as int);
                lemma_user_props_prefix_le(pv.user_properties, i + 1);
            }
            len = len + 5 + pair.0.len() + pair.1.len();
            i = i + 1;
        }
        proof {
            assert(pv.user_properties.take(n as int) =~= pv.user_properties);
        }
        len
    }
}

/// Append the numeric Will segments: delay, format indicator, expiry.
#[verifier::rlimit(100)]
#[verifier::spinoff_prover]
fn encode_will_props_h1(writer: &mut Vec<u8>, p: &WillProperties)
    ensures
        final(writer)@ == old(writer)@ + spec_will_props_h1(p@),
{
    let ghost pv = p@;
    let ghost mid = writer@;
    write_u8(writer, 0x18);
    write_u32(writer, p.will_delay_interval);
    let ghost w1 = writer@;
    assert(w1 =~= mid + opt_u32_seg(0x18, Some(pv.will_delay_interval)));
    match &p.payload_format_indicator {
        Some(v) => {
            write_u8(writer, 0x01);
            write_u8(
                writer,
                if *v {
                    1
                } else {
                    0
                },
            );
        },
        None => {},
    }
    let ghost w2 = writer@;
    assert(w2 =~= w1 + opt_bool_seg(0x01, pv.payload_format_indicator));
    match &p.message_expire_interval {
        Some(v) => {
            write_u8(writer, 0x02);
            write_u32(writer, *v);
        },
        None => {},
    }
    assert(writer@ =~= w2 + opt_u32_seg(0x02, pv.message_expire_interval));
    assert(writer@ =~= mid + spec_will_props_h1(pv));
}

/// Append the string-valued Will segments: content type, response topic,
/// correlation data.
#[verifier::rlimit(100)]
#[verifier::spinoff_prover]
fn encode_will_props_h2(writer: &mut Vec<u8>, p: &WillProperties)
    requires
        will_props_wf(p@),
    ensures
        final(writer)@ == old(writer)@ + spec_will_props_h2(p@),
{
    let ghost pv = p@;
    let ghost mid = writer@;
    match &p.content_type {
        Some(s) => {
            write_u8(writer, 0x03);
            let _ = encode_utf8_string(writer, s);
        },
        None => {},
    }
    let ghost w1 = writer@;
    assert(w1 =~= mid + opt_str_seg(0x03, pv.content_type));
    match &p.response_topic {
        Some(s) => {
            write_u8(writer, 0x08);
            let _ = encode_utf8_string(writer, s);
        },
        None => {},
    }
    let ghost w2 = writer@;
    assert(w2 =~= w1 + opt_str_seg(0x08, pv.response_topic));
    match &p.correlation_data {
        Some(s) => {
            write_u8(writer, 0x09);
            let _ = encode_binary(writer, s);
        },
        None => {},
    }
    assert(writer@ =~= w2 + opt_str_seg(0x09, pv.correlation_data));
    assert(writer@ =~= mid + spec_will_props_h2(pv));
}

/// Append a whole Will properties region: its length as a varint, then the
/// canonical segments.
#[verifier::rlimit(100)]
#[verifier::spinoff_prover]
pub fn encode_will_properties(writer: &mut Vec<u8>, p: &WillProperties) -> (r: Result<
    (),
    MqttError,
>)
    requires
        will_props_wf(p@),
        will_props_fits(p@),
    ensures
        r is Ok,
        final(writer)@ == old(writer)@ + spec_varint(spec_will_props_bytes(p@).len() as int)
            + spec_will_props_bytes(p@),
{
    let ghost pv = p@;
    let len = p.size();
    let _ = encode_variable_integer(writer, len as u32);
    let ghost mid = writer@;
    encode_will_props_h1(writer, p);
    encode_will_props_h2(writer, p);
    proof {
        lemma_add_assoc(mid, spec_will_props_h1(pv), spec_will_props_h2(pv));
        assert(writer@ == mid + spec_will_props_front(pv));
    }
    let ghost mid2 = writer@;
    let n = p.user_properties.len();
    let mut i: usize = 0;
    while i < n
        invariant
            i <= n,
            n == p.user_properties@.len(),
            will_props_wf(pv),
            pv == p@,
            writer@ == mid2 + spec_user_props_bytes(pv.user_properties.take(i as int)),
        decreases n - i,
    {
        let pair = &p.user_properties[i];
        proof {
            assert(pv.user_properties[i as int] == (p.user_properties@[i as int].0@,
            p.user_properties@[i as int].1@));
        }
        write_u8(writer, 0x26);
        let _ = encode_utf8_string(writer, &pair.0);
        let _ = encode_utf8_string(writer, &pair.1);
        proof {
            lemma_user_props_bytes_take_step(pv.user_properties, i as int);
            assert(writer@ =~= mid2 + spec_user_props_bytes(pv.user_properties.take(i + 1)));
        }
        i = i + 1;
    }
    proof {
        assert(pv.user_properties.take(n as int) =~= pv.user_properties);
        assert(writer@ =~= old(writer)@ + spec_varint(spec_will_props_bytes(pv).len() as int)
            + spec_will_props_bytes(pv));
    }
    Ok(())
}

/// Decode a Will record's properties region.
#[verifier::rlimit(100)]
#[verifier::spinoff_prover]
pub fn decode_will_properties(reader: &Vec<u8>) -> (r: Result<WillProperties, MqttError>)
    ensures
        match spec_scan(PropertyFamily::Will, reader@, BuilderView::init()) {
            Ok(bv) => r matches Ok(p) && p@ == bv.spec_will(),
            Err(e) => r == Err::<WillProperties, MqttError>(e),
        },
{
    let ghost whole = reader@;
    let mut builder = PropertiesBuilder::default();
    let mut pos: usize = 0;
    let n = reader.len();
    assert(whole.skip(0) =~= whole);
    while pos < n
        invariant
            pos <= n,
            n == reader@.len(),
            whole == reader@,
            spec_scan(PropertyFamily::Will, whole.skip(pos as int), builder@) == spec_scan(
                PropertyFamily::Will,
                whole,
                BuilderView::init(),
            ),
        decreases n - pos,
    {
        let ghost s1 = whole.skip(pos as int);
        let ghost b0 = builder@;
        let pos0 = pos;
        let id = match decode_variable_integer(reader, &mut pos) {
            Ok(v) => v,
            Err(e) => {
                return Err(e);
            },
        };
        let ghost k = pos as int - pos0 as int;
        let property = match Property::try_from(id) {
            Ok(p) => p,
            Err(e) => {
                return Err(e);
            },
        };
        proof {
            lemma_skip_add(whole, pos0 as int, k);
        }
        match property {
            Property::WillDelayInterval => {
                let v = match read_u32(reader, &mut pos) {
                    Ok(v) => v,
                    Err(e) => {
                        return Err(e);
                    },
                };
                builder = match builder.will_delay_interval(v) {
                    Ok(b) => b,
                    Err(e) => {
                        return Err(e);
                    },
                };
                proof {
                    lemma_skip_add(whole, pos0 as int, k + 4);
                }
                proof {
                    assert(spec_scan(PropertyFamily::Will, s1, b0) == spec_scan(
                        PropertyFamily::Will,
                        whole.skip(pos as int),
                        builder@,
                    ));
                }
            },
            Property::PayloadFormatIndicator => {
                let v = match read_u8(reader, &mut pos) {
                    Ok(v) => v,
                    Err(e) => {
                        return Err(e);
                    },
                };
                builder = match builder.payload_format_indicator(v) {
                    Ok(b) => b,
                    Err(e) => {
                        return Err(e);
                    },
                };
                proof {
                    lemma_skip_add(whole, pos0 as int, k + 1);
                }
                proof {
                    assert(spec_scan(PropertyFamily::Will, s1, b0) == spec_scan(
                        PropertyFamily::Will,
                        whole.skip(pos as int),
                        builder@,
                    ));
                }
            },
            Property::MessageExpireInterval => {
                let v = match read_u32(reader, &mut pos) {
                    Ok(v) => v,
                    Err(e) => {
                        return Err(e);
                    },
                };
                builder = match builder.message_expire_interval(v) {
                    Ok(b) => b,
                    Err(e) => {
                        return Err(e);
                    },
                };
                proof {
                    lemma_skip_add(whole, pos0 as int, k + 4);
                }
                proof {
                    assert(spec_scan(PropertyFamily::Will, s1, b0) == spec_scan(
                        PropertyFamily::Will,
                        whole.skip(pos as int),
                        builder@,
                    ));
                }
            },
            Property::ContentType => {
                let pos1 = pos;
                let s = match decode_utf8_string(reader, &mut pos) {
                    Ok(v) => v,
                    Err(e) => {
                        return Err(e);
                    },
                };
                let ghost m = pos as int - pos1 as int;
                builder = match builder.content_type(s) {
                    Ok(b) => b,
                    Err(e) => {
                        return Err(e);
                    },
                };
                proof {
                    lemma_skip_add(whole, pos0 as int, k + m);
                }
                proof {
                    assert(spec_scan(PropertyFamily::Will, s1, b0) == spec_scan(
                        PropertyFamily::Will,
                        whole.skip(pos as int),
                        builder@,
                    ));
                }
            },
            Property::ResponseTopic => {
                let pos1 = pos;
                let s = match decode_utf8_string(reader, &mut pos) {
                    Ok(v) => v,
                    Err(e) => {
                        return Err(e);
                    },
                };
                let ghost m = pos as int - pos1 as int;
                builder = match builder.response_topic(s) {
                    Ok(b) => b,
                    Err(e) => {
                        return Err(e);
                    },
                };
                proof {
                    lemma_skip_add(whole, pos0 as int, k + m);
                }
                proof {
                    assert(spec_scan(PropertyFamily::Will, s1, b0) == spec_scan(
                        PropertyFamily::Will,
                        whole.skip(pos as int),
                        builder@,
                    ));
                }
            },
            Property::CorrelationData => {
                let pos1 = pos;
                let s = match decode_binary(reader, &mut pos) {
                    Ok(v) => v,
                    Err(e) => {
                        return Err(e);
                    },
                };
                let ghost m = pos as int - pos1 as int;
                builder = match builder.correlation_data(Some(s)) {
                    Ok(b) => b,
                    Err(e) => {
                        return Err(e);
                    },
                };
                proof {
                    lemma_skip_add(whole, pos0 as int, k + m);
                }
                proof {
                    assert(spec_scan(PropertyFamily::Will, s1, b0) == spec_scan(
                        PropertyFamily::Will,
                        whole.skip(pos as int),
                        builder@,
                    ));
                }
            },
            Property::UserProperty => {
                let pos1 = pos;
                let key = match decode_utf8_string(reader, &mut pos) {
                    Ok(v) => v,
                    Err(e) => {
                        return Err(e);
                    },
                };
                let ghost m1 = pos as int - pos1 as int;
                proof {
                    lemma_skip_add(whole, pos0 as int, k);
                    lemma_skip_add(whole.skip(pos0 as int).skip(k), 0, m1);
                    assert(whole.skip(pos as int) == s1.skip(k).skip(m1));
                }
                let value = match decode_utf8_string(reader, &mut pos) {
                    Ok(v) => v,
                    Err(e) => {
                        return Err(e);
                    },
                };
                let ghost m = pos as int - pos1 as int;
                match (key, value) {
                    (Some(kk), Some(vv)) => {
                        builder = builder.user_property((kk, vv));
                    },
                    _ => {},
                }
                proof {
                    lemma_skip_add(whole, pos0 as int, k + m);
                }
                proof {
                    assert(spec_scan(PropertyFamily::Will, s1, b0) == spec_scan(
                        PropertyFamily::Will,
                        whole.skip(pos as int),
                        builder@,
                    ));
                }
            },
            other => {
                return Err(MqttError::UnacceptableProperty(other));
            },
        }
    }
    assert(whole.skip(n as int) =~= Seq::<u8>::empty());
    Ok(builder.will())
}

/// Scanning the canonical properties of a Will record recovers them.
#[verifier::rlimit(100)]
#[verifier::spinoff_prover]
pub proof fn lemma_scan_will_canonical(p: WillPropertiesView)
    requires
        will_props_wf(p),
        will_props_decodable(p),
    ensures
        spec_scan(PropertyFamily::Will, spec_will_props_bytes(p), BuilderView::init()) matches Ok(
            bv,
        ) && bv.spec_will() == p,
{
    let f = PropertyFamily::Will;
    let init = BuilderView::init();
    let users = spec_user_props_bytes(p.user_properties);
    let a1 = opt_u32_seg(0x18, Some(p.will_delay_interval));
    let a2 = opt_bool_seg(0x01, p.payload_format_indicator);
    let a3 = opt_u32_seg(0x02, p.message_expire_interval);
    let a4 = opt_str_seg(0x03, p.content_type);
    let a5 = opt_str_seg(0x08, p.response_topic);
    let a6 = opt_str_seg(0x09, p.correlation_data);
    let t5 = a6 + users;
    let t4 = a5 + t5;
    let t3 = a4 + t4;
    let t2 = a3 + t3;
    let t1 = a2 + t2;
    lemma_add_assoc(a1 + a2 + a3, a4 + a5 + a6, users);
    lemma_add_assoc(a4 + a5, a6, users);
    lemma_add_assoc(a4, a5, t5);
    assert(spec_will_props_h2(p) + users == a4 + t4);
    lemma_add_assoc(a1 + a2, a3, t3);
    lemma_add_assoc(a1, a2, t2);
    assert(spec_will_props_bytes(p) == a1 + t1);
    lemma_scan_opt_u32(
        f,
        Property::WillDelayInterval,
        Some(p.will_delay_interval),
        t1,
        init,
    );
    let b1 = BuilderView { will_delay_interval: Some(p.will_delay_interval), ..init };
    lemma_scan_opt_bool(f, Property::PayloadFormatIndicator, p.payload_format_indicator, t2, b1);
    let b2 = match p.payload_format_indicator {
        None => b1,
        Some(v) => BuilderView { payload_format_indicator: Some(v), ..b1 },
    };
    lemma_scan_opt_u32(f, Property::MessageExpireInterval, p.message_expire_interval, t3, b2);
    let b3 = match p.message_expire_interval {
        None => b2,
        Some(v) => BuilderView { message_expire_interval: Some(v), ..b2 },
    };
    lemma_scan_opt_str(f, Property::ContentType, p.content_type, t4, b3);
    let b4 = match p.content_type {
        None => b3,
        Some(s) => BuilderView { content_type: Some(s), ..b3 },
    };
    lemma_scan_opt_str(f, Property::ResponseTopic, p.response_topic, t5, b4);
    let b5 = match p.response_topic {
        None => b4,
        Some(s) => BuilderView { response_topic: Some(s), ..b4 },
    };
    lemma_scan_opt_bin(f, Property::CorrelationData, p.correlation_data, users, b5);
    let b6 = match p.correlation_data {
        None => b5,
        Some(s) => BuilderView { correlation_data: Some(s), ..b5 },
    };
    assert(users =~= users + Seq::<u8>::empty());
    lemma_scan_user_props(f, p.user_properties, Seq::empty(), b6);
    let b7 = BuilderView { user_properties: b6.user_properties + p.user_properties, ..b6 };
    assert(b7.user_properties =~= p.user_properties);
    assert(b7.spec_will() =~= p);
}

} // verus!
