use vstd::prelude::*;

verus! {

use crate::v5::encoder::spec_len_prefixed;
use crate::v5::encoder::spec_varint;
use crate::v5::encoder::spec_varint_len;
use crate::v5::encoder::VARINT_MAX;
use crate::v5::error::MqttError;
use crate::v5::string::MqttString;

/// The u16 carried by two big-endian bytes.
pub open spec fn spec_u16_of(b0: u8, b1: u8) -> u16 {
    (b0 as int * 0x100 + b1 as int) as u16
}

/// The u32 carried by four big-endian bytes.
pub open spec fn spec_u32_of(b0: u8, b1: u8, b2: u8, b3: u8) -> u32 {
    (b0 as int * 0x100_0000 + b1 as int * 0x1_0000 + b2 as int * 0x100 + b3 as int) as u32
}

/// The low seven bits of a byte: its payload group in a variable-length
/// integer.
pub open spec fn low7(b: u8) -> int {
    b as int % 0x80
}

/// What decoding a variable-length integer at the head of s yields: the value
/// and how many bytes it took, `EndOfStream` if s ends mid-sequence, and
/// `MalformedVariableInteger` if a fifth byte would be needed.
pub open spec fn spec_decode_varint(s: Seq<u8>) -> Result<(u32, int), MqttError> {
    if s.len() < 1 {
        Err(MqttError::EndOfStream)
    } else if s[0] < 0x80 {
        Ok((s[0] as u32, 1))
    } else if s.len() < 2 {
        Err(MqttError::EndOfStream)
    } else if s[1] < 0x80 {
        Ok(((low7(s[0]) + 0x80 * s[1]) as u32, 2))
    } else if s.len() < 3 {
        Err(MqttError::EndOfStream)
    } else if s[2] < 0x80 {
        Ok(((low7(s[0]) + 0x80 * low7(s[1]) + 0x4000 * s[2]) as u32, 3))
    } else if s.len() < 4 {
        Err(MqttError::EndOfStream)
    } else if s[3] < 0x80 {
        Ok(((low7(s[0]) + 0x80 * low7(s[1]) + 0x4000 * low7(s[2]) + 0x20_0000 * s[3]) as u32, 4))
    } else if s.len() < 5 {
        Err(MqttError::EndOfStream)
    } else {
        Err(
            MqttError::MalformedVariableInteger(
                (low7(s[0]) + 0x80 * low7(s[1]) + 0x4000 * low7(s[2]) + 0x20_0000 * low7(
                    s[3],
                )) as u32,
            ),
        )
    }
}

/// What decoding a u16-length-prefixed binary segment at the head of s
/// yields: the bytes and how many bytes of s were consumed.
pub open spec fn spec_decode_binary(s: Seq<u8>) -> Result<(Seq<u8>, int), MqttError> {
    if s.len() < 2 {
        Err(MqttError::EndOfStream)
    } else {
        let n = spec_u16_of(s[0], s[1]) as int;
        if s.len() - 2 < n {
            Err(MqttError::EndOfStream)
        } else {
            Ok((s.subrange(2, 2 + n), 2 + n))
        }
    }
}

/// What decoding a length-prefixed string at the head of s yields: a zero
/// length means "absent".
pub open spec fn spec_decode_string(s: Seq<u8>) -> Result<(Option<Seq<u8>>, int), MqttError> {
    match spec_decode_binary(s) {
        Ok((b, k)) => if b.len() == 0 {
            Ok((None, 2))
        } else {
            Ok((Some(b), k))
        },
        Err(e) => Err(e),
    }
}

/// Read one byte and advance.
pub fn read_u8(reader: &Vec<u8>, pos: &mut usize) -> (r: Result<u8, MqttError>)
    requires
        *old(pos) <= reader@.len(),
    ensures
        match r {
            Ok(b) => *old(pos) < reader@.len() && b == reader@[*old(pos) as int] && *final(pos)
                == *old(pos) + 1,
            Err(e) => reader@.len() == *old(pos) && e == MqttError::EndOfStream && *final(pos)
                == *old(pos),
        },
{
    if *pos < reader.len() {
        let b = reader[*pos];
        *pos = *pos + 1;
        Ok(b)
    } else {
        Err(MqttError::EndOfStream)
    }
}

/// Read a big-endian u16 and advance.
pub fn read_u16(reader: &Vec<u8>, pos: &mut usize) -> (r: Result<u16, MqttError>)
    requires
        *old(pos) <= reader@.len(),
    ensures
        match r {
            Ok(v) => *old(pos) + 2 <= reader@.len() && v == spec_u16_of(
                reader@[*old(pos) as int],
                reader@[*old(pos) + 1],
            ) && *final(pos) == *old(pos) + 2,
            Err(e) => reader@.len() < *old(pos) + 2 && e == MqttError::EndOfStream && *final(pos)
                == *old(pos),
        },
{
    if reader.len() - *pos >= 2 {
        let b0 = reader[*pos];
        let b1 = reader[*pos + 1];
        *pos = *pos + 2;
        Ok((b0 as u16) * 0x100 + (b1 as u16))
    } else {
        Err(MqttError::EndOfStream)
    }
}

/// Read a big-endian u32 and advance.
pub fn read_u32(reader: &Vec<u8>, pos: &mut usize) -> (r: Result<u32, MqttError>)
    requires
        *old(pos) <= reader@.len(),
    ensures
        match r {
            Ok(v) => *old(pos) + 4 <= reader@.len() && v == spec_u32_of(
                reader@[*old(pos) as int],
                reader@[*old(pos) + 1],
                reader@[*old(pos) + 2],
                reader@[*old(pos) + 3],
            ) && *final(pos) == *old(pos) + 4,
            Err(e) => reader@.len() < *old(pos) + 4 && e == MqttError::EndOfStream && *final(pos)
                == *old(pos),
        },
{
    if reader.len() - *pos >= 4 {
        let b0 = reader[*pos];
        let b1 = reader[*pos + 1];
        let b2 = reader[*pos + 2];
        let b3 = reader[*pos + 3];
        *pos = *pos + 4;
        Ok((b0 as u32) * 0x100_0000 + (b1 as u32) * 0x1_0000 + (b2 as u32) * 0x100 + (b3 as u32))
    } else {
        Err(MqttError::EndOfStream)
    }
}

/// Copy the next n bytes into a fresh buffer and advance.
pub fn read_vec(reader: &Vec<u8>, pos: &mut usize, n: usize) -> (r: Vec<u8>)
    requires
        *old(pos) + n <= reader@.len(),
    ensures
        r@ == reader@.subrange(*old(pos) as int, *old(pos) + n),
        *final(pos) == *old(pos) + n,
{
    let mut out: Vec<u8> = Vec::new();
    let start: usize = *pos;
    let total: usize = reader.len();
    let mut i: usize = 0;
    while i < n
        invariant
            i <= n,
            total == reader@.len(),
            start + n <= total,
            out@ == reader@.subrange(start as int, start + i),
        decreases n - i,
    {
        out.push(reader[start + i]);
        assert(out@ =~= reader@.subrange(start as int, start + i + 1));
        i = i + 1;
    }
    *pos = start + n;
    out
}

/// Decode a variable-length integer, advancing past its one to four bytes.
pub fn decode_variable_integer(reader: &Vec<u8>, pos: &mut usize) -> (r: Result<u32, MqttError>)
    requires
        *old(pos) <= reader@.len(),
    ensures
        ({
            let s = reader@.skip(*old(pos) as int);
            match r {
                Ok(v) => spec_decode_varint(s) matches Ok(p) && v == p.0 && *final(pos) == *old(pos) + p.1 && v <= VARINT_MAX,
                Err(e) => spec_decode_varint(s) == Err::<(u32, int), MqttError>(e) && *final(pos) == *old(pos),
            }
        }),
{
    let ghost s = reader@.skip(*old(pos) as int);
    let start: usize = *pos;
    if reader.len() - start < 1 {
        return Err(MqttError::EndOfStream);
    }
    let b0 = reader[start];
    assert(b0 == s[0]);
    if b0 < 0x80 {
        *pos = start + 1;
        return Ok(b0 as u32);
    }
    if reader.len() - start < 2 {
        return Err(MqttError::EndOfStream);
    }
    let b1 = reader[start + 1];
    assert(b1 == s[1]);
    if b1 < 0x80 {
        *pos = start + 2;
        return Ok((b0 % 0x80) as u32 + 0x80 * (b1 as u32));
    }
    if reader.len() - start < 3 {
        return Err(MqttError::EndOfStream);
    }
    let b2 = reader[start + 2];
    assert(b2 == s[2]);
    if b2 < 0x80 {
        *pos = start + 3;
        return Ok((b0 % 0x80) as u32 + 0x80 * ((b1 % 0x80) as u32 + 0x80 * (b2 as u32)));
    }
    if reader.len() - start < 4 {
        return Err(MqttError::EndOfStream);
    }
    let b3 = reader[start + 3];
    assert(b3 == s[3]);
    if b3 < 0x80 {
        *pos = start + 4;
        return Ok(
            (b0 % 0x80) as u32 + 0x80 * ((b1 % 0x80) as u32 + 0x80 * ((b2 % 0x80) as u32 + 0x80 * (
            b3 as u32))),
        );
    }
    if reader.len() - start < 5 {
        return Err(MqttError::EndOfStream);
    }
    Err(
        MqttError::MalformedVariableInteger(
            (b0 % 0x80) as u32 + 0x80 * ((b1 % 0x80) as u32 + 0x80 * ((b2 % 0x80) as u32 + 0x80 * (
            (b3 % 0x80) as u32))),
        ),
    )
}

/// Decode a u16-length-prefixed binary segment, advancing past it.
pub fn decode_binary(reader: &Vec<u8>, pos: &mut usize) -> (r: Result<Vec<u8>, MqttError>)
    requires
        *old(pos) <= reader@.len(),
    ensures
        ({
            let s = reader@.skip(*old(pos) as int);
            match r {
                Ok(b) => spec_decode_binary(s) matches Ok(p) && b@ == p.0 && *final(pos) == *old(pos) + p.1 && b@.len() <= 0xFFFF,
                Err(e) => spec_decode_binary(s) == Err::<(Seq<u8>, int), MqttError>(e) && *final(pos) == *old(pos),
            }
        }),
{
    let ghost s = reader@.skip(*old(pos) as int);
    let start: usize = *pos;
    let mut i: usize = start;
    match read_u16(reader, &mut i) {
        Ok(n) => {
            if reader.len() - i < n as usize {
                return Err(MqttError::EndOfStream);
            }
            let out = read_vec(reader, &mut i, n as usize);
            *pos = i;
            assert(out@ =~= s.subrange(2, 2 + n as int));
            Ok(out)
        },
        Err(e) => Err(e),
    }
}

/// Decode a length-prefixed UTF-8 string, advancing past it; a zero length
/// yields `None`.
pub fn decode_utf8_string(reader: &Vec<u8>, pos: &mut usize) -> (r: Result<
    Option<MqttString>,
    MqttError,
>)
    requires
        *old(pos) <= reader@.len(),
    ensures
        ({
            let s = reader@.skip(*old(pos) as int);
            match r {
                Ok(Some(m)) => spec_decode_string(s) matches Ok(p) && p.0 == Some(m@) && m.wf()
                    && m@.len() > 0 && *final(pos) == *old(pos) + p.1,
                Ok(None) => spec_decode_string(s) == Ok::<
                    (Option<Seq<u8>>, int),
                    MqttError,
                >((None, 2)) && *final(pos) == *old(pos) + 2,
                Err(e) => spec_decode_string(s) == Err::<(Option<Seq<u8>>, int), MqttError>(e)
                    && *final(pos) == *old(pos),
            }
        }),
{
    match decode_binary(reader, pos) {
        Ok(b) => {
            if b.len() == 0 {
                Ok(None)
            } else {
                Ok(Some(MqttString::new(b)))
            }
        },
        Err(e) => Err(e),
    }
}

/// Decoding inverts encoding for every value a variable-length integer can
/// carry, whatever follows it, and the length taken matches the size verdict.
pub proof fn lemma_varint_round_trip(n: int, rest: Seq<u8>)
    requires
        0 <= n <= VARINT_MAX,
    ensures
        spec_decode_varint(spec_varint(n) + rest) == Ok::<(u32, int), MqttError>(
            (n as u32, spec_varint_len(n)),
        ),
{
    let s = spec_varint(n) + rest;
    crate::v5::encoder::lemma_varint_len(n);
    if n < 0x80 {
        assert(s[0] == n as u8);
    } else if n < 0x4000 {
        assert(s[0] == (n % 0x80 + 0x80) as u8);
        assert(spec_varint(n / 0x80) =~= seq![(n / 0x80) as u8]);
        assert(s[1] == (n / 0x80) as u8);
    } else if n < 0x20_0000 {
        assert(s[0] == (n % 0x80 + 0x80) as u8);
        assert(spec_varint(n / 0x80) =~= seq![(n / 0x80 % 0x80 + 0x80) as u8] + spec_varint(
            n / 0x80 / 0x80,
        ));
        assert(spec_varint(n / 0x80 / 0x80) =~= seq![(n / 0x80 / 0x80) as u8]);
        assert(s[1] == (n / 0x80 % 0x80 + 0x80) as u8);
        assert(s[2] == (n / 0x80 / 0x80) as u8);
        assert(n / 0x80 / 0x80 < 0x80);
        assert(low7(s[0]) + 0x80 * low7(s[1]) + 0x4000 * s[2] == n);
    } else {
        assert(s[0] == (n % 0x80 + 0x80) as u8);
        assert(spec_varint(n / 0x80) =~= seq![(n / 0x80 % 0x80 + 0x80) as u8] + spec_varint(
            n / 0x80 / 0x80,
        ));
        assert(spec_varint(n / 0x80 / 0x80) =~= seq![(n / 0x80 / 0x80 % 0x80 + 0x80) as u8]
            + spec_varint(n / 0x80 / 0x80 / 0x80));
        assert(spec_varint(n / 0x80 / 0x80 / 0x80) =~= seq![(n / 0x80 / 0x80 / 0x80) as u8]);
        assert(s[1] == (n / 0x80 % 0x80 + 0x80) as u8);
        assert(s[2] == (n / 0x80 / 0x80 % 0x80 + 0x80) as u8);
        assert(s[3] == (n / 0x80 / 0x80 / 0x80) as u8);
        assert(n / 0x80 / 0x80 / 0x80 < 0x80);
        assert(low7(s[0]) + 0x80 * low7(s[1]) + 0x4000 * low7(s[2]) + 0x20_0000 * s[3] == n);
    }
}

/// Decoding inverts encoding for every length-prefixed binary segment.
pub proof fn lemma_binary_round_trip(b: Seq<u8>, rest: Seq<u8>)
    requires
        b.len() <= 0xFFFF,
    ensures
        spec_decode_binary(spec_len_prefixed(b) + rest) == Ok::<(Seq<u8>, int), MqttError>(
            (b, 2 + b.len() as int),
        ),
{
    let s = spec_len_prefixed(b) + rest;
    let n = b.len() as u16;
    assert(s[0] == (n / 0x100) as u8 && s[1] == (n % 0x100) as u8);
    assert(spec_u16_of(s[0], s[1]) == n);
    assert(s.subrange(2, 2 + n as int) =~= b);
}

/// Decoding inverts encoding for every nonempty length-prefixed string.
pub proof fn lemma_string_round_trip(b: Seq<u8>, rest: Seq<u8>)
    requires
        1 <= b.len() <= 0xFFFF,
    ensures
        spec_decode_string(spec_len_prefixed(b) + rest) == Ok::<(Option<Seq<u8>>, int), MqttError>(
            (Some(b), 2 + b.len() as int),
        ),
{
    lemma_binary_round_trip(b, rest);
}

/// An absent string encodes as a zero length and decodes back to "absent".
pub proof fn lemma_empty_string_round_trip(rest: Seq<u8>)
    ensures
        spec_decode_string(spec_len_prefixed(Seq::<u8>::empty()) + rest) == Ok::<
            (Option<Seq<u8>>, int),
            MqttError,
        >((None, 2)),
{
    lemma_binary_round_trip(Seq::<u8>::empty(), rest);
}

/// Decoding inverts encoding for a big-endian u16 at the head of a sequence.
pub proof fn lemma_u16_round_trip(n: u16, rest: Seq<u8>)
    ensures
        ({
            let s = crate::v5::encoder::spec_u16_be(n) + rest;
            spec_u16_of(s[0], s[1]) == n
        }),
{
}

/// Decoding inverts encoding for a big-endian u32 at the head of a sequence.
pub proof fn lemma_u32_round_trip(n: u32, rest: Seq<u8>)
    ensures
        ({
            let s = crate::v5::encoder::spec_u32_be(n) + rest;
            spec_u32_of(s[0], s[1], s[2], s[3]) == n
        }),
{
}


/// Skipping twice is skipping the sum.
pub proof fn lemma_skip_add(s: Seq<u8>, i: int, j: int)
    requires
        0 <= i,
        0 <= j,
        i + j <= s.len(),
    ensures
        s.skip(i).skip(j) == s.skip(i + j),
{
    assert(s.skip(i).skip(j) =~= s.skip(i + j));
}


/// One step of the streaming decoder over a byte sequence: more bytes are
/// needed, the stream is bad, or one packet was framed off and these bytes
/// are left.
pub ghost enum FrameStep {
    NeedMore,
    Fail(MqttError),
    Packet(crate::v5::types::ControlPacketView, Seq<u8>),
}

/// What decoding one body of a known packet type yields.
#[verifier::opaque]
pub open spec fn spec_decode_body(
    t: crate::v5::types::PacketType,
    body: Seq<u8>,
) -> Result<crate::v5::types::ControlPacketView, MqttError> {
    match t {
        crate::v5::types::PacketType::Connect => match crate::v5::connect::spec_decode_connect(
            body,
        ) {
            Ok(v) => Ok(crate::v5::types::ControlPacketView::Connect(v)),
            Err(e) => Err(e),
        },
        crate::v5::types::PacketType::ConnAck => match crate::v5::connack::spec_decode_connack(
            body,
        ) {
            Ok(v) => Ok(crate::v5::types::ControlPacketView::ConnAck(v)),
            Err(e) => Err(e),
        },
        crate::v5::types::PacketType::Publish { dup, qos, retain } => match crate::v5::publish::spec_decode_publish(
            dup,
            qos,
            retain,
            body,
        ) {
            Ok(v) => Ok(crate::v5::types::ControlPacketView::Publish(v)),
            Err(e) => Err(e),
        },
        crate::v5::types::PacketType::PubAck => match crate::v5::pubres::spec_decode_response(
            body,
        ) {
            Ok(v) => Ok(crate::v5::types::ControlPacketView::PubAck(v)),
            Err(e) => Err(e),
        },
        crate::v5::types::PacketType::PubRec => match crate::v5::pubres::spec_decode_response(
            body,
        ) {
            Ok(v) => Ok(crate::v5::types::ControlPacketView::PubRec(v)),
            Err(e) => Err(e),
        },
        crate::v5::types::PacketType::PubRel => match crate::v5::pubres::spec_decode_response(
            body,
        ) {
            Ok(v) => Ok(crate::v5::types::ControlPacketView::PubRel(v)),
            Err(e) => Err(e),
        },
        crate::v5::types::PacketType::PubComp => match crate::v5::pubres::spec_decode_response(
            body,
        ) {
            Ok(v) => Ok(crate::v5::types::ControlPacketView::PubComp(v)),
            Err(e) => Err(e),
        },
        crate::v5::types::PacketType::Subscribe => match crate::v5::subscribe::spec_decode_subscribe(
            body,
        ) {
            Ok(v) => Ok(crate::v5::types::ControlPacketView::Subscribe(v)),
            Err(e) => Err(e),
        },
        crate::v5::types::PacketType::SubAck => match crate::v5::subscribe::spec_decode_suback(
            body,
        ) {
            Ok(v) => Ok(crate::v5::types::ControlPacketView::SubAck(v)),
            Err(e) => Err(e),
        },
        crate::v5::types::PacketType::UnSubscribe => match crate::v5::unsubscribe::spec_decode_unsubscribe(
            body,
        ) {
            Ok(v) => Ok(crate::v5::types::ControlPacketView::UnSubscribe(v)),
            Err(e) => Err(e),
        },
        crate::v5::types::PacketType::UnSubAck => match crate::v5::subscribe::spec_decode_suback(
            body,
        ) {
            Ok(v) => Ok(crate::v5::types::ControlPacketView::UnSubAck(v)),
            Err(e) => Err(e),
        },
        crate::v5::types::PacketType::PingReq => Ok(crate::v5::types::ControlPacketView::PingReq),
        crate::v5::types::PacketType::PingResp => Ok(
            crate::v5::types::ControlPacketView::PingResp,
        ),
        crate::v5::types::PacketType::Disconnect => match crate::v5::disconnect::spec_decode_disconnect(
            body,
        ) {
            Ok(v) => Ok(crate::v5::types::ControlPacketView::Disconnect(v)),
            Err(e) => Err(e),
        },
        crate::v5::types::PacketType::Auth => match crate::v5::auth::spec_decode_auth(body) {
            Ok(v) => Ok(crate::v5::types::ControlPacketView::Auth(v)),
            Err(e) => Err(e),
        },
    }
}

/// What one framing step over the virtual stream yields: a header byte and
/// remaining length are read, the size limit is checked, and when the whole
/// body is present it is decoded and the rest of the stream is kept.
pub open spec fn spec_frame_decode(max: Option<u32>, s: Seq<u8>) -> FrameStep {
    if s.len() < 2 {
        FrameStep::NeedMore
    } else {
        match crate::v5::types::PacketType::spec_try_from(s[0]) {
            Err(e) => FrameStep::Fail(e),
            Ok(pt) => match spec_decode_varint(s.skip(1)) {
                Err(MqttError::EndOfStream) => FrameStep::NeedMore,
                Err(e) => FrameStep::Fail(e),
                Ok((rem, k)) => if (match max {
                    Some(m) => rem as int + 2 > m as int,
                    None => false,
                }) {
                    FrameStep::Fail(MqttError::PacketTooLarge)
                } else if s.len() < 1 + k + rem as int {
                    FrameStep::NeedMore
                } else {
                    match spec_decode_body(pt, s.skip(1 + k).take(rem as int)) {
                        Ok(p) => FrameStep::Packet(p, s.skip(1 + k + rem as int)),
                        Err(e) => FrameStep::Fail(e),
                    }
                },
            },
        }
    }
}

/// Whether the size limit rejects the frame at the head of the stream.
pub open spec fn spec_size_exceeded(max: Option<u32>, s: Seq<u8>) -> bool {
    &&& s.len() >= 2
    &&& crate::v5::types::PacketType::spec_try_from(s[0]) is Ok
    &&& (match spec_decode_varint(s.skip(1)) {
        Ok((rem, k)) => match max {
            Some(m) => rem as int + 2 > m as int,
            None => false,
        },
        Err(_) => false,
    })
}

/// The bytes a partially decoded header stands for: the header byte and the
/// canonical remaining length.
pub open spec fn spec_part_bytes(p: crate::v5::types::PacketPart) -> Seq<u8> {
    match p {
        crate::v5::types::PacketPart::FixedHeader => seq![],
        crate::v5::types::PacketPart::VariableHeader { remaining, packet_type } => seq![
            packet_type.spec_as_u8(),
        ] + crate::v5::encoder::spec_varint(remaining as int),
    }
}

/// A header whose remaining length is canonically encoded (or that is still
/// incomplete): the form the library's own encoder always produces.
pub open spec fn spec_header_canonical(s: Seq<u8>) -> bool {
    s.len() < 2 || (match spec_decode_varint(s.skip(1)) {
        Ok((rem, k)) => s.skip(1).take(k) == crate::v5::encoder::spec_varint(rem as int),
        Err(_) => true,
    })
}

/// Remove the first n bytes of a buffer.
pub fn drain_prefix(v: &mut Vec<u8>, n: usize)
    requires
        n <= old(v)@.len(),
    ensures
        final(v)@ == old(v)@.skip(n as int),
{
    let mut pos: usize = n;
    let len = v.len();
    let rest = read_vec(v, &mut pos, len - n);
    assert(rest@ =~= v@.skip(n as int));
    *v = rest;
}

/// Decode one body of a known packet type.
#[verifier::rlimit(100)]
#[verifier::spinoff_prover]
pub fn decode_body(t: crate::v5::types::PacketType, body: &Vec<u8>) -> (r: Result<
    crate::v5::types::ControlPacket,
    MqttError,
>)
    ensures
        match spec_decode_body(t, body@) {
            Ok(v) => r matches Ok(p) && p@ == v,
            Err(e) => r == Err::<crate::v5::types::ControlPacket, MqttError>(e),
        },
{
    proof {
        reveal(spec_decode_body);
    }
    match t {
        crate::v5::types::PacketType::Connect => match crate::v5::connect::decode_connect(body) {
            Ok(c) => Ok(crate::v5::types::ControlPacket::Connect(c)),
            Err(e) => Err(e),
        },
        crate::v5::types::PacketType::ConnAck => match crate::v5::connack::decode_connack(body) {
            Ok(Some(p)) => Ok(p),
            Ok(None) => Err(MqttError::MalformedPacket),
            Err(e) => Err(e),
        },
        crate::v5::types::PacketType::Publish { dup, qos, retain } => match crate::v5::publish::decode_publish(
            dup,
            qos,
            retain,
            body,
        ) {
            Ok(Some(p)) => Ok(p),
            Ok(None) => Err(MqttError::MalformedPacket),
            Err(e) => Err(e),
        },
        crate::v5::types::PacketType::PubAck => match crate::v5::pubres::decode_publish_response(
            body,
        ) {
            Ok(p) => Ok(crate::v5::types::ControlPacket::PubAck(p)),
            Err(e) => Err(e),
        },
        crate::v5::types::PacketType::PubRec => match crate::v5::pubres::decode_publish_response(
            body,
        ) {
            Ok(p) => Ok(crate::v5::types::ControlPacket::PubRec(p)),
            Err(e) => Err(e),
        },
        crate::v5::types::PacketType::PubRel => match crate::v5::pubres::decode_publish_response(
            body,
        ) {
            Ok(p) => Ok(crate::v5::types::ControlPacket::PubRel(p)),
            Err(e) => Err(e),
        },
        crate::v5::types::PacketType::PubComp => match crate::v5::pubres::decode_publish_response(
            body,
        ) {
            Ok(p) => Ok(crate::v5::types::ControlPacket::PubComp(p)),
            Err(e) => Err(e),
        },
        crate::v5::types::PacketType::Subscribe => match crate::v5::subscribe::decode_subscribe(
            body,
        ) {
            Ok(Some(p)) => Ok(p),
            Ok(None) => Err(MqttError::MalformedPacket),
            Err(e) => Err(e),
        },
        crate::v5::types::PacketType::SubAck => match crate::v5::subscribe::decode_suback(body) {
            Ok(p) => Ok(crate::v5::types::ControlPacket::SubAck(p)),
            Err(e) => Err(e),
        },
        crate::v5::types::PacketType::UnSubscribe => match crate::v5::unsubscribe::decode_unsubscribe(
            body,
        ) {
            Ok(Some(p)) => Ok(p),
            Ok(None) => Err(MqttError::MalformedPacket),
            Err(e) => Err(e),
        },
        crate::v5::types::PacketType::UnSubAck => match crate::v5::subscribe::decode_suback(body) {
            Ok(p) => Ok(crate::v5::types::ControlPacket::UnSubAck(p)),
            Err(e) => Err(e),
        },
        crate::v5::types::PacketType::PingReq => Ok(crate::v5::types::ControlPacket::PingReq),
        crate::v5::types::PacketType::PingResp => Ok(crate::v5::types::ControlPacket::PingResp),
        crate::v5::types::PacketType::Disconnect => match crate::v5::disconnect::decode_disconnect(
            body,
        ) {
            Ok(Some(p)) => Ok(p),
            Ok(None) => Err(MqttError::MalformedPacket),
            Err(e) => Err(e),
        },
        crate::v5::types::PacketType::Auth => match crate::v5::auth::decode_auth(body) {
            Ok(Some(p)) => Ok(p),
            Ok(None) => Err(MqttError::MalformedPacket),
            Err(e) => Err(e),
        },
    }
}

/// Detach one complete frame body from the buffer and decode it.
#[verifier::rlimit(100)]
#[verifier::spinoff_prover]
fn take_frame(
    reader: &mut Vec<u8>,
    pt: crate::v5::types::PacketType,
    header_len: usize,
    rem: usize,
) -> (r: Result<crate::v5::types::ControlPacket, MqttError>)
    requires
        header_len + rem <= old(reader)@.len(),
    ensures
        final(reader)@ == old(reader)@.skip(header_len + rem as int),
        match spec_decode_body(pt, old(reader)@.skip(header_len as int).take(rem as int)) {
            Ok(v) => r matches Ok(p) && p@ == v,
            Err(e) => r == Err::<crate::v5::types::ControlPacket, MqttError>(e),
        },
{
    let mut pos: usize = header_len;
    let body = read_vec(reader, &mut pos, rem);
    assert(body@ =~= reader@.skip(header_len as int).take(rem as int));
    drain_prefix(reader, pos);
    decode_body(pt, &body)
}

impl crate::v5::types::MqttCodec {
    /// The codec's invariant: a cached header fits the varint range and has
    /// already passed the size limit.
    pub open spec fn wf(self) -> bool {
        match self.part {
            crate::v5::types::PacketPart::FixedHeader => true,
            crate::v5::types::PacketPart::VariableHeader { remaining, packet_type } => remaining
                <= crate::v5::encoder::VARINT_MAX && (match self.maximum_packet_size {
                Some(m) => remaining + 2 <= m as int,
                None => true,
            }),
        }
    }

    /// One decode step from the start state: read a header if one is there.
    #[verifier::rlimit(100)]
    #[verifier::spinoff_prover]
    fn decode_fixed(&mut self, reader: &mut Vec<u8>) -> (r: Result<
        Option<crate::v5::types::ControlPacket>,
        MqttError,
    >)
        requires
            old(self).wf(),
            old(self).part == crate::v5::types::PacketPart::FixedHeader,
        ensures
            final(self).wf(),
            final(self).maximum_packet_size == old(self).maximum_packet_size,
            ({
                let v0 = old(reader)@;
                let max = old(self).maximum_packet_size;
                match r {
                    Ok(Some(p)) => spec_frame_decode(max, v0) == FrameStep::Packet(
                        p@,
                        final(reader)@,
                    ) && final(self).part == crate::v5::types::PacketPart::FixedHeader,
                    Ok(None) => spec_frame_decode(max, v0) is NeedMore && (spec_header_canonical(
                        v0,
                    ) ==> spec_part_bytes(final(self).part) + final(reader)@ == v0),
                    Err(e) => spec_frame_decode(max, v0) == FrameStep::Fail(e) && (
                    spec_size_exceeded(max, v0) ==> final(reader)@ == old(reader)@
                        && final(self).part == old(self).part),
                }
            }),
    {
        let ghost v0 = reader@;
        if reader.len() < 2 {
            return Ok(None);
        }
        let tb = reader[0];
        let pt = match crate::v5::types::PacketType::try_from(tb) {
            Ok(t) => t,
            Err(e) => {
                return Err(e);
            },
        };
        let mut pos: usize = 1;
        let rem = match decode_variable_integer(reader, &mut pos) {
            Ok(v) => v,
            Err(MqttError::EndOfStream) => {
                return Ok(None);
            },
            Err(e) => {
                return Err(e);
            },
        };
        let ghost k = pos as int - 1;
        match self.maximum_packet_size {
            Some(m) => {
                if rem as u64 + 2 > m as u64 {
                    return Err(MqttError::PacketTooLarge);
                }
            },
            None => {},
        }
        if reader.len() - pos < rem as usize {
            proof {
                lemma_varint_round_trip(rem as int, reader@.skip(pos as int));
                crate::v5::encoder::lemma_varint_len(rem as int);
            }
            let ghost canon = spec_header_canonical(v0);
            drain_prefix(reader, pos);
            self.part = crate::v5::types::PacketPart::VariableHeader {
                remaining: rem as usize,
                packet_type: pt,
            };
            proof {
                crate::v5::types::lemma_packet_type_byte_inverse(tb);
                if canon {
                    assert(v0.skip(1).take(k) == crate::v5::encoder::spec_varint(rem as int));
                    assert(spec_part_bytes(self.part) + reader@ =~= v0);
                }
            }
            return Ok(None);
        }
        match take_frame(reader, pt, pos, rem as usize) {
            Ok(p) => Ok(Some(p)),
            Err(e) => Err(e),
        }
    }

    /// One decode step with a cached header: emit the packet if the body is
    /// there.
    #[verifier::rlimit(100)]
    #[verifier::spinoff_prover]
    fn decode_variable(&mut self, reader: &mut Vec<u8>) -> (r: Result<
        Option<crate::v5::types::ControlPacket>,
        MqttError,
    >)
        requires
            old(self).wf(),
            old(self).part matches crate::v5::types::PacketPart::VariableHeader { .. },
        ensures
            final(self).wf(),
            final(self).maximum_packet_size == old(self).maximum_packet_size,
            ({
                let v0 = spec_part_bytes(old(self).part) + old(reader)@;
                let max = old(self).maximum_packet_size;
                match r {
                    Ok(Some(p)) => spec_frame_decode(max, v0) == FrameStep::Packet(
                        p@,
                        final(reader)@,
                    ) && final(self).part == crate::v5::types::PacketPart::FixedHeader,
                    Ok(None) => spec_frame_decode(max, v0) is NeedMore && spec_part_bytes(
                        final(self).part,
                    ) + final(reader)@ == v0,
                    Err(e) => spec_frame_decode(max, v0) == FrameStep::Fail(e),
                }
            }),
    {
        let ghost v0 = spec_part_bytes(self.part) + reader@;
        match self.part {
            crate::v5::types::PacketPart::VariableHeader { remaining, packet_type } => {
                proof {
                    crate::v5::types::lemma_packet_type_round_trip(packet_type);
                    crate::v5::encoder::lemma_varint_len(remaining as int);
                    lemma_varint_round_trip(remaining as int, reader@);
                    assert(v0.skip(1) =~= crate::v5::encoder::spec_varint(remaining as int)
                        + reader@);
                    assert(v0[0] == packet_type.spec_as_u8());
                }
                let ghost k = crate::v5::encoder::spec_varint_len(remaining as int);
                if reader.len() < remaining {
                    assert(spec_part_bytes(self.part) + reader@ =~= v0);
                    return Ok(None);
                }
                proof {
                    assert(v0.skip(1 + k) =~= reader@);
                    assert(v0.skip(1 + k).take(remaining as int) =~= reader@.take(
                        remaining as int,
                    ));
                    assert(v0.skip(1 + k + remaining as int) =~= reader@.skip(remaining as int));
                }
                self.part = crate::v5::types::PacketPart::FixedHeader;
                let ghost r0 = reader@;
                match take_frame(reader, packet_type, 0, remaining) {
                    Ok(p) => {
                        proof {
                            assert(r0.skip(0).take(remaining as int) =~= r0.take(remaining as int));
                        }
                        Ok(Some(p))
                    },
                    Err(e) => {
                        proof {
                            assert(r0.skip(0).take(remaining as int) =~= r0.take(remaining as int));
                        }
                        Err(e)
                    },
                }
            },
            crate::v5::types::PacketPart::FixedHeader => Err(MqttError::MalformedPacket),
        }
    }

    /// Decode one packet from the stream buffer, if a whole frame is there.
    /// The virtual stream is the bytes of any cached header followed by the
    /// buffer; a frame is taken off its front, an incomplete frame leaves
    /// every byte accounted for, and a too-large packet is rejected before
    /// its body is consumed.
    #[verifier::rlimit(100)]
    #[verifier::spinoff_prover]
    pub fn decode(&mut self, reader: &mut Vec<u8>) -> (r: Result<
        Option<crate::v5::types::ControlPacket>,
        MqttError,
    >)
        requires
            old(self).wf(),
        ensures
            final(self).wf(),
            final(self).maximum_packet_size == old(self).maximum_packet_size,
            ({
                let v0 = spec_part_bytes(old(self).part) + old(reader)@;
                let max = old(self).maximum_packet_size;
                match r {
                    Ok(Some(p)) => spec_frame_decode(max, v0) == FrameStep::Packet(
                        p@,
                        final(reader)@,
                    ) && final(self).part == crate::v5::types::PacketPart::FixedHeader,
                    Ok(None) => spec_frame_decode(max, v0) is NeedMore && (spec_header_canonical(
                        v0,
                    ) ==> spec_part_bytes(final(self).part) + final(reader)@ == v0),
                    Err(e) => spec_frame_decode(max, v0) == FrameStep::Fail(e) && (
                    spec_size_exceeded(max, v0) && old(self).part
                        == crate::v5::types::PacketPart::FixedHeader ==> final(reader)@ == old(
                        reader,
                    )@ && final(self).part == old(self).part),
                }
            }),
    {
        let is_fixed = match self.part {
            crate::v5::types::PacketPart::FixedHeader => true,
            crate::v5::types::PacketPart::VariableHeader { .. } => false,
        };
        if is_fixed {
            assert(spec_part_bytes(self.part) + reader@ =~= reader@);
            self.decode_fixed(reader)
        } else {
            self.decode_variable(reader)
        }
    }
}

} // verus!
