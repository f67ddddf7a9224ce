use vstd::prelude::*;
use crate::types::{Type, type_of_tag, type_tag};

verus! {

/// `n` bytes' worth of values: 256 to the power `n`.
pub open spec fn pow256(n: nat) -> nat
    decreases n,
{
    if n == 0 {
        1
    } else {
        256 * pow256((n - 1) as nat)
    }
}

/// The unsigned number that a sequence of bytes spells in big-endian order.
pub open spec fn be_value(s: Seq<u8>) -> nat
    decreases s.len(),
{
    if s.len() == 0 {
        0
    } else {
        (be_value(s.drop_last()) * 256 + s.last()) as nat
    }
}

/// The four big-endian bytes of a 32-bit value.
pub open spec fn be_u32(v: u32) -> Seq<u8> {
    seq![(v / 0x100_0000) as u8, ((v / 0x1_0000) % 256) as u8, ((v / 256) % 256) as u8, (v % 256) as u8]
}

/// MessagePack's encoding of a `u32` in its five-byte form.
pub open spec fn enc_u32(v: u32) -> Seq<u8> {
    seq![0xceu8] + be_u32(v)
}

/// MessagePack's encoding of an `i32` in its five-byte form (two's complement).
pub open spec fn enc_i32(v: i32) -> Seq<u8> {
    seq![0xd2u8] + be_u32(v as u32)
}

/// The byte count of the data after a sized integer marker (`k` in 0..4 gives 1, 2, 4, 8).
pub open spec fn int_width(k: u8) -> nat {
    if k == 0 {
        1
    } else if k == 1 {
        2
    } else if k == 2 {
        4
    } else {
        8
    }
}

/// The MessagePack integer that starts at `p`, with the position after it.
pub open spec fn int_at(s: Seq<u8>, p: int) -> Option<(int, int)> {
    if p < 0 || p >= s.len() {
        None
    } else {
        let m = s[p];
        if m <= 0x7f {
            Some((m as int, p + 1))
        } else if m >= 0xe0 {
            Some((m - 256, p + 1))
        } else if 0xcc <= m && m <= 0xd3 {
            let signed = m >= 0xd0;
            let n = int_width(if signed { (m - 0xd0) as u8 } else { (m - 0xcc) as u8 });
            if p + 1 + n > s.len() {
                None
            } else {
                let v = be_value(s.subrange(p + 1, p + 1 + n));
                if signed && v >= pow256(n) / 2 {
                    Some((v - pow256(n), p + 1 + n))
                } else {
                    Some((v as int, p + 1 + n))
                }
            }
        } else {
            None
        }
    }
}

/// A binary frame as read off the wire: a four-element array of id, timestamp,
/// type tag, and the value's MessagePack bytes.
#[derive(Debug, Clone, PartialEq, Eq)]
pub struct RawFrame {
    pub id: i128,
    pub timestamp: i128,
    pub type_idx: i128,
    pub value: Vec<u8>,
}

/// The length of the MessagePack array whose header starts the bytes, with
/// the position after the header: the fix, 16-bit and 32-bit forms.
pub open spec fn array_len_at(s: Seq<u8>) -> Option<(int, int)> {
    if s.len() >= 1 && 0x90 <= s[0] <= 0x9f {
        Some(((s[0] - 0x90) as int, 1))
    } else if s.len() >= 3 && s[0] == 0xdc {
        Some((be_value(s.subrange(1, 3)) as int, 3))
    } else if s.len() >= 5 && s[0] == 0xdd {
        Some((be_value(s.subrange(1, 5)) as int, 5))
    } else {
        None
    }
}

/// The frame that bytes hold, if they are a four-element array whose first
/// three elements are integers; the rest of the bytes are the value.
pub open spec fn frame_of(s: Seq<u8>) -> Option<(int, int, int, Seq<u8>)> {
    if array_len_at(s) is None || array_len_at(s).unwrap().0 != 4 {
        None
    } else {
        match int_at(s, array_len_at(s).unwrap().1) {
            None => None,
            Some((id, after_id)) => match int_at(s, after_id) {
                None => None,
                Some((ts, after_ts)) => match int_at(s, after_ts) {
                    None => None,
                    Some((tag, after_tag)) => if after_tag < s.len() {
                        Some((id, ts, tag, s.subrange(after_tag, s.len() as int)))
                    } else {
                        None
                    },
                },
            },
        }
    }
}

proof fn lemma_pow256_small()
    ensures
        pow256(1) == 0x100,
        pow256(2) == 0x1_0000,
        pow256(4) == 0x1_0000_0000,
        pow256(8) == 0x1_0000_0000_0000_0000,
{
    reveal_with_fuel(pow256, 9);
}

/// Relies on rmp::decode::read_array_len on the bytes from `pos`: it reads a
/// fix, 16-bit or 32-bit array header and fails on any other marker or on
/// too few bytes. Returns the length and how many bytes are left after it.
#[verifier::external_body]
fn read_array_header(buf: &Vec<u8>, pos: usize) -> (r: Option<(u32, usize)>)
    requires
        pos <= buf@.len(),
    ensures
        r is None <==> array_len_at(buf@.subrange(pos as int, buf@.len() as int)) is None,
        r matches Some((len, rest)) ==> array_len_at(buf@.subrange(pos as int, buf@.len() as int))
            == Some((len as int, buf@.len() - pos - rest)),
{
    let mut rd: &[u8] = &buf[pos..];
    match rmp::decode::read_array_len(&mut rd) {
        Ok(len) => Some((len, rd.len())),
        Err(_) => None,
    }
}

/// Relies on rmp::decode::read_int into an `i128`, which holds every
/// MessagePack integer: it reads a fixint or a sized integer from the bytes at
/// `pos` and fails on any other marker or on too few bytes. Returns the value
/// and how many bytes are left after it.
#[verifier::external_body]
fn read_int_from(buf: &Vec<u8>, pos: usize) -> (r: Option<(i128, usize)>)
    requires
        pos <= buf@.len(),
    ensures
        r is None <==> int_at(buf@, pos as int) is None,
        r matches Some((v, rest)) ==> int_at(buf@, pos as int) == Some((v as int, buf@.len() - rest)),
{
    let mut rd: &[u8] = &buf[pos..];
    match rmp::decode::read_int::<i128, _>(&mut rd) {
        Ok(v) => Some((v, rd.len())),
        Err(_) => None,
    }
}

/// Reads the MessagePack integer that starts at `p`, with the position after it.
pub fn read_int(buf: &Vec<u8>, p: usize) -> (r: Option<(i128, usize)>)
    ensures
        r is None <==> int_at(buf@, p as int) is None,
        r matches Some((v, q)) ==> int_at(buf@, p as int) == Some((v as int, q as int)),
{
    if p > buf.len() {
        return None;
    }
    match read_int_from(buf, p) {
        Some((v, rest)) => {
            if rest > buf.len() {
                return None;
            }
            Some((v, buf.len() - rest))
        },
        None => None,
    }
}

/// Splits a binary frame into id, timestamp, type tag and value bytes.
pub fn decode_frame(buf: &Vec<u8>) -> (r: Option<RawFrame>)
    ensures
        match frame_of(buf@) {
            None => r is None,
            Some((id, ts, tag, value)) => r matches Some(f) && f.id == id && f.timestamp == ts
                && f.type_idx == tag && f.value@ == value,
        },
{
    proof {
        assert(buf@.subrange(0, buf@.len() as int) =~= buf@);
    }
    let header: usize = match read_array_header(buf, 0) {
        Some((len, rest)) => {
            if len != 4 || rest > buf.len() {
                return None;
            }
            buf.len() - rest
        },
        None => return None,
    };
    let (id, after_id) = match read_int(buf, header) {
        Some(x) => x,
        None => return None,
    };
    let (ts, after_ts) = match read_int(buf, after_id) {
        Some(x) => x,
        None => return None,
    };
    let (tag, after_tag) = match read_int(buf, after_ts) {
        Some(x) => x,
        None => return None,
    };
    if after_tag >= buf.len() {
        return None;
    }
    let mut value: Vec<u8> = Vec::new();
    let mut i: usize = after_tag;
    while i < buf.len()
        invariant
            after_tag <= i <= buf@.len(),
            value@ == buf@.subrange(after_tag as int, i as int),
        decreases buf@.len() - i,
    {
        value.push(buf[i]);
        i = i + 1;
        proof {
            assert(value@ =~= buf@.subrange(after_tag as int, i as int));
        }
    }
    Some(RawFrame { id, timestamp: ts, type_idx: tag, value })
}


/// The id slot of an outbound value frame: a publisher id, or -1 for the time channel.
#[derive(Debug, Clone, Copy, PartialEq, Eq)]
pub enum UnsignedIntOrNegativeOne {
    NegativeOne,
    UnsignedInt(u32),
}

/// The integer that an id slot stands for.
pub open spec fn frame_id_value(id: UnsignedIntOrNegativeOne) -> int {
    match id {
        UnsignedIntOrNegativeOne::NegativeOne => -1,
        UnsignedIntOrNegativeOne::UnsignedInt(u) => u as int,
    }
}

/// The bytes of an id slot: -1 as a five-byte `i32`, a publisher id as a five-byte `u32`.
pub open spec fn frame_id_bytes(id: UnsignedIntOrNegativeOne) -> Seq<u8> {
    match id {
        UnsignedIntOrNegativeOne::NegativeOne => enc_i32(-1i32),
        UnsignedIntOrNegativeOne::UnsignedInt(u) => enc_u32(u),
    }
}

/// An outbound value frame: the four-element array marker, the id, the
/// timestamp, the type tag, then the value's own MessagePack bytes.
pub open spec fn value_frame_bytes(id: UnsignedIntOrNegativeOne, timestamp: u32, t: Type, value: Seq<u8>) -> Seq<u8> {
    seq![0x94u8] + frame_id_bytes(id) + enc_u32(timestamp) + enc_u32(type_tag(t) as u32) + value
}

/// Relies on rmp::encode::write_array_len: below 16 the length is the single
/// byte `0x90 | len`; writing to a `Vec` cannot fail.
#[verifier::external_body]
fn push_array_len(buf: &mut Vec<u8>, len: u32)
    requires
        len < 16,
    ensures
        final(buf)@ == old(buf)@ + seq![(0x90 + len) as u8],
{
    let _ = rmp::encode::write_array_len(buf, len);
}

/// Relies on rmp::encode::write_u32: the marker `0xce`, then four big-endian
/// bytes; writing to a `Vec` cannot fail.
#[verifier::external_body]
pub(crate) fn push_u32(buf: &mut Vec<u8>, v: u32)
    ensures
        final(buf)@ == old(buf)@ + enc_u32(v),
{
    let _ = rmp::encode::write_u32(buf, v);
}

/// Relies on rmp::encode::write_i32: the marker `0xd2`, then four big-endian
/// bytes of two's complement; writing to a `Vec` cannot fail.
#[verifier::external_body]
fn push_i32(buf: &mut Vec<u8>, v: i32)
    ensures
        final(buf)@ == old(buf)@ + enc_i32(v),
{
    let _ = rmp::encode::write_i32(buf, v);
}

impl UnsignedIntOrNegativeOne {
    /// Appends this id's MessagePack bytes to `buf`.
    pub fn write_to_buf(&self, buf: &mut Vec<u8>)
        ensures
            final(buf)@ == old(buf)@ + frame_id_bytes(*self),
    {
        match self {
            UnsignedIntOrNegativeOne::NegativeOne => push_i32(buf, -1),
            UnsignedIntOrNegativeOne::UnsignedInt(u) => push_u32(buf, *u),
        }
    }
}

/// Builds the binary frame that carries one value: `value` holds the value's
/// MessagePack bytes.
pub fn encode_value_frame(id: UnsignedIntOrNegativeOne, timestamp: u32, t: Type, value: &Vec<u8>) -> (r: Vec<u8>)
    ensures
        r@ == value_frame_bytes(id, timestamp, t, value@),
{
    let mut buf: Vec<u8> = Vec::new();
    push_array_len(&mut buf, 4);
    id.write_to_buf(&mut buf);
    push_u32(&mut buf, timestamp);
    push_u32(&mut buf, t.as_u8() as u32);
    let ghost head = buf@;
    let mut i: usize = 0;
    while i < value.len()
        invariant
            i <= value@.len(),
            buf@ == head + value@.subrange(0, i as int),
        decreases value@.len() - i,
    {
        buf.push(value[i]);
        i = i + 1;
        proof {
            assert(buf@ =~= head + value@.subrange(0, i as int));
        }
    }
    proof {
        assert(value@.subrange(0, value@.len() as int) =~= value@);
        assert(head =~= seq![0x94u8] + frame_id_bytes(id) + enc_u32(timestamp) + enc_u32(type_tag(t) as u32));
    }
    buf
}

proof fn lemma_be_u32_value(v: u32)
    ensures
        be_value(be_u32(v)) == v,
{
    let s = be_u32(v);
    assert(s.drop_last().drop_last().drop_last().drop_last() =~= Seq::<u8>::empty());
    reveal_with_fuel(be_value, 5);
    assert(be_value(s) == ((s[0] * 256 + s[1]) * 256 + s[2]) * 256 + s[3]);
}

proof fn lemma_read_u32_at(s: Seq<u8>, p: int, v: u32)
    requires
        0 <= p,
        p + 5 <= s.len(),
        s.subrange(p, p + 5) == enc_u32(v),
    ensures
        int_at(s, p) == Some((v as int, p + 5)),
{
    assert(s[p] == s.subrange(p, p + 5)[0]);
    assert(s.subrange(p + 1, p + 5) =~= be_u32(v)) by {
        assert forall|i: int| 0 <= i < 4 implies #[trigger] s.subrange(p + 1, p + 5)[i] == be_u32(v)[i] by {
            assert(s.subrange(p, p + 5)[i + 1] == s[p + 1 + i]);
        }
    }
    lemma_be_u32_value(v);
}

proof fn lemma_read_minus_one_at(s: Seq<u8>, p: int)
    requires
        0 <= p,
        p + 5 <= s.len(),
        s.subrange(p, p + 5) == enc_i32(-1i32),
    ensures
        int_at(s, p) == Some((-1int, p + 5)),
{
    assert((-1i32) as u32 == 0xffff_ffffu32) by (bit_vector);
    assert(s[p] == s.subrange(p, p + 5)[0]);
    assert(s.subrange(p + 1, p + 5) =~= be_u32(0xffff_ffffu32)) by {
        assert forall|i: int| 0 <= i < 4 implies #[trigger] s.subrange(p + 1, p + 5)[i] == be_u32(0xffff_ffffu32)[i] by {
            assert(s.subrange(p, p + 5)[i + 1] == s[p + 1 + i]);
        }
    }
    lemma_be_u32_value(0xffff_ffffu32);
    lemma_pow256_small();
}

/// Decoding an encoded value frame gives back its id, timestamp, type tag and
/// value bytes, whenever the value is not empty.
pub proof fn lemma_value_frame_round_trip(id: UnsignedIntOrNegativeOne, timestamp: u32, t: Type, value: Seq<u8>)
    requires
        value.len() > 0,
    ensures
        frame_of(value_frame_bytes(id, timestamp, t, value)) == Some(
            (frame_id_value(id), timestamp as int, type_tag(t) as int, value),
        ),
{
    let s = value_frame_bytes(id, timestamp, t, value);
    assert(s.subrange(1, 6) =~= frame_id_bytes(id));
    assert(s.subrange(6, 11) =~= enc_u32(timestamp));
    assert(s.subrange(11, 16) =~= enc_u32(type_tag(t) as u32));
    assert(s.subrange(16, s.len() as int) =~= value);
    match id {
        UnsignedIntOrNegativeOne::NegativeOne => lemma_read_minus_one_at(s, 1),
        UnsignedIntOrNegativeOne::UnsignedInt(u) => lemma_read_u32_at(s, 1, u),
    }
    lemma_read_u32_at(s, 6, timestamp);
    lemma_read_u32_at(s, 11, type_tag(t) as u32);
}


/// A binary frame from the server, sorted by what it is for.
#[derive(Debug)]
pub enum Inbound {
    /// A value for the announced topic `id`.
    Value { id: i32, timestamp: u32, value_type: Type, value: Vec<u8> },
    /// A reply on the time channel: the server's time and the client time it echoes.
    TimeReply { server_timestamp: u32, echoed: Option<i64> },
    /// Anything else: malformed, an unknown type tag, or an id below -1.
    Ignored,
}

/// Whether an integer fits in `i64`.
pub open spec fn fits_i64(x: int) -> bool {
    i64::MIN <= x <= i64::MAX
}

/// Whether an integer fits in `u64`.
pub open spec fn fits_u64(x: int) -> bool {
    0 <= x <= u64::MAX
}

/// Whether an integer fits in `u32`.
pub open spec fn fits_u32(x: int) -> bool {
    0 <= x <= u32::MAX
}

/// The client time a time reply echoes: its value when that is a single
/// integer that fits in `i64`.
pub open spec fn echoed_of(value: Seq<u8>) -> Option<i64> {
    match int_at(value, 0) {
        Some((v, q)) => if q == value.len() && fits_i64(v) { Some(v as i64) } else { None },
        None => None,
    }
}

/// What a frame with these fields is for (see `classify`).
pub open spec fn classified(id_in: int, ts_in: int, tag_in: int, value_in: Seq<u8>, r: Inbound) -> bool {
    if !fits_u32(ts_in) || id_in < -1 || id_in > i32::MAX {
        r is Ignored
    } else if id_in >= 0 {
        if fits_u64(tag_in) && type_of_tag(tag_in as u64) is Some {
            r matches Inbound::Value { id: rid, timestamp, value_type, value } && rid == id_in && timestamp == ts_in
                && value_type == type_of_tag(tag_in as u64).unwrap() && value@ == value_in
        } else {
            r is Ignored
        }
    } else {
        r == Inbound::TimeReply { server_timestamp: ts_in as u32, echoed: echoed_of(value_in) }
    }
}

/// Sorts a decoded frame. A timestamp outside `u32` or an id outside -1 up to
/// `i32::MAX` makes the frame ignored. Ids from 0 up carry values and need a
/// known type tag; -1 is the time channel.
pub fn classify(frame: RawFrame) -> (r: Inbound)
    ensures
        classified(frame.id as int, frame.timestamp as int, frame.type_idx as int, frame.value@, r),
{
    if frame.timestamp < 0 || frame.timestamp > u32::MAX as i128 || frame.id < -1 || frame.id > i32::MAX as i128 {
        return Inbound::Ignored;
    }
    let id = frame.id as i32;
    let ts = frame.timestamp as u32;
    if id >= 0 {
        if frame.type_idx < 0 || frame.type_idx > u64::MAX as i128 {
            return Inbound::Ignored;
        }
        match Type::from_num(frame.type_idx as u64) {
            Some(t) => Inbound::Value { id, timestamp: ts, value_type: t, value: frame.value },
            None => Inbound::Ignored,
        }
    } else {
        let echoed = match read_int(&frame.value, 0) {
            Some((v, q)) => if q == frame.value.len() && v >= i64::MIN as i128 && v <= i64::MAX as i128 {
                Some(v as i64)
            } else {
                None
            },
            None => None,
        };
        Inbound::TimeReply { server_timestamp: ts, echoed }
    }
}

/// Decodes and sorts a binary frame from the server.
pub fn decode_inbound(bytes: &Vec<u8>) -> (r: Inbound)
    ensures
        match frame_of(bytes@) {
            None => r is Ignored,
            Some((id, ts, tag, value)) => classified(id, ts, tag, value, r),
        },
{
    match decode_frame(bytes) {
        Some(f) => classify(f),
        None => Inbound::Ignored,
    }
}

} // verus!
