//! The small piece of the protobuf wire format that the Game Coordinator
//! exchange needs: varints, the proto packet header, and the decoder of the
//! `map_count` field of the matchmaking-statistics response.

use vstd::prelude::*;
use vstd::bytes::{spec_u32_from_le_bytes, spec_u32_to_le_bytes, u32_from_le_bytes, u32_to_le_bytes};
use vstd::slice::slice_subrange;

verus! {

/// The bit that marks a Game Coordinator message type as carrying a protobuf body.
pub const PROTO_MASK: u32 = 0x8000_0000;

/// Why a byte string was refused by the wire decoder.
#[derive(Debug, Clone, Copy, PartialEq, Eq, Structural)]
pub enum WireError {
    /// The input ended inside a varint.
    TruncatedVarint,
    /// The tenth byte of a varint carries bits beyond 64.
    VarintOverflow,
    /// A `map_count` value does not fit in 32 bits.
    CountOutOfRange,
    /// The length of the packed `map_count` field does not fit in `usize`.
    PackedTooLarge,
    /// An offset computation left the range of `usize`.
    OffsetOverflow,
    /// The packed `map_count` field runs past the end of the input.
    TruncatedPacked,
    /// The length of a skipped length-delimited field does not fit in `usize`.
    FieldTooLarge,
    /// A field uses a wire type other than 0, 1, 2 or 5.
    UnsupportedWireType(u64),
    /// A skipped field runs past the end of the input.
    TruncatedField,
    /// The message holds no `map_count` value at all.
    NoCounts,
}

/// Reads the `k`-th byte (counting from 0) of a varint at `pos`: its value,
/// little-endian in base 128, and the offset just past it.
pub open spec fn varint_scan(bytes: Seq<u8>, pos: int, k: nat) -> Result<(nat, int), WireError>
    decreases 9 - k,
{
    if pos < 0 || pos >= bytes.len() {
        Err(WireError::TruncatedVarint)
    } else if k >= 9 {
        if bytes[pos] > 1 {
            Err(WireError::VarintOverflow)
        } else {
            Ok((bytes[pos] as nat, pos + 1))
        }
    } else if bytes[pos] < 128 {
        Ok((bytes[pos] as nat, pos + 1))
    } else {
        match varint_scan(bytes, pos + 1, k + 1) {
            Ok((v, end)) => Ok(((bytes[pos] - 128 + 128 * v) as nat, end)),
            Err(e) => Err(e),
        }
    }
}

/// The varint that starts at `pos`: its value and the offset just past it.
pub open spec fn varint_at(bytes: Seq<u8>, pos: int) -> Result<(nat, int), WireError> {
    varint_scan(bytes, pos, 0)
}

/// The varint encoding of `v`: seven bits per byte, low bits first, the high
/// bit set on every byte but the last.
pub open spec fn varint_encode(v: nat) -> Seq<u8>
    decreases v,
{
    if v < 128 {
        seq![v as u8]
    } else {
        seq![(v % 128 + 128) as u8] + varint_encode(v / 128)
    }
}

/// Continues decoding after a packed payload has been read.
pub open spec fn after_packed(bytes: Seq<u8>, r: Result<(Seq<u32>, int), WireError>) -> Result<Seq<u32>, WireError> {
    match r {
        Ok((more, next)) => field_counts(bytes, next, more),
        Err(e) => Err(e),
    }
}

spec fn lift(acc: int, scale: int, r: Result<(nat, int), WireError>) -> Result<(nat, int), WireError> {
    match r {
        Ok((v, end)) => Ok(((acc + scale * v) as nat, end)),
        Err(e) => Err(e),
    }
}

proof fn lemma_lift_step(acc: int, scale: int, low: int, r: Result<(nat, int), WireError>)
    requires
        acc >= 0,
        scale >= 0,
        low >= 0,
    ensures
        lift(acc, scale, match r {
            Ok((v, e)) => Ok::<(nat, int), WireError>(((low + 128 * v) as nat, e)),
            Err(x) => Err(x),
        }) == lift(acc + scale * low, scale * 128, r),
{
    match r {
        Ok((v, e)) => {
            assert(acc + scale * (low + 128 * v) == acc + scale * low + (scale * 128) * v)
                by (nonlinear_arith);
        },
        Err(_) => {},
    }
}

spec fn pow128(k: nat) -> nat
    decreases k,
{
    if k == 0 { 1 } else { 128 * pow128((k - 1) as nat) }
}

proof fn lemma_pow128_values()
    ensures
        pow128(8) == 0x100_0000_0000_0000,
        pow128(9) == 0x8000_0000_0000_0000,
{
    reveal_with_fuel(pow128, 10);
}

proof fn lemma_pow128_mono(a: nat, b: nat)
    requires a <= b,
    ensures 1 <= pow128(a) <= pow128(b),
    decreases b,
{
    if b > 0 {
        if a < b {
            lemma_pow128_mono(a, (b - 1) as nat);
        } else {
            lemma_pow128_mono((a - 1) as nat, (b - 1) as nat);
        }
    }
}

/// Appends the varint encoding of `value` to `output`.
pub fn append_varint(output: &mut Vec<u8>, value: u64)
    ensures
        final(output)@ == old(output)@ + varint_encode(value as nat),
{
    let ghost start = output@;
    let mut value = value;
    let ghost original = value as nat;
    loop
        invariant_except_break
            start + varint_encode(original) == output@ + varint_encode(value as nat),
        ensures
            output@ == start + varint_encode(original),
        decreases value,
    {
        let ghost before = value;
        assert(value & 0x7f < 128 && value & 0x7f == value % 128) by (bit_vector);
        let mut byte: u8 = (value & 0x7f) as u8;
        assert(value >> 7 == value / 128) by (bit_vector);
        value = value >> 7;
        if value != 0 {
            assert(byte < 128 ==> (byte | 0x80) == byte + 128) by (bit_vector);
            byte = byte | 0x80;
        }
        output.push(byte);
        if value == 0 {
            assert(output@ == start + varint_encode(original));
            break;
        }
        assert(varint_encode(before as nat) == seq![byte] + varint_encode(value as nat));
        assert(output@ + varint_encode(value as nat) == start + varint_encode(original));
    }
}


/// Reads the varint at `*offset` and moves `*offset` past it.
pub fn read_varint(bytes: &[u8], offset: &mut usize) -> (r: Result<u64, WireError>)
    ensures
        match varint_at(bytes@, *old(offset) as int) {
            Ok((v, end)) => r == Ok::<u64, WireError>(v as u64) && *final(offset) == end,
            Err(e) => r == Err::<u64, WireError>(e),
        },
{
    let ghost start = *offset as int;
    let mut result: u64 = 0;
    let mut scale: u64 = 1;
    let mut k: usize = 0;
    proof {
        lemma_pow128_values();
    }
    loop
        invariant
            k <= 9,
            start == *old(offset) as int,
            scale == pow128(k as nat),
            result < scale,
            *offset as int == start + k,
            varint_at(bytes@, start) == lift(result as int, scale as int, varint_scan(bytes@, *offset as int, k as nat)),
            pow128(8) == 0x100_0000_0000_0000,
            pow128(9) == 0x8000_0000_0000_0000,
        decreases 9 - k,
    {
        proof {
            lemma_pow128_mono(k as nat, 9);
        }
        if *offset >= bytes.len() {
            return Err(WireError::TruncatedVarint);
        }
        let byte = bytes[*offset];
        *offset += 1;
        if k == 9 && byte > 1 {
            return Err(WireError::VarintOverflow);
        }
        assert(byte & 0x7f == byte % 128 && (byte & 0x80 == 0 <==> byte < 128)) by (bit_vector);
        let low = (byte & 0x7f) as u64;
        assert(result + low * scale < 128 * scale) by (nonlinear_arith)
            requires result < scale, low < 128;
        if k == 9 {
            assert(result + low * scale <= u64::MAX) by (nonlinear_arith)
                requires result < scale, low <= 1, scale == 0x8000_0000_0000_0000u64;
        } else {
            proof {
                lemma_pow128_mono((k + 1) as nat, 9);
            }
        }
        let ghost prev = result as int;
        result = result + low * scale;
        assert(result == prev + scale * low) by (nonlinear_arith)
            requires result == prev + low * scale;
        if byte & 0x80 == 0 {
            return Ok(result);
        }
        proof {
            lemma_lift_step(
                (result - low * scale) as int,
                scale as int,
                low as int,
                varint_scan(bytes@, *offset as int, (k + 1) as nat),
            );
        }
        scale = scale * 128;
        k = k + 1;
    }
}


proof fn lemma_scan_facts(bytes: Seq<u8>, pos: int, k: nat)
    requires
        k <= 9,
    ensures
        varint_scan(bytes, pos, k) matches Ok((v, end)) ==> {
            &&& pos < end <= bytes.len()
            &&& v < 2 * pow128((9 - k) as nat)
        },
    decreases 9 - k,
{
    reveal_with_fuel(pow128, 2);
    if 0 <= pos < bytes.len() && k < 9 && bytes[pos] >= 128 {
        lemma_scan_facts(bytes, pos + 1, k + 1);
        if let Ok((v, end)) = varint_scan(bytes, pos + 1, k + 1) {
            let b = bytes[pos] - 128;
            let p = pow128((8 - k) as nat);
            assert(pow128((9 - k) as nat) == 128 * p);
            assert(b + 128 * v < 2 * (128 * p)) by (nonlinear_arith)
                requires 0 <= b < 128, v < 2 * p;
        }
    } else if 0 <= pos < bytes.len() {
        lemma_pow128_mono(0, (9 - k) as nat);
    }
}

/// A varint that decodes ends after its start and within the input, and its
/// value fits in 64 bits.
pub proof fn lemma_varint_facts(bytes: Seq<u8>, pos: int)
    ensures
        varint_at(bytes, pos) matches Ok((v, end)) ==> {
            &&& pos < end <= bytes.len()
            &&& v <= u64::MAX
        },
{
    lemma_scan_facts(bytes, pos, 0);
    lemma_pow128_values();
}

proof fn lemma_scan_encoded(bytes: Seq<u8>, pos: int, k: nat, v: nat)
    requires
        k <= 9,
        v < 2 * pow128((9 - k) as nat),
        0 <= pos,
        pos + varint_encode(v).len() <= bytes.len(),
        bytes.subrange(pos, pos + varint_encode(v).len()) == varint_encode(v),
    ensures
        varint_scan(bytes, pos, k) == Ok::<(nat, int), WireError>((v, pos + varint_encode(v).len())),
    decreases 9 - k,
{
    reveal_with_fuel(pow128, 2);
    let enc = varint_encode(v);
    assert(bytes[pos] == enc[0]);
    if v < 128 {
        if k >= 9 {
            assert(pow128(0) == 1);
        }
    } else {
        if k >= 9 {
            assert(pow128(0) == 1);
            assert(false);
        }
        let p = pow128((8 - k) as nat);
        assert(pow128((9 - k) as nat) == 128 * p);
        assert(v / 128 < 2 * p) by (nonlinear_arith)
            requires v < 2 * (128 * p), p >= 1;
        let tail = varint_encode(v / 128);
        assert(enc == seq![(v % 128 + 128) as u8] + tail);
        assert(bytes.subrange(pos + 1, pos + 1 + tail.len()) == tail) by {
            assert forall|i: int| 0 <= i < tail.len() implies
                bytes.subrange(pos + 1, pos + 1 + tail.len())[i] == tail[i] by {
                assert(bytes.subrange(pos, pos + enc.len())[i + 1] == enc[i + 1]);
            }
        }
        lemma_scan_encoded(bytes, pos + 1, k + 1, v / 128);
    }
}

/// Reading back a varint that `append_varint` wrote gives the value written,
/// and ends just after its encoding, whatever surrounds it.
pub proof fn lemma_varint_roundtrip(prefix: Seq<u8>, value: u64, rest: Seq<u8>)
    ensures
        varint_at(prefix + varint_encode(value as nat) + rest, prefix.len() as int)
            == Ok::<(nat, int), WireError>((value as nat, (prefix.len() + varint_encode(value as nat).len()) as int)),
{
    let enc = varint_encode(value as nat);
    let bytes = prefix + enc + rest;
    lemma_pow128_values();
    assert(bytes.subrange(prefix.len() as int, (prefix.len() + enc.len()) as int) == enc);
    lemma_scan_encoded(bytes, prefix.len() as int, 0, value as nat);
}


/// Where skipping a field of the given wire type that starts at `pos` leaves
/// the reader, or why the field cannot be skipped.
pub open spec fn skip_field_spec(bytes: Seq<u8>, wire_type: nat, pos: int) -> Result<int, WireError> {
    let moved: Result<int, WireError> = if wire_type == 0 {
        match varint_at(bytes, pos) {
            Ok((_, end)) => Ok(end),
            Err(e) => Err(e),
        }
    } else if wire_type == 1 {
        if pos + 8 > usize::MAX { Err(WireError::OffsetOverflow) } else { Ok(pos + 8) }
    } else if wire_type == 2 {
        match varint_at(bytes, pos) {
            Ok((length, end)) => if length > usize::MAX {
                Err(WireError::FieldTooLarge)
            } else if end + length > usize::MAX {
                Err(WireError::OffsetOverflow)
            } else {
                Ok(end + length)
            },
            Err(e) => Err(e),
        }
    } else if wire_type == 5 {
        if pos + 4 > usize::MAX { Err(WireError::OffsetOverflow) } else { Ok(pos + 4) }
    } else {
        Err(WireError::UnsupportedWireType(wire_type as u64))
    };
    match moved {
        Ok(end) => if end > bytes.len() { Err(WireError::TruncatedField) } else { Ok(end) },
        Err(e) => Err(e),
    }
}

/// The values of a packed `map_count` payload that runs from `pos` to `end`,
/// appended to `counts`, and the offset where reading stopped.
pub open spec fn packed_counts(bytes: Seq<u8>, pos: int, end: int, counts: Seq<u32>) -> Result<(Seq<u32>, int), WireError>
    decreases bytes.len() - pos,
    via packed_counts_decreases
{
    if pos >= end {
        Ok((counts, pos))
    } else {
        match varint_at(bytes, pos) {
            Ok((v, next)) => if v > u32::MAX {
                Err(WireError::CountOutOfRange)
            } else {
                packed_counts(bytes, next, end, counts.push(v as u32))
            },
            Err(e) => Err(e),
        }
    }
}

#[via_fn]
proof fn packed_counts_decreases(bytes: Seq<u8>, pos: int, end: int, counts: Seq<u32>) {
    lemma_varint_facts(bytes, pos);
}

/// The `map_count` values of the fields from `pos` on, appended to `counts`:
/// field 1 as a single varint (wire type 0) or packed (wire type 2); other
/// fields are skipped.
pub open spec fn field_counts(bytes: Seq<u8>, pos: int, counts: Seq<u32>) -> Result<Seq<u32>, WireError>
    decreases bytes.len() - pos,
    via field_counts_decreases
{
    if pos >= bytes.len() {
        if counts.len() == 0 { Err(WireError::NoCounts) } else { Ok(counts) }
    } else {
        match varint_at(bytes, pos) {
            Err(e) => Err(e),
            Ok((tag, after_tag)) => {
                let field = tag / 8;
                let wire_type = tag % 8;
                if field == 1 && wire_type == 0 {
                    match varint_at(bytes, after_tag) {
                        Ok((v, next)) => if v > u32::MAX {
                            Err(WireError::CountOutOfRange)
                        } else {
                            field_counts(bytes, next, counts.push(v as u32))
                        },
                        Err(e) => Err(e),
                    }
                } else if field == 1 && wire_type == 2 {
                    match varint_at(bytes, after_tag) {
                        Ok((length, start)) => if length > usize::MAX {
                            Err(WireError::PackedTooLarge)
                        } else if start + length > usize::MAX {
                            Err(WireError::OffsetOverflow)
                        } else if start + length > bytes.len() {
                            Err(WireError::TruncatedPacked)
                        } else {
                            match packed_counts(bytes, start, start + length, counts) {
                                Ok((more, next)) => field_counts(bytes, next, more),
                                Err(e) => Err(e),
                            }
                        },
                        Err(e) => Err(e),
                    }
                } else {
                    match skip_field_spec(bytes, wire_type, after_tag) {
                        Ok(next) => field_counts(bytes, next, counts),
                        Err(e) => Err(e),
                    }
                }
            },
        }
    }
}

proof fn lemma_packed_counts_advances(bytes: Seq<u8>, pos: int, end: int, counts: Seq<u32>)
    ensures
        packed_counts(bytes, pos, end, counts) matches Ok((_, next)) ==> pos <= next && (pos < bytes.len() ==> next <= bytes.len()),
    decreases bytes.len() - pos,
{
    lemma_varint_facts(bytes, pos);
    if pos < end {
        if let Ok((v, next)) = varint_at(bytes, pos) {
            if v <= u32::MAX {
                lemma_packed_counts_advances(bytes, next, end, counts.push(v as u32));
            }
        }
    }
}

#[via_fn]
proof fn field_counts_decreases(bytes: Seq<u8>, pos: int, counts: Seq<u32>) {
    lemma_varint_facts(bytes, pos);
    if let Ok((tag, after_tag)) = varint_at(bytes, pos) {
        lemma_varint_facts(bytes, after_tag);
        if let Ok((length, start)) = varint_at(bytes, after_tag) {
            if length <= usize::MAX && start + length <= bytes.len() {
                lemma_packed_counts_advances(bytes, start, start + length, counts);
            }
        }
    }
}

/// What `decode_map_counts` gives for `bytes`.
pub open spec fn map_counts_spec(bytes: Seq<u8>) -> Result<Seq<u32>, WireError> {
    field_counts(bytes, 0, Seq::empty())
}


/// Moves `*offset` past a field of the given wire type.
fn skip_field(bytes: &[u8], wire_type: u64, offset: &mut usize) -> (r: Result<(), WireError>)
    ensures
        match skip_field_spec(bytes@, wire_type as nat, *old(offset) as int) {
            Ok(end) => r is Ok && *final(offset) == end,
            Err(e) => r == Err::<(), WireError>(e),
        },
        r is Ok ==> *old(offset) < *final(offset) <= bytes.len(),
{
    let ghost start = *offset as int;
    proof {
        lemma_varint_facts(bytes@, start);
    }
    let next: usize;
    if wire_type == 0 {
        read_varint(bytes, offset)?;
        next = *offset;
    } else if wire_type == 1 {
        match offset.checked_add(8) {
            Some(n) => next = n,
            None => return Err(WireError::OffsetOverflow),
        }
    } else if wire_type == 2 {
        let length = read_varint(bytes, offset)?;
        if length > usize::MAX as u64 {
            return Err(WireError::FieldTooLarge);
        }
        match offset.checked_add(length as usize) {
            Some(n) => next = n,
            None => return Err(WireError::OffsetOverflow),
        }
    } else if wire_type == 5 {
        match offset.checked_add(4) {
            Some(n) => next = n,
            None => return Err(WireError::OffsetOverflow),
        }
    } else {
        return Err(WireError::UnsupportedWireType(wire_type));
    }
    *offset = next;
    if *offset > bytes.len() {
        return Err(WireError::TruncatedField);
    }
    Ok(())
}

/// Decodes the `map_count` field (field 1) of the Game Coordinator's
/// matchmaking-statistics response, in its packed or its single-value form.
pub fn decode_map_counts(bytes: &[u8]) -> (r: Result<Vec<u32>, WireError>)
    ensures
        match map_counts_spec(bytes@) {
            Ok(counts) => r matches Ok(v) && v@ == counts,
            Err(e) => r == Err::<Vec<u32>, WireError>(e),
        },
        r matches Ok(v) ==> v.len() > 0,
{
    let mut counts: Vec<u32> = Vec::new();
    let mut offset: usize = 0;
    while offset < bytes.len()
        invariant
            map_counts_spec(bytes@) == field_counts(bytes@, offset as int, counts@),
            offset <= bytes.len(),
        decreases bytes.len() - offset,
    {
        let ghost pos = offset as int;
        let tag = read_varint(bytes, &mut offset)?;
        proof {
            lemma_varint_facts(bytes@, pos);
        }
        let ghost after_tag = offset as int;
        let field = tag >> 3;
        let wire_type = tag & 7;
        assert(field == tag / 8 && wire_type == tag % 8) by (bit_vector)
            requires field == tag >> 3, wire_type == tag & 7;
        if field == 1 && wire_type == 0 {
            let value = read_varint(bytes, &mut offset)?;
            proof {
                lemma_varint_facts(bytes@, after_tag);
            }
            if value > u32::MAX as u64 {
                return Err(WireError::CountOutOfRange);
            }
            counts.push(value as u32);
        } else if field == 1 && wire_type == 2 {
            let length = read_varint(bytes, &mut offset)?;
            proof {
                lemma_varint_facts(bytes@, after_tag);
            }
            if length > usize::MAX as u64 {
                return Err(WireError::PackedTooLarge);
            }
            let end = match offset.checked_add(length as usize) {
                Some(end) => end,
                None => return Err(WireError::OffsetOverflow),
            };
            if end > bytes.len() {
                return Err(WireError::TruncatedPacked);
            }
            let ghost start = offset as int;
            proof {
                lemma_packed_counts_advances(bytes@, start, end as int, counts@);
            }
            while offset < end
                invariant
                    map_counts_spec(bytes@)
                        == after_packed(bytes@, packed_counts(bytes@, offset as int, end as int, counts@)),
                    pos < start,
                    end <= bytes.len(),
                    start <= offset <= bytes.len(),
                decreases bytes.len() - offset,
            {
                let ghost at = offset as int;
                let value = read_varint(bytes, &mut offset)?;
                proof {
                    lemma_varint_facts(bytes@, at);
                }
                if value > u32::MAX as u64 {
                    return Err(WireError::CountOutOfRange);
                }
                counts.push(value as u32);
            }
        } else {
            skip_field(bytes, wire_type, &mut offset)?;
        }
    }
    if counts.len() == 0 {
        return Err(WireError::NoCounts);
    }
    Ok(counts)
}


/// The Game Coordinator packet for a protobuf message: the message type with
/// the protobuf bit set and an empty header length, both as little-endian
/// 32-bit words, then the body.
pub open spec fn packet_bytes(message_type: u32, body: Seq<u8>) -> Seq<u8> {
    spec_u32_to_le_bytes(message_type | PROTO_MASK) + spec_u32_to_le_bytes(0) + body
}

/// The body of a received packet: for a protobuf message whose packet repeats
/// its type, what follows the header; otherwise the whole packet.
pub open spec fn packet_body(raw_type: u32, packet: Seq<u8>) -> Seq<u8> {
    if raw_type & PROTO_MASK == 0 || packet.len() < 8 {
        packet
    } else if spec_u32_from_le_bytes(packet.subrange(0, 4)) != raw_type {
        packet
    } else {
        let header_size = spec_u32_from_le_bytes(packet.subrange(4, 8));
        if 8 + header_size <= packet.len() {
            packet.subrange(8 + header_size, packet.len() as int)
        } else {
            packet
        }
    }
}

/// The body of the client-initialisation message: field 1 holds the client
/// version, field 2 is zero.
pub open spec fn client_init_bytes(version: u32) -> Seq<u8> {
    seq![0x08u8] + varint_encode(version as nat) + seq![0x10u8, 0x00u8]
}

fn push_all(output: &mut Vec<u8>, more: &[u8])
    ensures
        final(output)@ == old(output)@ + more@,
{
    let mut i: usize = 0;
    while i < more.len()
        invariant
            i <= more.len(),
            output@ == old(output)@ + more@.subrange(0, i as int),
        decreases more.len() - i,
    {
        output.push(more[i]);
        i += 1;
        assert(more@.subrange(0, i as int) == more@.subrange(0, i - 1) + seq![more@[i - 1]]);
    }
    assert(more@.subrange(0, more.len() as int) == more@);
}

/// Frames `body` as a protobuf Game Coordinator packet of the given type.
pub fn proto_packet(message_type: u32, body: &[u8]) -> (packet: Vec<u8>)
    ensures
        packet@ == packet_bytes(message_type, body@),
{
    let mut packet = u32_to_le_bytes(message_type | PROTO_MASK);
    let header = u32_to_le_bytes(0);
    push_all(&mut packet, header.as_slice());
    push_all(&mut packet, body);
    packet
}

/// The body of the client-initialisation message for the given client version.
pub fn tf_client_init(version: u32) -> (body: Vec<u8>)
    ensures
        body@ == client_init_bytes(version),
{
    let mut body = vec![0x08u8];
    append_varint(&mut body, version as u64);
    body.push(0x10);
    body.push(0x00);
    body
}

/// Strips the protobuf header from a received packet, when it has one.
pub fn body_from_packet(raw_type: u32, packet: &[u8]) -> (body: &[u8])
    ensures
        body@ == packet_body(raw_type, packet@),
{
    if raw_type & PROTO_MASK == 0 || packet.len() < 8 {
        return packet;
    }
    let embedded = u32_from_le_bytes(slice_subrange(packet, 0, 4));
    if embedded != raw_type {
        return packet;
    }
    let header_size = u32_from_le_bytes(slice_subrange(packet, 4, 8));
    if header_size as usize > packet.len() - 8 {
        return packet;
    }
    slice_subrange(packet, 8 + header_size as usize, packet.len())
}

/// Stripping the header of a packet that `proto_packet` framed gives back
/// its body.
pub proof fn lemma_body_of_proto_packet(message_type: u32, body: Seq<u8>)
    ensures
        packet_body(message_type | PROTO_MASK, packet_bytes(message_type, body)) == body,
{
    let raw = message_type | PROTO_MASK;
    let packet = packet_bytes(message_type, body);
    vstd::bytes::lemma_auto_spec_u32_to_from_le_bytes();
    assert(raw & PROTO_MASK != 0) by (bit_vector)
        requires raw == message_type | 0x8000_0000u32;
    assert(packet.subrange(0, 4) == spec_u32_to_le_bytes(raw));
    assert(packet.subrange(4, 8) == spec_u32_to_le_bytes(0));
    assert(packet.subrange(8, packet.len() as int) == body);
}


/// The varints of `values`, one after another.
pub open spec fn varints(values: Seq<u32>) -> Seq<u8>
    decreases values.len(),
{
    if values.len() == 0 {
        Seq::empty()
    } else {
        varint_encode(values[0] as nat) + varints(values.drop_first())
    }
}

/// `map_count` written as one field per value (tag 0x08, wire type 0).
pub open spec fn unpacked_counts_field(values: Seq<u32>) -> Seq<u8>
    decreases values.len(),
{
    if values.len() == 0 {
        Seq::empty()
    } else {
        seq![0x08u8] + varint_encode(values[0] as nat) + unpacked_counts_field(values.drop_first())
    }
}

/// `map_count` written as one packed field (tag 0x0a, wire type 2).
pub open spec fn packed_counts_field(values: Seq<u32>) -> Seq<u8> {
    seq![0x0au8] + varint_encode(varints(values).len()) + varints(values)
}

/// The varint written at `pos` reads back as the value written.
pub proof fn lemma_varint_within(bytes: Seq<u8>, pos: int, value: nat)
    requires
        value <= u64::MAX,
        0 <= pos,
        pos + varint_encode(value).len() <= bytes.len(),
        bytes.subrange(pos, pos + varint_encode(value).len()) == varint_encode(value),
    ensures
        varint_at(bytes, pos) == Ok::<(nat, int), WireError>((value, pos + varint_encode(value).len())),
{
    lemma_pow128_values();
    lemma_scan_encoded(bytes, pos, 0, value);
}

proof fn lemma_varint_encode_nonempty(v: nat)
    ensures
        varint_encode(v).len() >= 1,
    decreases v,
{
    if v >= 128 {
        lemma_varint_encode_nonempty(v / 128);
    }
}

proof fn lemma_unpacked_from(bytes: Seq<u8>, pos: int, values: Seq<u32>, acc: Seq<u32>)
    requires
        0 <= pos <= bytes.len(),
        bytes.subrange(pos, bytes.len() as int) == unpacked_counts_field(values),
    ensures
        field_counts(bytes, pos, acc) == field_counts(bytes, bytes.len() as int, acc + values),
    decreases values.len(),
{
    if values.len() == 0 {
        assert(acc + values == acc);
        assert(bytes.subrange(pos, bytes.len() as int).len() == 0);
    } else {
        let v = values[0];
        let enc = varint_encode(v as nat);
        let tail = unpacked_counts_field(values.drop_first());
        let whole = bytes.subrange(pos, bytes.len() as int);
        assert(whole == seq![0x08u8] + enc + tail);
        assert(bytes[pos] == 0x08u8) by {
            assert(whole[0] == 0x08u8);
        }
        assert(varint_at(bytes, pos) == Ok::<(nat, int), WireError>((8, pos + 1)));
        assert(bytes.subrange(pos + 1, pos + 1 + enc.len()) == enc) by {
            assert forall|i: int| 0 <= i < enc.len() implies bytes.subrange(pos + 1, pos + 1 + enc.len())[i] == enc[i] by {
                assert(whole[1 + i] == enc[i]);
            }
        }
        lemma_varint_within(bytes, pos + 1, v as nat);
        let next = pos + 1 + enc.len();
        assert(bytes.subrange(next, bytes.len() as int) == tail) by {
            assert forall|i: int| 0 <= i < tail.len() implies bytes.subrange(next, bytes.len() as int)[i] == tail[i] by {
                assert(whole[1 + enc.len() + i] == tail[i]);
            }
        }
        lemma_unpacked_from(bytes, next, values.drop_first(), acc.push(v));
        assert(acc.push(v) + values.drop_first() == acc + values);
    }
}

/// Decoding `map_count` written one value per field gives the values back.
pub proof fn lemma_decode_unpacked(values: Seq<u32>)
    requires
        values.len() > 0,
    ensures
        map_counts_spec(unpacked_counts_field(values)) == Ok::<Seq<u32>, WireError>(values),
{
    let bytes = unpacked_counts_field(values);
    assert(bytes.subrange(0, bytes.len() as int) == bytes);
    lemma_unpacked_from(bytes, 0, values, Seq::empty());
    assert(Seq::<u32>::empty() + values == values);
}

proof fn lemma_packed_from(bytes: Seq<u8>, pos: int, end: int, values: Seq<u32>, acc: Seq<u32>)
    requires
        0 <= pos <= end <= bytes.len(),
        bytes.subrange(pos, end) == varints(values),
    ensures
        packed_counts(bytes, pos, end, acc) == Ok::<(Seq<u32>, int), WireError>((acc + values, end)),
    decreases values.len(),
{
    if values.len() == 0 {
        assert(acc + values == acc);
        assert(bytes.subrange(pos, end).len() == 0);
    } else {
        let v = values[0];
        let enc = varint_encode(v as nat);
        let tail = varints(values.drop_first());
        let whole = bytes.subrange(pos, end);
        lemma_varint_encode_nonempty(v as nat);
        assert(whole == enc + tail);
        assert(bytes.subrange(pos, pos + enc.len()) == enc) by {
            assert forall|i: int| 0 <= i < enc.len() implies bytes.subrange(pos, pos + enc.len())[i] == enc[i] by {
                assert(whole[i] == enc[i]);
            }
        }
        lemma_varint_within(bytes, pos, v as nat);
        let next = pos + enc.len();
        assert(bytes.subrange(next, end) == tail) by {
            assert forall|i: int| 0 <= i < tail.len() implies bytes.subrange(next, end)[i] == tail[i] by {
                assert(whole[enc.len() + i] == tail[i]);
            }
        }
        lemma_packed_from(bytes, next, end, values.drop_first(), acc.push(v));
        assert(acc.push(v) + values.drop_first() == acc + values);
    }
}

/// Decoding `map_count` written as one packed field gives the values back.
pub proof fn lemma_decode_packed(values: Seq<u32>)
    requires
        values.len() > 0,
        packed_counts_field(values).len() <= usize::MAX,
    ensures
        map_counts_spec(packed_counts_field(values)) == Ok::<Seq<u32>, WireError>(values),
{
    let bytes = packed_counts_field(values);
    let payload = varints(values);
    let len_enc = varint_encode(payload.len());
    assert(bytes[0] == 0x0au8);
    assert(varint_at(bytes, 0) == Ok::<(nat, int), WireError>((10, 1)));
    assert(bytes.subrange(1, 1 + len_enc.len() as int) == len_enc);
    lemma_varint_within(bytes, 1, payload.len());
    let start: int = 1 + len_enc.len() as int;
    assert(bytes.subrange(start, bytes.len() as int) == payload);
    lemma_packed_from(bytes, start, bytes.len() as int, values, Seq::empty());
    assert(Seq::<u32>::empty() + values == values);
    assert(start + payload.len() == bytes.len());
    assert(field_counts(bytes, bytes.len() as int, values) == Ok::<Seq<u32>, WireError>(values));
    assert(10nat / 8 == 1 && 10nat % 8 == 2);
}

spec fn shifted(r: Result<(nat, int), WireError>, by: int) -> Result<(nat, int), WireError> {
    match r {
        Ok((v, end)) => Ok((v, end + by)),
        Err(e) => Err(e),
    }
}

proof fn lemma_scan_prefix(a: Seq<u8>, b: Seq<u8>, pos: int, k: nat)
    requires
        varint_scan(a, pos, k) is Ok,
    ensures
        varint_scan(a + b, pos, k) == varint_scan(a, pos, k),
    decreases 9 - k,
{
    assert((a + b)[pos] == a[pos]);
    if k < 9 && a[pos] >= 128 {
        lemma_scan_prefix(a, b, pos + 1, k + 1);
    }
}

proof fn lemma_scan_shift(a: Seq<u8>, b: Seq<u8>, p: int, k: nat)
    requires
        p >= 0,
    ensures
        varint_scan(a + b, a.len() + p, k) == shifted(varint_scan(b, p, k), a.len() as int),
    decreases 9 - k,
{
    if p < b.len() {
        assert((a + b)[a.len() + p] == b[p]);
        if k < 9 && b[p] >= 128 {
            lemma_scan_shift(a, b, p + 1, k + 1);
        }
    }
}

proof fn lemma_skip_prefix(a: Seq<u8>, b: Seq<u8>, wire_type: nat, pos: int)
    requires
        skip_field_spec(a, wire_type, pos) is Ok,
    ensures
        skip_field_spec(a + b, wire_type, pos) == skip_field_spec(a, wire_type, pos),
{
    if wire_type == 0 || wire_type == 2 {
        lemma_scan_prefix(a, b, pos, 0);
    }
}

proof fn lemma_skip_shift(a: Seq<u8>, b: Seq<u8>, wire_type: nat, p: int)
    requires
        p >= 0,
        a.len() + b.len() <= usize::MAX,
        skip_field_spec(b, wire_type, p) is Ok,
    ensures
        skip_field_spec(a + b, wire_type, a.len() + p) == Ok::<int, WireError>(skip_field_spec(b, wire_type, p)->Ok_0 + a.len()),
{
    if wire_type == 0 || wire_type == 2 {
        lemma_scan_shift(a, b, p, 0);
    }
}

proof fn lemma_packed_prefix(a: Seq<u8>, b: Seq<u8>, pos: int, end: int, counts: Seq<u32>)
    requires
        packed_counts(a, pos, end, counts) is Ok,
    ensures
        packed_counts(a + b, pos, end, counts) == packed_counts(a, pos, end, counts),
    decreases a.len() - pos,
{
    if pos < end {
        lemma_varint_facts(a, pos);
        lemma_scan_prefix(a, b, pos, 0);
        if let Ok((v, next)) = varint_at(a, pos) {
            if v <= u32::MAX {
                lemma_packed_prefix(a, b, next, end, counts.push(v as u32));
            }
        }
    }
}

spec fn packed_shifted(r: Result<(Seq<u32>, int), WireError>, by: int) -> Result<(Seq<u32>, int), WireError> {
    match r {
        Ok((more, next)) => Ok((more, next + by)),
        Err(e) => Err(e),
    }
}

proof fn lemma_packed_shift(a: Seq<u8>, b: Seq<u8>, p: int, end: int, counts: Seq<u32>)
    requires
        p >= 0,
    ensures
        packed_counts(a + b, a.len() + p, a.len() + end, counts)
            == packed_shifted(packed_counts(b, p, end, counts), a.len() as int),
    decreases b.len() - p,
{
    if p < end {
        lemma_varint_facts(b, p);
        lemma_scan_shift(a, b, p, 0);
        if let Ok((v, next)) = varint_at(b, p) {
            if v <= u32::MAX {
                lemma_packed_shift(a, b, next, end, counts.push(v as u32));
            }
        }
    }
}

spec fn packed_with(r: Result<(Seq<u32>, int), WireError>, front: Seq<u32>) -> Result<(Seq<u32>, int), WireError> {
    match r {
        Ok((more, next)) => Ok((front + more, next)),
        Err(e) => Err(e),
    }
}

proof fn lemma_packed_front(bytes: Seq<u8>, pos: int, end: int, front: Seq<u32>, counts: Seq<u32>)
    ensures
        packed_counts(bytes, pos, end, front + counts) == packed_with(packed_counts(bytes, pos, end, counts), front),
    decreases bytes.len() - pos,
{
    if pos < end {
        lemma_varint_facts(bytes, pos);
        if let Ok((v, next)) = varint_at(bytes, pos) {
            if v <= u32::MAX {
                assert((front + counts).push(v as u32) == front + counts.push(v as u32));
                lemma_packed_front(bytes, next, end, front, counts.push(v as u32));
            }
        }
    }
}

proof fn lemma_skip_advances(bytes: Seq<u8>, wire_type: nat, pos: int)
    ensures
        skip_field_spec(bytes, wire_type, pos) matches Ok(next) ==> pos < next <= bytes.len(),
{
    lemma_varint_facts(bytes, pos);
}

proof fn lemma_fields_prefix(a: Seq<u8>, b: Seq<u8>, pos: int, counts: Seq<u32>)
    requires
        0 <= pos <= a.len(),
        field_counts(a, pos, counts) is Ok,
    ensures
        field_counts(a + b, pos, counts) == field_counts(a + b, a.len() as int, field_counts(a, pos, counts)->Ok_0),
    decreases a.len() - pos,
{
    if pos < a.len() {
        lemma_varint_facts(a, pos);
        lemma_scan_prefix(a, b, pos, 0);
        let (tag, after_tag) = varint_at(a, pos)->Ok_0;
        let field = tag / 8;
        let wire_type = tag % 8;
        lemma_varint_facts(a, after_tag);
        if field == 1 && wire_type == 0 {
            lemma_scan_prefix(a, b, after_tag, 0);
            let (v, next) = varint_at(a, after_tag)->Ok_0;
            lemma_fields_prefix(a, b, next, counts.push(v as u32));
        } else if field == 1 && wire_type == 2 {
            lemma_scan_prefix(a, b, after_tag, 0);
            let (length, start) = varint_at(a, after_tag)->Ok_0;
            lemma_packed_prefix(a, b, start, start + length, counts);
            lemma_packed_counts_advances(a, start, start + length, counts);
            let (more, next) = packed_counts(a, start, start + length, counts)->Ok_0;
            lemma_fields_prefix(a, b, next, more);
        } else {
            lemma_skip_prefix(a, b, wire_type, after_tag);
            lemma_skip_advances(a, wire_type, after_tag);
            let next = skip_field_spec(a, wire_type, after_tag)->Ok_0;
            lemma_fields_prefix(a, b, next, counts);
        }
    }
}

#[verifier::spinoff_prover]
#[verifier::rlimit(60)]
proof fn lemma_fields_shift(a: Seq<u8>, b: Seq<u8>, p: int, counts: Seq<u32>)
    requires
        0 <= p,
        a.len() + b.len() <= usize::MAX,
        field_counts(b, p, counts) is Ok,
    ensures
        field_counts(a + b, a.len() + p, counts) == field_counts(b, p, counts),
    decreases b.len() - p,
{
    if p < b.len() {
        lemma_varint_facts(b, p);
        lemma_scan_shift(a, b, p, 0);
        let (tag, after_tag) = varint_at(b, p)->Ok_0;
        let field = tag / 8;
        let wire_type = tag % 8;
        lemma_varint_facts(b, after_tag);
        lemma_scan_shift(a, b, after_tag, 0);
        if field == 1 && wire_type == 0 {
            let (v, next) = varint_at(b, after_tag)->Ok_0;
            lemma_fields_shift(a, b, next, counts.push(v as u32));
        } else if field == 1 && wire_type == 2 {
            let (length, start) = varint_at(b, after_tag)->Ok_0;
            lemma_packed_shift(a, b, start, start + length, counts);
            lemma_packed_counts_advances(b, start, start + length, counts);
            let (more, next) = packed_counts(b, start, start + length, counts)->Ok_0;
            assert(a.len() + (start + length) == (a.len() + start) + length);
            lemma_fields_shift(a, b, next, more);
        } else {
            lemma_skip_shift(a, b, wire_type, after_tag);
            lemma_skip_advances(b, wire_type, after_tag);
            let next = skip_field_spec(b, wire_type, after_tag)->Ok_0;
            lemma_fields_shift(a, b, next, counts);
        }
    }
}

proof fn lemma_fields_front(bytes: Seq<u8>, pos: int, front: Seq<u32>, counts: Seq<u32>)
    requires
        field_counts(bytes, pos, counts) is Ok,
    ensures
        field_counts(bytes, pos, front + counts) == Ok::<Seq<u32>, WireError>(front + field_counts(bytes, pos, counts)->Ok_0),
    decreases bytes.len() - pos,
{
    if pos < bytes.len() {
        lemma_varint_facts(bytes, pos);
        let (tag, after_tag) = varint_at(bytes, pos)->Ok_0;
        let field = tag / 8;
        let wire_type = tag % 8;
        lemma_varint_facts(bytes, after_tag);
        if field == 1 && wire_type == 0 {
            let (v, next) = varint_at(bytes, after_tag)->Ok_0;
            assert((front + counts).push(v as u32) == front + counts.push(v as u32));
            lemma_fields_front(bytes, next, front, counts.push(v as u32));
        } else if field == 1 && wire_type == 2 {
            let (length, start) = varint_at(bytes, after_tag)->Ok_0;
            lemma_packed_front(bytes, start, start + length, front, counts);
            lemma_packed_counts_advances(bytes, start, start + length, counts);
            let (more, next) = packed_counts(bytes, start, start + length, counts)->Ok_0;
            lemma_fields_front(bytes, next, front, more);
        } else {
            lemma_skip_advances(bytes, wire_type, after_tag);
            let next = skip_field_spec(bytes, wire_type, after_tag)->Ok_0;
            lemma_fields_front(bytes, next, front, counts);
        }
    }
}

/// Fields are decoded one after the other: when two byte strings each
/// decode, their concatenation decodes to the first one's counts followed by
/// the second one's.
pub proof fn lemma_decode_concatenation(a: Seq<u8>, b: Seq<u8>)
    requires
        a.len() + b.len() <= usize::MAX,
        map_counts_spec(a) is Ok,
        map_counts_spec(b) is Ok,
    ensures
        map_counts_spec(a + b) == Ok::<Seq<u32>, WireError>(map_counts_spec(a)->Ok_0 + map_counts_spec(b)->Ok_0),
{
    let x = map_counts_spec(a)->Ok_0;
    let y = map_counts_spec(b)->Ok_0;
    lemma_fields_prefix(a, b, 0, Seq::empty());
    assert(x + Seq::<u32>::empty() == x);
    lemma_fields_front(b, 0, x, Seq::empty());
    lemma_fields_shift(a, b, 0, x);
    assert(a.len() + 0 == a.len());
}

} // verus!
