//! Integers and fixed-size fields as they travel on the wire.
//!
//! Every multi-byte integer of the protocol is little-endian. A field is read
//! from whatever the transport delivered: the bytes that arrived, followed by
//! zeros up to the field's size.

use byteorder::{ByteOrder, LittleEndian};
use vstd::prelude::*;

verus! {

/// The number that `bytes` spell in little-endian order: the first byte
/// counts least, each further byte 256 times the one before.
pub open spec fn le_value(bytes: Seq<u8>) -> nat
    decreases bytes.len(),
{
    if bytes.len() == 0 {
        0
    } else {
        bytes[0] as nat + 256 * le_value(bytes.drop_first())
    }
}

/// The field of `len` bytes that a read leaves behind when it delivered
/// `count` bytes into `data`: the delivered bytes first, zeros after them.
/// Bytes of `data` beyond the delivered ones do not count.
pub open spec fn received(data: Seq<u8>, count: nat, len: nat) -> Seq<u8> {
    Seq::new(
        len,
        |i: int|
            if i < count && i < data.len() {
                data[i]
            } else {
                0u8
            },
    )
}

/// The number of values that `len` bytes can spell: 256 to the power `len`.
pub open spec fn span(len: nat) -> nat
    decreases len,
{
    if len == 0 {
        1
    } else {
        256 * span((len - 1) as nat)
    }
}

/// The bytes of a field spell a number below the field's span. A field of
/// four bytes fits in 32 bits, one of eight bytes in 64 bits.
pub proof fn lemma_le_value_bound(bytes: Seq<u8>)
    ensures
        le_value(bytes) < span(bytes.len()),
        bytes.len() == 4 ==> le_value(bytes) <= u32::MAX,
        bytes.len() == 8 ==> le_value(bytes) <= u64::MAX,
    decreases bytes.len(),
{
    if bytes.len() > 0 {
        lemma_le_value_bound(bytes.drop_first());
    }
    assert(span(4) == 0x1_0000_0000) by {
        reveal_with_fuel(span, 5);
    }
    assert(span(8) == 0x1_0000_0000_0000_0000) by {
        reveal_with_fuel(span, 9);
    }
}

/// Zeros after the bytes of a field do not change the number it spells.
pub proof fn lemma_le_value_zero_padded(data: Seq<u8>, count: nat, len: nat)
    requires
        count <= data.len(),
        count <= len,
    ensures
        le_value(received(data, count, len)) == le_value(data.take(count as int)),
    decreases len,
{
    let field = received(data, count, len);
    if len > 0 && count == 0 {
        assert(field.drop_first() =~= received(data, 0, (len - 1) as nat));
        lemma_le_value_zero_padded(data, 0, (len - 1) as nat);
    } else if len > 0 {
        let rest = data.drop_first();
        assert(field.drop_first() =~= received(rest, (count - 1) as nat, (len - 1) as nat));
        lemma_le_value_zero_padded(rest, (count - 1) as nat, (len - 1) as nat);
        assert(data.take(count as int).drop_first() =~= rest.take(count - 1));
    }
}

/// How many bytes the byte count of a write command takes on the wire.
#[derive(Clone, Copy, PartialEq, Eq, Structural, Debug)]
pub enum CountWidth {
    /// A 32-bit count.
    Four,
    /// A 64-bit count.
    Eight,
}

impl Default for CountWidth {
    /// The width that is used unless another was agreed on: four bytes.
    fn default() -> (width: CountWidth)
        ensures
            width == CountWidth::Four,
    {
        CountWidth::Four
    }
}

impl CountWidth {
    /// The width in bytes.
    pub open spec fn spec_bytes(self) -> nat {
        match self {
            CountWidth::Four => 4,
            CountWidth::Eight => 8,
        }
    }

    /// The width in bytes.
    pub fn bytes(self) -> (n: usize)
        ensures
            n == self.spec_bytes(),
    {
        match self {
            CountWidth::Four => 4,
            CountWidth::Eight => 8,
        }
    }
}

/// Calls `byteorder::LittleEndian::read_u32`, which reads the first four
/// bytes of `buf` as a little-endian integer and panics on a shorter buffer.
/// Trusted: the value is the one those four bytes spell.
#[verifier::external_body]
fn read_u32_le(buf: &[u8]) -> (value: u32)
    requires
        buf@.len() >= 4,
    ensures
        value as nat == le_value(buf@.subrange(0, 4)),
{
    LittleEndian::read_u32(buf)
}

/// Calls `byteorder::LittleEndian::read_u64`, which reads the first eight
/// bytes of `buf` as a little-endian integer and panics on a shorter buffer.
/// Trusted: the value is the one those eight bytes spell.
#[verifier::external_body]
fn read_u64_le(buf: &[u8]) -> (value: u64)
    requires
        buf@.len() >= 8,
    ensures
        value as nat == le_value(buf@.subrange(0, 8)),
{
    LittleEndian::read_u64(buf)
}

/// Copies the field that a read of `count` bytes into `data` left behind:
/// exactly `len` bytes, the delivered ones followed by zeros.
pub fn frame(data: &[u8], count: u64, len: usize) -> (field: Vec<u8>)
    ensures
        field@ == received(data@, count as nat, len as nat),
{
    let mut field: Vec<u8> = Vec::with_capacity(len);
    let mut i: usize = 0;
    while i < len
        invariant
            i <= len,
            field@ == received(data@, count as nat, i as nat),
        decreases len - i,
    {
        let byte: u8 = if (i as u64) < count && i < data.len() {
            data[i]
        } else {
            0u8
        };
        field.push(byte);
        i += 1;
    }
    field
}

/// Decodes the offset of a read command from the `count` bytes delivered
/// into `data`: eight bytes, little-endian.
pub fn decode_offset(data: &[u8], count: u64) -> (offset: u64)
    ensures
        offset as nat == le_value(received(data@, count as nat, 8)),
{
    let field = frame(data, count, 8);
    assert(field@.subrange(0, 8) == field@);
    read_u64_le(field.as_slice())
}

/// Decodes the byte count of a write command from the `count` bytes
/// delivered into `data`: `width` bytes, little-endian.
pub fn decode_byte_count(data: &[u8], count: u64, width: CountWidth) -> (announced: u64)
    ensures
        announced as nat == le_value(received(data@, count as nat, width.spec_bytes())),
{
    match width {
        CountWidth::Four => {
            let field = frame(data, count, 4);
            assert(field@.subrange(0, 4) == field@);
            read_u32_le(field.as_slice()) as u64
        },
        CountWidth::Eight => {
            let field = frame(data, count, 8);
            assert(field@.subrange(0, 8) == field@);
            read_u64_le(field.as_slice())
        },
    }
}

} // verus!
