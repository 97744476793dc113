//! Little-endian integers: the eight integer types of the wire format, their
//! two's complement representation, and the byte strings that stand for them.

use vstd::prelude::*;

verus! {

/// An integer type of the wire format: 1, 2, 4 or 8 bytes, signed or unsigned.
#[derive(Clone, Copy, Debug, PartialEq, Eq, Structural)]
pub enum IntKind {
    I8,
    I16,
    I32,
    I64,
    U8,
    U16,
    U32,
    U64,
}

impl IntKind {
    /// The number of bytes that a value of this type takes on the wire.
    pub open spec fn spec_width(self) -> nat {
        match self {
            IntKind::I8 | IntKind::U8 => 1,
            IntKind::I16 | IntKind::U16 => 2,
            IntKind::I32 | IntKind::U32 => 4,
            IntKind::I64 | IntKind::U64 => 8,
        }
    }

    /// Whether the type has negative values.
    pub open spec fn spec_is_signed(self) -> bool {
        match self {
            IntKind::I8 | IntKind::I16 | IntKind::I32 | IntKind::I64 => true,
            IntKind::U8 | IntKind::U16 | IntKind::U32 | IntKind::U64 => false,
        }
    }

    /// The number of byte strings of this type's width: 256 to the power of the width.
    pub open spec fn modulus(self) -> int {
        match self {
            IntKind::I8 | IntKind::U8 => 0x100,
            IntKind::I16 | IntKind::U16 => 0x1_0000,
            IntKind::I32 | IntKind::U32 => 0x1_0000_0000,
            IntKind::I64 | IntKind::U64 => 0x1_0000_0000_0000_0000,
        }
    }

    /// The least value of the type.
    pub open spec fn min_value(self) -> int {
        match self {
            IntKind::I8 => -0x80,
            IntKind::I16 => -0x8000,
            IntKind::I32 => -0x8000_0000,
            IntKind::I64 => -0x8000_0000_0000_0000,
            IntKind::U8 | IntKind::U16 | IntKind::U32 | IntKind::U64 => 0,
        }
    }

    /// The greatest value of the type.
    pub open spec fn max_value(self) -> int {
        match self {
            IntKind::I8 => 0x7f,
            IntKind::I16 => 0x7fff,
            IntKind::I32 => 0x7fff_ffff,
            IntKind::I64 => 0x7fff_ffff_ffff_ffff,
            IntKind::U8 => 0xff,
            IntKind::U16 => 0xffff,
            IntKind::U32 => 0xffff_ffff,
            IntKind::U64 => 0xffff_ffff_ffff_ffff,
        }
    }

    /// Whether `value` is a value of the type.
    pub open spec fn holds(self, value: int) -> bool {
        self.min_value() <= value <= self.max_value()
    }

    /// The unsigned number whose bytes stand for `value`: the value itself, or, for a negative
    /// one, its two's complement.
    pub open spec fn to_raw(self, value: int) -> nat {
        if value < 0 {
            (value + self.modulus()) as nat
        } else {
            value as nat
        }
    }

    /// The value that the unsigned number `raw` stands for.
    pub open spec fn from_raw(self, raw: nat) -> int {
        if self.spec_is_signed() && raw > self.max_value() {
            raw - self.modulus()
        } else {
            raw as int
        }
    }

    /// The bytes of `value` on the wire.
    pub open spec fn encoding(self, value: int) -> Seq<u8> {
        le_bytes(self.to_raw(value), self.spec_width())
    }

    /// The value that `bytes` stand for; `bytes` has the type's width.
    pub open spec fn decoding(self, bytes: Seq<u8>) -> int {
        self.from_raw(le_value(bytes))
    }

    /// The number of bytes that a value of this type takes on the wire.
    pub fn width(self) -> (w: usize)
        ensures
            w == self.spec_width(),
            1 <= w <= 8,
    {
        match self {
            IntKind::I8 | IntKind::U8 => 1,
            IntKind::I16 | IntKind::U16 => 2,
            IntKind::I32 | IntKind::U32 => 4,
            IntKind::I64 | IntKind::U64 => 8,
        }
    }

    /// Whether the type has negative values.
    #[verifier::when_used_as_spec(spec_is_signed)]
    pub fn is_signed(self) -> (s: bool)
        ensures
            s == self.spec_is_signed(),
    {
        match self {
            IntKind::I8 | IntKind::I16 | IntKind::I32 | IntKind::I64 => true,
            IntKind::U8 | IntKind::U16 | IntKind::U32 | IntKind::U64 => false,
        }
    }

    /// The greatest value of the type.
    pub fn max(self) -> (m: u64)
        ensures
            m == self.max_value(),
    {
        match self {
            IntKind::I8 => 0x7f,
            IntKind::I16 => 0x7fff,
            IntKind::I32 => 0x7fff_ffff,
            IntKind::I64 => 0x7fff_ffff_ffff_ffff,
            IntKind::U8 => 0xff,
            IntKind::U16 => 0xffff,
            IntKind::U32 => 0xffff_ffff,
            IntKind::U64 => 0xffff_ffff_ffff_ffff,
        }
    }

    /// Appends the bytes of `value` to `buf`.
    pub(crate) fn encode(self, value: i128, buf: &mut Vec<u8>)
        requires
            self.holds(value as int),
        ensures
            final(buf)@ == old(buf)@ + self.encoding(value as int),
    {
        let raw: u64 = if value < 0 {
            let half: i128 = self.max() as i128 + 1;
            (value + half + half) as u64
        } else {
            value as u64
        };
        put_le(buf, raw, self.width());
    }

    /// Reads the value that stands at `pos` in `data`.
    pub(crate) fn decode(self, data: &[u8], pos: usize) -> (value: i128)
        requires
            pos + self.spec_width() <= data@.len(),
        ensures
            value == self.decoding(data@.subrange(pos as int, pos + self.spec_width())),
            self.holds(value as int),
    {
        let raw: u64 = get_le(data, pos, self.width());
        proof {
            lemma_pow256_values();
        }
        if self.is_signed() && raw > self.max() {
            raw as i128 - (self.max() as i128 + 1) - (self.max() as i128 + 1)
        } else {
            raw as i128
        }
    }
}

/// 256 to the power of `n`.
pub open spec fn pow256(n: nat) -> nat
    decreases n,
{
    if n == 0 {
        1
    } else {
        256 * pow256((n - 1) as nat)
    }
}

/// The `width` low bytes of `value`, least significant first.
pub open spec fn le_bytes(value: nat, width: nat) -> Seq<u8>
    decreases width,
{
    if width == 0 {
        Seq::empty()
    } else {
        seq![(value % 256) as u8] + le_bytes(value / 256, (width - 1) as nat)
    }
}

/// The number whose little-endian bytes are `bytes`.
pub open spec fn le_value(bytes: Seq<u8>) -> nat
    decreases bytes.len(),
{
    if bytes.len() == 0 {
        0
    } else {
        bytes[0] as nat + 256 * le_value(bytes.drop_first())
    }
}

/// The powers of 256 that the wire format uses.
pub proof fn lemma_pow256_values()
    ensures
        pow256(0) == 1,
        pow256(1) == 0x100,
        pow256(2) == 0x1_0000,
        pow256(3) == 0x100_0000,
        pow256(4) == 0x1_0000_0000,
        pow256(5) == 0x100_0000_0000,
        pow256(6) == 0x1_0000_0000_0000,
        pow256(7) == 0x100_0000_0000_0000,
        pow256(8) == 0x1_0000_0000_0000_0000,
        forall|kind: IntKind| #[trigger] kind.modulus() == pow256(kind.spec_width()),
{
    reveal_with_fuel(pow256, 9);
}

/// A little-endian encoding has as many bytes as were asked for.
pub proof fn lemma_le_bytes_len(value: nat, width: nat)
    ensures
        le_bytes(value, width).len() == width,
    decreases width,
{
    if width > 0 {
        lemma_le_bytes_len(value / 256, (width - 1) as nat);
    }
}

/// A byte string of length `n` stands for a number below 256 to the power of `n`.
pub proof fn lemma_le_value_bound(bytes: Seq<u8>)
    ensures
        le_value(bytes) < pow256(bytes.len()),
    decreases bytes.len(),
{
    if bytes.len() > 0 {
        lemma_le_value_bound(bytes.drop_first());
    }
}

/// Decoding undoes encoding, for a number that fits in `width` bytes.
pub proof fn lemma_le_value_of_bytes(value: nat, width: nat)
    requires
        value < pow256(width),
    ensures
        le_value(le_bytes(value, width)) == value,
    decreases width,
{
    if width > 0 {
        let rest = le_bytes(value / 256, (width - 1) as nat);
        lemma_le_value_of_bytes(value / 256, (width - 1) as nat);
        assert(le_bytes(value, width).drop_first() =~= rest);
    }
}

/// Encoding undoes decoding: a byte string is the encoding of the number it stands for.
pub proof fn lemma_le_bytes_of_value(bytes: Seq<u8>)
    ensures
        le_bytes(le_value(bytes), bytes.len()) == bytes,
    decreases bytes.len(),
{
    if bytes.len() > 0 {
        lemma_le_bytes_of_value(bytes.drop_first());
        assert(le_bytes(le_value(bytes), bytes.len()) =~= bytes);
    }
}

/// Every value of an integer type is read back from its bytes.
pub proof fn lemma_int_roundtrip(kind: IntKind, value: int)
    requires
        kind.holds(value),
    ensures
        kind.encoding(value).len() == kind.spec_width(),
        kind.decoding(kind.encoding(value)) == value,
{
    lemma_pow256_values();
    lemma_le_bytes_len(kind.to_raw(value), kind.spec_width());
    lemma_le_value_of_bytes(kind.to_raw(value), kind.spec_width());
}

/// Every byte string of an integer type's width is the encoding of the value it stands for,
/// and that value is one of the type.
pub proof fn lemma_int_decoding_holds(kind: IntKind, bytes: Seq<u8>)
    requires
        bytes.len() == kind.spec_width(),
    ensures
        kind.holds(kind.decoding(bytes)),
        kind.encoding(kind.decoding(bytes)) == bytes,
{
    lemma_pow256_values();
    lemma_le_value_bound(bytes);
    lemma_le_bytes_of_value(bytes);
}

/// Appends the `width` low bytes of `raw` to `buf`, least significant first.
pub(crate) fn put_le(buf: &mut Vec<u8>, raw: u64, width: usize)
    ensures
        final(buf)@ == old(buf)@ + le_bytes(raw as nat, width as nat),
{
    let ghost start = buf@;
    let mut rest: u64 = raw;
    let mut i: usize = 0;
    while i < width
        invariant
            i <= width,
            buf@ + le_bytes(rest as nat, (width - i) as nat) == start + le_bytes(
                raw as nat,
                width as nat,
            ),
        decreases width - i,
    {
        let ghost before = buf@;
        buf.push((rest % 256) as u8);
        proof {
            let tail = le_bytes((rest / 256) as nat, (width - i - 1) as nat);
            assert(buf@ + tail =~= before + le_bytes(rest as nat, (width - i) as nat));
        }
        rest = rest / 256;
        i += 1;
    }
    assert(buf@ + le_bytes(rest as nat, 0) =~= buf@);
}

/// Reads the number that the `width` bytes at `pos` in `data` stand for.
pub(crate) fn get_le(data: &[u8], pos: usize, width: usize) -> (raw: u64)
    requires
        width <= 8,
        pos + width <= data@.len(),
    ensures
        raw == le_value(data@.subrange(pos as int, pos + width)),
        raw < pow256(width as nat),
{
    let len: usize = data.len();
    let mut acc: u64 = 0;
    let mut i: usize = width;
    while i > 0
        invariant
            i <= width <= 8,
            pos + width <= data@.len() == len,
            acc == le_value(data@.subrange(pos + i, pos + width)),
        decreases i,
    {
        i -= 1;
        proof {
            let done = data@.subrange(pos + i + 1, pos + width);
            let next = data@.subrange(pos + i, pos + width);
            lemma_le_value_bound(done);
            lemma_pow256_values();
            assert(next.drop_first() =~= done);
            assert(pow256(done.len()) <= pow256(7)) by {
                reveal_with_fuel(pow256, 9);
            }
        }
        acc = acc * 256 + data[pos + i] as u64;
    }
    proof {
        lemma_le_value_bound(data@.subrange(pos as int, pos + width));
    }
    acc
}

} // verus!
