//! The cursor position, as two big-endian single-precision floats.

use vstd::prelude::*;

verus! {

/// The bit pattern that stands for "no cursor" in both coordinates: a quiet
/// NaN.
pub const NAN_BITS: u32 = 0x7fc0_0000;

/// A cursor position in normalized window space. Each coordinate is the bit
/// pattern of a single-precision float (IEEE 754 binary32).
#[derive(Clone, Copy, Debug, PartialEq, Eq, Structural, Hash)]
pub struct CursorPosition {
    pub x: u32,
    pub y: u32,
}

/// Whether `bits` is the pattern of a finite float: its exponent field is not
/// all ones, so it is neither an infinity nor a NaN.
pub open spec fn is_finite_bits(bits: u32) -> bool {
    (bits / 0x80_0000) % 0x100 != 0xff
}

/// The four bytes of `value`, most significant first.
pub open spec fn be_bytes(value: u32) -> Seq<u8> {
    seq![
        (value / 0x100_0000) as u8,
        (value / 0x1_0000 % 0x100) as u8,
        (value / 0x100 % 0x100) as u8,
        (value % 0x100) as u8,
    ]
}

/// The number whose bytes, most significant first, are `bytes`.
pub open spec fn from_be_bytes(bytes: Seq<u8>) -> u32 {
    (bytes[0] * 0x100_0000 + bytes[1] * 0x1_0000 + bytes[2] * 0x100 + bytes[3]) as u32
}

/// The two conversions undo each other.
pub proof fn lemma_be_bytes_round_trip(value: u32, bytes: Seq<u8>)
    requires
        bytes.len() == 4,
    ensures
        be_bytes(value).len() == 4,
        from_be_bytes(be_bytes(value)) == value,
        be_bytes(from_be_bytes(bytes)) == bytes,
{
    let b = be_bytes(value);
    let h0: u32 = value / 0x100_0000;
    let h1: u32 = value / 0x1_0000 % 0x100;
    let h2: u32 = value / 0x100 % 0x100;
    let h3: u32 = value % 0x100;
    assert(h0 < 0x100 && h1 < 0x100 && h2 < 0x100 && h3 < 0x100 && h0 * 0x100_0000 + h1
        * 0x1_0000 + h2 * 0x100 + h3 == value) by (bit_vector)
        requires
            h0 == value / 0x100_0000,
            h1 == value / 0x1_0000 % 0x100,
            h2 == value / 0x100 % 0x100,
            h3 == value % 0x100,
    ;
    assert(b[0] == h0 && b[1] == h1 && b[2] == h2 && b[3] == h3);
    let b0: u32 = bytes[0] as u32;
    let b1: u32 = bytes[1] as u32;
    let b2: u32 = bytes[2] as u32;
    let b3: u32 = bytes[3] as u32;
    let v: u32 = (b0 * 0x100_0000 + b1 * 0x1_0000 + b2 * 0x100 + b3) as u32;
    assert(v == from_be_bytes(bytes));
    assert(v / 0x100_0000 == b0 && v / 0x1_0000 % 0x100 == b1 && v / 0x100 % 0x100 == b2 && v
        % 0x100 == b3) by (bit_vector)
        requires
            b0 < 0x100,
            b1 < 0x100,
            b2 < 0x100,
            b3 < 0x100,
            v == (b0 * 0x100_0000 + b1 * 0x1_0000 + b2 * 0x100 + b3) as u32,
    ;
    assert(be_bytes(from_be_bytes(bytes)) =~= bytes);
}

fn to_be(value: u32) -> (r: [u8; 4])
    ensures
        r@ == be_bytes(value),
{
    let r = [
        (value / 0x100_0000) as u8,
        (value / 0x1_0000 % 0x100) as u8,
        (value / 0x100 % 0x100) as u8,
        (value % 0x100) as u8,
    ];
    assert(r@ =~= be_bytes(value));
    r
}

fn from_be(bytes: &[u8; 4]) -> (r: u32)
    ensures
        r == from_be_bytes(bytes@),
{
    let b0 = bytes[0] as u32;
    let b1 = bytes[1] as u32;
    let b2 = bytes[2] as u32;
    let b3 = bytes[3] as u32;
    b0 * 0x100_0000 + b1 * 0x1_0000 + b2 * 0x100 + b3
}

fn is_finite(bits: u32) -> (r: bool)
    ensures
        r == is_finite_bits(bits),
{
    (bits / 0x80_0000) % 0x100 != 0xff
}

/// The cursor position that `x` and `y` encode: none if either coordinate
/// is not a finite float.
pub open spec fn decoded(x: Seq<u8>, y: Seq<u8>) -> Option<CursorPosition> {
    if !is_finite_bits(from_be_bytes(y)) || !is_finite_bits(from_be_bytes(x)) {
        None
    } else {
        Some(CursorPosition { x: from_be_bytes(x), y: from_be_bytes(y) })
    }
}

/// The position of the mouse cursor in the primary window, if there is one,
/// in normalized units from `(0, 0)` to `(1, 1)`. Both coordinates are stored
/// as big-endian floats, so that the bytes do not depend on the host's byte
/// order.
#[derive(Clone, Copy, Debug, PartialEq, Eq, Hash)]
pub struct MousePositionInput {
    pub x: [u8; 4],
    pub y: [u8; 4],
}

/// No cursor.
impl Default for MousePositionInput {
    fn default() -> (r: Self)
        ensures
            r.is_absent(),
            r.position().is_none(),
    {
        let mut input = MousePositionInput { x: [0u8; 4], y: [0u8; 4] };
        input.set(None);
        input
    }
}

impl MousePositionInput {
    /// The position that the bytes encode.
    pub open spec fn position(&self) -> Option<CursorPosition> {
        decoded(self.x@, self.y@)
    }

    /// Whether both coordinates hold the "no cursor" pattern.
    pub open spec fn is_absent(&self) -> bool {
        &&& self.x@ == be_bytes(NAN_BITS)
        &&& self.y@ == be_bytes(NAN_BITS)
    }

    /// The cursor position, or `None` where the bytes encode none.
    pub fn get(&self) -> (r: Option<CursorPosition>)
        ensures
            r == self.position(),
    {
        let x = from_be(&self.x);
        let y = from_be(&self.y);
        if !is_finite(y) || !is_finite(x) {
            return None;
        }
        Some(CursorPosition { x, y })
    }

    /// Stores `position`, whatever was stored before. No cursor is stored as
    /// the NaN pattern in both coordinates. A position of finite coordinates
    /// is read back as it was given; any other reads back as no cursor.
    pub fn set(&mut self, position: Option<CursorPosition>) -> (r: &mut Self)
        ensures
            position.is_none() ==> r.is_absent() && r.position().is_none(),
            position matches Some(p) ==> {
                &&& r.x@ == be_bytes(p.x)
                &&& r.y@ == be_bytes(p.y)
                &&& r.position() == if is_finite_bits(p.x) && is_finite_bits(p.y) {
                    Some(p)
                } else {
                    None
                }
            },
            *final(self) == *final(r),
    {
        let p = match position {
            Some(p) => p,
            None => CursorPosition { x: NAN_BITS, y: NAN_BITS },
        };
        self.x = to_be(p.x);
        self.y = to_be(p.y);
        proof {
            lemma_be_bytes_round_trip(p.x, self.x@);
            lemma_be_bytes_round_trip(p.y, self.y@);
            assert(!is_finite_bits(NAN_BITS));
        }
        self
    }
}

/// The encoding is injective: two inputs that hold the same coordinates are
/// the same bytes.
pub proof fn lemma_same_position_same_bytes(a: MousePositionInput, b: MousePositionInput)
    requires
        from_be_bytes(a.x@) == from_be_bytes(b.x@),
        from_be_bytes(a.y@) == from_be_bytes(b.y@),
    ensures
        a == b,
{
    lemma_be_bytes_round_trip(0, a.x@);
    lemma_be_bytes_round_trip(0, a.y@);
    lemma_be_bytes_round_trip(0, b.x@);
    lemma_be_bytes_round_trip(0, b.y@);
    assert(a.x =~= b.x);
    assert(a.y =~= b.y);
}

} // verus!
