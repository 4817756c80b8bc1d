use vstd::prelude::*;

verus! {

/// The raw value `2^31`: the sign bit of a single-precision bit pattern.
pub const SIGN_BIT: u32 = 0x8000_0000u32;

/// Bit pattern of positive infinity; every larger magnitude is a NaN.
pub const INFINITY_BITS: u32 = 0x7F80_0000u32;

/// Bit pattern of the largest finite single-precision value.
pub const MAX_BITS: u32 = 0x7F7F_FFFFu32;

/// A single-precision floating-point number, held as its IEEE-754 bit
/// pattern (what `f32::to_bits` gives and `f32::from_bits` takes back).
///
/// The comparisons below are those of `f32`: a NaN is unordered, and the
/// two zeros compare equal.
#[derive(Clone, Copy, Debug, Default)]
pub struct Scalar(pub u32);

/// The magnitude part of a bit pattern (everything but the sign).
pub open spec fn magnitude(bits: u32) -> int {
    bits as int % (SIGN_BIT as int)
}

/// Whether a bit pattern encodes a NaN.
pub open spec fn is_nan_bits(bits: u32) -> bool {
    magnitude(bits) > INFINITY_BITS as int
}

/// Whether a bit pattern encodes a zero of either sign.
pub open spec fn is_zero_bits(bits: u32) -> bool {
    magnitude(bits) == 0
}

/// A key that orders the non-NaN bit patterns as the numbers they encode:
/// negative values below positive ones, both zeros on one rank.
pub open spec fn rank(bits: u32) -> int {
    if is_zero_bits(bits) {
        SIGN_BIT as int
    } else if bits >= SIGN_BIT {
        0xFFFF_FFFFint - bits as int
    } else {
        bits as int + SIGN_BIT as int
    }
}

/// `a < b` on the numbers the two bit patterns encode.
pub open spec fn float_lt(a: u32, b: u32) -> bool {
    !is_nan_bits(a) && !is_nan_bits(b) && rank(a) < rank(b)
}

/// `a == b` on the numbers the two bit patterns encode.
pub open spec fn float_eq(a: u32, b: u32) -> bool {
    !is_nan_bits(a) && !is_nan_bits(b) && rank(a) == rank(b)
}

/// `a <= b` on the numbers the two bit patterns encode.
pub open spec fn float_le(a: u32, b: u32) -> bool {
    float_lt(a, b) || float_eq(a, b)
}

/// `<` on scalars is a strict order on the numbers, `<=` is `<` or `==`,
/// the two zeros are equal, and a NaN is neither below, equal to nor above
/// anything, itself included.
pub proof fn lemma_float_order(a: u32, b: u32, c: u32)
    ensures
        !float_lt(a, a),
        float_lt(a, b) && float_lt(b, c) ==> float_lt(a, c),
        float_le(a, b) && float_le(b, c) ==> float_le(a, c),
        float_lt(a, b) ==> !float_le(b, a),
        !is_nan_bits(a) && !is_nan_bits(b) ==> (float_lt(a, b) || float_le(b, a)),
        is_nan_bits(a) ==> !float_lt(a, b) && !float_lt(b, a) && !float_eq(a, b),
        float_eq(0, SIGN_BIT),
{
}

impl Scalar {
    /// The number zero (positive zero).
    pub fn zero() -> (r: Scalar)
        ensures
            r.0 == 0,
    {
        Scalar(0)
    }

    /// The largest finite value, `f32::MAX`.
    pub fn max_value() -> (r: Scalar)
        ensures
            r.0 == MAX_BITS,
    {
        Scalar(MAX_BITS)
    }

    /// Whether this value is a NaN.
    pub fn is_nan(self) -> (r: bool)
        ensures
            r == is_nan_bits(self.0),
    {
        self.0 % SIGN_BIT > INFINITY_BITS
    }

    fn rank(self) -> (r: u32)
        ensures
            r as int == rank(self.0),
    {
        if self.0 % SIGN_BIT == 0 {
            SIGN_BIT
        } else if self.0 >= SIGN_BIT {
            0xFFFF_FFFFu32 - self.0
        } else {
            self.0 + SIGN_BIT
        }
    }

    /// `self < other`, as `f32` compares.
    pub fn lt(self, other: Scalar) -> (r: bool)
        ensures
            r == float_lt(self.0, other.0),
    {
        !self.is_nan() && !other.is_nan() && self.rank() < other.rank()
    }

    /// `self == other`, as `f32` compares.
    pub fn float_eq(self, other: Scalar) -> (r: bool)
        ensures
            r == float_eq(self.0, other.0),
    {
        !self.is_nan() && !other.is_nan() && self.rank() == other.rank()
    }

    /// `self <= other`, as `f32` compares.
    pub fn le(self, other: Scalar) -> (r: bool)
        ensures
            r == float_le(self.0, other.0),
    {
        self.lt(other) || self.float_eq(other)
    }

    /// `self > other`, as `f32` compares.
    pub fn gt(self, other: Scalar) -> (r: bool)
        ensures
            r == float_lt(other.0, self.0),
    {
        other.lt(self)
    }
}

impl PartialEq for Scalar {
    fn eq(&self, other: &Scalar) -> (r: bool) {
        self.float_eq(*other)
    }
}

impl vstd::std_specs::cmp::PartialEqSpecImpl for Scalar {
    open spec fn obeys_eq_spec() -> bool {
        true
    }

    open spec fn eq_spec(&self, other: &Scalar) -> bool {
        float_eq(self.0, other.0)
    }
}

/// `a == b` on vectors, coordinate by coordinate as `f32` compares.
pub open spec fn vec3_eq(a: Vec3, b: Vec3) -> bool {
    float_eq(a.x.0, b.x.0) && float_eq(a.y.0, b.y.0) && float_eq(a.z.0, b.z.0)
}

/// A point or direction in space, each coordinate a `Scalar`.
#[derive(Clone, Copy, Debug, Default)]
pub struct Vec3 {
    pub x: Scalar,
    pub y: Scalar,
    pub z: Scalar,
}

impl Vec3 {
    /// The vector with the given coordinates.
    pub fn new(x: Scalar, y: Scalar, z: Scalar) -> (r: Vec3)
        ensures
            r == (Vec3 { x, y, z }),
    {
        Vec3 { x, y, z }
    }

    /// The origin, all three coordinates positive zero.
    pub fn zero() -> (r: Vec3)
        ensures
            r.x.0 == 0 && r.y.0 == 0 && r.z.0 == 0,
    {
        Vec3 { x: Scalar(0), y: Scalar(0), z: Scalar(0) }
    }

    /// `self == other`, coordinate by coordinate as `f32` compares.
    pub fn float_eq(&self, other: &Vec3) -> (r: bool)
        ensures
            r == vec3_eq(*self, *other),
    {
        self.x.float_eq(other.x) && self.y.float_eq(other.y) && self.z.float_eq(other.z)
    }
}

impl PartialEq for Vec3 {
    fn eq(&self, other: &Vec3) -> (r: bool) {
        self.float_eq(other)
    }
}

impl vstd::std_specs::cmp::PartialEqSpecImpl for Vec3 {
    open spec fn obeys_eq_spec() -> bool {
        true
    }

    open spec fn eq_spec(&self, other: &Vec3) -> bool {
        vec3_eq(*self, *other)
    }
}

} // verus!
