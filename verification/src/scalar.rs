//! Numbers as the engine sees them: totally ordered, never "not a number".

use vstd::prelude::*;

verus! {

/// Bit pattern of the sign of a binary64 number.
pub const SIGN_BIT: u64 = 0x8000_0000_0000_0000;

/// Bit pattern of positive infinity; larger magnitudes are not numbers.
pub const INFINITY_BITS: u64 = 0x7FF0_0000_0000_0000;

/// Bit pattern of the number one.
pub const ONE_BITS: u64 = 0x3FF0_0000_0000_0000;

/// The magnitude field of a binary64 bit pattern (all bits but the sign).
pub open spec fn magnitude_of(bits: u64) -> int {
    if bits >= SIGN_BIT {
        bits - SIGN_BIT
    } else {
        bits as int
    }
}

/// A bit pattern that encodes a number (finite or infinite) rather than a NaN.
pub open spec fn is_number(bits: u64) -> bool {
    magnitude_of(bits) <= INFINITY_BITS
}

/// The rank of a binary64 bit pattern: its magnitude field, negated when the
/// sign bit is set. Two numbers compare as their ranks do, and both zeros
/// have rank 0.
pub open spec fn rank_of(bits: u64) -> int {
    if bits >= SIGN_BIT {
        -magnitude_of(bits)
    } else {
        magnitude_of(bits)
    }
}

/// The canonical bit pattern of a rank: the inverse of [`rank_of`] that never
/// yields negative zero.
pub open spec fn bits_of(rank: int) -> int {
    if rank < 0 {
        SIGN_BIT - rank
    } else {
        rank
    }
}

/// Rank of the number one.
pub open spec fn one_rank() -> int {
    ONE_BITS as int
}

/// A binary64 number that is not a NaN, held by its rank.
#[derive(Clone, Copy, Debug, PartialEq, Eq, Structural)]
pub struct Scalar {
    rank: i64,
}

impl View for Scalar {
    type V = int;

    /// The rank of the number: an integer that orders as the number does.
    closed spec fn view(&self) -> int {
        self.rank as int
    }
}

impl Scalar {
    #[verifier::type_invariant]
    spec fn in_range(self) -> bool {
        -(INFINITY_BITS as int) <= self.rank <= INFINITY_BITS as int
    }

    /// Reads a binary64 bit pattern; `None` exactly when it encodes a NaN.
    pub fn from_bits(bits: u64) -> (r: Option<Scalar>)
        ensures
            r is Some <==> is_number(bits),
            r matches Some(s) ==> s@ == rank_of(bits),
    {
        if bits >= SIGN_BIT {
            let magnitude: u64 = bits - SIGN_BIT;
            if magnitude > INFINITY_BITS {
                None
            } else {
                Some(Scalar { rank: -(magnitude as i64) })
            }
        } else if bits > INFINITY_BITS {
            None
        } else {
            Some(Scalar { rank: bits as i64 })
        }
    }

    /// The canonical binary64 bit pattern of the number.
    pub fn to_bits(self) -> (bits: u64)
        ensures
            bits == bits_of(self@),
            is_number(bits),
            rank_of(bits) == self@,
    {
        proof {
            use_type_invariant(&self);
        }
        if self.rank < 0 {
            let magnitude: u64 = (-self.rank) as u64;
            SIGN_BIT + magnitude
        } else {
            self.rank as u64
        }
    }

    /// The number zero.
    pub fn zero() -> (r: Scalar)
        ensures
            r@ == 0,
    {
        Scalar { rank: 0 }
    }

    /// The number one.
    pub fn one() -> (r: Scalar)
        ensures
            r@ == one_rank(),
    {
        Scalar { rank: 0x3FF0_0000_0000_0000 }
    }

    /// The number minus one.
    pub fn minus_one() -> (r: Scalar)
        ensures
            r@ == -one_rank(),
    {
        Scalar { rank: -0x3FF0_0000_0000_0000 }
    }

    /// Whether this number is strictly less than `other`.
    pub fn lt(self, other: Scalar) -> (r: bool)
        ensures
            r == (self@ < other@),
    {
        self.rank < other.rank
    }

    /// Whether this number is less than or equal to `other`.
    pub fn le(self, other: Scalar) -> (r: bool)
        ensures
            r == (self@ <= other@),
    {
        self.rank <= other.rank
    }

    /// The lesser of two numbers.
    pub fn min(self, other: Scalar) -> (r: Scalar)
        ensures
            r@ == spec_min(self@, other@),
            r == self || r == other,
    {
        if other.rank < self.rank {
            other
        } else {
            self
        }
    }

    /// The greater of two numbers.
    pub fn max(self, other: Scalar) -> (r: Scalar)
        ensures
            r@ == spec_max(self@, other@),
            r == self || r == other,
    {
        if other.rank > self.rank {
            other
        } else {
            self
        }
    }

    /// Two scalars with the same rank are the same scalar.
    pub proof fn lemma_rank_determines(a: Scalar, b: Scalar)
        ensures
            a@ == b@ <==> a == b,
    {
    }
}

/// The lesser of two ranks.
pub open spec fn spec_min(a: int, b: int) -> int {
    if b < a {
        b
    } else {
        a
    }
}

/// The greater of two ranks.
pub open spec fn spec_max(a: int, b: int) -> int {
    if b > a {
        b
    } else {
        a
    }
}

/// Reading a number's canonical bit pattern back gives the same number.
pub proof fn lemma_bits_round_trip(bits: u64)
    requires
        is_number(bits),
        bits != SIGN_BIT,
    ensures
        bits_of(rank_of(bits)) == bits,
{
}

/// Among numbers whose sign bit is clear, ranks order as bit patterns do.
pub proof fn lemma_rank_orders_unsigned(x: u64, y: u64)
    requires
        x < SIGN_BIT,
        y < SIGN_BIT,
    ensures
        rank_of(x) < rank_of(y) <==> x < y,
{
}

/// Setting the sign bit mirrors the order: the larger magnitude is the lesser number.
pub proof fn lemma_rank_mirrors_signed(x: u64, y: u64)
    requires
        x >= SIGN_BIT,
        y >= SIGN_BIT,
    ensures
        rank_of(x) < rank_of(y) <==> x > y,
{
}

/// A number whose sign bit is set is never greater than one whose sign bit
/// is clear, and the two are equal only where both are zero.
pub proof fn lemma_rank_separates_signs(x: u64, y: u64)
    requires
        x >= SIGN_BIT,
        y < SIGN_BIT,
    ensures
        rank_of(x) <= rank_of(y),
        rank_of(x) == rank_of(y) <==> x == SIGN_BIT && y == 0,
{
}

} // verus!
