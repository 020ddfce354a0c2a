use vstd::prelude::*;

verus! {

/// The arithmetic operators on numbers.
#[derive(Debug, Clone, Copy, PartialEq, Eq)]
pub enum ArithOp {
    Add,
    Subtract,
    Multiply,
    Divide,
}

/// The number services of the host. A number is an IEEE-754 double, held as its bit pattern.
/// `parse` reads a numeral (a digit, then digits and at most one dot), `arith` applies an
/// arithmetic operator, and `show` gives the decimal text that `print` writes.
pub struct Numerics<P, A, S> where
    P: Fn(&str) -> u64,
    A: Fn(ArithOp, u64, u64) -> u64,
    S: Fn(u64) -> String,
 {
    pub parse: P,
    pub arith: A,
    pub show: S,
}

/// A deterministic model of the number services.
pub ghost struct NumberModel {
    pub parse: spec_fn(Seq<char>) -> u64,
    pub arith: spec_fn(ArithOp, u64, u64) -> u64,
    pub show: spec_fn(u64) -> Seq<char>,
}

impl<P, A, S> Numerics<P, A, S> where
    P: Fn(&str) -> u64,
    A: Fn(ArithOp, u64, u64) -> u64,
    S: Fn(u64) -> String,
 {
    /// Every service accepts every input.
    pub open spec fn callable(&self) -> bool {
        &&& forall|t: &str| #[trigger] self.parse.requires((t,))
        &&& forall|op: ArithOp, a: u64, b: u64| #[trigger] self.arith.requires((op, a, b))
        &&& forall|n: u64| #[trigger] self.show.requires((n,))
    }

    /// Whatever a service returns is what the model `m` gives.
    pub open spec fn implements(&self, m: NumberModel) -> bool {
        &&& forall|t: &str, r: u64| #[trigger] self.parse.ensures((t,), r) ==> r == (m.parse)(t@)
        &&& forall|op: ArithOp, a: u64, b: u64, r: u64| #[trigger] self.arith.ensures((op, a, b), r) ==> r == (m.arith)(op, a, b)
        &&& forall|n: u64, r: String| #[trigger] self.show.ensures((n,), r) ==> r@ == (m.show)(n)
    }
}

/// The bits of a double without its sign.
pub open spec fn magnitude(b: u64) -> u64 {
    b & 0x7fff_ffff_ffff_ffffu64
}

/// Whether the double is a NaN: all exponent bits set and a nonzero fraction.
pub open spec fn is_nan(b: u64) -> bool {
    magnitude(b) > 0x7ff0_0000_0000_0000u64
}

/// The position of a double that is not a NaN on the number line: both zeros at 0.
pub open spec fn ordinal(b: u64) -> int {
    if b >> 63u64 == 1 {
        -(magnitude(b) as int)
    } else {
        magnitude(b) as int
    }
}

/// IEEE-754 `a < b`.
pub open spec fn number_less(a: u64, b: u64) -> bool {
    !is_nan(a) && !is_nan(b) && ordinal(a) < ordinal(b)
}

/// IEEE-754 `a <= b`.
pub open spec fn number_less_equal(a: u64, b: u64) -> bool {
    !is_nan(a) && !is_nan(b) && ordinal(a) <= ordinal(b)
}

/// IEEE-754 `a == b`.
pub open spec fn number_equal(a: u64, b: u64) -> bool {
    !is_nan(a) && !is_nan(b) && ordinal(a) == ordinal(b)
}

fn exec_ordinal(b: u64) -> (r: (bool, u64))
    ensures
        r.0 == is_nan(b),
        !r.0 ==> ordinal(b) == if b >> 63u64 == 1 { -(r.1 as int) } else { r.1 as int },
        !r.0 ==> (b >> 63u64 == 1 || b >> 63u64 == 0),
{
    let m = b & 0x7fff_ffff_ffff_ffffu64;
    let s = b >> 63u64;
    assert(s == 0 || s == 1) by (bit_vector)
        requires
            s == b >> 63u64,
    ;
    (m > 0x7ff0_0000_0000_0000u64, m)
}

/// Compares two doubles by their bits as IEEE-754 does: `(a < b, a <= b, a == b)`.
pub fn compare_numbers(a: u64, b: u64) -> (r: (bool, bool, bool))
    ensures
        r.0 == number_less(a, b),
        r.1 == number_less_equal(a, b),
        r.2 == number_equal(a, b),
{
    let (nan_a, ma) = exec_ordinal(a);
    let (nan_b, mb) = exec_ordinal(b);
    if nan_a || nan_b {
        return (false, false, false);
    }
    let neg_a = a >> 63u64 == 1;
    let neg_b = b >> 63u64 == 1;
    let less = if neg_a && neg_b {
        mb < ma
    } else if neg_a {
        !(ma == 0 && mb == 0)
    } else if neg_b {
        false
    } else {
        ma < mb
    };
    let equal = if neg_a == neg_b {
        ma == mb
    } else {
        ma == 0 && mb == 0
    };
    (less, less || equal, equal)
}

} // verus!
