use vstd::prelude::*;

verus! {

/// The scalar that all geometry is written over.
///
/// An implementation only has to supply the operations. One whose
/// operations are functions of their operands can say so: it sets
/// [`GenFloat::obeys`] and names the value of each operation by the
/// matching `*_spec` function. The contracts of this crate then say which
/// value every function returns. Of an implementation that leaves `obeys`
/// unset, as one on floating point has to, they say nothing: its `*_spec`
/// functions name no value in particular.
///
/// What the operations mean as numbers is said by [`exact_arithmetic`],
/// which holds only of a type that computes without rounding.
pub trait GenFloat: Copy {
    /// Each operation returns the value that its `*_spec` function names.
    open spec fn obeys() -> bool {
        false
    }

    /// The real number that a value stands for.
    open spec fn val(self) -> real {
        arbitrary()
    }

    open spec fn zero_spec() -> Self {
        arbitrary()
    }

    open spec fn one_spec() -> Self {
        arbitrary()
    }

    open spec fn from_u32_spec(n: u32) -> Self {
        arbitrary()
    }

    open spec fn add_spec(self, rhs: Self) -> Self {
        arbitrary()
    }

    open spec fn sub_spec(self, rhs: Self) -> Self {
        arbitrary()
    }

    open spec fn mul_spec(self, rhs: Self) -> Self {
        arbitrary()
    }

    open spec fn div_spec(self, rhs: Self) -> Self {
        arbitrary()
    }

    open spec fn neg_spec(self) -> Self {
        arbitrary()
    }

    open spec fn abs_spec(self) -> Self {
        arbitrary()
    }

    open spec fn sqrt_spec(self) -> Self {
        arbitrary()
    }

    open spec fn tan_spec(self) -> Self {
        arbitrary()
    }

    open spec fn max_spec(self, rhs: Self) -> Self {
        arbitrary()
    }

    open spec fn lt_spec(self, rhs: Self) -> bool {
        arbitrary()
    }

    open spec fn to_u8_spec(self) -> Option<u8> {
        arbitrary()
    }

    /// The additive identity.
    fn zero() -> (r: Self)
        ensures
            Self::obeys() ==> r == Self::zero_spec(),
    ;

    /// The multiplicative identity.
    fn one() -> (r: Self)
        ensures
            Self::obeys() ==> r == Self::one_spec(),
    ;

    /// The scalar nearest to the integer `n`.
    fn from_u32(n: u32) -> (r: Self)
        ensures
            Self::obeys() ==> r == Self::from_u32_spec(n),
    ;

    fn add(self, rhs: Self) -> (r: Self)
        ensures
            Self::obeys() ==> r == self.add_spec(rhs),
    ;

    fn sub(self, rhs: Self) -> (r: Self)
        ensures
            Self::obeys() ==> r == self.sub_spec(rhs),
    ;

    fn mul(self, rhs: Self) -> (r: Self)
        ensures
            Self::obeys() ==> r == self.mul_spec(rhs),
    ;

    /// Division; a zero divisor is allowed and gives whatever the type gives.
    fn div(self, rhs: Self) -> (r: Self)
        ensures
            Self::obeys() ==> r == self.div_spec(rhs),
    ;

    fn neg(self) -> (r: Self)
        ensures
            Self::obeys() ==> r == self.neg_spec(),
    ;

    fn abs(self) -> (r: Self)
        ensures
            Self::obeys() ==> r == self.abs_spec(),
    ;

    fn sqrt(self) -> (r: Self)
        ensures
            Self::obeys() ==> r == self.sqrt_spec(),
    ;

    fn tan(self) -> (r: Self)
        ensures
            Self::obeys() ==> r == self.tan_spec(),
    ;

    /// The larger of the two operands.
    fn max(self, rhs: Self) -> (r: Self)
        ensures
            Self::obeys() ==> r == self.max_spec(rhs),
    ;

    /// Strict order. For a value that is not a number every comparison is false.
    fn lt(self, rhs: Self) -> (r: bool)
        ensures
            Self::obeys() ==> r == self.lt_spec(rhs),
    ;

    /// The integer part as a byte, where it fits in one.
    fn to_u8(self) -> (r: Option<u8>)
        ensures
            Self::obeys() ==> r == self.to_u8_spec(),
    ;
}

/// The scalar type `T` computes in the real numbers without rounding: each
/// operation returns the value that stands for the exact result.
///
/// The geometric laws of this crate are proved under this hypothesis. Of the
/// tangent it says nothing.
pub open spec fn exact_arithmetic<T: GenFloat>() -> bool {
    &&& T::obeys()
    &&& T::zero_spec().val() == 0real
    &&& T::one_spec().val() == 1real
    &&& forall|n: u32| (#[trigger] T::from_u32_spec(n)).val() == n as real
    &&& forall|a: T, b: T| (#[trigger] a.add_spec(b)).val() == a.val() + b.val()
    &&& forall|a: T, b: T| (#[trigger] a.sub_spec(b)).val() == a.val() - b.val()
    &&& forall|a: T, b: T| (#[trigger] a.mul_spec(b)).val() == a.val() * b.val()
    &&& forall|a: T, b: T|
        b.val() != 0real ==> (#[trigger] a.div_spec(b)).val() == a.val() / b.val()
    &&& forall|a: T| (#[trigger] a.neg_spec()).val() == -a.val()
    &&& forall|a: T|
        (#[trigger] a.abs_spec()).val() == if a.val() < 0real {
            -a.val()
        } else {
            a.val()
        }
    &&& forall|a: T|
        a.val() >= 0real ==> is_sqrt_of((#[trigger] a.sqrt_spec()).val(), a.val())
    &&& forall|a: T, b: T|
        (#[trigger] a.max_spec(b)).val() == if a.val() < b.val() {
            b.val()
        } else {
            a.val()
        }
    &&& forall|a: T, b: T| #[trigger] a.lt_spec(b) == (a.val() < b.val())
    &&& forall|a: T| #[trigger] a.to_u8_spec() == byte_of(a.val())
}

/// `s` is the non-negative square root of `x`.
pub open spec fn is_sqrt_of(s: real, x: real) -> bool {
    s >= 0real && s * s == x
}

/// The byte that a real number truncates to: its integer part where that
/// lies in `0..=255`, rounding toward zero.
pub open spec fn byte_of(x: real) -> Option<u8> {
    if -1real < x < 0real {
        Some(0u8)
    } else if 0real <= x < 256real {
        Some(x.floor() as u8)
    } else {
        None
    }
}

/// The tolerance under which a divisor counts as zero: one millionth.
pub open spec fn epsilon_spec<T: GenFloat>() -> T {
    T::one_spec().div_spec(T::from_u32_spec(1_000_000))
}

pub fn epsilon<T: GenFloat>() -> (r: T)
    ensures
        T::obeys() ==> r == epsilon_spec::<T>(),
{
    T::one().div(T::from_u32(1_000_000))
}

/// `n + n`.
pub open spec fn double_spec<T: GenFloat>(n: T) -> T {
    n.add_spec(n)
}

/// `n + n`.
pub fn double<T: GenFloat>(n: T) -> (r: T)
    ensures
        T::obeys() ==> r == double_spec(n),
{
    n.add(n)
}

} // verus!
