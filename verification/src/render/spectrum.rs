use crate::number::GenFloat;
use core::ops::Mul;
use vstd::prelude::*;
use vstd::std_specs::ops::MulSpecImpl;

verus! {

/// A spectrum of light by its red, green and blue parts, on a linear scale
/// without bounds.
#[derive(Clone, Copy, Debug, PartialEq)]
pub struct Spec<T> {
    pub red: T,
    pub green: T,
    pub blue: T,
}

impl<T> Spec<T> {
    pub fn new(red: T, green: T, blue: T) -> (r: Spec<T>)
        ensures
            r == (Spec { red, green, blue }),
    {
        Spec { red, green, blue }
    }
}

impl<T: GenFloat> Spec<T> {
    /// Each part times `s`.
    pub open spec fn scale_spec(self, s: T) -> Spec<T> {
        Spec {
            red: self.red.mul_spec(s),
            green: self.green.mul_spec(s),
            blue: self.blue.mul_spec(s),
        }
    }

    /// Each part times the same part of `rhs`.
    pub open spec fn modulate_spec(self, rhs: Spec<T>) -> Spec<T> {
        Spec {
            red: self.red.mul_spec(rhs.red),
            green: self.green.mul_spec(rhs.green),
            blue: self.blue.mul_spec(rhs.blue),
        }
    }
}

impl<T: GenFloat> MulSpecImpl<T> for Spec<T> {
    open spec fn obeys_mul_spec() -> bool {
        T::obeys()
    }

    open spec fn mul_req(self, rhs: T) -> bool {
        true
    }

    open spec fn mul_spec(self, rhs: T) -> Spec<T> {
        self.scale_spec(rhs)
    }
}

/// A spectrum times a number: the intensity is scaled.
impl<T: GenFloat> Mul<T> for Spec<T> {
    type Output = Spec<T>;

    fn mul(self, rhs: T) -> (r: Spec<T>) {
        Spec::new(self.red.mul(rhs), self.green.mul(rhs), self.blue.mul(rhs))
    }
}

impl<T: GenFloat> MulSpecImpl<Spec<T>> for Spec<T> {
    open spec fn obeys_mul_spec() -> bool {
        T::obeys()
    }

    open spec fn mul_req(self, rhs: Spec<T>) -> bool {
        true
    }

    open spec fn mul_spec(self, rhs: Spec<T>) -> Spec<T> {
        self.modulate_spec(rhs)
    }
}

/// A spectrum times a spectrum, part by part.
impl<T: GenFloat> Mul<Spec<T>> for Spec<T> {
    type Output = Spec<T>;

    fn mul(self, rhs: Spec<T>) -> (r: Spec<T>) {
        Spec::new(self.red.mul(rhs.red), self.green.mul(rhs.green), self.blue.mul(rhs.blue))
    }
}

} // verus!
