use crate::number::GenFloat;
use core::ops::Mul;
use vstd::prelude::*;
use vstd::std_specs::ops::MulSpecImpl;

verus! {

/// A color by its red, green and blue parts, on a linear scale without
/// bounds.
#[derive(Clone, Copy, Debug, PartialEq)]
pub struct Rgb<T> {
    pub red: T,
    pub green: T,
    pub blue: T,
}

impl<T> Rgb<T> {
    pub fn new(red: T, green: T, blue: T) -> (r: Rgb<T>)
        ensures
            r == (Rgb { red, green, blue }),
    {
        Rgb { red, green, blue }
    }
}

impl<T: GenFloat> Rgb<T> {
    /// Each part times `s`.
    pub open spec fn scale_spec(self, s: T) -> Rgb<T> {
        Rgb {
            red: self.red.mul_spec(s),
            green: self.green.mul_spec(s),
            blue: self.blue.mul_spec(s),
        }
    }

    /// Each part times the same part of `rhs`.
    pub open spec fn modulate_spec(self, rhs: Rgb<T>) -> Rgb<T> {
        Rgb {
            red: self.red.mul_spec(rhs.red),
            green: self.green.mul_spec(rhs.green),
            blue: self.blue.mul_spec(rhs.blue),
        }
    }
}

impl<T: GenFloat> MulSpecImpl<T> for Rgb<T> {
    open spec fn obeys_mul_spec() -> bool {
        T::obeys()
    }

    open spec fn mul_req(self, rhs: T) -> bool {
        true
    }

    open spec fn mul_spec(self, rhs: T) -> Rgb<T> {
        self.scale_spec(rhs)
    }
}

/// A color times a number: the intensity is scaled.
impl<T: GenFloat> Mul<T> for Rgb<T> {
    type Output = Rgb<T>;

    fn mul(self, rhs: T) -> (r: Rgb<T>) {
        Rgb::new(self.red.mul(rhs), self.green.mul(rhs), self.blue.mul(rhs))
    }
}

impl<T: GenFloat> MulSpecImpl<Rgb<T>> for Rgb<T> {
    open spec fn obeys_mul_spec() -> bool {
        T::obeys()
    }

    open spec fn mul_req(self, rhs: Rgb<T>) -> bool {
        true
    }

    open spec fn mul_spec(self, rhs: Rgb<T>) -> Rgb<T> {
        self.modulate_spec(rhs)
    }
}

/// A color times a color, part by part: a tint.
impl<T: GenFloat> Mul<Rgb<T>> for Rgb<T> {
    type Output = Rgb<T>;

    fn mul(self, rhs: Rgb<T>) -> (r: Rgb<T>) {
        Rgb::new(self.red.mul(rhs.red), self.green.mul(rhs.green), self.blue.mul(rhs.blue))
    }
}

} // verus!
