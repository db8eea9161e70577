//! The pseudo-random source behind value generation.
//!
//! The engine needs three abilities from its random source: drawing values,
//! snapshotting the state, and seeding from entropy. All three come from
//! the `rand` family of crates and are reached through the trusted wrappers
//! below; everything the rest of the library proves holds for every stream
//! the source can produce.

use vstd::prelude::*;

verus! {

/// The xoshiro256++ generator of `rand_xoshiro`, declared so that a value
/// of it can sit inside [`Prng`]. The engine never looks inside.
#[verifier::external_type_specification]
#[verifier::external_body]
pub struct ExXoshiro(rand_xoshiro::Xoshiro256PlusPlus);

/// A handle on one pseudo-random stream.
pub struct Prng {
    inner: rand_xoshiro::Xoshiro256PlusPlus,
}

impl Prng {
    /// Relies on `rand_core::SeedableRng::from_entropy`: a fresh generator
    /// seeded from the operating system's entropy source.
    #[verifier::external_body]
    pub fn from_entropy() -> (r: Prng) {
        Prng { inner: <rand_xoshiro::Xoshiro256PlusPlus as rand::SeedableRng>::from_entropy() }
    }

    /// Relies on `Xoshiro256PlusPlus`'s derived `Clone`: the copy carries
    /// the same state and yields the same stream from this point on.
    #[verifier::external_body]
    pub fn snapshot(&self) -> (r: Prng) {
        Prng { inner: self.inner.clone() }
    }

    /// Relies on `rand::Rng::sample` with `Uniform::new(min, max)`, which
    /// yields a value uniformly distributed in `[min, max)`.
    #[verifier::external_body]
    pub fn draw_i64(&mut self, min: i64, max: i64) -> (r: i64)
        requires
            min < max,
        ensures
            min <= r < max,
    {
        rand::Rng::sample(&mut self.inner, rand::distributions::Uniform::new(min, max))
    }

    /// Relies on `rand::Rng::sample` with `Uniform::new(min, max)`, which
    /// yields a value uniformly distributed in `[min, max)`.
    #[verifier::external_body]
    pub fn draw_usize(&mut self, min: usize, max: usize) -> (r: usize)
        requires
            min < max,
        ensures
            min <= r < max,
    {
        rand::Rng::sample(&mut self.inner, rand::distributions::Uniform::new(min, max))
    }

    /// Relies on `rand::Rng::sample` with `Uniform::new_inclusive(min, max)`,
    /// which yields a value uniformly distributed in `[min, max]`.
    #[verifier::external_body]
    pub fn draw_usize_inclusive(&mut self, min: usize, max: usize) -> (r: usize)
        requires
            min <= max,
        ensures
            min <= r <= max,
    {
        rand::Rng::sample(
            &mut self.inner,
            rand::distributions::Uniform::new_inclusive(min, max),
        )
    }

    /// Relies on `rand::Rng::sample` with `rand::distributions::Alphanumeric`,
    /// which yields the ASCII code of a letter or digit.
    #[verifier::external_body]
    pub fn draw_alphanumeric(&mut self) -> (r: u8)
        ensures
            is_alphanumeric_code(r),
    {
        rand::Rng::sample(&mut self.inner, rand::distributions::Alphanumeric)
    }

    /// Relies on `rand::Rng::sample` with the `Standard` distribution for
    /// `bool`.
    #[verifier::external_body]
    pub fn draw_bool(&mut self) -> (r: bool) {
        rand::Rng::sample(&mut self.inner, rand::distributions::Standard)
    }

    /// Relies on `rand::Rng::sample` with the `Standard` distribution for
    /// `char`, which yields a uniformly distributed Unicode scalar value.
    #[verifier::external_body]
    pub fn draw_char(&mut self) -> (r: char) {
        rand::Rng::sample(&mut self.inner, rand::distributions::Standard)
    }

    /// Relies on `rand_core::RngCore::next_u64`: the next 64 bits of the
    /// stream.
    #[verifier::external_body]
    pub fn next_u64(&mut self) -> (r: u64) {
        rand::RngCore::next_u64(&mut self.inner)
    }
}

/// Whether a byte is the ASCII code of a letter or a digit.
pub open spec fn is_alphanumeric_code(b: u8) -> bool {
    (97 <= b <= 122) || (65 <= b <= 90) || (48 <= b <= 57)
}

} // verus!
