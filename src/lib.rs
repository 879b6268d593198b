//! Decoding of Exif metadata: the TIFF directory structure, the typed
//! values of its fields, and their rendering as text.

use vstd::prelude::*;

pub mod endian;
pub mod display;
pub mod error;
pub mod exif;
pub mod fuji;
pub mod ifd;
pub mod reader;
pub mod tag;
pub mod text;
pub mod util;
pub mod tiff;
pub mod value;

pub use display::{DisplayValue, DisplayValueUnit, ProvideUnit};
pub use error::Error;
pub use exif::Exif;
pub use reader::Reader;
pub use tiff::{is_tiff, parse_exif, Parse, Parser};
pub use ifd::{DateTime, Field, In};
pub use tag::{Context, Tag};
pub use value::{Rational, SRational, Value};

verus! {

/// A memory location that is written while it is open and never after it
/// has been fixed.
///
/// `get_mut` lends the value for mutation as long as the cell is open;
/// `get_ref` fixes it and lends it for reading. Once fixed, the value
/// never changes again.
#[derive(Debug)]
pub struct MutOnce<T> {
    value: T,
    fixed: bool,
}

impl<T> MutOnce<T> {
    /// The value held by the cell.
    pub closed spec fn value(&self) -> T {
        self.value
    }

    /// Whether the value can no longer be mutated.
    pub closed spec fn fixed(&self) -> bool {
        self.fixed
    }

    /// Creates an open cell holding `value`.
    pub fn new(value: T) -> (r: Self)
        ensures
            r.value() == value,
            !r.fixed(),
    {
        MutOnce { value, fixed: false }
    }

    /// Mutably borrows the value. The cell must still be open.
    pub fn get_mut(&mut self) -> (r: &mut T)
        requires
            !old(self).fixed(),
        ensures
            *r == old(self).value(),
            final(self).value() == *final(r),
            !final(self).fixed(),
    {
        &mut self.value
    }

    /// Fixes the cell and borrows its value for reading.
    pub fn get_ref(&mut self) -> (r: &T)
        ensures
            *r == old(self).value(),
            final(self).value() == old(self).value(),
            final(self).fixed(),
    {
        self.fixed = true;
        &self.value
    }

    /// Reads the value without fixing the cell.
    pub fn peek(&self) -> (r: &T)
        ensures
            *r == self.value(),
    {
        &self.value
    }

    /// Returns true if the value can no longer be mutated, that is if
    /// `get_ref` has been called.
    pub fn is_fixed(&self) -> (r: bool)
        ensures
            r == self.fixed(),
    {
        self.fixed
    }

    /// Consumes the cell, returning the value.
    pub fn into_inner(self) -> (r: T)
        ensures
            r == self.value(),
    {
        self.value
    }
}

impl<T> From<T> for MutOnce<T> {
    fn from(t: T) -> (r: MutOnce<T>)
        ensures
            r.value() == t,
            !r.fixed(),
    {
        MutOnce::new(t)
    }
}

impl<T> vstd::std_specs::convert::FromSpecImpl<T> for MutOnce<T> {
    open spec fn obeys_from_spec() -> bool {
        true
    }

    closed spec fn from_spec(t: T) -> MutOnce<T> {
        MutOnce { value: t, fixed: false }
    }
}

impl<T: Default> Default for MutOnce<T> {
    fn default() -> (r: MutOnce<T>)
        ensures
            !r.fixed(),
    {
        MutOnce::new(T::default())
    }
}

impl<T: Clone> MutOnce<T> {
    /// Returns a cell holding a clone of the value, open or fixed as this
    /// one is.
    pub fn clone_custom(&self) -> (r: Self)
        ensures
            r.fixed() == self.fixed(),
            cloned(self.value(), r.value()),
    {
        MutOnce { value: self.value.clone(), fixed: self.fixed }
    }
}

} // verus!
