//! One-dimensional sample series backed by an `ndarray` array.
//!
//! Sample values are fixed-point: an `i64` holding the value scaled by a
//! power of ten that the owning field documents (for example tenths for the
//! daily weather series, hundredths for parsed simulator output).
use vstd::prelude::*;

verus! {

/// The elements a series holds, in order.
pub uninterp spec fn series_seq(s: Series) -> Seq<i64>;

/// A one-dimensional array of fixed-point sample values, stored as an
/// `ndarray::Array1<i64>`. The array is opaque here; every access goes
/// through the methods below, whose contracts speak of [`series_seq`].
#[verifier::external_body]
#[derive(Debug)]
pub struct Series {
    data: ndarray::Array1<i64>,
}

impl Series {
    /// Relies on `ndarray::Array1::from_vec`, which builds a one-dimensional
    /// array holding exactly the vector's elements in order.
    #[verifier::external_body]
    pub fn from_vec(v: Vec<i64>) -> (r: Series)
        ensures
            series_seq(r) == v@,
    {
        Series { data: ndarray::Array1::from_vec(v) }
    }

    /// Relies on `ndarray`'s `len`, which returns the number of elements.
    #[verifier::external_body]
    pub fn len(&self) -> (r: usize)
        ensures
            r == series_seq(*self).len(),
    {
        self.data.len()
    }

    /// Relies on `ndarray`'s `Index` impl, which returns the element at the
    /// given position and panics only when the position is out of bounds.
    #[verifier::external_body]
    pub fn get(&self, i: usize) -> (r: i64)
        requires
            i < series_seq(*self).len(),
        ensures
            r == series_seq(*self)[i as int],
    {
        self.data[i]
    }

    /// Relies on `ndarray`'s `to_vec`, which returns the elements of a
    /// one-dimensional array in order.
    #[verifier::external_body]
    pub fn to_vec(&self) -> (r: Vec<i64>)
        ensures
            r@ == series_seq(*self),
    {
        self.data.to_vec()
    }

    /// Relies on `ndarray`'s `Clone` impl, which copies the array elementwise.
    #[verifier::external_body]
    pub fn duplicate(&self) -> (r: Series)
        ensures
            series_seq(r) == series_seq(*self),
    {
        Series { data: self.data.clone() }
    }
}

} // verus!
