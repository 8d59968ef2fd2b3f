//! Drawing: a shape is described step by step before it is drawn.

pub mod ellipse;

pub use self::ellipse::Ellipse;

use vstd::prelude::*;

verus! {

/// A shape of type `T` that is being described. Each method gives back the
/// drawing with the shape changed, so that the steps can be written in a row.
pub struct Drawing<T> {
    ty: T,
}

impl<T> Drawing<T> {
    /// The shape as it has been described so far.
    pub closed spec fn view(&self) -> T {
        self.ty
    }

    /// Starts to describe `ty`.
    pub fn new(ty: T) -> (drawing: Self)
        ensures
            drawing@ == ty,
    {
        Drawing { ty }
    }

    /// Ends the description and gives the shape.
    pub fn finish(self) -> (ty: T)
        ensures
            ty == self@,
    {
        self.ty
    }

    /// The drawing of the shape that `map` makes of this one.
    pub fn map_ty<T2, F: FnOnce(T) -> T2>(self, map: F) -> (drawing: Drawing<T2>)
        requires
            call_requires(map, (self@,)),
        ensures
            call_ensures(map, (self@,), drawing@),
    {
        Drawing { ty: map(self.ty) }
    }
}

} // verus!
