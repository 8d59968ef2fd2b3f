//! The ellipse: its extent along each axis and the number of sides with which
//! it is drawn.

use super::Drawing;
use vstd::prelude::*;

verus! {

/// The number of sides of an ellipse that was given none.
pub const DEFAULT_RESOLUTION: usize = 50;

/// How far a shape reaches along one axis.
#[derive(Clone, Copy, Debug, PartialEq, Eq, Structural)]
pub enum Extent<S> {
    /// From one side to the other.
    Length(S),
    /// From the middle to either side: half of the length.
    Radius(S),
}

/// Properties related to drawing an **Ellipse**.
#[derive(Clone, Copy, Debug)]
pub struct Ellipse<S> {
    width: Option<Extent<S>>,
    height: Option<Extent<S>>,
    resolution: Option<usize>,
}

impl<S> Ellipse<S> {
    /// The extent along the x axis, if one was given.
    pub closed spec fn spec_width(&self) -> Option<Extent<S>> {
        self.width
    }

    /// The extent along the y axis, if one was given.
    pub closed spec fn spec_height(&self) -> Option<Extent<S>> {
        self.height
    }

    /// The number of sides, if one was given.
    pub closed spec fn spec_resolution(&self) -> Option<usize> {
        self.resolution
    }

    /// An ellipse of which nothing has been said.
    pub fn new() -> (ellipse: Self)
        ensures
            ellipse.spec_width() is None,
            ellipse.spec_height() is None,
            ellipse.spec_resolution() is None,
    {
        Ellipse { width: None, height: None, resolution: None }
    }

    /// Specify the width and height of the **Ellipse** via a given **radius**.
    pub fn radius(self, radius: S) -> (ellipse: Self) where S: Copy
        ensures
            ellipse.spec_width() == Some(Extent::Radius(radius)),
            ellipse.spec_height() == Some(Extent::Radius(radius)),
            ellipse.spec_resolution() == self.spec_resolution(),
    {
        let mut ellipse = self;
        ellipse.width = Some(Extent::Radius(radius));
        ellipse.height = Some(Extent::Radius(radius));
        ellipse
    }

    /// Specify the width and height of the **Ellipse**.
    pub fn w_h(self, width: S, height: S) -> (ellipse: Self)
        ensures
            ellipse.spec_width() == Some(Extent::Length(width)),
            ellipse.spec_height() == Some(Extent::Length(height)),
            ellipse.spec_resolution() == self.spec_resolution(),
    {
        let mut ellipse = self;
        ellipse.width = Some(Extent::Length(width));
        ellipse.height = Some(Extent::Length(height));
        ellipse
    }

    /// The number of sides used to draw the ellipse.
    pub fn resolution(self, resolution: usize) -> (ellipse: Self)
        ensures
            ellipse.spec_resolution() == Some(resolution),
            ellipse.spec_width() == self.spec_width(),
            ellipse.spec_height() == self.spec_height(),
    {
        let mut ellipse = self;
        ellipse.resolution = Some(resolution);
        ellipse
    }

    /// The extent along the x axis, if one was given.
    pub fn width(&self) -> (width: Option<Extent<S>>) where S: Copy
        ensures
            width == self.spec_width(),
    {
        self.width
    }

    /// The extent along the y axis, if one was given.
    pub fn height(&self) -> (height: Option<Extent<S>>) where S: Copy
        ensures
            height == self.spec_height(),
    {
        self.height
    }

    /// The number of sides with which the ellipse is drawn: the number that
    /// was given, or `DEFAULT_RESOLUTION`.
    pub fn sides(&self) -> (sides: usize)
        ensures
            sides == (match self.spec_resolution() {
                Some(resolution) => resolution,
                None => DEFAULT_RESOLUTION,
            }),
    {
        match self.resolution {
            Some(resolution) => resolution,
            None => DEFAULT_RESOLUTION,
        }
    }
}

impl<S> Default for Ellipse<S> {
    fn default() -> (ellipse: Self)
        ensures
            ellipse.spec_width() is None,
            ellipse.spec_height() is None,
            ellipse.spec_resolution() is None,
    {
        Ellipse::new()
    }
}

impl<S: Copy> Drawing<Ellipse<S>> {
    /// Specify the width and height of the **Ellipse** via a given **radius**.
    pub fn radius(self, radius: S) -> (drawing: Self)
        ensures
            drawing@.spec_width() == Some(Extent::Radius(radius)),
            drawing@.spec_height() == Some(Extent::Radius(radius)),
            drawing@.spec_resolution() == self@.spec_resolution(),
    {
        Drawing::new(self.finish().radius(radius))
    }

    /// The number of sides used to draw the ellipse.
    pub fn resolution(self, resolution: usize) -> (drawing: Self)
        ensures
            drawing@.spec_resolution() == Some(resolution),
            drawing@.spec_width() == self@.spec_width(),
            drawing@.spec_height() == self@.spec_height(),
    {
        Drawing::new(self.finish().resolution(resolution))
    }
}

} // verus!
