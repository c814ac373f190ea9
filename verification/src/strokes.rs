//! The drawable entities an export container aggregates.
//!
//! A [`Stroke`] is either a vector brush stroke or a raster-backed image
//! (bitmap, or a vector document embedded as an image). Every entity exposes
//! its bounding volume; brush strokes additionally support the destructive
//! "reduce to darkest color" operation used by print optimization.

use crate::color::Color;
use crate::geometry::Aabb;
use vstd::prelude::*;

verus! {

/// A vector brush stroke: a bounding volume, a stroke color and an optional
/// fill color.
#[derive(Clone, Copy, Debug, PartialEq, Eq)]
pub struct BrushStroke {
    pub bounds: Aabb,
    pub stroke_color: Color,
    pub fill_color: Option<Color>,
}

/// A raster-backed image entity: positioned by its bounding rectangle.
#[derive(Clone, Copy, Debug, PartialEq, Eq)]
pub struct Image {
    pub bounds: Aabb,
}

/// A background descriptor: the fill color of the background layer. How its
/// pattern is realized is the drawing backend's concern.
#[derive(Clone, Copy, Debug, PartialEq, Eq)]
pub struct Background {
    pub color: Color,
}

/// A drawable entity.
#[derive(Clone, Copy, Debug, PartialEq, Eq)]
pub enum Stroke {
    /// A vector path stroke.
    BrushStroke(BrushStroke),
    /// A raster bitmap image.
    BitmapImage(Image),
    /// A vector document embedded as an image.
    VectorImage(Image),
}

impl Stroke {
    /// The bounding volume of the entity.
    pub open spec fn spec_bounds(self) -> Aabb {
        match self {
            Stroke::BrushStroke(b) => b.bounds,
            Stroke::BitmapImage(i) => i.bounds,
            Stroke::VectorImage(i) => i.bounds,
        }
    }

    /// Whether the entity is backed by a raster image (bitmap or embedded
    /// vector document), the discriminator the print-optimization containment
    /// check needs.
    pub open spec fn spec_is_image(self) -> bool {
        match self {
            Stroke::BrushStroke(_) => false,
            Stroke::BitmapImage(_) => true,
            Stroke::VectorImage(_) => true,
        }
    }

    /// The darkest color the entity carries: for a brush stroke the darker of
    /// its stroke color and its fill color (the stroke color on a tie); for an
    /// image there is none.
    pub open spec fn spec_darkest_color(self) -> Option<Color> {
        match self {
            Stroke::BrushStroke(b) => match b.fill_color {
                Some(f) => if f.spec_darkness() < b.stroke_color.spec_darkness() {
                    Some(f)
                } else {
                    Some(b.stroke_color)
                },
                None => Some(b.stroke_color),
            },
            Stroke::BitmapImage(_) => None,
            Stroke::VectorImage(_) => None,
        }
    }

    /// What reducing the entity to its darkest color yields: a brush stroke
    /// has its stroke color, and its fill color where present, replaced by its
    /// darkest color; an image is unchanged.
    pub open spec fn spec_darkened(self) -> Stroke {
        match self {
            Stroke::BrushStroke(b) => {
                let darkest = self.spec_darkest_color().unwrap();
                Stroke::BrushStroke(
                    BrushStroke {
                        bounds: b.bounds,
                        stroke_color: darkest,
                        fill_color: match b.fill_color {
                            Some(_) => Some(darkest),
                            None => None,
                        },
                    },
                )
            },
            Stroke::BitmapImage(_) => self,
            Stroke::VectorImage(_) => self,
        }
    }

    /// The bounding volume of the entity.
    pub fn bounds(&self) -> (r: Aabb)
        ensures
            r == self.spec_bounds(),
    {
        match self {
            Stroke::BrushStroke(b) => b.bounds,
            Stroke::BitmapImage(i) => i.bounds,
            Stroke::VectorImage(i) => i.bounds,
        }
    }

    /// Whether the entity is backed by a raster image.
    pub fn is_image(&self) -> (r: bool)
        ensures
            r == self.spec_is_image(),
    {
        match self {
            Stroke::BrushStroke(_) => false,
            Stroke::BitmapImage(_) => true,
            Stroke::VectorImage(_) => true,
        }
    }

    /// Reduces the entity to its darkest color, in place. Images are left
    /// unchanged; brush strokes keep their bounds and whether they have a
    /// fill.
    pub fn set_to_darkest_color(&mut self)
        ensures
            *final(self) == old(self).spec_darkened(),
            final(self).spec_bounds() == old(self).spec_bounds(),
            final(self).spec_is_image() == old(self).spec_is_image(),
    {
        match *self {
            Stroke::BrushStroke(b) => {
                let darkest = match b.fill_color {
                    Some(f) => if f.darkness() < b.stroke_color.darkness() {
                        f
                    } else {
                        b.stroke_color
                    },
                    None => b.stroke_color,
                };
                *self = Stroke::BrushStroke(
                    BrushStroke {
                        bounds: b.bounds,
                        stroke_color: darkest,
                        fill_color: match b.fill_color {
                            Some(_) => Some(darkest),
                            None => None,
                        },
                    },
                );
            },
            Stroke::BitmapImage(_) => {},
            Stroke::VectorImage(_) => {},
        }
    }
}

} // verus!
