//! Scalar characteristics of a pixel, used to select pixels and to order them.

use std::cmp::Ordering;
use vstd::prelude::*;
use crate::pixel::Pixel;

verus! {

/// The scalar by which pixels are selected or ordered.
#[derive(Clone, Copy, Debug, PartialEq, Eq, Structural)]
pub enum PixelCharacteristic {
    /// Not computed: every pixel has hue 0.
    Hue,
    /// Not computed: every pixel has saturation 0.
    Saturation,
    /// Relative luminance with the weights 0.2126, 0.7152 and 0.0722, rounded down.
    Luminance,
    /// The mean of red, green and blue, rounded down.
    Average,
    /// The red channel.
    Red,
    /// The green channel.
    Green,
    /// The blue channel.
    Blue,
}

impl PixelCharacteristic {
    /// The value of this characteristic for `pixel`, always in `0..=255`.
    pub open spec fn value(self, pixel: Pixel) -> int {
        match self {
            PixelCharacteristic::Hue => 0,
            PixelCharacteristic::Saturation => 0,
            PixelCharacteristic::Luminance => (2126 * pixel.r + 7152 * pixel.g + 722 * pixel.b)
                / 10000,
            PixelCharacteristic::Average => (pixel.r + pixel.g + pixel.b) / 3,
            PixelCharacteristic::Red => pixel.r as int,
            PixelCharacteristic::Green => pixel.g as int,
            PixelCharacteristic::Blue => pixel.b as int,
        }
    }

    /// `a` comes no later than `b` when pixels are put in order by this
    /// characteristic: a smaller value comes first, and pixels of equal value
    /// are ordered by red, green, blue and alpha in turn.
    pub open spec fn precedes(self, a: Pixel, b: Pixel) -> bool {
        let va = self.value(a);
        let vb = self.value(b);
        va < vb || (va == vb && (a.r < b.r || (a.r == b.r && (a.g < b.g || (a.g == b.g && (a.b
            < b.b || (a.b == b.b && a.a <= b.a)))))))
    }

    /// Computes the value of this characteristic for `pixel`.
    pub fn get_pixel_characteristic_value(self, pixel: &Pixel) -> (value: u8)
        ensures
            value == self.value(*pixel),
    {
        match self {
            PixelCharacteristic::Hue => 0,
            PixelCharacteristic::Saturation => 0,
            PixelCharacteristic::Luminance => {
                let weighted: u32 = 2126 * (pixel.r as u32) + 7152 * (pixel.g as u32) + 722 * (
                pixel.b as u32);
                (weighted / 10000) as u8
            },
            PixelCharacteristic::Average => {
                ((pixel.r as u32 + pixel.g as u32 + pixel.b as u32) / 3) as u8
            },
            PixelCharacteristic::Red => pixel.r,
            PixelCharacteristic::Green => pixel.g,
            PixelCharacteristic::Blue => pixel.b,
        }
    }

    /// The name under which the characteristic is offered for choice.
    pub fn name(&self) -> (name: &'static str)
        ensures
            name@ == match self {
                PixelCharacteristic::Hue => "Hue"@,
                PixelCharacteristic::Saturation => "Saturation"@,
                PixelCharacteristic::Luminance => "Luminosity"@,
                PixelCharacteristic::Average => "Average"@,
                PixelCharacteristic::Red => "Red"@,
                PixelCharacteristic::Green => "Green"@,
                PixelCharacteristic::Blue => "Blue"@,
            },
    {
        match self {
            PixelCharacteristic::Hue => "Hue",
            PixelCharacteristic::Saturation => "Saturation",
            PixelCharacteristic::Luminance => "Luminosity",
            PixelCharacteristic::Average => "Average",
            PixelCharacteristic::Red => "Red",
            PixelCharacteristic::Green => "Green",
            PixelCharacteristic::Blue => "Blue",
        }
    }

    /// Compares two pixels by the value of this characteristic alone.
    pub fn compare(&self, a: &Pixel, b: &Pixel) -> (order: Ordering)
        ensures
            order == Ordering::Less <==> self.value(*a) < self.value(*b),
            order == Ordering::Equal <==> self.value(*a) == self.value(*b),
            order == Ordering::Greater <==> self.value(*a) > self.value(*b),
    {
        let va: u8 = self.get_pixel_characteristic_value(a);
        let vb: u8 = self.get_pixel_characteristic_value(b);
        if va < vb {
            Ordering::Less
        } else if va == vb {
            Ordering::Equal
        } else {
            Ordering::Greater
        }
    }

    /// Compares two pixels in the order in which a sorted run holds them:
    /// by the value of this characteristic first, then by red, green, blue
    /// and alpha. Only identical pixels compare equal, so a run has exactly
    /// one sorted arrangement.
    pub fn order(&self, a: &Pixel, b: &Pixel) -> (order: Ordering)
        ensures
            order == Ordering::Less <==> self.precedes(*a, *b) && *a != *b,
            order == Ordering::Equal <==> *a == *b,
            order == Ordering::Greater <==> !self.precedes(*a, *b),
    {
        let va: u8 = self.get_pixel_characteristic_value(a);
        let vb: u8 = self.get_pixel_characteristic_value(b);
        if va != vb {
            if va < vb {
                Ordering::Less
            } else {
                Ordering::Greater
            }
        } else if a.r != b.r {
            if a.r < b.r {
                Ordering::Less
            } else {
                Ordering::Greater
            }
        } else if a.g != b.g {
            if a.g < b.g {
                Ordering::Less
            } else {
                Ordering::Greater
            }
        } else if a.b != b.b {
            if a.b < b.b {
                Ordering::Less
            } else {
                Ordering::Greater
            }
        } else if a.a != b.a {
            if a.a < b.a {
                Ordering::Less
            } else {
                Ordering::Greater
            }
        } else {
            Ordering::Equal
        }
    }

    /// `precedes` as a relation on pixels.
    pub open spec fn precedes_relation(self) -> spec_fn(Pixel, Pixel) -> bool {
        |a: Pixel, b: Pixel| self.precedes(a, b)
    }

    /// The order of a sorted run is total: any two pixels are comparable,
    /// and two pixels that precede each other are the same pixel.
    pub proof fn lemma_precedes_is_total_order(self)
        ensures
            vstd::relations::total_ordering(self.precedes_relation()),
    {
    }

    /// Pixels in sorted order have ascending values of the characteristic.
    pub proof fn lemma_precedes_orders_values(self, a: Pixel, b: Pixel)
        requires
            self.precedes(a, b),
        ensures
            self.value(a) <= self.value(b),
    {
    }
}

} // verus!
