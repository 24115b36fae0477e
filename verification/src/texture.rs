//! Reading a flat image as an array of cube faces.
//!
//! A container that knows about array textures reports its layers itself.
//! A plain image does not: it arrives as one layer, with the square faces of
//! the cube stacked on top of each other in one tall picture. For such an
//! image the number of layers is its height divided by its width.
//!
//! The division is not checked: a height that is no multiple of the width
//! gives the rounded-down quotient, and a picture wider than it is tall
//! gives no layers at all. [`TextureMetadata::is_exact_stack`] tells a caller
//! who wants to refuse such pictures which ones they are.

use vstd::arithmetic::div_mod::lemma_div_multiples_vanish;
use vstd::prelude::*;

verus! {

/// How the layers of an image are presented to a shader.
#[derive(Clone, Copy, Debug, PartialEq, Eq, Structural)]
pub enum ViewDimension {
    /// One flat picture.
    Flat,
    /// Layers addressed together as the faces of a cube.
    CubeArray,
}

/// The part of an image's description that reinterpretation reads and
/// rewrites. `width` and `height` are those of the picture as it was
/// loaded.
#[derive(Clone, Copy, Debug, PartialEq, Eq, Structural)]
pub struct TextureMetadata {
    pub width: u32,
    pub height: u32,
    pub array_layer_count: u32,
    pub view_dimension: ViewDimension,
}

/// The number of square faces stacked in a picture of the given size.
pub open spec fn stacked_layers(width: u32, height: u32) -> u32 {
    (height / width) as u32
}

/// The metadata after reinterpretation: a one-layer image becomes a cube
/// array of as many layers as faces are stacked in it; an image of any other
/// layer count stays as it is.
pub open spec fn reinterpreted(m: TextureMetadata) -> TextureMetadata {
    if m.array_layer_count == 1 {
        TextureMetadata {
            width: m.width,
            height: m.height,
            array_layer_count: stacked_layers(m.width, m.height),
            view_dimension: ViewDimension::CubeArray,
        }
    } else {
        m
    }
}

impl TextureMetadata {
    /// The description of a flat picture as it comes out of a decoder that
    /// knows nothing of layers.
    pub fn flat(width: u32, height: u32) -> (m: TextureMetadata)
        ensures
            m == (TextureMetadata {
                width,
                height,
                array_layer_count: 1,
                view_dimension: ViewDimension::Flat,
            }),
    {
        TextureMetadata { width, height, array_layer_count: 1, view_dimension: ViewDimension::Flat }
    }

    /// Whether the image has one layer, so that reinterpretation would
    /// rewrite it.
    pub fn is_single_layer(&self) -> (r: bool)
        ensures
            r == (self.array_layer_count == 1),
    {
        self.array_layer_count == 1
    }

    /// Whether the picture is a whole number of square faces, at least one,
    /// stacked vertically.
    pub fn is_exact_stack(&self) -> (r: bool)
        ensures
            r == (self.width > 0 && self.height >= self.width && self.height as int
                % self.width as int == 0),
    {
        self.width > 0 && self.height >= self.width && self.height % self.width == 0
    }

    /// Rewrites a one-layer image as a cube array and leaves any other image
    /// alone. Returns whether it rewrote. A one-layer image without width
    /// has no layer count to compute and is not accepted.
    pub fn reinterpret(&mut self) -> (rewritten: bool)
        requires
            old(self).array_layer_count == 1 ==> old(self).width > 0,
        ensures
            *final(self) == reinterpreted(*old(self)),
            rewritten == (old(self).array_layer_count == 1),
    {
        if self.array_layer_count == 1 {
            self.array_layer_count = self.height / self.width;
            self.view_dimension = ViewDimension::CubeArray;
            true
        } else {
            false
        }
    }
}

/// An image that already has more than one layer is left as it is.
pub proof fn lemma_array_image_untouched(m: TextureMetadata)
    requires
        m.array_layer_count > 1,
    ensures
        reinterpreted(m) == m,
{
}

/// Idempotent reinterpretation: reinterpreting what has been reinterpreted
/// changes nothing.
pub proof fn lemma_reinterpret_idempotent(m: TextureMetadata)
    ensures
        reinterpreted(reinterpreted(m)) == reinterpreted(m),
{
}

/// Layer count derivation: a one-layer picture `layers` times as tall as it
/// is wide becomes a cube array of `layers` layers, whatever its width.
pub proof fn lemma_layer_count(width: u32, layers: u32, dimension: ViewDimension)
    requires
        width > 0,
        width * layers <= u32::MAX,
    ensures
        reinterpreted(
            TextureMetadata {
                width,
                height: (width * layers) as u32,
                array_layer_count: 1,
                view_dimension: dimension,
            },
        ) == (TextureMetadata {
            width,
            height: (width * layers) as u32,
            array_layer_count: layers,
            view_dimension: ViewDimension::CubeArray,
        }),
{
    lemma_div_multiples_vanish(layers as int, width as int);
    assert(width * layers == width as int * layers as int);
}

} // verus!
