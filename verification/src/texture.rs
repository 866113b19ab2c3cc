//! Texture resources and the in-place layout reinterpretation.

use vstd::prelude::*;

verus! {

/// An opaque, copyable reference to a texture slot in an [`crate::assets::AssetTable`].
///
/// A handle carries no identity beyond equality; it never owns the pixel
/// buffer it points at.
#[derive(Clone, Copy, PartialEq, Eq, Structural, Debug)]
pub struct TextureHandle {
    /// Index of the slot this handle resolves to.
    pub id: usize,
}

/// How a texture's backing buffer is presented to the sampler.
#[derive(Clone, Copy, PartialEq, Eq, Structural, Debug)]
pub enum TextureViewDimension {
    /// A single flat two-dimensional image.
    D2,
    /// Six square layers sampled as the faces of a cube.
    Cube,
}

/// Why a conversion attempt left a texture untouched.
#[derive(Clone, Copy, PartialEq, Eq, Structural, Debug)]
pub enum ConversionError {
    /// The texture is no longer a flat single-layer image, so a repeated
    /// conversion would corrupt it; the attempt is refused instead.
    AlreadyConverted,
    /// The height is not the required multiple of the width, so the buffer
    /// cannot be cut into that many square layers.
    InvalidDimensions,
}

/// A texture resource: a raw pixel buffer plus the layout metadata that
/// tells the sampler how to read it.
///
/// Freshly loaded stacked images are flat: one layer, no explicit view.
/// Conversion reclassifies the same buffer as six square layers viewed as a
/// cube; it never copies or resamples pixels.
#[derive(Debug, PartialEq)]
pub struct Texture {
    /// Width of the image in pixels.
    pub width: u32,
    /// Height of the image in pixels. A stacked skybox image has height
    /// `6 * width`.
    pub height: u32,
    /// Number of layers the buffer is cut into. Flat images have one.
    pub layers: u32,
    /// Explicit view, if one has been set. Unset means the default flat
    /// two-dimensional interpretation.
    pub view_dimension: Option<TextureViewDimension>,
    /// The raw pixel bytes. Conversion never touches them.
    pub data: Vec<u8>,
}

impl Texture {
    /// A flat texture: a single layer with no explicit view. Only flat
    /// textures may be reinterpreted; anything else has already been
    /// converted (or arrived pre-layered) and must not be touched again.
    pub open spec fn spec_is_flat(self) -> bool {
        self.layers == 1 && self.view_dimension is None
    }

    /// The stacking convention: a buffer can be cut into `layers` square
    /// layers exactly when its height is `layers` times its width.
    pub open spec fn spec_can_stack(self, layers: u32) -> bool {
        layers >= 1 && self.height == layers * self.width
    }

    /// The metadata after a successful reinterpretation into `layers`
    /// layers: each layer is `width` wide and `width` tall, and the bytes
    /// are untouched.
    pub open spec fn spec_reinterpreted(self, layers: u32) -> Texture {
        Texture {
            width: self.width,
            height: self.width,
            layers: layers,
            view_dimension: self.view_dimension,
            data: self.data,
        }
    }

    /// Builds a freshly loaded flat image around `data`.
    pub fn new_flat(width: u32, height: u32, data: Vec<u8>) -> (t: Texture)
        ensures
            t.width == width,
            t.height == height,
            t.layers == 1,
            t.view_dimension is None,
            t.data == data,
    {
        Texture { width, height, layers: 1, view_dimension: None, data }
    }

    /// Reclassifies a flat `N x (layers * N)` image as `layers` square
    /// layers of side `N`, in place. The pixel buffer is never copied,
    /// resampled, or altered.
    ///
    /// The attempt is refused, and the texture left bit-identical, when the
    /// texture is not flat (a repeated conversion) or when the height is not
    /// `layers` times the width (a malformed stack).
    pub fn reinterpret_stacked_2d_as_array(&mut self, layers: u32) -> (r: Result<
        (),
        ConversionError,
    >)
        ensures
            old(self).spec_is_flat() && old(self).spec_can_stack(layers) ==> {
                &&& r == Ok::<(), ConversionError>(())
                &&& *final(self) == old(self).spec_reinterpreted(layers)
            },
            !old(self).spec_is_flat() ==> {
                &&& r == Err::<(), ConversionError>(ConversionError::AlreadyConverted)
                &&& *final(self) == *old(self)
            },
            old(self).spec_is_flat() && !old(self).spec_can_stack(layers) ==> {
                &&& r == Err::<(), ConversionError>(ConversionError::InvalidDimensions)
                &&& *final(self) == *old(self)
            },
    {
        if self.layers != 1 || self.view_dimension.is_some() {
            return Err(ConversionError::AlreadyConverted);
        }
        let w = self.width as u64;
        let l = layers as u64;
        proof {
            assert(l * w <= 0xffff_ffff * 0xffff_ffff) by (nonlinear_arith)
                requires
                    l <= 0xffff_ffff,
                    w <= 0xffff_ffff,
            ;
        }
        if layers == 0 || (self.height as u64) != l * w {
            return Err(ConversionError::InvalidDimensions);
        }
        self.height = self.width;
        self.layers = layers;
        Ok(())
    }

    /// Records an explicit view for the sampler.
    pub fn set_view_dimension(&mut self, dimension: TextureViewDimension)
        ensures
            *final(self) == (Texture { view_dimension: Some(dimension), ..*old(self) }),
    {
        self.view_dimension = Some(dimension);
    }
}

/// The complete transform the scheduler applies to a loaded texture: cut a
/// well-formed flat stack into six square layers and view them as a cube;
/// leave every other texture exactly as it was.
pub open spec fn spec_convert(t: Texture) -> Texture {
    if t.spec_is_flat() && t.spec_can_stack(6) {
        Texture {
            width: t.width,
            height: t.width,
            layers: 6,
            view_dimension: Some(TextureViewDimension::Cube),
            data: t.data,
        }
    } else {
        t
    }
}

/// Applying the scheduler's transform twice gives the same texture as
/// applying it once: a converted texture is no longer flat, so a second
/// attempt changes nothing.
pub proof fn lemma_convert_idempotent(t: Texture)
    ensures
        spec_convert(spec_convert(t)) == spec_convert(t),
{
}

/// The dimension invariant of a converted texture: six layers, each as wide
/// and as tall as the original width, over the original, untouched byte
/// buffer.
pub proof fn lemma_converted_dimensions(t: Texture)
    requires
        t.spec_is_flat(),
        t.height == 6 * t.width,
    ensures
        spec_convert(t).layers == 6,
        spec_convert(t).width == t.width,
        spec_convert(t).height == t.width,
        spec_convert(t).view_dimension == Some(TextureViewDimension::Cube),
        spec_convert(t).data == t.data,
{
}

} // verus!
