//! Texture descriptions, assembled by a builder.
//!
//! The texture object itself lives with the graphics driver; the library
//! holds its numeric object id, its dimensions, formats, wrap and filter
//! parameters, and the raw pixel data. Uploading the pixels and binding
//! the object are the graphics layer's work.

use vstd::prelude::*;

verus! {

/// Numeric values of the graphics API constants the texture defaults use.
pub const GL_RGB: u32 = 0x1907;
pub const GL_REPEAT: u32 = 0x2901;
pub const GL_LINEAR: u32 = 0x2601;

/// A texture: the driver-side object id plus everything the engine knows
/// about it.
pub struct Texture {
    pub id: u32,
    pub width: i32,
    pub height: i32,
    pub internal_format: i32,
    pub image_format: u32,
    pub wrap_s: i32,
    pub wrap_t: i32,
    pub filter_min: i32,
    pub filter_max: i32,
    pub path: String,
    pub data: Vec<u8>,
}

/// Accumulates a texture's parameters before the object is made.
pub struct TextureBuilder {
    pub width: i32,
    pub height: i32,
    pub internal_format: i32,
    pub image_format: u32,
    pub wrap_s: i32,
    pub wrap_t: i32,
    pub filter_min: i32,
    pub filter_max: i32,
    pub data: Vec<u8>,
}

impl TextureBuilder {
    /// A builder with the engine's defaults: RGB formats, repeat
    /// wrapping, linear filtering, no pixels.
    pub fn new() -> (r: Self)
        ensures
            r.width == 0,
            r.height == 0,
            r.internal_format == GL_RGB as i32,
            r.image_format == GL_RGB,
            r.wrap_s == GL_REPEAT as i32,
            r.wrap_t == GL_REPEAT as i32,
            r.filter_min == GL_LINEAR as i32,
            r.filter_max == GL_LINEAR as i32,
            r.data@.len() == 0,
    {
        TextureBuilder {
            width: 0,
            height: 0,
            internal_format: GL_RGB as i32,
            image_format: GL_RGB,
            wrap_s: GL_REPEAT as i32,
            wrap_t: GL_REPEAT as i32,
            filter_min: GL_LINEAR as i32,
            filter_max: GL_LINEAR as i32,
            data: Vec::new(),
        }
    }

    /// Take over a decoded image's pixels and dimensions.
    pub fn image(self, data: Vec<u8>, width: i32, height: i32) -> (r: Self)
        ensures
            r.data == data,
            r.width == width,
            r.height == height,
            r.internal_format == self.internal_format,
            r.image_format == self.image_format,
            r.wrap_s == self.wrap_s,
            r.wrap_t == self.wrap_t,
            r.filter_min == self.filter_min,
            r.filter_max == self.filter_max,
    {
        TextureBuilder { data, width, height, ..self }
    }

    /// Choose the driver-side storage format.
    pub fn internal_format(self, internal_format: u32) -> (r: Self)
        requires
            internal_format <= 0x7fff_ffff,
        ensures
            r.internal_format == internal_format as i32,
            r.width == self.width,
            r.height == self.height,
            r.image_format == self.image_format,
            r.wrap_s == self.wrap_s,
            r.wrap_t == self.wrap_t,
            r.filter_min == self.filter_min,
            r.filter_max == self.filter_max,
            r.data == self.data,
    {
        TextureBuilder { internal_format: internal_format as i32, ..self }
    }

    /// Choose the pixel data's format.
    pub fn image_format(self, image_format: u32) -> (r: Self)
        ensures
            r.image_format == image_format,
            r.width == self.width,
            r.height == self.height,
            r.internal_format == self.internal_format,
            r.wrap_s == self.wrap_s,
            r.wrap_t == self.wrap_t,
            r.filter_min == self.filter_min,
            r.filter_max == self.filter_max,
            r.data == self.data,
    {
        TextureBuilder { image_format, ..self }
    }

    /// Assemble the texture around the object id that the graphics layer
    /// allocated for it.
    pub fn build(self, id: u32) -> (r: Texture)
        ensures
            r.id == id,
            r.width == self.width,
            r.height == self.height,
            r.internal_format == self.internal_format,
            r.image_format == self.image_format,
            r.wrap_s == self.wrap_s,
            r.wrap_t == self.wrap_t,
            r.filter_min == self.filter_min,
            r.filter_max == self.filter_max,
            r.path@.len() == 0,
            r.data == self.data,
    {
        Texture {
            id,
            width: self.width,
            height: self.height,
            internal_format: self.internal_format,
            image_format: self.image_format,
            wrap_s: self.wrap_s,
            wrap_t: self.wrap_t,
            filter_min: self.filter_min,
            filter_max: self.filter_max,
            path: String::new(),
            data: self.data,
        }
    }
}

} // verus!
