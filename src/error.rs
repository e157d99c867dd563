//! The errors of the library.
use vstd::prelude::*;

verus! {

/// `std::io::Error`, carried inside the errors that wrap a failed read or
/// write; nothing looks inside it.
#[verifier::external_type_specification]
#[verifier::external_body]
pub struct ExIoError(std::io::Error);

/// The errors that the library reports; each is final at this layer.
#[derive(Debug)]
pub enum Error {
    /// The OpenGL interface could not be loaded (no current context).
    OpenGLInterfaceError,
    /// The GPU context could not be made from the OpenGL interface.
    DirectContextError,
    /// The render target could not be wrapped in a surface.
    SurfaceCreationError,
    /// The GPU context could not be made from the Metal device and queue.
    MetalContextError,
    /// The Metal render target could not be made.
    MetalSurfaceError,
    /// A resize was asked of a surface that holds no GPU context.
    NoDirectContext,
    /// The CPU surface could not be allocated.
    RasterSurfaceError,
    /// The surface's contents could not be encoded as PNG.
    PngEncodeError,
    /// The output file could not be created.
    FileCreateError(std::io::Error),
    /// The output file could not be written.
    FileWriteError(std::io::Error),
    /// The surface's pixels could not be read back.
    ReadPixelsError,
    /// An image file could not be read.
    ImageReadError { path: String, source: std::io::Error },
    /// An image file held no image that could be decoded.
    ImageDecodeError(String),
    /// Bytes held no image that could be decoded.
    ImageBytesDecodeError,
    /// The Vulkan backend does not exist yet.
    VulkanNotImplemented,
}

} // verus!
