//! Drawing surfaces and the lifecycle of their GPU contexts.
//!
//! A surface owns a render target `R` and, when it is GPU-backed, a GPU
//! context `C`. Contexts are expensive to make and bound to one thread, so a
//! surface that goes away hands its context to the thread's `ContextSlot`,
//! where the next surface made on that thread finds it.
use vstd::prelude::*;

use crate::error::Error;

verus! {

/// The kinds of render target a surface can be made on.
#[derive(Clone, Copy, Debug, PartialEq, Eq, Structural)]
pub enum Backend {
    /// A CPU pixel buffer; never holds a GPU context.
    Raster,
    /// An OpenGL framebuffer.
    Gl,
    /// A Metal device and command queue.
    Metal,
}

/// The error for a render target that the backend could not make.
pub open spec fn target_error_of(backend: Backend) -> Error {
    match backend {
        Backend::Metal => Error::MetalSurfaceError,
        Backend::Raster => Error::RasterSurfaceError,
        Backend::Gl => Error::SurfaceCreationError,
    }
}

/// The error for a render target that the backend could not make.
pub fn target_error(backend: Backend) -> (e: Error)
    ensures
        e == target_error_of(backend),
{
    match backend {
        Backend::Metal => Error::MetalSurfaceError,
        Backend::Raster => Error::RasterSurfaceError,
        Backend::Gl => Error::SurfaceCreationError,
    }
}

/// The GPU context made for a new surface where the thread had none idle:
/// for OpenGL, a missing interface and a failed context are distinct errors;
/// for Metal there is no interface to load, and a failed context is the
/// Metal error. A raster surface never makes a context.
pub fn new_context<C>(backend: Backend, interface_loaded: bool, made: Option<C>) -> (r: Result<
    C,
    Error,
>)
    requires
        backend != Backend::Raster,
    ensures
        backend == Backend::Gl && !interface_loaded ==> r matches Err(Error::OpenGLInterfaceError),
        backend == Backend::Gl && interface_loaded ==> match made {
            Some(c) => r == Ok::<C, Error>(c),
            None => r matches Err(Error::DirectContextError),
        },
        backend == Backend::Metal ==> match made {
            Some(c) => r == Ok::<C, Error>(c),
            None => r matches Err(Error::MetalContextError),
        },
{
    match backend {
        Backend::Gl => {
            if !interface_loaded {
                Err(Error::OpenGLInterfaceError)
            } else {
                match made {
                    Some(c) => Ok(c),
                    None => Err(Error::DirectContextError),
                }
            }
        },
        _ => match made {
            Some(c) => Ok(c),
            None => Err(Error::MetalContextError),
        },
    }
}

/// A thread's pool of idle GPU contexts, of capacity one.
pub struct ContextSlot<C> {
    idle: Option<C>,
}

impl<C> View for ContextSlot<C> {
    type V = Option<C>;

    closed spec fn view(&self) -> Option<C> {
        self.idle
    }
}

impl<C> ContextSlot<C> {
    /// A slot with no idle context.
    pub fn new() -> (s: Self)
        ensures
            s@ == None::<C>,
    {
        ContextSlot { idle: None }
    }

    /// Takes the idle context, if there is one, leaving the slot empty.
    pub fn take(&mut self) -> (r: Option<C>)
        ensures
            r == old(self)@,
            final(self)@ == None::<C>,
    {
        let mut idle = None;
        std::mem::swap(&mut idle, &mut self.idle);
        idle
    }

    /// Keeps a context for reuse; one already idle gives way to it.
    pub fn put(&mut self, context: C)
        ensures
            final(self)@ == Some(context),
    {
        self.idle = Some(context);
    }
}

/// What a surface is, apart from the objects it owns: its backend, whether it
/// holds a GPU context, and its size in pixels.
pub struct SurfaceView {
    pub backend: Backend,
    pub has_context: bool,
    pub width: i32,
    pub height: i32,
}

/// The view of a surface after a resize to `width` by `height` whose render
/// target was made: the backend and the context stay, the size is new.
pub open spec fn resized(v: SurfaceView, width: i32, height: i32) -> SurfaceView {
    SurfaceView { width, height, ..v }
}

/// The bytes in one row of RGBA8 pixels.
pub open spec fn rgba_row_bytes(width: i32) -> int {
    width as int * 4
}

/// The bytes in a whole RGBA8 image, rows packed with no padding.
pub open spec fn rgba_total_bytes(width: i32, height: i32) -> int {
    width as int * 4 * height as int
}

/// Whether pixels of that size can be read back into one buffer.
pub open spec fn readable(width: i32, height: i32) -> bool {
    &&& width >= 0
    &&& height >= 0
    &&& rgba_row_bytes(width) <= usize::MAX
    &&& rgba_total_bytes(width, height) <= usize::MAX
}

/// The row stride and total size of an RGBA8 buffer for `width` by `height`
/// pixels; a negative size, or one whose buffer would not fit in memory, is a
/// read-back error.
pub fn rgba_layout(width: i32, height: i32) -> (r: Result<(usize, usize), Error>)
    ensures
        readable(width, height) ==> r == Ok::<(usize, usize), Error>(
            (rgba_row_bytes(width) as usize, rgba_total_bytes(width, height) as usize),
        ),
        !readable(width, height) ==> r matches Err(Error::ReadPixelsError),
{
    if width < 0 || height < 0 {
        return Err(Error::ReadPixelsError);
    }
    let w = width as usize;
    let h = height as usize;
    match w.checked_mul(4) {
        Some(row) => match row.checked_mul(h) {
            Some(total) => Ok((row, total)),
            None => Err(Error::ReadPixelsError),
        },
        None => Err(Error::ReadPixelsError),
    }
}

/// A drawing surface: a render target of a backend, the GPU context that
/// drives it (none on a raster surface), and its size in pixels.
pub struct Surface<R, C> {
    target: R,
    context: Option<C>,
    backend: Backend,
    width: i32,
    height: i32,
}

impl<R, C> View for Surface<R, C> {
    type V = SurfaceView;

    closed spec fn view(&self) -> SurfaceView {
        SurfaceView {
            backend: self.backend,
            has_context: self.context is Some,
            width: self.width,
            height: self.height,
        }
    }
}

impl<R, C> Surface<R, C> {
    pub closed spec fn spec_target(&self) -> R {
        self.target
    }

    pub closed spec fn spec_context(&self) -> Option<C> {
        self.context
    }

    /// A raster surface never holds a GPU context.
    pub open spec fn wf(&self) -> bool {
        self@.backend == Backend::Raster ==> !self@.has_context
    }

    /// A CPU surface over the pixel buffer that was allocated for it, or the
    /// raster error where none could be.
    pub fn new_raster(target: Option<R>, width: i32, height: i32) -> (r: Result<Self, Error>)
        ensures
            match target {
                Some(t) => r matches Ok(s) && s.wf() && s.spec_target() == t && s.spec_context()
                    is None && s@ == (SurfaceView {
                    backend: Backend::Raster,
                    has_context: false,
                    width,
                    height,
                }),
                None => r matches Err(Error::RasterSurfaceError),
            },
    {
        match target {
            Some(t) => Ok(Surface { target: t, context: None, backend: Backend::Raster, width, height }),
            None => Err(Error::RasterSurfaceError),
        }
    }

    /// A GPU surface over the render target made with `context`. Where no
    /// target could be made, the backend's error is returned and the context
    /// goes back to the thread's slot for the next attempt.
    pub fn from_gpu(
        backend: Backend,
        context: C,
        target: Option<R>,
        width: i32,
        height: i32,
        slot: &mut ContextSlot<C>,
    ) -> (r: Result<Self, Error>)
        requires
            backend != Backend::Raster,
        ensures
            match target {
                Some(t) => r matches Ok(s) && s.wf() && s.spec_target() == t && s.spec_context()
                    == Some(context) && s@ == (SurfaceView {
                    backend,
                    has_context: true,
                    width,
                    height,
                }) && final(slot)@ == old(slot)@,
                None => r matches Err(e) && e == target_error_of(backend) && final(slot)@ == Some(
                    context,
                ),
            },
    {
        match target {
            Some(t) => Ok(Surface { target: t, context: Some(context), backend, width, height }),
            None => {
                slot.put(context);
                Err(target_error(backend))
            },
        }
    }

    /// The Vulkan backend is not implemented: every attempt fails.
    pub fn from_vulkan(surface_ptr: usize, width: i32, height: i32) -> (r: Result<Self, Error>)
        ensures
            r matches Err(Error::VulkanNotImplemented),
    {
        Err(Error::VulkanNotImplemented)
    }

    pub fn width(&self) -> (w: i32)
        ensures
            w == self@.width,
    {
        self.width
    }

    pub fn height(&self) -> (h: i32)
        ensures
            h == self@.height,
    {
        self.height
    }

    pub fn backend(&self) -> (b: Backend)
        ensures
            b == self@.backend,
    {
        self.backend
    }

    /// Whether the surface holds a GPU context.
    pub fn has_context(&self) -> (b: bool)
        ensures
            b == self@.has_context,
    {
        self.context.is_some()
    }

    /// The render target, to draw on.
    pub fn target_mut(&mut self) -> (t: &mut R)
        ensures
            *t == old(self).spec_target(),
            final(self).spec_target() == *final(t),
            final(self).spec_context() == old(self).spec_context(),
            final(self)@ == old(self)@,
    {
        &mut self.target
    }

    /// The GPU context, to submit work through; none on a raster surface.
    pub fn context_mut(&mut self) -> (c: Option<&mut C>)
        ensures
            match c {
                Some(c) => old(self).spec_context() == Some(*c) && final(self).spec_context()
                    == Some(*final(c)),
                None => old(self).spec_context() is None && final(self).spec_context() is None,
            },
            final(self).spec_target() == old(self).spec_target(),
            final(self)@ == old(self)@,
    {
        match &mut self.context {
            Some(c) => Some(c),
            None => None,
        }
    }

    /// Starts a resize: hands out the surface's GPU context, with which the
    /// render target of the new size is made. A surface without one (a
    /// raster surface) cannot be resized.
    pub fn begin_resize(&mut self) -> (r: Result<C, Error>)
        ensures
            match old(self).spec_context() {
                Some(c) => r == Ok::<C, Error>(c) && final(self)@ == (SurfaceView {
                    has_context: false,
                    ..old(self)@
                }),
                None => r matches Err(Error::NoDirectContext) && final(self)@ == old(self)@,
            },
            final(self).spec_target() == old(self).spec_target(),
            final(self).spec_context() is None,
    {
        match self.context.take() {
            Some(c) => Ok(c),
            None => Err(Error::NoDirectContext),
        }
    }

    /// Ends a resize with the context that `begin_resize` handed out and the
    /// render target made for the new size. The context always comes back:
    /// it is never dropped or made anew. Where no target could be made, the
    /// backend's error is returned and the old target and size stay.
    pub fn finish_resize(&mut self, context: C, target: Option<R>, width: i32, height: i32) -> (r:
        Result<(), Error>)
        requires
            old(self)@.backend != Backend::Raster,
        ensures
            final(self).spec_context() == Some(context),
            final(self).wf(),
            match target {
                Some(t) => r is Ok && final(self).spec_target() == t && final(self)@ == resized(
                    SurfaceView { has_context: true, ..old(self)@ },
                    width,
                    height,
                ),
                None => r matches Err(e) && e == target_error_of(old(self)@.backend)
                    && final(self).spec_target() == old(self).spec_target() && final(self)@ == (
                SurfaceView { has_context: true, ..old(self)@ }),
            },
    {
        self.context = Some(context);
        match target {
            Some(t) => {
                self.target = t;
                self.width = width;
                self.height = height;
                Ok(())
            },
            None => Err(target_error(self.backend)),
        }
    }

    /// Hands the surface's GPU context, if it holds one, to the thread's
    /// slot for the next surface made on the thread.
    pub fn release_context(&mut self, slot: &mut ContextSlot<C>)
        ensures
            final(self).spec_context() is None,
            final(self)@ == (SurfaceView { has_context: false, ..old(self)@ }),
            final(self).spec_target() == old(self).spec_target(),
            match old(self).spec_context() {
                Some(c) => final(slot)@ == Some(c),
                None => final(slot)@ == old(slot)@,
            },
    {
        match self.context.take() {
            Some(c) => slot.put(c),
            None => {},
        }
    }

    /// The row stride and size of the buffer that the surface's pixels are
    /// read back into, as RGBA8.
    pub fn rgba_buffer_layout(&self) -> (r: Result<(usize, usize), Error>)
        ensures
            readable(self@.width, self@.height) ==> r == Ok::<(usize, usize), Error>(
                (
                    rgba_row_bytes(self@.width) as usize,
                    rgba_total_bytes(self@.width, self@.height) as usize,
                ),
            ),
            !readable(self@.width, self@.height) ==> r matches Err(Error::ReadPixelsError),
    {
        rgba_layout(self.width, self.height)
    }
}

/// A GPU surface survives a resize: it holds its context, so the resize never
/// fails for want of one; the context comes back at the end; and the surface
/// then has the new size, so its pixels read back into
/// `width * height * 4` bytes.
pub proof fn lemma_resize_keeps_context<R, C>(s: Surface<R, C>, width: i32, height: i32)
    requires
        s@.has_context,
        readable(width, height),
    ensures
        s.spec_context() is Some,
        ({
            let after = resized(SurfaceView { has_context: true, ..s@ }, width, height);
            &&& after.has_context
            &&& after.backend == s@.backend
            &&& after.width == width
            &&& after.height == height
            &&& rgba_total_bytes(after.width, after.height) == width as int * height as int * 4
        }),
{
    assert(width as int * 4 * height as int == width as int * height as int * 4) by (nonlinear_arith);
}

} // verus!
