use castella_skia_core::surface::target_error;
use castella_skia_core::{new_context, rgba_layout, Backend, ContextSlot, Error, Surface};

#[test]
fn raster_surface_has_no_context() {
    let mut s: Surface<&str, u32> = Surface::new_raster(Some("pixels"), 10, 20).unwrap();
    assert_eq!((s.width(), s.height()), (10, 20));
    assert_eq!(s.backend(), Backend::Raster);
    assert!(!s.has_context());
    assert!(matches!(s.begin_resize(), Err(Error::NoDirectContext)));
    assert_eq!(s.width(), 10);
}

#[test]
fn raster_allocation_failure() {
    let r: Result<Surface<&str, u32>, Error> = Surface::new_raster(None, 10, 20);
    assert!(matches!(r, Err(Error::RasterSurfaceError)));
}

#[test]
fn resize_keeps_the_context() {
    let mut slot = ContextSlot::new();
    let mut s = Surface::from_gpu(Backend::Gl, 7u32, Some("fb-800"), 800, 600, &mut slot).unwrap();
    *s.target_mut() = "drawn";
    let ctx = s.begin_resize().unwrap();
    assert_eq!(ctx, 7);
    s.finish_resize(ctx, Some("fb-1024"), 1024, 768).unwrap();
    assert!(s.has_context());
    assert_eq!((s.width(), s.height()), (1024, 768));
    assert_eq!(*s.target_mut(), "fb-1024");
    assert_eq!(s.rgba_buffer_layout().unwrap(), (1024 * 4, 1024 * 768 * 4));
}

#[test]
fn failed_resize_keeps_size_and_context() {
    let mut slot = ContextSlot::new();
    let mut s = Surface::from_gpu(Backend::Metal, 3u32, Some("t"), 100, 50, &mut slot).unwrap();
    let ctx = s.begin_resize().unwrap();
    let r = s.finish_resize(ctx, None, 10, 10);
    assert!(matches!(r, Err(Error::MetalSurfaceError)));
    assert!(s.has_context());
    assert_eq!((s.width(), s.height()), (100, 50));
    assert_eq!(s.context_mut().copied(), Some(3));
}

#[test]
fn released_context_is_reused() {
    let mut slot = ContextSlot::new();
    let mut s = Surface::from_gpu(Backend::Gl, 42u32, Some("t"), 1, 1, &mut slot).unwrap();
    s.release_context(&mut slot);
    assert!(!s.has_context());
    assert_eq!(slot.take(), Some(42));
    assert_eq!(slot.take(), None);
}

#[test]
fn target_failure_returns_context_to_slot() {
    let mut slot = ContextSlot::new();
    let r: Result<Surface<&str, u32>, Error> = Surface::from_gpu(Backend::Gl, 5, None, 1, 1, &mut slot);
    assert!(matches!(r, Err(Error::SurfaceCreationError)));
    assert_eq!(slot.take(), Some(5));
}

#[test]
fn slot_holds_one_context() {
    let mut slot = ContextSlot::new();
    slot.put(1u32);
    slot.put(2u32);
    assert_eq!(slot.take(), Some(2));
    assert_eq!(slot.take(), None);
}

#[test]
fn context_creation_errors() {
    assert!(matches!(new_context(Backend::Gl, false, Some(1u32)), Err(Error::OpenGLInterfaceError)));
    assert!(matches!(new_context::<u32>(Backend::Gl, true, None), Err(Error::DirectContextError)));
    assert!(matches!(new_context::<u32>(Backend::Metal, true, None), Err(Error::MetalContextError)));
    assert_eq!(new_context(Backend::Gl, true, Some(9u32)).unwrap(), 9);
    assert_eq!(new_context(Backend::Metal, true, Some(4u32)).unwrap(), 4);
}

#[test]
fn target_errors_by_backend() {
    assert!(matches!(target_error(Backend::Gl), Error::SurfaceCreationError));
    assert!(matches!(target_error(Backend::Metal), Error::MetalSurfaceError));
    assert!(matches!(target_error(Backend::Raster), Error::RasterSurfaceError));
}

#[test]
fn vulkan_is_not_implemented() {
    let r: Result<Surface<&str, u32>, Error> = Surface::from_vulkan(0, 10, 10);
    assert!(matches!(r, Err(Error::VulkanNotImplemented)));
}

#[test]
fn readback_layout() {
    assert_eq!(rgba_layout(3, 2).unwrap(), (12, 24));
    assert_eq!(rgba_layout(0, 0).unwrap(), (0, 0));
    assert!(matches!(rgba_layout(-1, 5), Err(Error::ReadPixelsError)));
    assert!(matches!(rgba_layout(5, -1), Err(Error::ReadPixelsError)));
    let big = rgba_layout(i32::MAX, i32::MAX);
    assert_eq!(big.unwrap().1, (i32::MAX as usize) * 4 * (i32::MAX as usize));
}
