use castella_skia_core::{clear_image_cache, measure_image, Error, ImageCache, ImageFetch, LoadedImage};

fn decoded(tag: &str, width: i32, height: i32) -> ImageFetch<String> {
    ImageFetch::Decoded(LoadedImage { image: tag.to_string(), width, height })
}

fn load(cache: &mut ImageCache<String>, path: &str, use_cache: bool, fetch: impl FnOnce() -> ImageFetch<String>) -> Result<LoadedImage<String>, Error> {
    if let Some(hit) = cache.cached(path, use_cache) {
        return Ok(hit.duplicate());
    }
    cache.finish_load(path, use_cache, fetch())
}

#[test]
fn cached_load_is_served_without_reading() {
    let mut cache = ImageCache::new();
    let first = load(&mut cache, "a.png", true, || decoded("a", 4, 3)).unwrap();
    assert_eq!((first.width, first.height), (4, 3));
    let second = load(&mut cache, "a.png", true, || panic!("file read twice")).unwrap();
    assert_eq!((second.width, second.height), (first.width, first.height));
    assert_eq!(second.image, "a");
}

#[test]
fn clear_makes_the_next_load_read_again() {
    let mut cache = ImageCache::new();
    load(&mut cache, "a.png", true, || decoded("old", 4, 3)).unwrap();
    clear_image_cache(&mut cache);
    assert!(cache.cached("a.png", true).is_none());
    let reread = load(&mut cache, "a.png", true, || decoded("new", 8, 6)).unwrap();
    assert_eq!((reread.width, reread.height), (8, 6));
    assert_eq!(reread.image, "new");
}

#[test]
fn loads_without_cache_neither_read_nor_fill_it() {
    let mut cache = ImageCache::new();
    load(&mut cache, "a.png", true, || decoded("cached", 1, 1)).unwrap();
    assert!(cache.cached("a.png", false).is_none());
    let fresh = load(&mut cache, "b.png", false, || decoded("b", 2, 2)).unwrap();
    assert_eq!(fresh.image, "b");
    assert!(cache.cached("b.png", true).is_none());
}

#[test]
fn read_failure_names_the_path() {
    let mut cache: ImageCache<String> = ImageCache::new();
    let err = cache
        .finish_load("missing.png", true, ImageFetch::ReadFailed(std::io::Error::new(std::io::ErrorKind::NotFound, "gone")))
        .err()
        .unwrap();
    match err {
        Error::ImageReadError { path, source } => {
            assert_eq!(path, "missing.png");
            assert_eq!(source.kind(), std::io::ErrorKind::NotFound);
        }
        other => panic!("unexpected error {:?}", other),
    }
    assert!(cache.cached("missing.png", true).is_none());
}

#[test]
fn undecodable_file_names_the_path() {
    let mut cache: ImageCache<String> = ImageCache::new();
    let err = cache.finish_load("bad.png", true, ImageFetch::Undecodable).err().unwrap();
    assert!(matches!(err, Error::ImageDecodeError(ref p) if p == "bad.png"));
    assert!(cache.cached("bad.png", true).is_none());
}

#[test]
fn measure_gives_the_decoded_size() {
    let mut cache = ImageCache::new();
    let size = measure_image(load(&mut cache, "a.png", true, || decoded("a", 640, 480)));
    assert_eq!(size.unwrap(), (640, 480));
    let drawn = load(&mut cache, "a.png", true, || panic!("file read twice")).unwrap();
    assert_eq!((drawn.width, drawn.height), (640, 480));
    let again = measure_image(load(&mut cache, "a.png", true, || panic!("file read twice")));
    assert_eq!(again.unwrap(), (640, 480));
}

#[test]
fn measure_passes_on_the_load_error() {
    let r = measure_image::<String>(Err(Error::ImageDecodeError("x.png".to_string())));
    assert!(matches!(r, Err(Error::ImageDecodeError(ref p)) if p == "x.png"));
}

#[test]
fn a_later_load_replaces_the_cached_image() {
    let mut cache = ImageCache::new();
    cache.finish_load("a.png", true, decoded("one", 1, 1)).unwrap();
    cache.finish_load("a.png", true, decoded("two", 2, 2)).unwrap();
    let hit = cache.cached("a.png", true).unwrap();
    assert_eq!((hit.image.as_str(), hit.width), ("two", 2));
}
