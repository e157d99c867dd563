//! The image cache: decoded images kept by file path.
use vstd::prelude::*;
use vstd::string::StringExecFns;

use crate::cache::NameCache;
use crate::error::Error;

verus! {

/// A decoded image with its size in pixels.
pub struct LoadedImage<I> {
    pub image: I,
    pub width: i32,
    pub height: i32,
}

/// What reading and decoding an image file gave.
pub enum ImageFetch<I> {
    /// The file could not be read.
    ReadFailed(std::io::Error),
    /// The file was read but held no image that could be decoded.
    Undecodable,
    /// The file held this image.
    Decoded(LoadedImage<I>),
}

/// `b` is a copy of `a`: the same size, and an image cloned from `a`'s.
pub open spec fn is_copy_of<I: Clone>(b: LoadedImage<I>, a: LoadedImage<I>) -> bool {
    &&& b.width == a.width
    &&& b.height == a.height
    &&& cloned(a.image, b.image)
}

/// The image that a load of `path` takes from a cache holding `m`: there is
/// one exactly when the load asks for the cache and the path is in it.
pub open spec fn load_hit<I>(m: Map<Seq<char>, LoadedImage<I>>, path: Seq<char>, use_cache: bool) -> Option<
    LoadedImage<I>,
> {
    if use_cache && m.contains_key(path) {
        Some(m[path])
    } else {
        None
    }
}

/// The cache `after` a load of `path` that missed `before` and decoded
/// `img`: with the cache asked for, a copy of `img` is kept under the path;
/// without, the cache is as it was.
pub open spec fn kept_after_load<I: Clone>(
    before: Map<Seq<char>, LoadedImage<I>>,
    after: Map<Seq<char>, LoadedImage<I>>,
    path: Seq<char>,
    use_cache: bool,
    img: LoadedImage<I>,
) -> bool {
    if use_cache {
        &&& after.contains_key(path)
        &&& after == before.insert(path, after[path])
        &&& is_copy_of(after[path], img)
    } else {
        after == before
    }
}

/// A load of `path` that succeeded with `img`, taking the cache from
/// `before` to `after`: either served from the cache, which does not change,
/// or decoded from the file after a miss.
pub open spec fn loaded<I: Clone>(
    before: Map<Seq<char>, LoadedImage<I>>,
    after: Map<Seq<char>, LoadedImage<I>>,
    path: Seq<char>,
    use_cache: bool,
    img: LoadedImage<I>,
) -> bool {
    match load_hit(before, path, use_cache) {
        Some(h) => is_copy_of(img, h) && after == before,
        None => kept_after_load(before, after, path, use_cache, img),
    }
}

/// The size that measuring gives for the outcome of a load.
pub open spec fn size_of_load<I>(r: Result<LoadedImage<I>, Error>) -> Result<(i32, i32), Error> {
    match r {
        Ok(img) => Ok((img.width, img.height)),
        Err(e) => Err(e),
    }
}

impl<I: Clone> LoadedImage<I> {
    /// A copy that shares the decoded image (the handle is cloned).
    pub fn duplicate(&self) -> (r: LoadedImage<I>)
        ensures
            is_copy_of(r, *self),
    {
        LoadedImage { image: self.image.clone(), width: self.width, height: self.height }
    }
}

/// Decoded images by file path. Filled on loads that ask for the cache,
/// emptied only by `clear`; it has no bound and evicts nothing.
pub struct ImageCache<I> {
    images: NameCache<LoadedImage<I>>,
}

impl<I> View for ImageCache<I> {
    type V = Map<Seq<char>, LoadedImage<I>>;

    closed spec fn view(&self) -> Map<Seq<char>, LoadedImage<I>> {
        self.images@
    }
}

impl<I: Clone> ImageCache<I> {
    pub closed spec fn wf(&self) -> bool {
        self.images.wf()
    }

    /// An empty cache.
    pub fn new() -> (c: Self)
        ensures
            c.wf(),
            c@ == Map::<Seq<char>, LoadedImage<I>>::empty(),
    {
        ImageCache { images: NameCache::new() }
    }

    /// The image that a load of `path` takes from the cache: there is one
    /// exactly when the load asks for the cache and the path is in it. When
    /// there is none, the file has to be read.
    pub fn cached(&self, path: &str, use_cache: bool) -> (r: Option<&LoadedImage<I>>)
        requires
            self.wf(),
        ensures
            match r {
                Some(img) => load_hit(self@, path@, use_cache) == Some(*img),
                None => load_hit(self@, path@, use_cache) is None,
            },
    {
        if use_cache {
            self.images.get(path)
        } else {
            None
        }
    }

    /// Ends a load of `path` that missed the cache, given what reading and
    /// decoding the file gave. A read failure and an undecodable file are
    /// errors that name the path and leave the cache as it was; a decoded
    /// image is returned and, when the load asks for the cache, a copy of it
    /// is kept under the path, replacing any image kept there.
    pub fn finish_load(&mut self, path: &str, use_cache: bool, fetched: ImageFetch<I>) -> (r:
        Result<LoadedImage<I>, Error>)
        requires
            old(self).wf(),
        ensures
            final(self).wf(),
            match fetched {
                ImageFetch::ReadFailed(e) => r matches Err(Error::ImageReadError { path: p, source })
                    && p@ == path@ && source == e && final(self)@ == old(self)@,
                ImageFetch::Undecodable => r matches Err(Error::ImageDecodeError(p)) && p@ == path@
                    && final(self)@ == old(self)@,
                ImageFetch::Decoded(img) => r == Ok::<LoadedImage<I>, Error>(img) && kept_after_load(
                    old(self)@,
                    final(self)@,
                    path@,
                    use_cache,
                    img,
                ),
            },
    {
        match fetched {
            ImageFetch::ReadFailed(e) => Err(
                Error::ImageReadError { path: String::from_str(path), source: e },
            ),
            ImageFetch::Undecodable => Err(Error::ImageDecodeError(String::from_str(path))),
            ImageFetch::Decoded(img) => {
                if use_cache {
                    let kept = img.duplicate();
                    self.images.insert(path, kept);
                }
                Ok(img)
            },
        }
    }

    /// Empties the cache; images already handed out stay valid.
    pub fn clear(&mut self)
        ensures
            final(self).wf(),
            final(self)@ == Map::<Seq<char>, LoadedImage<I>>::empty(),
    {
        self.images.clear();
    }
}

/// The size of a loaded image, or the error that its load gave.
pub fn measure_image<I>(loaded: Result<LoadedImage<I>, Error>) -> (r: Result<(i32, i32), Error>)
    ensures
        r == size_of_load(loaded),
{
    match loaded {
        Ok(img) => Ok((img.width, img.height)),
        Err(e) => Err(e),
    }
}

/// Empties the image cache.
pub fn clear_image_cache<I: Clone>(cache: &mut ImageCache<I>)
    ensures
        final(cache).wf(),
        final(cache)@ == Map::<Seq<char>, LoadedImage<I>>::empty(),
{
    cache.clear();
}

/// Two loads of one path that ask for the cache give images of one size:
/// once the first has succeeded, the second is served from the cache, with
/// the size that the first gave, and the file is not read again.
pub proof fn lemma_repeat_load_same_size<I: Clone>(
    before: Map<Seq<char>, LoadedImage<I>>,
    after: Map<Seq<char>, LoadedImage<I>>,
    path: Seq<char>,
    first: LoadedImage<I>,
)
    requires
        loaded(before, after, path, true, first),
    ensures
        load_hit(after, path, true) matches Some(h) && h.width == first.width && h.height
            == first.height,
{
}

/// After the cache is cleared, no load is served from it: the next load of
/// any path reads the file again.
pub proof fn lemma_clear_forces_read<I>(path: Seq<char>, use_cache: bool)
    ensures
        load_hit(Map::<Seq<char>, LoadedImage<I>>::empty(), path, use_cache) is None,
{
}

/// Measuring an image gives the size that loading it decodes, whether the
/// load is served from the cache or reads the file; a failed load fails the
/// measure with the same error.
pub proof fn lemma_measure_matches_load<I: Clone>(
    before: Map<Seq<char>, LoadedImage<I>>,
    after: Map<Seq<char>, LoadedImage<I>>,
    path: Seq<char>,
    use_cache: bool,
    img: LoadedImage<I>,
)
    requires
        loaded(before, after, path, use_cache, img),
    ensures
        size_of_load(Ok::<LoadedImage<I>, Error>(img)) == Ok::<(i32, i32), Error>((img.width, img.height)),
        load_hit(before, path, use_cache) matches Some(h) ==> size_of_load(
            Ok::<LoadedImage<I>, Error>(img),
        ) == Ok::<(i32, i32), Error>((h.width, h.height)),
        forall|e: Error| size_of_load(Err::<LoadedImage<I>, Error>(e)) == Err::<(i32, i32), Error>(e),
{
}

} // verus!
