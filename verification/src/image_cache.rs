//! The image cache: handle to uploaded image. A handle that failed to load is not tried again,
//! until a source delivers its decoded bytes.

use vstd::prelude::*;

use crate::names::NameMap;
use crate::text;

verus! {

/// What has been uploaded, by handle, and which handles failed to load.
pub struct ImageCache<G> {
    map: NameMap<G>,
    failed: Vec<String>,
}

/// The view of an [`ImageCache`].
pub struct ImageCacheView<G> {
    pub uploaded: Map<Seq<char>, G>,
    pub failed: Set<Seq<char>>,
}

impl<G> View for ImageCache<G> {
    type V = ImageCacheView<G>;

    closed spec fn view(&self) -> ImageCacheView<G> {
        ImageCacheView { uploaded: self.map@, failed: text::texts(self.failed@).to_set() }
    }
}

/// What to do for a handle.
#[derive(Clone, Copy, Debug, PartialEq, Eq, Structural)]
pub enum Lookup {
    /// It is uploaded.
    Ready,
    /// It failed before: skip it.
    Failed,
    /// Load it, and hand the outcome to [`ImageCache::store`].
    Load,
}

/// What to do for a handle. What is uploaded counts first: a handle may have failed before its
/// bytes were delivered.
pub open spec fn lookup_spec<G>(c: ImageCacheView<G>, handle: Seq<char>) -> Lookup {
    if c.uploaded.contains_key(handle) {
        Lookup::Ready
    } else if c.failed.contains(handle) {
        Lookup::Failed
    } else {
        Lookup::Load
    }
}

/// The cache once loading a handle came out so.
pub open spec fn stored<G>(c: ImageCacheView<G>, handle: Seq<char>, image: Option<G>) -> ImageCacheView<
    G,
> {
    match image {
        Some(g) => ImageCacheView { uploaded: c.uploaded.insert(handle, g), ..c },
        None => ImageCacheView { failed: c.failed.insert(handle), ..c },
    }
}

/// The cache once decoded bytes were delivered and uploaded.
pub open spec fn delivered<G>(c: ImageCacheView<G>, key: Seq<char>, image: G) -> ImageCacheView<G> {
    ImageCacheView { uploaded: c.uploaded.insert(key, image), failed: c.failed.remove(key) }
}

impl<G> ImageCache<G> {
    /// An empty cache.
    pub fn new() -> (r: Self)
        ensures
            r@ == (ImageCacheView::<G> { uploaded: Map::empty(), failed: Set::empty() }),
    {
        let r = ImageCache { map: NameMap::new(), failed: Vec::new() };
        assert(r@.failed =~= Set::empty());
        r
    }

    /// Decides what to do for a handle.
    pub fn lookup(&self, handle: &str) -> (r: Lookup)
        ensures
            r == lookup_spec(self@, handle@),
    {
        if self.map.contains_key(handle) {
            Lookup::Ready
        } else if text::contains_text(&self.failed, handle) {
            Lookup::Failed
        } else {
            Lookup::Load
        }
    }

    /// Keeps the outcome of loading a handle.
    pub fn store(&mut self, handle: &str, image: Option<G>)
        ensures
            final(self)@ == stored(old(self)@, handle@, image),
    {
        match image {
            Some(g) => {
                self.map.insert(handle.to_string(), g);
            },
            None => {
                let ghost before = text::texts(self.failed@);
                self.failed.push(handle.to_string());
                proof {
                    let after = text::texts(self.failed@);
                    assert(after =~= before.push(handle@));
                    assert forall|x: Seq<char>| #[trigger] after.to_set().contains(x)
                        <==> before.to_set().insert(handle@).contains(x) by {
                        if before.contains(x) {
                            let i = choose|i: int| 0 <= i < before.len() && before[i] == x;
                            assert(after[i] == x);
                        }
                        if x == handle@ {
                            assert(after[before.len() as int] == x);
                        }
                    }
                    assert(after.to_set() =~= before.to_set().insert(handle@));
                }
            },
        }
    }

    /// Keeps an image whose bytes a source decoded. A handle that failed before is good again.
    pub fn insert_decoded(&mut self, key: &str, image: G)
        ensures
            final(self)@ == delivered(old(self)@, key@, image),
    {
        self.forget_failure(key);
        self.map.insert(key.to_string(), image);
    }

    fn forget_failure(&mut self, key: &str)
        ensures
            final(self)@ == (ImageCacheView { failed: old(self)@.failed.remove(key@), ..old(self)@ }),
    {
        let ghost all = text::texts(self.failed@);
        let mut kept: Vec<String> = Vec::new();
        let mut i: usize = 0;
        while i < self.failed.len()
            invariant
                i <= self.failed@.len(),
                all == text::texts(self.failed@),
                self.map@ == old(self).map@,
                forall|x: Seq<char>| #[trigger]
                    text::texts(kept@).contains(x) <==> x != key@ && exists|j: int|
                        0 <= j < i && #[trigger] all[j] == x,
            decreases self.failed@.len() - i,
        {
            let ghost before = text::texts(kept@);
            let ghost here = all[i as int];
            if !text::same(self.failed[i].as_str(), key) {
                kept.push(self.failed[i].clone());
                assert(text::texts(kept@) =~= before.push(here));
            }
            proof {
                let after = text::texts(kept@);
                assert forall|x: Seq<char>| #[trigger] after.contains(x) <==> x != key@ && exists|
                    j: int,
                |
                    0 <= j < i + 1 && #[trigger] all[j] == x by {
                    if after.contains(x) {
                        let k = choose|k: int| 0 <= k < after.len() && after[k] == x;
                        if k < before.len() {
                            assert(before[k] == x);
                            assert(before.contains(x));
                            let j = choose|j: int| 0 <= j < i && #[trigger] all[j] == x;
                            assert(all[j] == x);
                        } else {
                            assert(all[i as int] == x);
                        }
                    }
                    if x != key@ && exists|j: int| 0 <= j < i + 1 && #[trigger] all[j] == x {
                        let j = choose|j: int| 0 <= j < i + 1 && #[trigger] all[j] == x;
                        if j < i {
                            assert(before.contains(x));
                            let k = choose|k: int| 0 <= k < before.len() && before[k] == x;
                            assert(after[k] == x);
                        } else {
                            assert(after[before.len() as int] == x);
                        }
                    }
                }
            }
            i = i + 1;
        }
        self.failed = kept;
        proof {
            let after = text::texts(self.failed@);
            assert forall|x: Seq<char>| #[trigger] after.to_set().contains(x)
                <==> all.to_set().remove(key@).contains(x) by {
                if all.contains(x) {
                    let j = choose|j: int| 0 <= j < all.len() && all[j] == x;
                    assert(all[j] == x);
                }
                assert(after.to_set().contains(x) == after.contains(x));
            }
            assert(after.to_set() =~= all.to_set().remove(key@));
        }
    }

    /// An image that is uploaded.
    pub fn peek(&self, handle: &str) -> (r: Option<&G>)
        ensures
            match r {
                Some(g) => self@.uploaded.contains_key(handle@) && self@.uploaded[handle@] == *g,
                None => !self@.uploaded.contains_key(handle@),
            },
    {
        self.map.get(handle)
    }
}

/// The path that a handle names: a `file://` address as well as a bare path.
pub fn image_path(handle: &str) -> (r: &str)
    ensures
        r@ == (if "file://"@.is_prefix_of(handle@) {
            handle@.skip("file://"@.len() as int)
        } else {
            handle@
        }),
{
    match text::strip_prefix(handle, "file://") {
        Some(p) => p,
        None => handle,
    }
}

/// A delivery heals: a handle is ready once its decoded bytes were delivered, even if it failed to
/// load before, and stays ready whatever loading it comes to later.
pub proof fn deliveries_heal<G>(
    c: ImageCacheView<G>,
    key: Seq<char>,
    image: G,
    other: Seq<char>,
    outcome: Option<G>,
)
    ensures
        lookup_spec(delivered(c, key, image), key) == Lookup::Ready,
        lookup_spec(stored(delivered(c, key, image), other, outcome), key) == Lookup::Ready,
{
}

/// A failure is remembered: a handle that failed to load is skipped, not loaded again.
pub proof fn failures_are_remembered<G>(c: ImageCacheView<G>, handle: Seq<char>)
    requires
        lookup_spec(c, handle) == Lookup::Load,
    ensures
        lookup_spec(stored(c, handle, None), handle) == Lookup::Failed,
{
}

/// A handle is ready exactly when it is uploaded, and else is skipped exactly when it has failed.
pub proof fn lookups_say_what_is_there<G>(c: ImageCacheView<G>, handle: Seq<char>)
    ensures
        lookup_spec(c, handle) == Lookup::Ready <==> c.uploaded.contains_key(handle),
        lookup_spec(c, handle) == Lookup::Failed <==> !c.uploaded.contains_key(handle)
            && c.failed.contains(handle),
{
}

/// What was loaded or delivered under a handle is what is kept under it, and no other handle is
/// touched.
pub proof fn images_are_kept_under_their_handle<G>(
    c: ImageCacheView<G>,
    handle: Seq<char>,
    image: G,
    other: Seq<char>,
)
    ensures
        ({
            let loaded = stored(c, handle, Some(image));
            let given = delivered(c, handle, image);
            let failed = stored(c, handle, None);
            &&& loaded.uploaded.contains_key(handle) && loaded.uploaded[handle] == image
            &&& given.uploaded.contains_key(handle) && given.uploaded[handle] == image
            &&& loaded.failed == c.failed
            &&& !given.failed.contains(handle)
            &&& failed.failed.contains(handle)
            &&& failed.uploaded == c.uploaded
            &&& other != handle ==> {
                &&& loaded.uploaded.contains_key(other) == c.uploaded.contains_key(other)
                &&& loaded.uploaded.contains_key(other) ==> loaded.uploaded[other]
                    == c.uploaded[other]
                &&& given.uploaded.contains_key(other) == c.uploaded.contains_key(other)
                &&& given.uploaded.contains_key(other) ==> given.uploaded[other]
                    == c.uploaded[other]
                &&& given.failed.contains(other) == c.failed.contains(other)
                &&& failed.failed.contains(other) == c.failed.contains(other)
            }
        }),
{
}

/// A cache starts empty, hands out what is uploaded under a handle and nothing else, and finds the
/// path in a `file://` address as well as in a bare path.
pub proof fn caches_hand_out_what_is_uploaded<G>(
    fresh: ImageCache<G>,
    c: ImageCache<G>,
    handle: &str,
    found: Option<&G>,
    path: &str,
    rest: Seq<char>,
)
    requires
        call_ensures(ImageCache::<G>::new, (), fresh),
        call_ensures(ImageCache::<G>::peek, (&c, handle), found),
        call_ensures(image_path, (handle,), path),
    ensures
        lookup_spec(fresh@, handle@) == Lookup::Load,
        found is Some <==> c@.uploaded.contains_key(handle@),
        found is Some ==> *found->0 == c@.uploaded[handle@],
        handle@ == "file://"@ + rest ==> path@ == rest,
        !"file://"@.is_prefix_of(handle@) ==> path@ == handle@,
{
    if handle@ == "file://"@ + rest {
        assert("file://"@ =~= handle@.subrange(0, "file://"@.len() as int));
        assert(handle@.skip("file://"@.len() as int) =~= rest);
    }
}

} // verus!
