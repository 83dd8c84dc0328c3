//! The array cache: decoded rasters by the path of their file. A path is
//! read once; what was stored for it stays until it is overwritten.

use crate::payload::Raster;
use crate::text::find_text;
use crate::text::first_at;
use crate::text::is_first_at;
use crate::text::occurs;
use crate::text::texts;
use vstd::prelude::*;
use vstd::string::*;

verus! {

/// The rasters that were stored, each under the path of its file.
pub struct ArrayCache {
    paths: Vec<String>,
    arrays: Vec<Raster>,
}

impl ArrayCache {
    /// There is one raster for each path.
    pub closed spec fn wf(&self) -> bool {
        self.arrays@.len() == self.paths@.len()
    }

    /// The cache as a map from paths to rasters.
    pub closed spec fn view(&self) -> Map<Seq<char>, Raster> {
        Map::new(
            |path: Seq<char>| occurs(texts(self.paths@), path),
            |path: Seq<char>| self.arrays@[first_at(texts(self.paths@), path)],
        )
    }

    /// A cache that holds nothing.
    pub fn new() -> (cache: ArrayCache)
        ensures
            cache.wf(),
            cache@ == Map::<Seq<char>, Raster>::empty(),
    {
        let cache = ArrayCache { paths: Vec::new(), arrays: Vec::new() };
        assert(cache@ =~= Map::<Seq<char>, Raster>::empty());
        cache
    }

    /// Whether a raster is stored for the path.
    pub fn contains_key(&self, path: &str) -> (held: bool)
        requires
            self.wf(),
        ensures
            held == self@.dom().contains(path@),
    {
        find_text(&self.paths, path).is_some()
    }

    /// The raster stored for the path, if there is one.
    pub fn get(&self, path: &str) -> (found: Option<&Raster>)
        requires
            self.wf(),
        ensures
            match found {
                Some(raster) => self@.dom().contains(path@) && self@[path@] == *raster,
                None => !self@.dom().contains(path@),
            },
    {
        match find_text(&self.paths, path) {
            Some(i) => Some(&self.arrays[i]),
            None => None,
        }
    }

    /// Stores a raster for the path, in place of the one stored before.
    pub fn insert(&mut self, path: &str, raster: Raster)
        requires
            old(self).wf(),
        ensures
            final(self).wf(),
            final(self)@ == old(self)@.insert(path@, raster),
    {
        let ghost before = *self;
        let ghost keys = texts(self.paths@);
        match find_text(&self.paths, path) {
            Some(i) => {
                self.arrays.remove(i);
                self.arrays.insert(i, raster);
                proof {
                    assert forall|k: Seq<char>| occurs(keys, k) implies #[trigger] self@[k]
                        == before@.insert(path@, raster)[k] by {
                        let j = first_at(keys, k);
                        assert(is_first_at(keys, k, j));
                    }
                    assert(self@ =~= before@.insert(path@, raster));
                }
            },
            None => {
                self.paths.push(String::from_str(path));
                self.arrays.push(raster);
                proof {
                    let n = keys.len() as int;
                    let grown = texts(self.paths@);
                    assert(grown =~= keys.push(path@));
                    assert(is_first_at(grown, path@, n));
                    assert forall|k: Seq<char>| occurs(keys, k) implies occurs(grown, k)
                        && first_at(grown, k) == first_at(keys, k) by {
                        let j = first_at(keys, k);
                        assert(is_first_at(keys, k, j));
                        assert(is_first_at(grown, k, j));
                        let g = first_at(grown, k);
                        assert(is_first_at(grown, k, g));
                    }
                    assert forall|k: Seq<char>| occurs(grown, k) && k != path@ implies occurs(
                        keys,
                        k,
                    ) by {
                        let g = first_at(grown, k);
                        assert(is_first_at(grown, k, g));
                        assert(g < n);
                        assert(keys[g] == grown[g]);
                        assert forall|j: int| 0 <= j < g implies #[trigger] keys[j] != k by {
                            assert(grown[j] != k);
                        }
                        assert(is_first_at(keys, k, g));
                    }
                    assert(first_at(grown, path@) == n) by {
                        let g = first_at(grown, path@);
                        assert(is_first_at(grown, path@, g));
                    }
                    assert(self@ =~= before@.insert(path@, raster));
                }
            },
        }
    }

    /// Stores a raster for a path that has none yet. For a path that has one
    /// the cache stays as it is: what was read first is kept.
    pub fn insert_if_absent(&mut self, path: &str, raster: Raster)
        requires
            old(self).wf(),
        ensures
            final(self).wf(),
            final(self)@ == if old(self)@.dom().contains(path@) {
                old(self)@
            } else {
                old(self)@.insert(path@, raster)
            },
    {
        if !self.contains_key(path) {
            self.insert(path, raster);
        }
    }
}

/// Reading a path back gives what was stored for it last, and storing under
/// one path leaves the other paths as they were.
pub proof fn lemma_insert_then_get(
    cache: Map<Seq<char>, Raster>,
    path: Seq<char>,
    raster: Raster,
    other: Seq<char>,
)
    requires
        other != path,
    ensures
        cache.insert(path, raster)[path] == raster,
        cache.insert(path, raster).dom().contains(other) == cache.dom().contains(other),
        cache.dom().contains(other) ==> cache.insert(path, raster)[other] == cache[other],
{
}

} // verus!
