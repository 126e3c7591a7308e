//! A cache of textures by file name: each texture is loaded when it is first
//! asked for, and kept from then on.

use vstd::prelude::*;

verus! {

/// The names of the entries of a cache, as sequences of characters.
pub open spec fn entry_names<T>(entries: Seq<(String, T)>) -> Seq<Seq<char>> {
    Seq::new(entries.len(), |i: int| entries[i].0@)
}

/// This struct caches textures so that they don't have to be loaded from disk
/// every time that something requests one.
pub struct TextureManager<T> {
    loaded_textures: Vec<(String, T)>,
}

impl<T> TextureManager<T> {
    /// File names of the textures in the cache, in the order they were
    /// loaded in.
    pub closed spec fn names(&self) -> Seq<Seq<char>> {
        entry_names(self.loaded_textures@)
    }

    /// The textures in the cache, in the order they were loaded in.
    pub closed spec fn textures(&self) -> Seq<T> {
        Seq::new(self.loaded_textures@.len(), |i: int| self.loaded_textures@[i].1)
    }

    /// Every texture has a name, and no two textures share one.
    pub open spec fn wf(&self) -> bool {
        &&& self.names().len() == self.textures().len()
        &&& forall|i: int, j: int|
            0 <= i < j < self.names().len() ==> #[trigger] self.names()[i] != #[trigger] self.names()[j]
    }

    /// Whether the texture of the file `filename` is in the cache.
    pub open spec fn is_loaded(&self, filename: Seq<char>) -> bool {
        self.names().contains(filename)
    }

    /// The texture of the file `filename`, if it is in the cache.
    pub open spec fn loaded(&self, filename: Seq<char>) -> T {
        self.textures()[self.names().index_of(filename)]
    }

    /// A cache with nothing in it.
    pub fn new() -> (manager: Self)
        ensures
            manager.wf(),
            manager.names() == Seq::<Seq<char>>::empty(),
            manager.textures() == Seq::<T>::empty(),
    {
        let manager = Self { loaded_textures: Vec::new() };
        assert(manager.names() =~= Seq::<Seq<char>>::empty());
        assert(manager.textures() =~= Seq::<T>::empty());
        manager
    }

    /// Number of textures in the cache.
    pub fn len(&self) -> (len: usize)
        ensures
            len == self.names().len(),
    {
        self.loaded_textures.len()
    }

    /// Where the texture of the file `filename` stands in the cache.
    fn position(&self, filename: &String) -> (found: Option<usize>)
        requires
            self.wf(),
        ensures
            match found {
                Some(i) => i < self.names().len() && self.names()[i as int] == filename@
                    && self.is_loaded(filename@) && self.names().index_of(filename@) == i,
                None => !self.is_loaded(filename@),
            },
    {
        let mut i: usize = 0;
        while i < self.loaded_textures.len()
            invariant
                self.wf(),
                i <= self.loaded_textures.len(),
                self.loaded_textures.len() == self.names().len(),
                forall|j: int| 0 <= j < i ==> #[trigger] self.names()[j] != filename@,
            decreases self.loaded_textures.len() - i,
        {
            if self.loaded_textures[i].0 == *filename {
                proof {
                    assert(self.names()[i as int] == filename@);
                    let first = self.names().index_of(filename@);
                    assert(0 <= first < self.names().len() && self.names()[first] == filename@);
                    if first < i {
                        assert(self.names()[first] != self.names()[i as int]);
                    } else if i < first {
                        assert(self.names()[i as int] != self.names()[first]);
                    }
                }
                return Some(i);
            }
            assert(self.names()[i as int] != filename@);
            i += 1;
        }
        None
    }

    /// The texture of the file `filename`: the one in the cache if there is
    /// one, and else the one that `load` gives, which is then kept. The
    /// cache hands out a clone of the texture it keeps.
    pub fn get_texture<F: FnOnce() -> T>(&mut self, filename: &str, load: F) -> (texture: T) where
        T: Clone,

        requires
            old(self).wf(),
            call_requires(load, ()),
        ensures
            final(self).wf(),
            final(self).is_loaded(filename@),
            cloned(final(self).loaded(filename@), texture),
            old(self).is_loaded(filename@) ==> {
                &&& final(self).names() == old(self).names()
                &&& final(self).textures() == old(self).textures()
            },
            !old(self).is_loaded(filename@) ==> {
                &&& final(self).names() == old(self).names().push(filename@)
                &&& final(self).textures() == old(self).textures().push(
                    final(self).loaded(filename@),
                )
                &&& call_ensures(load, (), final(self).loaded(filename@))
            },
    {
        let filename_str = filename.to_owned();
        match self.position(&filename_str) {
            Some(i) => self.loaded_textures[i].1.clone(),
            None => {
                let res = load();
                let copy = res.clone();
                let ghost before_names = self.names();
                let ghost before_textures = self.textures();
                self.loaded_textures.push((filename_str, res));
                proof {
                    let last = before_names.len() as int;
                    assert(self.names() =~= before_names.push(filename@));
                    assert(self.textures() =~= before_textures.push(res));
                    assert(self.names()[last] == filename@);
                    assert forall|i: int, j: int| 0 <= i < j < self.names().len() implies #[trigger] self.names()[i]
                        != #[trigger] self.names()[j] by {
                        if j == last {
                            assert(before_names[i] == self.names()[i]);
                            assert(before_names.contains(before_names[i]));
                        } else {
                            assert(before_names[i] != before_names[j]);
                        }
                    }
                    let first = self.names().index_of(filename@);
                    assert(0 <= first < self.names().len() && self.names()[first] == filename@);
                    if first < last {
                        assert(self.names()[first] != self.names()[last]);
                    }
                }
                copy
            },
        }
    }
}

} // verus!
