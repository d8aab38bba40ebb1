//! A catalogue of loaded textures, kept in the order in which they were
//! loaded and shared by everything that draws them.
//!
//! Loading is the caller's business: it asks whether a path is loaded, loads
//! the image where it is not, and stores the outcome. A path is stored once;
//! a second outcome for the same path is handed back and the first stays.

use vstd::prelude::*;

verus! {

/// One loaded texture with the path it was loaded from.
#[derive(Debug)]
pub struct Loaded<T> {
    path: String,
    item: T,
}

/// Loaded textures by path, in load order. `T` is whatever stands for a
/// loaded texture.
#[derive(Debug)]
pub struct TextureManager<T> {
    entries: Vec<Loaded<T>>,
}

/// The paths and textures of a row of entries.
pub open spec fn contents<T>(entries: Seq<Loaded<T>>) -> Seq<(Seq<char>, T)> {
    Seq::new(entries.len(), |i: int| (entries[i].path_view(), entries[i].item_view()))
}

/// Whether some entry has the path.
pub open spec fn has_path<T>(entries: Seq<(Seq<char>, T)>, path: Seq<char>) -> bool {
    exists|i: int| 0 <= i < entries.len() && (#[trigger] entries[i]).0 == path
}

/// Whether `index` is the first entry with the path.
pub open spec fn first_with<T>(entries: Seq<(Seq<char>, T)>, path: Seq<char>, index: int) -> bool {
    &&& 0 <= index < entries.len()
    &&& entries[index].0 == path
    &&& forall|j: int| 0 <= j < index ==> (#[trigger] entries[j]).0 != path
}

/// Whether no path occurs twice.
pub open spec fn distinct_paths<T>(entries: Seq<(Seq<char>, T)>) -> bool {
    forall|i: int, j: int|
        0 <= i < j < entries.len() ==> (#[trigger] entries[i]).0 != (#[trigger] entries[j]).0
}

impl<T> Loaded<T> {
    /// The path that the texture was loaded from.
    pub closed spec fn path_view(&self) -> Seq<char> {
        self.path@
    }

    /// The texture.
    pub closed spec fn item_view(&self) -> T {
        self.item
    }
}

impl<T> View for TextureManager<T> {
    type V = Seq<(Seq<char>, T)>;

    closed spec fn view(&self) -> Seq<(Seq<char>, T)> {
        contents(self.entries@)
    }
}

impl<T> TextureManager<T> {
    /// An empty catalogue.
    pub fn new() -> (manager: Self)
        ensures
            manager@ == Seq::<(Seq<char>, T)>::empty(),
            distinct_paths(manager@),
    {
        let manager = TextureManager { entries: Vec::new() };
        assert(manager@ =~= Seq::<(Seq<char>, T)>::empty());
        manager
    }

    /// The place in load order of the texture loaded from `path`.
    pub fn find(&self, path: &str) -> (place: Option<usize>)
        ensures
            place is Some == has_path(self@, path@),
            place matches Some(index) ==> first_with(self@, path@, index as int),
    {
        let key: String = path.to_owned();
        let mut index: usize = 0;
        while index < self.entries.len()
            invariant
                index <= self.entries@.len(),
                key@ == path@,
                forall|j: int| 0 <= j < index ==> (#[trigger] self@[j]).0 != path@,
            decreases self.entries@.len() - index,
        {
            if self.entries[index].path == key {
                assert(self@[index as int].0 == path@);
                return Some(index);
            }
            index = index + 1;
        }
        None
    }

    /// Whether a texture was loaded from `path`.
    pub fn is_loaded(&self, path: &str) -> (loaded: bool)
        ensures
            loaded == has_path(self@, path@),
    {
        self.find(path).is_some()
    }

    /// Stores the texture loaded from `path` at the end of the load order,
    /// unless the path is stored already: then nothing changes and the
    /// texture is handed back.
    pub fn store(&mut self, path: &str, item: T) -> (refused: Option<T>)
        ensures
            has_path(old(self)@, path@) ==> final(self)@ == old(self)@ && refused == Some(item),
            !has_path(old(self)@, path@) ==> final(self)@ == old(self)@.push((path@, item)) && refused is None,
            distinct_paths(old(self)@) ==> distinct_paths(final(self)@),
    {
        if self.is_loaded(path) {
            return Some(item);
        }
        let ghost before = self@;
        self.entries.push(Loaded { path: path.to_owned(), item });
        assert(self@ =~= before.push((path@, item)));
        None
    }

    /// The texture loaded from `path`.
    pub fn get_preload(&self, path: &str) -> (found: Option<&T>)
        ensures
            found is Some == has_path(self@, path@),
            found matches Some(item) ==> exists|index: int|
                first_with(self@, path@, index) && *item == (#[trigger] self@[index]).1,
    {
        match self.find(path) {
            Some(index) => Some(&self.entries[index].item),
            None => None,
        }
    }

    /// The texture at place `index` of the load order.
    pub fn get_preload_by_index(&self, index: usize) -> (found: Option<&T>)
        ensures
            found is Some == (index < self@.len()),
            found matches Some(item) ==> *item == self@[index as int].1,
    {
        if index < self.entries.len() {
            Some(&self.entries[index].item)
        } else {
            None
        }
    }

    /// The path at place `index` of the load order.
    pub fn path_at(&self, index: usize) -> (found: Option<&String>)
        ensures
            found is Some == (index < self@.len()),
            found matches Some(path) ==> path@ == self@[index as int].0,
    {
        if index < self.entries.len() {
            Some(&self.entries[index].path)
        } else {
            None
        }
    }

    /// The number of loaded textures.
    pub fn texture_count(&self) -> (count: usize)
        ensures
            count == self@.len(),
    {
        self.entries.len()
    }

    /// The paths of all loaded textures, in load order.
    pub fn get_texture_paths(&self) -> (paths: Vec<String>)
        ensures
            paths@.len() == self@.len(),
            forall|i: int| 0 <= i < paths@.len() ==> (#[trigger] paths@[i])@ == self@[i].0,
    {
        let mut paths: Vec<String> = Vec::with_capacity(self.entries.len());
        let mut index: usize = 0;
        while index < self.entries.len()
            invariant
                index <= self.entries@.len(),
                paths@.len() == index,
                forall|i: int| 0 <= i < index ==> (#[trigger] paths@[i])@ == self@[i].0,
            decreases self.entries@.len() - index,
        {
            paths.push(self.entries[index].path.clone());
            index = index + 1;
        }
        paths
    }
}

/// Where no path occurs twice, the texture found by the path at a place of
/// the load order is the texture at that place.
pub proof fn lemma_path_leads_to_its_place<T>(entries: Seq<(Seq<char>, T)>, index: int)
    requires
        distinct_paths(entries),
        0 <= index < entries.len(),
    ensures
        first_with(entries, entries[index].0, index),
        forall|other: int| first_with(entries, entries[index].0, other) ==> other == index,
{
}

} // verus!
