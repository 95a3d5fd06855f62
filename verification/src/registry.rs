use crate::codec::{decode, decoded, font_ok, font_parses};
use crate::raster::{Image, ImgView};
use vstd::prelude::*;

verus! {

/// What the registry did with one load request.
#[derive(Clone, Copy, PartialEq, Eq, Structural, Debug)]
pub enum LoadStatus {
    /// The path was new: its bytes were decoded, and the image stored.
    Loaded,
    /// The path was already present: no decode took place.
    Shared,
    /// The path was new, but its bytes do not decode as an image.
    Failed,
}

/// The image registry: a mapping from each distinct path to its decoded
/// image, filled once per distinct path before pipeline execution and
/// read-only afterwards.
pub struct Registry {
    names: Vec<String>,
    images: Vec<Image>,
}

impl Registry {
    /// The registered paths, in insertion order.
    pub closed spec fn paths(self) -> Seq<Seq<char>> {
        self.names@.map_values(|s: String| s@)
    }

    /// The stored images, in insertion order.
    pub closed spec fn views(self) -> Seq<ImgView> {
        self.images@.map_values(|i: Image| i@)
    }

    pub open spec fn contains_path(self, name: Seq<char>) -> bool {
        self.paths().contains(name)
    }

    /// The image stored for a registered path.
    pub open spec fn img_at(self, name: Seq<char>) -> ImgView {
        self.views()[self.paths().index_of(name)]
    }

    /// Paths and images pair off, paths are distinct, and every stored
    /// image is well-formed.
    pub closed spec fn wf(self) -> bool {
        &&& self.names@.len() == self.images@.len()
        &&& forall|i: int, j: int|
            0 <= i < j < self.paths().len() ==> self.paths()[i] != self.paths()[j]
        &&& forall|i: int| 0 <= i < self.views().len() ==> (#[trigger] self.views()[i]).wf()
    }

    pub fn new() -> (r: Registry)
        ensures
            r.wf(),
            r.paths() == Seq::<Seq<char>>::empty(),
    {
        let r = Registry { names: Vec::new(), images: Vec::new() };
        proof {
            assert(r.paths() =~= Seq::<Seq<char>>::empty());
        }
        r
    }

    /// How many distinct paths are registered.
    pub fn len(&self) -> (r: usize)
        ensures
            r as int == self.paths().len(),
    {
        self.names.len()
    }

    /// The position of a path, when it is registered.
    fn find(&self, name: &String) -> (r: Option<usize>)
        requires
            self.wf(),
        ensures
            r is Some <==> self.contains_path(name@),
            r is Some ==> (r->0 as int) < self.paths().len() && self.paths()[r->0 as int]
                == name@ && self.paths().index_of(name@) == r->0 as int,
    {
        let n = self.names.len();
        let mut i: usize = 0;
        while i < n
            invariant
                self.wf(),
                n == self.names@.len(),
                i <= n,
                forall|j: int| 0 <= j < i as int ==> self.paths()[j] != name@,
            decreases n - i,
        {
            if self.names[i] == *name {
                proof {
                    assert(self.paths()[i as int] == name@);
                    let k = self.paths().index_of(name@);
                    assert(self.paths().contains(name@));
                    assert(0 <= k < self.paths().len() && self.paths()[k] == name@);
                    assert(k == i as int);
                }
                return Some(i);
            }
            i = i + 1;
        }
        proof {
            assert(!self.paths().contains(name@));
        }
        None
    }

    /// Whether a path is registered.
    pub fn contains(&self, name: &String) -> (r: bool)
        requires
            self.wf(),
        ensures
            r == self.contains_path(name@),
    {
        self.find(name).is_some()
    }

    /// The image registered for a path, when there is one.
    pub fn get(&self, name: &String) -> (r: Option<&Image>)
        requires
            self.wf(),
        ensures
            r is Some <==> self.contains_path(name@),
            r is Some ==> r->0@ == self.img_at(name@) && r->0@.wf(),
    {
        match self.find(name) {
            Some(i) => {
                proof {
                    assert(self.views()[i as int] == self.images@[i as int]@);
                    assert(self.views()[i as int].wf());
                }
                Some(&self.images[i])
            },
            None => None,
        }
    }

    /// Loads a path: a path already present shares the image that is
    /// there, and nothing is decoded; a new path has its bytes decoded
    /// exactly once and the image stored; bytes that do not decode
    /// leave the registry unchanged.
    pub fn load(&mut self, name: &String, bytes: &Vec<u8>) -> (r: LoadStatus)
        requires
            old(self).wf(),
        ensures
            final(self).wf(),
            old(self).contains_path(name@) ==> r == LoadStatus::Shared && *final(self) == *old(self),
            !old(self).contains_path(name@) && decoded(bytes@) is Some ==> r == LoadStatus::Loaded
                && final(self).paths() == old(self).paths().push(name@) && final(self).views()
                == old(self).views().push(decoded(bytes@)->0),
            !old(self).contains_path(name@) && decoded(bytes@) is None ==> r == LoadStatus::Failed
                && *final(self) == *old(self),
    {
        if self.contains(name) {
            return LoadStatus::Shared;
        }
        match decode(bytes) {
            Some(img) => {
                self.names.push(name.clone());
                self.images.push(img);
                proof {
                    assert(self.paths() =~= old(self).paths().push(name@));
                    assert(self.views() =~= old(self).views().push(decoded(bytes@)->0));
                    assert forall|i: int, j: int| 0 <= i < j < self.paths().len() implies self
                        .paths()[i] != self.paths()[j] by {
                        if j < self.paths().len() - 1 {
                            assert(old(self).paths()[i] != old(self).paths()[j]);
                        } else {
                            assert(old(self).paths()[i] == self.paths()[i]);
                            assert(!old(self).contains_path(name@));
                        }
                    }
                }
                LoadStatus::Loaded
            },
            None => LoadStatus::Failed,
        }
    }
}

/// The font registry: for each font path the pipeline mentions, whether
/// its bytes could be read and parse as a font.
pub struct FontSet {
    names: Vec<String>,
    usable: Vec<bool>,
}

impl FontSet {
    /// The registered font paths, in insertion order.
    pub closed spec fn paths(self) -> Seq<Seq<char>> {
        self.names@.map_values(|s: String| s@)
    }

    pub open spec fn has_font(self, name: Seq<char>) -> bool {
        self.paths().contains(name)
    }

    /// Whether a registered font path carries a parseable font.
    pub closed spec fn usable_spec(self, name: Seq<char>) -> bool {
        self.usable@[self.paths().index_of(name)]
    }

    /// A font path is usable when it is registered and its bytes parse.
    pub open spec fn usable_font(self, name: Seq<char>) -> bool {
        self.has_font(name) && self.usable_spec(name)
    }

    pub closed spec fn wf(self) -> bool {
        &&& self.names@.len() == self.usable@.len()
        &&& forall|i: int, j: int|
            0 <= i < j < self.paths().len() ==> self.paths()[i] != self.paths()[j]
    }

    pub fn new() -> (r: FontSet)
        ensures
            r.wf(),
            r.paths() == Seq::<Seq<char>>::empty(),
    {
        let r = FontSet { names: Vec::new(), usable: Vec::new() };
        proof {
            assert(r.paths() =~= Seq::<Seq<char>>::empty());
        }
        r
    }

    /// The position of a font path, when it is registered.
    fn find(&self, name: &String) -> (r: Option<usize>)
        requires
            self.wf(),
        ensures
            r is Some <==> self.has_font(name@),
            r is Some ==> (r->0 as int) < self.paths().len() && self.paths()[r->0 as int]
                == name@ && self.paths().index_of(name@) == r->0 as int,
    {
        let n = self.names.len();
        let mut i: usize = 0;
        while i < n
            invariant
                self.wf(),
                n == self.names@.len(),
                i <= n,
                forall|j: int| 0 <= j < i as int ==> self.paths()[j] != name@,
            decreases n - i,
        {
            if self.names[i] == *name {
                proof {
                    assert(self.paths()[i as int] == name@);
                    let k = self.paths().index_of(name@);
                    assert(self.paths().contains(name@));
                    assert(0 <= k < self.paths().len() && self.paths()[k] == name@);
                    assert(k == i as int);
                }
                return Some(i);
            }
            i = i + 1;
        }
        proof {
            assert(!self.paths().contains(name@));
        }
        None
    }

    /// Registers a font path with the bytes read from it, or with
    /// nothing when the path could not be read; a path already present
    /// is left as it is.  A registered path is usable exactly when its
    /// bytes were read and parse as a font.
    pub fn register(&mut self, name: &String, bytes: Option<&Vec<u8>>)
        requires
            old(self).wf(),
        ensures
            final(self).wf(),
            old(self).has_font(name@) ==> *final(self) == *old(self),
            !old(self).has_font(name@) ==> final(self).paths() == old(self).paths().push(name@)
                && final(self).usable_font(name@) == (bytes is Some && font_parses(bytes->0@)),
    {
        match self.find(name) {
            Some(_) => {
            },
            None => {
                let ok = match bytes {
                    Some(b) => font_ok(b),
                    None => false,
                };
                self.names.push(name.clone());
                self.usable.push(ok);
                proof {
                    assert(self.paths() =~= old(self).paths().push(name@));
                    assert(self.paths()[self.paths().len() - 1] == name@);
                    assert(self.paths().contains(name@));
                    let k = self.paths().index_of(name@);
                    assert(0 <= k < self.paths().len() && self.paths()[k] == name@);
                    assert forall|i: int, j: int| 0 <= i < j < self.paths().len() implies self
                        .paths()[i] != self.paths()[j] by {
                        if j < self.paths().len() - 1 {
                            assert(old(self).paths()[i] != old(self).paths()[j]);
                        } else {
                            assert(old(self).paths()[i] == self.paths()[i]);
                            assert(!old(self).has_font(name@));
                        }
                    }
                    assert(k == self.paths().len() - 1);
                }
            },
        }
    }

    /// Whether a font path is registered and carries a parseable font.
    pub fn usable(&self, name: &String) -> (r: bool)
        requires
            self.wf(),
        ensures
            r == self.usable_font(name@),
    {
        match self.find(name) {
            Some(i) => self.usable[i],
            None => false,
        }
    }
}

} // verus!
