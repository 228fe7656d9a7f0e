//! Sets of paths.

use crate::path::{FilePath, PathView};
use vstd::prelude::*;

verus! {

/// A set of paths, kept in the order in which they were put in.
pub struct PathSet {
    paths: Vec<FilePath>,
}

/// What the paths in a list hold.
pub open spec fn path_views(paths: Seq<FilePath>) -> Seq<PathView> {
    paths.map_values(|path: FilePath| path@)
}

impl View for PathSet {
    type V = Set<PathView>;

    closed spec fn view(&self) -> Set<PathView> {
        path_views(self.paths@).to_set()
    }
}

impl PathSet {
    /// No path stands in the list twice.
    #[verifier::type_invariant]
    spec fn distinct(self) -> bool {
        path_views(self.paths@).no_duplicates()
    }

    /// The empty set.
    pub fn new() -> (result: Self)
        ensures
            result@ == Set::<PathView>::empty(),
    {
        let result = PathSet { paths: Vec::new() };
        assert(result@ =~= Set::<PathView>::empty());
        result
    }

    /// The position of a path in the list.
    fn position(&self, path: &FilePath) -> (result: Option<usize>)
        ensures
            match result {
                Some(index) => index < self.paths@.len() && self.paths@[index as int]@ == path@,
                None => !self@.contains(path@),
            },
    {
        let mut index: usize = 0;
        while index < self.paths.len()
            invariant
                index <= self.paths@.len(),
                forall|earlier: int|
                    0 <= earlier < index ==> path_views(self.paths@)[earlier] != path@,
            decreases self.paths@.len() - index,
        {
            if self.paths[index].same(path) {
                return Some(index);
            }
            index += 1;
        }
        None
    }

    /// Tells whether a path is in the set.
    pub fn contains(&self, path: &FilePath) -> (result: bool)
        ensures
            result == self@.contains(path@),
    {
        match self.position(path) {
            Some(index) => {
                assert(path_views(self.paths@)[index as int] == path@);
                true
            },
            None => false,
        }
    }

    /// The number of paths in the set.
    pub fn len(&self) -> (result: usize)
        ensures
            result == self@.len(),
    {
        proof {
            use_type_invariant(self);
            path_views(self.paths@).unique_seq_to_set();
        }
        self.paths.len()
    }

    /// Puts a path in. Tells whether it was not there before.
    pub fn insert(&mut self, path: FilePath) -> (result: bool)
        ensures
            result == !old(self)@.contains(path@),
            final(self)@ == old(self)@.insert(path@),
    {
        proof {
            use_type_invariant(&*self);
        }
        let ghost before = path_views(self.paths@);
        if self.contains(&path) {
            assert(self@ =~= self@.insert(path@));
            return false;
        }
        let ghost added = path@;
        let mut paths: Vec<FilePath> = Vec::new();
        std::mem::swap(&mut paths, &mut self.paths);
        paths.push(path);
        proof {
            assert(path_views(paths@) =~= before.push(added));
            assert(!before.contains(added));
            before.lemma_push_to_set_commute(added);
        }
        self.paths = paths;
        true
    }

    /// Takes a path out. Tells whether it was there.
    pub fn remove(&mut self, path: &FilePath) -> (result: bool)
        ensures
            result == old(self)@.contains(path@),
            final(self)@ == old(self)@.remove(path@),
    {
        proof {
            use_type_invariant(&*self);
        }
        let ghost before = path_views(self.paths@);
        match self.position(path) {
            None => {
                assert(self@ =~= self@.remove(path@));
                false
            },
            Some(index) => {
                let mut paths: Vec<FilePath> = Vec::new();
                std::mem::swap(&mut paths, &mut self.paths);
                paths.remove(index);
                proof {
                    assert(before[index as int] == path@);
                    assert(path_views(paths@) =~= before.remove(index as int));
                    assert forall|element: PathView|
                        before.remove(index as int).contains(element) <==> before.contains(element)
                            && element != path@ by {
                        if before.remove(index as int).contains(element) {
                            let at = before.remove(index as int).index_of(element);
                            assert(before[if at < index { at } else { at + 1 }] == element);
                        }
                        if before.contains(element) && element != path@ {
                            let at = before.index_of(element);
                            assert(before.remove(index as int)[if at < index { at } else { at - 1 }]
                                == element);
                        }
                    }
                    assert(path_views(paths@).to_set() =~= before.to_set().remove(path@));
                }
                self.paths = paths;
                true
            },
        }
    }

    /// Keeps only the paths that are in `known` too.
    pub fn keep_known(&mut self, known: &PathSet)
        ensures
            final(self)@ == old(self)@.intersect(known@),
    {
        let ghost before = path_views(self.paths@);
        let mut kept = PathSet::new();
        let mut paths: Vec<FilePath> = Vec::new();
        std::mem::swap(&mut paths, &mut self.paths);
        let mut index: usize = 0;
        assert(kept@ =~= before.take(0).to_set().intersect(known@));
        while index < paths.len()
            invariant
                index <= paths@.len(),
                path_views(paths@) == before,
                kept@ == before.take(index as int).to_set().intersect(known@),
            decreases paths@.len() - index,
        {
            let ghost earlier = before.take(index as int);
            let ghost current = before[index as int];
            assert(current == paths@[index as int]@);
            if known.contains(&paths[index]) {
                kept.insert(paths[index].clone());
            }
            index += 1;
            proof {
                assert(before.take(index as int) =~= earlier.push(current));
                earlier.lemma_push_to_set_commute(current);
                assert(kept@ =~= before.take(index as int).to_set().intersect(known@));
            }
        }
        assert(before.take(before.len() as int) =~= before);
        *self = kept;
    }
}

} // verus!
