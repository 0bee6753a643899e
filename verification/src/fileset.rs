//! A set of file paths that remembers the order in which they came.

use vstd::prelude::*;
use vstd::string::*;
use crate::config::texts;
use crate::rules::same_text;

verus! {

/// A set of distinct file paths.
#[derive(Debug)]
pub struct FileSet {
    paths: Vec<String>,
}

impl View for FileSet {
    type V = Set<Seq<char>>;

    closed spec fn view(&self) -> Set<Seq<char>> {
        texts(self.paths@).to_set()
    }
}

impl FileSet {
    #[verifier::type_invariant]
    spec fn paths_are_distinct(self) -> bool {
        texts(self.paths@).no_duplicates()
    }

    /// The paths in the order in which they were first inserted.
    pub closed spec fn in_order(&self) -> Seq<Seq<char>> {
        texts(self.paths@)
    }

    /// The empty set.
    pub fn new() -> (set: FileSet)
        ensures
            set@ == Set::<Seq<char>>::empty(),
            set.in_order() == Seq::<Seq<char>>::empty(),
    {
        let set = FileSet { paths: Vec::new() };
        proof {
            assert(texts(set.paths@) =~= Seq::<Seq<char>>::empty());
            assert(set@ =~= Set::<Seq<char>>::empty());
        }
        set
    }

    /// The number of paths in the set.
    pub fn len(&self) -> (n: usize)
        ensures
            n == self@.len(),
            n == self.in_order().len(),
            self@.finite(),
            self.in_order().no_duplicates(),
            self.in_order().to_set() == self@,
    {
        proof {
            use_type_invariant(self);
            texts(self.paths@).unique_seq_to_set();
            vstd::seq_lib::seq_to_set_is_finite(texts(self.paths@));
        }
        self.paths.len()
    }

    /// Whether the set holds no path.
    pub fn is_empty(&self) -> (r: bool)
        ensures
            r == (self@.len() == 0),
            self@.finite(),
    {
        self.len() == 0
    }

    /// Whether `path` is in the set.
    pub fn contains(&self, path: &str) -> (r: bool)
        ensures
            r == self@.contains(path@),
    {
        let mut i: usize = 0;
        while i < self.paths.len()
            invariant
                i <= self.paths.len(),
                forall|k: int| 0 <= k < i ==> texts(self.paths@)[k] != path@,
            decreases self.paths.len() - i,
        {
            if same_text(self.paths[i].as_str(), path) {
                proof {
                    assert(texts(self.paths@)[i as int] == path@);
                }
                return true;
            }
            i += 1;
        }
        false
    }

    /// The path at position `i` of the insertion order.
    pub fn get(&self, i: usize) -> (path: &String)
        requires
            i < self.in_order().len(),
        ensures
            path@ == self.in_order()[i as int],
    {
        &self.paths[i]
    }

    /// Adds `path` to the set. Returns whether it was new.
    pub fn insert(&mut self, path: String) -> (added: bool)
        ensures
            added == !old(self)@.contains(path@),
            final(self)@ == old(self)@.insert(path@),
            final(self).in_order() == if added {
                old(self).in_order().push(path@)
            } else {
                old(self).in_order()
            },
    {
        proof {
            use_type_invariant(&*self);
        }
        if self.contains(path.as_str()) {
            proof {
                assert(self@.insert(path@) =~= self@);
            }
            return false;
        }
        let ghost before = texts(self.paths@);
        let mut paths: Vec<String> = Vec::new();
        core::mem::swap(&mut self.paths, &mut paths);
        paths.push(path);
        proof {
            let now = texts(paths@);
            assert(now =~= before.push(path@));
            assert(!before.contains(path@));
            assert(now.no_duplicates());
            before.lemma_push_to_set_commute(path@);
        }
        self.paths = paths;
        true
    }
}

} // verus!
