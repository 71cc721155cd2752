//! Sets of paths, kept in the order in which the paths arrived.

use vstd::prelude::*;

verus! {

/// The paths that occur in `paths`, each taken by its characters.
pub open spec fn path_set(paths: Seq<String>) -> Set<Seq<char>> {
    Set::new(|p: Seq<char>| exists|i: int| 0 <= i < paths.len() && (#[trigger] paths[i])@ == p)
}

/// No path occurs twice in `paths`.
pub open spec fn distinct_paths(paths: Seq<String>) -> bool {
    forall|i: int, j: int| 0 <= i < j < paths.len() ==> paths[i]@ != paths[j]@
}

/// Adding a path at the end adds it to the set.
pub proof fn lemma_path_set_push(paths: Seq<String>, path: String)
    ensures
        path_set(paths.push(path)) == path_set(paths).insert(path@),
{
    let grown = paths.push(path);
    assert forall|p: Seq<char>| path_set(grown).contains(p) == path_set(paths).insert(
        path@,
    ).contains(p) by {
        if path_set(grown).contains(p) {
            let i = choose|i: int| 0 <= i < grown.len() && (#[trigger] grown[i])@ == p;
            if i < paths.len() {
                assert(paths[i]@ == p);
            }
        }
        if path_set(paths).contains(p) {
            let i = choose|i: int| 0 <= i < paths.len() && (#[trigger] paths[i])@ == p;
            assert(grown[i]@ == p);
        }
        if p == path@ {
            assert(grown[paths.len() as int]@ == p);
        }
    }
    assert(path_set(grown) =~= path_set(paths).insert(path@));
}

/// The empty list holds no path.
pub proof fn lemma_path_set_empty()
    ensures
        path_set(Seq::<String>::empty()) == Set::<Seq<char>>::empty(),
{
    assert(path_set(Seq::<String>::empty()) =~= Set::<Seq<char>>::empty());
}

/// An unordered set of paths without repetition.
///
/// Its view is the set of the paths' character sequences.
pub struct PathSet {
    paths: Vec<String>,
}

impl View for PathSet {
    type V = Set<Seq<char>>;

    closed spec fn view(&self) -> Set<Seq<char>> {
        path_set(self.paths@)
    }
}

impl PathSet {
    #[verifier::type_invariant]
    spec fn well_formed(self) -> bool {
        distinct_paths(self.paths@)
    }

    /// The empty set.
    pub fn new() -> (set: Self)
        ensures
            set@ == Set::<Seq<char>>::empty(),
    {
        proof {
            lemma_path_set_empty();
        }
        PathSet { paths: Vec::new() }
    }

    /// The number of paths in the set.
    pub fn len(&self) -> (n: usize)
        ensures
            self@.finite(),
            n == self@.len(),
    {
        proof {
            use_type_invariant(self);
            lemma_distinct_len(self.paths@);
        }
        self.paths.len()
    }

    /// Whether the set holds no path.
    pub fn is_empty(&self) -> (empty: bool)
        ensures
            empty <==> self@ == Set::<Seq<char>>::empty(),
    {
        proof {
            if self.paths@.len() == 0 {
                assert(self@ =~= Set::<Seq<char>>::empty());
            } else {
                assert(self@.contains(self.paths@[0]@));
            }
        }
        self.paths.len() == 0
    }

    /// Whether `path` is in the set.
    pub fn contains(&self, path: &String) -> (found: bool)
        ensures
            found == self@.contains(path@),
    {
        let mut i: usize = 0;
        while i < self.paths.len()
            invariant
                i <= self.paths.len(),
                forall|k: int| 0 <= k < i ==> self.paths@[k]@ != path@,
            decreases self.paths.len() - i,
        {
            if self.paths[i] == *path {
                return true;
            }
            i += 1;
        }
        false
    }

    /// Adds `path`; returns whether it was new.
    pub fn insert(&mut self, path: String) -> (added: bool)
        ensures
            final(self)@ == old(self)@.insert(path@),
            added == !old(self)@.contains(path@),
    {
        proof {
            use_type_invariant(&*self);
        }
        if self.contains(&path) {
            assert(self@ =~= self@.insert(path@));
            false
        } else {
            proof {
                lemma_path_set_push(self.paths@, path);
            }
            let mut paths: Vec<String> = Vec::new();
            std::mem::swap(&mut paths, &mut self.paths);
            paths.push(path);
            self.paths = paths;
            true
        }
    }

    /// Takes `path` out; returns whether it was there.
    pub fn remove(&mut self, path: &String) -> (removed: bool)
        ensures
            final(self)@ == old(self)@.remove(path@),
            removed == old(self)@.contains(path@),
    {
        proof {
            use_type_invariant(&*self);
        }
        let mut i: usize = 0;
        while i < self.paths.len()
            invariant
                i <= self.paths.len(),
                *self == *old(self),
                distinct_paths(self.paths@),
                forall|k: int| 0 <= k < i ==> self.paths@[k]@ != path@,
            decreases self.paths.len() - i,
        {
            if self.paths[i] == *path {
                let ghost before = self.paths@;
                let mut paths: Vec<String> = Vec::new();
                std::mem::swap(&mut paths, &mut self.paths);
                paths.remove(i);
                proof {
                    lemma_path_set_remove(before, i as int);
                    assert(distinct_paths(paths@));
                }
                self.paths = paths;
                return true;
            }
            i += 1;
        }
        assert(self@ =~= self@.remove(path@));
        false
    }

    /// Empties the set and returns what it held.
    pub fn take(&mut self) -> (taken: PathSet)
        ensures
            final(self)@ == Set::<Seq<char>>::empty(),
            taken@ == old(self)@,
    {
        proof {
            use_type_invariant(&*self);
            lemma_path_set_empty();
        }
        let mut paths: Vec<String> = Vec::new();
        std::mem::swap(&mut paths, &mut self.paths);
        PathSet { paths }
    }

    /// The paths of the set, each once, in the order in which they arrived.
    pub fn into_paths(self) -> (paths: Vec<String>)
        ensures
            distinct_paths(paths@),
            path_set(paths@) == self@,
    {
        proof {
            use_type_invariant(&self);
        }
        self.paths
    }
}

/// Taking the path at `at` out of a list without repetition takes it out of
/// the set and leaves a list without repetition.
pub proof fn lemma_path_set_remove(paths: Seq<String>, at: int)
    requires
        distinct_paths(paths),
        0 <= at < paths.len(),
    ensures
        distinct_paths(paths.remove(at)),
        path_set(paths.remove(at)) == path_set(paths).remove(paths[at]@),
{
    let rest = paths.remove(at);
    assert forall|i: int, j: int| 0 <= i < j < rest.len() implies rest[i]@ != rest[j]@ by {
        let oi = if i < at { i } else { i + 1 };
        let oj = if j < at { j } else { j + 1 };
        assert(rest[i] == paths[oi]);
        assert(rest[j] == paths[oj]);
    }
    assert forall|p: Seq<char>| path_set(rest).contains(p) == path_set(paths).remove(
        paths[at]@,
    ).contains(p) by {
        if path_set(rest).contains(p) {
            let i = choose|i: int| 0 <= i < rest.len() && (#[trigger] rest[i])@ == p;
            let oi = if i < at { i } else { i + 1 };
            assert(rest[i] == paths[oi]);
            assert(paths[oi]@ == p);
            if oi < at {
                assert(paths[oi]@ != paths[at]@);
            } else {
                assert(paths[at]@ != paths[oi]@);
            }
        }
        if path_set(paths).contains(p) && p != paths[at]@ {
            let i = choose|i: int| 0 <= i < paths.len() && (#[trigger] paths[i])@ == p;
            let ri = if i < at { i } else { i - 1 };
            assert(rest[ri] == paths[i]);
            assert(rest[ri]@ == p);
        }
    }
    assert(path_set(rest) =~= path_set(paths).remove(paths[at]@));
}

/// A list without repetition holds as many paths as it is long.
pub proof fn lemma_distinct_len(paths: Seq<String>)
    requires
        distinct_paths(paths),
    ensures
        path_set(paths).finite(),
        path_set(paths).len() == paths.len(),
    decreases paths.len(),
{
    if paths.len() == 0 {
        lemma_path_set_empty();
        assert(paths =~= Seq::<String>::empty());
    } else {
        let last = paths.last();
        let front = paths.drop_last();
        assert forall|i: int, j: int| 0 <= i < j < front.len() implies front[i]@ != front[j]@ by {
            assert(front[i] == paths[i]);
            assert(front[j] == paths[j]);
        }
        lemma_distinct_len(front);
        lemma_path_set_push(front, last);
        assert(front.push(last) =~= paths);
        if path_set(front).contains(last@) {
            let i = choose|i: int| 0 <= i < front.len() && (#[trigger] front[i])@ == last@;
            assert(front[i] == paths[i]);
            assert(paths[i]@ != paths[paths.len() - 1]@);
        }
    }
}

} // verus!
