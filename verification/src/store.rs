use vstd::prelude::*;
use crate::error::FurnaceError;
use crate::recipe::{Recipe, spec_recipe_valid, recipe_is_valid};
use crate::strutil::str_eq;

verus! {

/// A project-local marker pointing from a project directory to its recipe;
/// owned by the store, at most one per path.
#[derive(Debug)]
pub struct BackRef {
    pub path: String,
    pub name: String,
}

impl Clone for BackRef {
    fn clone(&self) -> (r: Self)
        ensures
            r == *self,
    {
        BackRef { path: self.path.clone(), name: self.name.clone() }
    }
}

/// First index at or after `i` whose recipe is named `n`, or `s.len()`.
pub open spec fn find_name(s: Seq<Recipe>, n: Seq<char>, i: int) -> int
    decreases s.len() - i when 0 <= i <= s.len()
{
    if i >= s.len() {
        s.len() as int
    } else if s[i].name@ == n {
        i
    } else {
        find_name(s, n, i + 1)
    }
}

/// First index at or after `i` whose recipe has path `p`, or `s.len()`.
pub open spec fn find_path(s: Seq<Recipe>, p: Seq<char>, i: int) -> int
    decreases s.len() - i when 0 <= i <= s.len()
{
    if i >= s.len() {
        s.len() as int
    } else if s[i].path@ == p {
        i
    } else {
        find_path(s, p, i + 1)
    }
}

/// First index at or after `i` whose back-reference has path `p`.
pub open spec fn find_ref(s: Seq<BackRef>, p: Seq<char>, i: int) -> int
    decreases s.len() - i when 0 <= i <= s.len()
{
    if i >= s.len() {
        s.len() as int
    } else if s[i].path@ == p {
        i
    } else {
        find_ref(s, p, i + 1)
    }
}

/// The recipe named `n`, if any.
pub open spec fn spec_get(s: Seq<Recipe>, n: Seq<char>) -> Option<Recipe> {
    let k = find_name(s, n, 0);
    if k < s.len() {
        Some(s[k])
    } else {
        None
    }
}

/// The recipe whose path is `p`, if any.
pub open spec fn spec_get_by_path(s: Seq<Recipe>, p: Seq<char>) -> Option<Recipe> {
    let k = find_path(s, p, 0);
    if k < s.len() {
        Some(s[k])
    } else {
        None
    }
}

/// The name the back-reference at path `p` points to, if any.
pub open spec fn spec_backref_get(s: Seq<BackRef>, p: Seq<char>) -> Option<Seq<char>> {
    let k = find_ref(s, p, 0);
    if k < s.len() {
        Some(s[k].name@)
    } else {
        None
    }
}

pub open spec fn names_unique(s: Seq<Recipe>) -> bool {
    forall|i: int, j: int| 0 <= i < j < s.len() ==> s[i].name@ != s[j].name@
}

pub open spec fn paths_unique(s: Seq<Recipe>) -> bool {
    forall|i: int, j: int| 0 <= i < j < s.len() ==> s[i].path@ != s[j].path@
}

pub open spec fn all_valid(s: Seq<Recipe>) -> bool {
    forall|i: int| 0 <= i < s.len() ==> spec_recipe_valid(s[i])
}

pub open spec fn ref_paths_unique(s: Seq<BackRef>) -> bool {
    forall|i: int, j: int| 0 <= i < j < s.len() ==> s[i].path@ != s[j].path@
}

/// A recipe sharing its path with `r` under another name already exists.
pub open spec fn path_conflict(s: Seq<Recipe>, r: Recipe) -> bool {
    exists|i: int| 0 <= i < s.len() && s[i].path@ == r.path@ && s[i].name@ != r.name@
}

/// The store after `put`: the record under the same name replaced, or the
/// new record appended.
pub open spec fn spec_put(s: Seq<Recipe>, r: Recipe) -> Seq<Recipe> {
    let k = find_name(s, r.name@, 0);
    if k < s.len() {
        s.update(k, r)
    } else {
        s.push(r)
    }
}

/// The store after `remove`: the record under `n` taken out, if present.
pub open spec fn spec_remove(s: Seq<Recipe>, n: Seq<char>) -> Seq<Recipe> {
    let k = find_name(s, n, 0);
    if k < s.len() {
        s.remove(k)
    } else {
        s
    }
}

/// The back-references after every reference to `n` is dropped.
pub open spec fn spec_drop_refs(s: Seq<BackRef>, n: Seq<char>) -> Seq<BackRef>
    decreases s.len(),
{
    if s.len() == 0 {
        Seq::empty()
    } else {
        let rest = spec_drop_refs(s.drop_last(), n);
        if s.last().name@ == n {
            rest
        } else {
            rest.push(s.last())
        }
    }
}

pub proof fn lemma_find_name_bounds(s: Seq<Recipe>, n: Seq<char>, i: int)
    requires
        0 <= i <= s.len(),
    ensures
        i <= find_name(s, n, i) <= s.len(),
        forall|j: int| i <= j < find_name(s, n, i) ==> s[j].name@ != n,
        find_name(s, n, i) < s.len() ==> s[find_name(s, n, i)].name@ == n,
    decreases s.len() - i,
{
    if i < s.len() && s[i].name@ != n {
        lemma_find_name_bounds(s, n, i + 1);
    }
}

pub proof fn lemma_find_path_bounds(s: Seq<Recipe>, p: Seq<char>, i: int)
    requires
        0 <= i <= s.len(),
    ensures
        i <= find_path(s, p, i) <= s.len(),
        forall|j: int| i <= j < find_path(s, p, i) ==> s[j].path@ != p,
        find_path(s, p, i) < s.len() ==> s[find_path(s, p, i)].path@ == p,
    decreases s.len() - i,
{
    if i < s.len() && s[i].path@ != p {
        lemma_find_path_bounds(s, p, i + 1);
    }
}

pub proof fn lemma_find_ref_bounds(s: Seq<BackRef>, p: Seq<char>, i: int)
    requires
        0 <= i <= s.len(),
    ensures
        i <= find_ref(s, p, i) <= s.len(),
        forall|j: int| i <= j < find_ref(s, p, i) ==> s[j].path@ != p,
        find_ref(s, p, i) < s.len() ==> s[find_ref(s, p, i)].path@ == p,
    decreases s.len() - i,
{
    if i < s.len() && s[i].path@ != p {
        lemma_find_ref_bounds(s, p, i + 1);
    }
}

/// Every surviving back-reference after a drop stood in the original run,
/// none of them names `n`, and uniqueness of paths survives.
pub proof fn lemma_drop_refs(s: Seq<BackRef>, n: Seq<char>)
    ensures
        forall|i: int|
            0 <= i < spec_drop_refs(s, n).len() ==> #[trigger] spec_drop_refs(s, n)[i].name@ != n,
        forall|i: int|
            0 <= i < spec_drop_refs(s, n).len() ==> exists|j: int|
                0 <= j < s.len() && s[j] == #[trigger] spec_drop_refs(s, n)[i],
        ref_paths_unique(s) ==> ref_paths_unique(spec_drop_refs(s, n)),
        forall|p: Seq<char>|
            #[trigger] spec_backref_get(spec_drop_refs(s, n), p) is Some ==> exists|j: int|
                0 <= j < s.len() && s[j].path@ == p,
    decreases s.len(),
{
    if s.len() > 0 {
        lemma_drop_refs(s.drop_last(), n);
        let rest = spec_drop_refs(s.drop_last(), n);
        let whole = spec_drop_refs(s, n);
        assert(forall|j: int|
            0 <= j < s.drop_last().len() ==> s.drop_last()[j] == s[j]);
        if s.last().name@ != n {
            assert(whole == rest.push(s.last()));
            assert(forall|i: int| 0 <= i < rest.len() ==> whole[i] == rest[i]);
            assert(whole[whole.len() - 1] == s.last());
            if ref_paths_unique(s) {
                assert forall|i: int, j: int| 0 <= i < j < whole.len() implies whole[i].path@
                    != whole[j].path@ by {
                    if j < whole.len() - 1 {
                        assert(whole[i] == rest[i] && whole[j] == rest[j]);
                    } else {
                        assert(whole[j] == s.last());
                        let wi = choose|k: int| 0 <= k < s.drop_last().len() && s.drop_last()[k]
                            == rest[i];
                        assert(s[wi] == whole[i]);
                        assert(s[s.len() - 1] == s.last());
                        assert(s[wi].path@ != s[s.len() - 1].path@);
                    }
                }
            }
        }
        assert forall|p: Seq<char>| #[trigger] spec_backref_get(whole, p) is Some implies exists|j: int|
            0 <= j < s.len() && s[j].path@ == p by {
            lemma_find_ref_bounds(whole, p, 0);
            let k = find_ref(whole, p, 0);
            assert(whole[k].path@ == p);
            let wj = choose|j: int| 0 <= j < s.len() && s[j] == whole[k];
        }
    }
}

/// Registering a record under an already registered name updates in place:
/// the store holds exactly as many records afterwards as before, never a
/// duplicate.
pub proof fn lemma_put_same_name_len(s: Seq<Recipe>, r1: Recipe, r2: Recipe)
    requires
        r1.name@ == r2.name@,
    ensures
        spec_put(spec_put(s, r1), r2).len() == spec_put(s, r1).len(),
{
    let s1 = spec_put(s, r1);
    lemma_find_name_bounds(s, r1.name@, 0);
    let k = find_name(s, r1.name@, 0);
    if k < s.len() {
        assert(s1[k].name@ == r2.name@);
    } else {
        assert(s1[s1.len() - 1].name@ == r2.name@);
    }
    lemma_find_name_bounds(s1, r2.name@, 0);
    let k2 = find_name(s1, r2.name@, 0);
    if k2 == s1.len() {
        if k < s.len() {
            assert(s1[k].name@ != r2.name@);
        } else {
            assert(s1[s1.len() - 1].name@ != r2.name@);
        }
    }
}

/// After a `put`, the record is found under its name, the store grew by at
/// most one, and every other slot is untouched.
pub proof fn lemma_put_get(s: Seq<Recipe>, r: Recipe)
    ensures
        spec_get(spec_put(s, r), r.name@) == Some(r),
        find_name(s, r.name@, 0) < s.len() ==> spec_put(s, r).len() == s.len(),
        find_name(s, r.name@, 0) == s.len() ==> spec_put(s, r).len() == s.len() + 1,
        forall|j: int|
            0 <= j < s.len() && j != find_name(s, r.name@, 0) ==> spec_put(s, r)[j] == s[j],
{
    lemma_find_name_bounds(s, r.name@, 0);
    let k = find_name(s, r.name@, 0);
    let s1 = spec_put(s, r);
    if k < s.len() {
        assert(s1 == s.update(k, r));
        lemma_find_name_bounds(s1, r.name@, 0);
        let k1 = find_name(s1, r.name@, 0);
        assert(s1[k].name@ == r.name@);
        if k1 < k {
            assert(s1[k1] == s[k1]);
            assert(s[k1].name@ != r.name@);
        }
        assert(k1 == k);
    } else {
        assert(s1 == s.push(r));
        lemma_find_name_bounds(s1, r.name@, 0);
        let k1 = find_name(s1, r.name@, 0);
        assert(s1[s1.len() - 1].name@ == r.name@);
        if k1 < s1.len() - 1 {
            assert(s1[k1] == s[k1]);
            assert(s[k1].name@ != r.name@);
        }
        assert(k1 == s1.len() - 1);
    }
}

/// Removing a name leaves no record under it, and removing it a second
/// time changes nothing.
pub proof fn lemma_remove_idempotent(s: Seq<Recipe>, n: Seq<char>)
    requires
        names_unique(s),
    ensures
        spec_get(spec_remove(s, n), n) is None,
        spec_remove(spec_remove(s, n), n) == spec_remove(s, n),
{
    lemma_find_name_bounds(s, n, 0);
    let k = find_name(s, n, 0);
    if k < s.len() {
        let s1 = s.remove(k);
        assert forall|j: int| 0 <= j < s1.len() implies s1[j].name@ != n by {
            if j < k {
                assert(s1[j] == s[j]);
            } else {
                assert(s1[j] == s[j + 1]);
                assert(s[k].name@ == n);
                if s[j + 1].name@ == n {
                    assert(s[k].name@ != s[j + 1].name@);
                }
            }
        }
        lemma_find_name_bounds(s1, n, 0);
        if find_name(s1, n, 0) < s1.len() {
            assert(s1[find_name(s1, n, 0)].name@ == n);
        }
    } else {
        lemma_find_name_bounds(spec_remove(s, n), n, 0);
    }
}

/// A run of back-references that never names `n` is left whole by dropping
/// the references to `n`.
pub proof fn lemma_drop_refs_identity(s: Seq<BackRef>, n: Seq<char>)
    requires
        forall|i: int| 0 <= i < s.len() ==> s[i].name@ != n,
    ensures
        spec_drop_refs(s, n) == s,
    decreases s.len(),
{
    if s.len() > 0 {
        assert(forall|j: int| 0 <= j < s.drop_last().len() ==> s.drop_last()[j] == s[j]);
        lemma_drop_refs_identity(s.drop_last(), n);
        assert(spec_drop_refs(s, n) =~= s);
    } else {
        assert(spec_drop_refs(s, n) =~= s);
    }
}

/// Dropping the back-references to `n` a second time changes nothing.
pub proof fn lemma_drop_refs_idempotent(s: Seq<BackRef>, n: Seq<char>)
    ensures
        spec_drop_refs(spec_drop_refs(s, n), n) == spec_drop_refs(s, n),
{
    lemma_drop_refs(s, n);
    lemma_drop_refs_identity(spec_drop_refs(s, n), n);
}

/// Durable desired-state registry: the authoritative mapping from project
/// name to recipe, with the project-local back-references it owns.
#[derive(Debug)]
pub struct RecipeStore {
    pub recipes: Vec<Recipe>,
    pub backrefs: Vec<BackRef>,
}

impl RecipeStore {
    /// Well-formedness: recipe names and paths are unique, every record is
    /// valid, and back-reference paths are unique.
    pub open spec fn wf(self) -> bool {
        &&& names_unique(self.recipes@)
        &&& paths_unique(self.recipes@)
        &&& all_valid(self.recipes@)
        &&& ref_paths_unique(self.backrefs@)
    }

    pub fn new() -> (r: RecipeStore)
        ensures
            r.wf(),
            r.recipes@.len() == 0,
            r.backrefs@.len() == 0,
    {
        RecipeStore { recipes: Vec::new(), backrefs: Vec::new() }
    }

    /// Index of the recipe named `name`, if present.
    fn index_of_name(&self, name: &str) -> (r: Option<usize>)
        ensures
            match r {
                Some(k) => k == find_name(self.recipes@, name@, 0) && k < self.recipes@.len()
                    && self.recipes@[k as int].name@ == name@,
                None => find_name(self.recipes@, name@, 0) == self.recipes@.len(),
            },
    {
        proof {
            lemma_find_name_bounds(self.recipes@, name@, 0);
        }
        let n = self.recipes.len();
        let mut i: usize = 0;
        while i < n
            invariant
                i <= n,
                n == self.recipes@.len(),
                forall|j: int| 0 <= j < i ==> self.recipes@[j].name@ != name@,
            decreases n - i,
        {
            if str_eq(self.recipes[i].name.as_str(), name) {
                proof {
                    let k = find_name(self.recipes@, name@, 0);
                    lemma_find_name_bounds(self.recipes@, name@, 0);
                    if k < i {
                        assert(self.recipes@[k].name@ != name@);
                    }
                    if i < k {
                        assert(self.recipes@[i as int].name@ != name@);
                    }
                }
                return Some(i);
            }
            i = i + 1;
        }
        None
    }

    /// Index of the recipe whose path is `path`, if present.
    fn index_of_path(&self, path: &str) -> (r: Option<usize>)
        ensures
            match r {
                Some(k) => k == find_path(self.recipes@, path@, 0) && k < self.recipes@.len()
                    && self.recipes@[k as int].path@ == path@,
                None => find_path(self.recipes@, path@, 0) == self.recipes@.len(),
            },
    {
        proof {
            lemma_find_path_bounds(self.recipes@, path@, 0);
        }
        let n = self.recipes.len();
        let mut i: usize = 0;
        while i < n
            invariant
                i <= n,
                n == self.recipes@.len(),
                forall|j: int| 0 <= j < i ==> self.recipes@[j].path@ != path@,
            decreases n - i,
        {
            if str_eq(self.recipes[i].path.as_str(), path) {
                proof {
                    lemma_find_path_bounds(self.recipes@, path@, 0);
                    let k = find_path(self.recipes@, path@, 0);
                    if k < i {
                        assert(self.recipes@[k].path@ != path@);
                    }
                    if i < k {
                        assert(self.recipes@[i as int].path@ != path@);
                    }
                }
                return Some(i);
            }
            i = i + 1;
        }
        None
    }

    /// The recipe registered under `name`.
    pub fn get(&self, name: &str) -> (r: Option<Recipe>)
        ensures
            r == spec_get(self.recipes@, name@),
    {
        match self.index_of_name(name) {
            Some(k) => Some(self.recipes[k].clone()),
            None => None,
        }
    }

    /// The recipe registered for the project directory `path`.
    pub fn get_by_path(&self, path: &str) -> (r: Option<Recipe>)
        ensures
            r == spec_get_by_path(self.recipes@, path@),
    {
        match self.index_of_path(path) {
            Some(k) => Some(self.recipes[k].clone()),
            None => None,
        }
    }

    /// All live recipes, in registration order (stable within a run).
    pub fn list(&self) -> (r: &Vec<Recipe>)
        ensures
            r@ == self.recipes@,
    {
        &self.recipes
    }

    /// Register or update `r`, keyed by name.  A record sharing the path
    /// under a different name is a conflict and is reported, never
    /// duplicated; an invalid record is rejected.  On success the whole
    /// record is visible afterward.
    pub fn put(&mut self, r: Recipe) -> (res: Result<(), FurnaceError>)
        requires
            old(self).wf(),
        ensures
            final(self).wf(),
            final(self).backrefs@ == old(self).backrefs@,
            res is Ok <==> (spec_recipe_valid(r) && !path_conflict(old(self).recipes@, r)),
            res is Ok ==> final(self).recipes@ == spec_put(old(self).recipes@, r),
            res is Err ==> final(self).recipes@ == old(self).recipes@,
            !spec_recipe_valid(r) ==> res matches Err(FurnaceError::IOFailure(_)),
            spec_recipe_valid(r) && path_conflict(old(self).recipes@, r) ==> (res matches Err(
                FurnaceError::Conflict(m),
            ) && m@ == old(self).recipes@[find_path(old(self).recipes@, r.path@, 0)].name@),
    {
        if !recipe_is_valid(&r) {
            return Err(
                FurnaceError::IOFailure(String::from_str("recipe name or path is not usable")),
            );
        }
        match self.index_of_path(r.path.as_str()) {
            Some(k) => {
                if !str_eq(self.recipes[k].name.as_str(), r.name.as_str()) {
                    proof {
                        assert(path_conflict(self.recipes@, r));
                    }
                    return Err(FurnaceError::Conflict(self.recipes[k].name.clone()));
                }
                proof {
                    let s = self.recipes@;
                    lemma_find_path_bounds(s, r.path@, 0);
                    lemma_find_name_bounds(s, r.name@, 0);
                    let kn = find_name(s, r.name@, 0);
                    assert(s[k as int].name@ == r.name@);
                    if kn < k as int {
                        assert(s[kn].name@ == r.name@);
                        assert(false) by {
                            assert(s[kn].name@ != r.name@);
                        }
                    }
                    assert(kn == k as int);
                    assert forall|i: int|
                        0 <= i < s.len() && s[i].path@ == r.path@ implies i == k as int by {
                        if i < k as int {
                            assert(s[i].path@ != r.path@);
                        } else if i > k as int {
                            assert(s[k as int].path@ == r.path@);
                        }
                    }
                    assert(!path_conflict(s, r));
                }
                let ghost s0 = self.recipes@;
                self.recipes.set(k, r);
                proof {
                    let s1 = self.recipes@;
                    assert(s1 == spec_put(s0, r));
                    assert forall|i: int, j: int| 0 <= i < j < s1.len() implies s1[i].name@
                        != s1[j].name@ by {
                        if i != k as int && j != k as int {
                            assert(s1[i] == s0[i] && s1[j] == s0[j]);
                        } else if i == k as int {
                            assert(s0[j].name@ != s0[k as int].name@);
                        } else {
                            assert(s0[i].name@ != s0[k as int].name@);
                        }
                    }
                    assert forall|i: int, j: int| 0 <= i < j < s1.len() implies s1[i].path@
                        != s1[j].path@ by {
                        if i != k as int && j != k as int {
                            assert(s1[i] == s0[i] && s1[j] == s0[j]);
                        } else if i == k as int {
                            assert(s0[j].path@ != s0[k as int].path@);
                        } else {
                            assert(s0[i].path@ != s0[k as int].path@);
                        }
                    }
                    assert(all_valid(s1)) by {
                        assert(forall|i: int|
                            0 <= i < s1.len() && i != k as int ==> s1[i] == s0[i]);
                    }
                }
                Ok(())
            },
            None => {
                proof {
                    let s = self.recipes@;
                    lemma_find_path_bounds(s, r.path@, 0);
                    assert(!path_conflict(s, r)) by {
                        assert(forall|i: int| 0 <= i < s.len() ==> s[i].path@ != r.path@);
                    }
                }
                let idx = self.index_of_name(r.name.as_str());
                match idx {
                    Some(k) => {
                        let ghost s0 = self.recipes@;
                        self.recipes.set(k, r);
                        proof {
                            let s1 = self.recipes@;
                            assert(s1 == spec_put(s0, r));
                            assert forall|i: int, j: int| 0 <= i < j < s1.len() implies s1[i].name@
                                != s1[j].name@ by {
                                lemma_find_name_bounds(s0, r.name@, 0);
                                if i != k as int && j != k as int {
                                    assert(s1[i] == s0[i] && s1[j] == s0[j]);
                                } else if i == k as int {
                                    assert(s0[j].name@ != s0[k as int].name@);
                                } else {
                                    assert(s0[i].name@ != s0[k as int].name@);
                                }
                            }
                            assert forall|i: int, j: int| 0 <= i < j < s1.len() implies s1[i].path@
                                != s1[j].path@ by {
                                if i != k as int && j != k as int {
                                    assert(s1[i] == s0[i] && s1[j] == s0[j]);
                                } else if i == k as int {
                                    assert(s0[j].path@ != r.path@);
                                } else {
                                    assert(s0[i].path@ != r.path@);
                                }
                            }
                            assert(all_valid(s1)) by {
                                assert(forall|i: int|
                                    0 <= i < s1.len() && i != k as int ==> s1[i] == s0[i]);
                            }
                        }
                        Ok(())
                    },
                    None => {
                        let ghost s0 = self.recipes@;
                        self.recipes.push(r);
                        proof {
                            let s1 = self.recipes@;
                            lemma_find_name_bounds(s0, r.name@, 0);
                            assert(s1 == spec_put(s0, r));
                            assert(forall|i: int| 0 <= i < s0.len() ==> s1[i] == s0[i]);
                            assert(s1[s1.len() - 1] == r);
                            assert forall|i: int, j: int| 0 <= i < j < s1.len() implies s1[i].name@
                                != s1[j].name@ by {
                                if j == s1.len() - 1 {
                                    assert(s0[i].name@ != r.name@);
                                }
                            }
                            assert forall|i: int, j: int| 0 <= i < j < s1.len() implies s1[i].path@
                                != s1[j].path@ by {
                                if j == s1.len() - 1 {
                                    assert(s0[i].path@ != r.path@);
                                }
                            }
                        }
                        Ok(())
                    },
                }
            },
        }
    }

    /// Remove the recipe named `name`; removing an absent recipe succeeds.
    pub fn remove(&mut self, name: &str) -> (res: Result<(), FurnaceError>)
        requires
            old(self).wf(),
        ensures
            final(self).wf(),
            final(self).backrefs@ == old(self).backrefs@,
            res is Ok,
            final(self).recipes@ == spec_remove(old(self).recipes@, name@),
    {
        match self.index_of_name(name) {
            Some(k) => {
                let ghost s0 = self.recipes@;
                self.recipes.remove(k);
                proof {
                    let s1 = self.recipes@;
                    assert(s1 == spec_remove(s0, name@));
                    assert forall|i: int, j: int| 0 <= i < j < s1.len() implies s1[i].name@
                        != s1[j].name@ && s1[i].path@ != s1[j].path@ by {
                        let i0 = if i < k as int { i } else { i + 1 };
                        let j0 = if j < k as int { j } else { j + 1 };
                        assert(s1[i] == s0[i0] && s1[j] == s0[j0]);
                    }
                    assert forall|i: int| 0 <= i < s1.len() implies spec_recipe_valid(s1[i]) by {
                        let i0 = if i < k as int { i } else { i + 1 };
                        assert(s1[i] == s0[i0]);
                    }
                }
                Ok(())
            },
            None => Ok(()),
        }
    }

    /// The name the back-reference placed at `path` resolves to, if any.
    pub fn backref_name(&self, path: &str) -> (r: Option<String>)
        ensures
            match r {
                Some(n) => spec_backref_get(self.backrefs@, path@) == Some(n@),
                None => spec_backref_get(self.backrefs@, path@) is None,
            },
    {
        proof {
            lemma_find_ref_bounds(self.backrefs@, path@, 0);
        }
        let n = self.backrefs.len();
        let mut i: usize = 0;
        while i < n
            invariant
                i <= n,
                n == self.backrefs@.len(),
                forall|j: int| 0 <= j < i ==> self.backrefs@[j].path@ != path@,
            decreases n - i,
        {
            if str_eq(self.backrefs[i].path.as_str(), path) {
                proof {
                    lemma_find_ref_bounds(self.backrefs@, path@, 0);
                    let k = find_ref(self.backrefs@, path@, 0);
                    if k < i {
                        assert(self.backrefs@[k].path@ != path@);
                    }
                    if i < k {
                        assert(self.backrefs@[i as int].path@ != path@);
                    }
                }
                return Some(self.backrefs[i].name.clone());
            }
            i = i + 1;
        }
        None
    }

    /// Place or replace the back-reference at `path`, pointing to `name`.
    pub fn set_backref(&mut self, path: &str, name: &str)
        requires
            old(self).wf(),
        ensures
            final(self).wf(),
            final(self).recipes@ == old(self).recipes@,
            spec_backref_get(final(self).backrefs@, path@) == Some(name@),
            find_ref(old(self).backrefs@, path@, 0) < old(self).backrefs@.len() ==> final(self).backrefs@.len() == old(self).backrefs@.len(),
            find_ref(old(self).backrefs@, path@, 0) == old(self).backrefs@.len() ==> final(self).backrefs@.len() == old(self).backrefs@.len() + 1,
            forall|j: int|
                0 <= j < old(self).backrefs@.len() && j != find_ref(old(self).backrefs@, path@, 0)
                    ==> final(self).backrefs@[j] == old(self).backrefs@[j],
    {
        let b = BackRef { path: path.to_owned(), name: name.to_owned() };
        let n = self.backrefs.len();
        let mut i: usize = 0;
        while i < n
            invariant
                i <= n,
                self.wf(),
                self.backrefs@ == old(self).backrefs@,
                self.recipes@ == old(self).recipes@,
                n == self.backrefs@.len(),
                forall|j: int| 0 <= j < i ==> self.backrefs@[j].path@ != path@,
                b.path@ == path@ && b.name@ == name@,
            decreases n - i,
        {
            if str_eq(self.backrefs[i].path.as_str(), path) {
                proof {
                    let s0 = self.backrefs@;
                    lemma_find_ref_bounds(s0, path@, 0);
                    let k = find_ref(s0, path@, 0);
                    if k < i {
                        assert(s0[k].path@ != path@);
                    }
                    if i < k {
                        assert(s0[i as int].path@ != path@);
                    }
                    assert(k == i as int);
                }
                let ghost s0 = self.backrefs@;
                self.backrefs.set(i, b);
                proof {
                    let s1 = self.backrefs@;
                    assert forall|x: int, y: int| 0 <= x < y < s1.len() implies s1[x].path@
                        != s1[y].path@ by {
                        if x != i as int && y != i as int {
                            assert(s1[x] == s0[x] && s1[y] == s0[y]);
                        } else if x == i as int {
                            assert(s0[y].path@ != s0[i as int].path@);
                        } else {
                            assert(s0[x].path@ != s0[i as int].path@);
                        }
                    }
                    lemma_find_ref_bounds(s1, path@, 0);
                    let k1 = find_ref(s1, path@, 0);
                    assert(s1[i as int].path@ == path@);
                    if k1 < i {
                        assert(s1[k1].path@ == path@);
                        assert(s1[k1] == s0[k1]);
                    }
                    assert(k1 == i as int);
                }
                return ;
            }
            i = i + 1;
        }
        proof {
            let s0 = self.backrefs@;
            lemma_find_ref_bounds(s0, path@, 0);
            assert(find_ref(s0, path@, 0) == s0.len());
        }
        let ghost s0 = self.backrefs@;
        self.backrefs.push(b);
        proof {
            let s1 = self.backrefs@;
            assert(forall|x: int| 0 <= x < s0.len() ==> s1[x] == s0[x]);
            assert forall|x: int, y: int| 0 <= x < y < s1.len() implies s1[x].path@
                != s1[y].path@ by {
                if y == s1.len() - 1 {
                    assert(s0[x].path@ != path@);
                }
            }
            lemma_find_ref_bounds(s1, path@, 0);
            let k1 = find_ref(s1, path@, 0);
            assert(s1[s1.len() - 1].path@ == path@);
            if k1 < s1.len() - 1 {
                assert(s1[k1].path@ == path@);
                assert(s1[k1] == s0[k1]);
            }
        }
    }

    /// Drop every back-reference that points to `name`.
    pub fn remove_backrefs_for(&mut self, name: &str)
        requires
            old(self).wf(),
        ensures
            final(self).wf(),
            final(self).recipes@ == old(self).recipes@,
            final(self).backrefs@ == spec_drop_refs(old(self).backrefs@, name@),
            forall|i: int|
                0 <= i < final(self).backrefs@.len() ==> #[trigger] final(self).backrefs@[i].name@
                    != name@,
    {
        let n = self.backrefs.len();
        let mut out: Vec<BackRef> = Vec::new();
        let mut i: usize = 0;
        while i < n
            invariant
                i <= n,
                n == self.backrefs@.len(),
                out@ == spec_drop_refs(self.backrefs@.subrange(0, i as int), name@),
            decreases n - i,
        {
            let ghost pre = self.backrefs@.subrange(0, i as int);
            let ghost cur = self.backrefs@.subrange(0, i + 1);
            proof {
                assert(cur.drop_last() =~= pre);
                assert(cur.last() == self.backrefs@[i as int]);
            }
            if !str_eq(self.backrefs[i].name.as_str(), name) {
                out.push(self.backrefs[i].clone());
            }
            i = i + 1;
        }
        proof {
            assert(self.backrefs@.subrange(0, n as int) =~= self.backrefs@);
            lemma_drop_refs(self.backrefs@, name@);
        }
        self.backrefs = out;
    }
}

} // verus!
