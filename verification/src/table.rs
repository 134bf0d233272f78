//! The definition table: three disjoint maps from global names to
//! function, struct and global-variable definitions, together with the
//! merged-module and front-program records built around it.

use vstd::prelude::*;
use crate::names::{GlobalName, GlobalNameV};
use crate::ast::{FnDef, StructDef, VarDecl};

verus! {

pub open spec fn keys_distinct<V>(s: Seq<(GlobalName, V)>) -> bool {
    forall|i: int, j: int| 0 <= i < j < s.len() ==> (#[trigger] s[i]).0@ != (#[trigger] s[j]).0@
}

pub open spec fn map_of_seq<V>(s: Seq<(GlobalName, V)>) -> Map<GlobalNameV, V>
    decreases s.len(),
{
    if s.len() == 0 {
        Map::empty()
    } else {
        map_of_seq(s.drop_last()).insert(s.last().0@, s.last().1)
    }
}

pub proof fn lemma_map_of_contains<V>(s: Seq<(GlobalName, V)>, k: GlobalNameV)
    ensures
        map_of_seq(s).contains_key(k) <==> exists|i: int|
            0 <= i < s.len() && (#[trigger] s[i]).0@ == k,
    decreases s.len(),
{
    if s.len() > 0 {
        lemma_map_of_contains(s.drop_last(), k);
        if s.last().0@ == k {
            assert(s[s.len() - 1].0@ == k);
        } else {
            if map_of_seq(s).contains_key(k) {
                let i = choose|i: int|
                    0 <= i < s.drop_last().len() && (#[trigger] s.drop_last()[i]).0@ == k;
                assert(s[i].0@ == k);
            }
            if exists|i: int| 0 <= i < s.len() && (#[trigger] s[i]).0@ == k {
                let i = choose|i: int| 0 <= i < s.len() && (#[trigger] s[i]).0@ == k;
                assert(s.drop_last()[i].0@ == k);
            }
        }
    }
}

pub proof fn lemma_map_of_get<V>(s: Seq<(GlobalName, V)>, i: int)
    requires
        keys_distinct(s),
        0 <= i < s.len(),
    ensures
        map_of_seq(s).contains_key(s[i].0@),
        map_of_seq(s)[s[i].0@] == s[i].1,
    decreases s.len(),
{
    if i == s.len() - 1 {
    } else {
        assert(s[s.len() - 1].0@ != s[i].0@);
        assert(s.drop_last()[i] == s[i]);
        lemma_map_of_get(s.drop_last(), i);
    }
}

pub proof fn lemma_map_of_finite<V>(s: Seq<(GlobalName, V)>)
    ensures
        map_of_seq(s).dom().finite(),
    decreases s.len(),
{
    if s.len() == 0 {
        assert(map_of_seq(s).dom() =~= Set::<GlobalNameV>::empty());
    } else {
        lemma_map_of_finite(s.drop_last());
    }
}

pub proof fn lemma_map_of_len<V>(s: Seq<(GlobalName, V)>)
    requires
        keys_distinct(s),
    ensures
        map_of_seq(s).len() == s.len(),
    decreases s.len(),
{
    if s.len() > 0 {
        assert forall|i: int, j: int| 0 <= i < j < s.drop_last().len() implies (
        #[trigger] s.drop_last()[i]).0@ != (#[trigger] s.drop_last()[j]).0@ by {
            assert(s.drop_last()[i] == s[i] && s.drop_last()[j] == s[j]);
        }
        lemma_map_of_len(s.drop_last());
        lemma_map_of_contains(s.drop_last(), s.last().0@);
        assert(!map_of_seq(s.drop_last()).contains_key(s.last().0@)) by {
            if map_of_seq(s.drop_last()).contains_key(s.last().0@) {
                let i = choose|i: int|
                    0 <= i < s.drop_last().len() && (#[trigger] s.drop_last()[i]).0@
                        == s.last().0@;
                assert(s[i].0@ == s[s.len() - 1].0@);
                assert(false);
            }
        }
        lemma_map_of_finite(s.drop_last());
        let d0 = map_of_seq(s.drop_last()).dom();
        assert(!d0.contains(s.last().0@));
        assert(d0.insert(s.last().0@).len() == d0.len() + 1);
        assert(map_of_seq(s).dom() =~= d0.insert(s.last().0@));
    }
}

/// A map from global names to definitions, stored as an association
/// list whose keys are pairwise distinct.
#[derive(Debug, PartialEq)]
pub struct NameMap<V> {
    pub entries: Vec<(GlobalName, V)>,
}

impl<V> View for NameMap<V> {
    type V = Map<GlobalNameV, V>;

    open spec fn view(&self) -> Map<GlobalNameV, V> {
        map_of_seq(self.entries@)
    }
}

impl<V> NameMap<V> {
    pub open spec fn wf(self) -> bool {
        keys_distinct(self.entries@)
    }

    pub fn new() -> (r: NameMap<V>)
        ensures
            r.wf(),
            r@ == Map::<GlobalNameV, V>::empty(),
            r.entries@.len() == 0,
    {
        NameMap { entries: Vec::new() }
    }

    pub fn len(&self) -> (n: usize)
        requires
            self.wf(),
        ensures
            n == self@.len(),
            n == self.entries@.len(),
    {
        proof {
            lemma_map_of_len(self.entries@);
        }
        self.entries.len()
    }

    pub fn contains(&self, k: &GlobalName) -> (r: bool)
        ensures
            r == self@.contains_key(k@),
    {
        let n = self.entries.len();
        let mut i: usize = 0;
        while i < n
            invariant
                n == self.entries@.len(),
                i <= n,
                forall|j: int| 0 <= j < i ==> (#[trigger] self.entries@[j]).0@ != k@,
            decreases n - i,
        {
            if self.entries[i].0.same(k) {
                proof {
                    lemma_map_of_contains(self.entries@, k@);
                }
                return true;
            }
            i += 1;
        }
        proof {
            lemma_map_of_contains(self.entries@, k@);
        }
        false
    }

    pub fn get(&self, k: &GlobalName) -> (r: Option<&V>)
        requires
            self.wf(),
        ensures
            match r {
                Some(v) => self@.contains_key(k@) && self@[k@] == *v,
                None => !self@.contains_key(k@),
            },
    {
        let n = self.entries.len();
        let mut i: usize = 0;
        while i < n
            invariant
                n == self.entries@.len(),
                i <= n,
                self.wf(),
                forall|j: int| 0 <= j < i ==> (#[trigger] self.entries@[j]).0@ != k@,
            decreases n - i,
        {
            if self.entries[i].0.same(k) {
                proof {
                    lemma_map_of_get(self.entries@, i as int);
                }
                return Some(&self.entries[i].1);
            }
            i += 1;
        }
        proof {
            lemma_map_of_contains(self.entries@, k@);
        }
        None
    }

    /// Records a binding unless the key is already present; the first
    /// recording of a key wins.
    pub fn put(&mut self, k: GlobalName, v: V)
        requires
            old(self).wf(),
        ensures
            final(self).wf(),
            final(self)@ == if old(self)@.contains_key(k@) {
                old(self)@
            } else {
                old(self)@.insert(k@, v)
            },
    {
        if !self.contains(&k) {
            self.insert(k, v);
        }
    }

    /// Installs a definition under a fresh key.
    pub fn insert(&mut self, k: GlobalName, v: V)
        requires
            old(self).wf(),
            !old(self)@.contains_key(k@),
        ensures
            final(self).wf(),
            final(self)@ == old(self)@.insert(k@, v),
            final(self).entries@ == old(self).entries@.push((k, v)),
    {
        proof {
            lemma_map_of_contains(self.entries@, k@);
        }
        self.entries.push((k, v));
        proof {
            assert(self.entries@.drop_last() =~= old(self).entries@);
        }
    }
}

/// The three disjoint definition maps of one merged package.
#[derive(Debug, PartialEq)]
pub struct DefinitionTable {
    pub function_definitions: NameMap<FnDef>,
    pub struct_definitions: NameMap<StructDef>,
    pub global_var_definitions: NameMap<VarDecl>,
}

impl DefinitionTable {
    /// Keys are pairwise distinct within each map and across the three
    /// maps: a global name identifies at most one definition of the
    /// whole table.
    pub open spec fn wf(self) -> bool {
        &&& self.function_definitions.wf()
        &&& self.struct_definitions.wf()
        &&& self.global_var_definitions.wf()
        &&& forall|k: GlobalNameV|
            self.function_definitions@.contains_key(k) ==> !(
            #[trigger] self.struct_definitions@.contains_key(k))
                && !self.global_var_definitions@.contains_key(k)
        &&& forall|k: GlobalNameV|
            #[trigger] self.struct_definitions@.contains_key(k)
                ==> !self.global_var_definitions@.contains_key(k)
    }

    pub fn new() -> (r: DefinitionTable)
        ensures
            r.wf(),
            r.function_definitions@ == Map::<GlobalNameV, FnDef>::empty(),
            r.struct_definitions@ == Map::<GlobalNameV, StructDef>::empty(),
            r.global_var_definitions@ == Map::<GlobalNameV, VarDecl>::empty(),
    {
        DefinitionTable {
            function_definitions: NameMap::new(),
            struct_definitions: NameMap::new(),
            global_var_definitions: NameMap::new(),
        }
    }
}

/// The output of the merger: the package-wide definition tables, split
/// into the public view other packages see and the private view holding
/// every definition of the package.
#[derive(Debug, PartialEq)]
pub struct MergedModule {
    pub public_definitions: DefinitionTable,
    pub private_definitions: DefinitionTable,
}

impl MergedModule {
    pub fn new() -> (r: MergedModule)
        ensures
            r.public_definitions.wf(),
            r.private_definitions.wf(),
            r.public_definitions.function_definitions@ == Map::<GlobalNameV, FnDef>::empty(),
            r.public_definitions.struct_definitions@ == Map::<GlobalNameV, StructDef>::empty(),
            r.public_definitions.global_var_definitions@ == Map::<GlobalNameV, VarDecl>::empty(),
            r.private_definitions.function_definitions@ == Map::<GlobalNameV, FnDef>::empty(),
            r.private_definitions.struct_definitions@ == Map::<GlobalNameV, StructDef>::empty(),
            r.private_definitions.global_var_definitions@ == Map::<GlobalNameV, VarDecl>::empty(),
    {
        MergedModule { public_definitions: DefinitionTable::new(), private_definitions: DefinitionTable::new() }
    }
}

/// What the front-end hands to its caller: the merged definition table,
/// globally resolved and, after type resolution, fully annotated.
#[derive(Debug, PartialEq)]
pub struct FrontProgram {
    pub definitions: DefinitionTable,
}

} // verus!
