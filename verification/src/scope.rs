//! The lexical scope table of the per-module resolver.
//!
//! Frames are pushed on block entry and popped on exit. Binding a raw
//! name mints the module-resolved name `"<count>_<raw>"`, where `count`
//! is the number of earlier bindings of the same raw name anywhere in
//! the table's history; the counter never decreases, so every minted
//! name is fresh.

use vstd::prelude::*;
use vstd::string::StringExecFns;
use crate::names::{name_format, name_parts, lemma_name_parts_injective, str_eq};
use crate::resolver::ResolverError;

verus! {

/// The three independent name spaces of a scope frame.
#[derive(Debug, PartialEq, Eq, Structural, Clone, Copy)]
pub enum SymbolKind {
    Var,
    Fn,
    Struct,
}

/// One binding of a frame. A binding made for a `use` import carries no
/// kind and answers lookups of every kind. The ghost index records which
/// shadow count the name was minted with.
pub struct Binding {
    pub raw: String,
    pub kind: Option<SymbolKind>,
    pub resolved: String,
    pub idx: Ghost<nat>,
}

pub open spec fn binding_matches(b: Binding, raw: Seq<char>, kind: SymbolKind) -> bool {
    b.raw@ == raw && (b.kind is None || b.kind == Some(kind))
}

pub open spec fn lookup_in_frame(f: Seq<Binding>, raw: Seq<char>, kind: SymbolKind) -> Option<
    String,
>
    decreases f.len(),
{
    if f.len() == 0 {
        None
    } else if binding_matches(f.last(), raw, kind) {
        Some(f.last().resolved)
    } else {
        lookup_in_frame(f.drop_last(), raw, kind)
    }
}

pub open spec fn lookup_frames(fs: Seq<Vec<Binding>>, raw: Seq<char>, kind: SymbolKind) -> Option<
    String,
>
    decreases fs.len(),
{
    if fs.len() == 0 {
        None
    } else {
        match lookup_in_frame(fs.last()@, raw, kind) {
            Some(n) => Some(n),
            None => lookup_frames(fs.drop_last(), raw, kind),
        }
    }
}

/// Number of bindings of `raw` ever made, read off the counter list.
pub open spec fn count_of_seq(s: Seq<(String, usize)>, raw: Seq<char>) -> nat
    decreases s.len(),
{
    if s.len() == 0 {
        0
    } else if s[0].0@ == raw {
        s[0].1 as nat
    } else {
        count_of_seq(s.drop_first(), raw)
    }
}

pub open spec fn counts_wf(s: Seq<(String, usize)>) -> bool {
    forall|i: int, j: int| 0 <= i < j < s.len() ==> (#[trigger] s[i]).0@ != (#[trigger] s[j]).0@
}

/// The lexical scope table.
pub struct ScopeTable {
    pub frames: Vec<Vec<Binding>>,
    pub counts: Vec<(String, usize)>,
}

impl ScopeTable {
    pub open spec fn count_of(self, raw: Seq<char>) -> nat {
        count_of_seq(self.counts@, raw)
    }

    pub open spec fn lookup_spec(self, raw: Seq<char>, kind: SymbolKind) -> Option<String> {
        lookup_frames(self.frames@, raw, kind)
    }

    /// A binding is well-formed when its resolved name was minted from
    /// its raw name with a shadow index the counter has passed.
    pub open spec fn binding_wf(b: Binding, counts: Seq<(String, usize)>) -> bool {
        b.idx@ < count_of_seq(counts, b.raw@) && b.resolved@ == name_parts(b.idx@, b.raw@)
    }

    pub open spec fn wf(self) -> bool {
        &&& counts_wf(self.counts@)
        &&& forall|i: int, j: int|
            0 <= i < self.frames@.len() && 0 <= j < self.frames@[i]@.len() ==> Self::binding_wf(
                #[trigger] self.frames@[i]@[j],
                self.counts@,
            )
        &&& forall|i1: int, j1: int, i2: int, j2: int|
            0 <= i1 < self.frames@.len() && 0 <= j1 < self.frames@[i1]@.len() && 0 <= i2
                < self.frames@.len() && 0 <= j2 < self.frames@[i2]@.len() && (i1 != i2 || j1 != j2)
                ==> !((#[trigger] self.frames@[i1]@[j1]).raw@ == (#[trigger] self.frames@[i2]@[j2]).raw@
                && self.frames@[i1]@[j1].idx@ == self.frames@[i2]@[j2].idx@)
    }

    pub fn new() -> (r: ScopeTable)
        ensures
            r.wf(),
            r.frames@.len() == 0,
            r.counts@.len() == 0,
    {
        ScopeTable { frames: Vec::new(), counts: Vec::new() }
    }

    /// Pushes an empty frame.
    pub fn scope_enter(&mut self)
        ensures
            final(self).frames@.len() == old(self).frames@.len() + 1,
            final(self).frames@.drop_last() == old(self).frames@,
            final(self).frames@.last()@.len() == 0,
            final(self).counts == old(self).counts,
            old(self).wf() ==> final(self).wf(),
    {
        let f: Vec<Binding> = Vec::new();
        self.frames.push(f);
        assert(final(self).frames@.drop_last() =~= old(self).frames@);
    }

    /// Pops the top frame. The counters keep their values, so names
    /// minted inside the frame are never reused after it closes.
    pub fn scope_exit(&mut self)
        requires
            old(self).frames@.len() > 0,
        ensures
            final(self).frames@ == old(self).frames@.drop_last(),
            final(self).counts == old(self).counts,
            old(self).wf() ==> final(self).wf(),
    {
        self.frames.pop();
    }
}

fn lookup_in_frame_exec(f: &Vec<Binding>, n: usize, raw: &str, kind: SymbolKind) -> (r: Option<
    String,
>)
    requires
        n <= f@.len(),
    ensures
        r == lookup_in_frame(f@.take(n as int), raw@, kind),
    decreases n,
{
    if n == 0 {
        None
    } else {
        let b = &f[n - 1];
        assert(f@.take(n as int).last() == f@[n - 1]);
        let kind_ok = match b.kind {
            None => true,
            Some(k) => k == kind,
        };
        if kind_ok && str_eq(b.raw.as_str(), raw) {
            assert(binding_matches(f@.take(n as int).last(), raw@, kind));
            Some(b.resolved.clone())
        } else {
            assert(!binding_matches(f@.take(n as int).last(), raw@, kind));
            let r = lookup_in_frame_exec(f, n - 1, raw, kind);
            assert(f@.take(n as int).drop_last() =~= f@.take(n as int - 1));
            r
        }
    }
}

fn lookup_frames_exec(fs: &Vec<Vec<Binding>>, n: usize, raw: &str, kind: SymbolKind) -> (r: Option<
    String,
>)
    requires
        n <= fs@.len(),
    ensures
        r == lookup_frames(fs@.take(n as int), raw@, kind),
    decreases n,
{
    if n == 0 {
        None
    } else {
        let f = &fs[n - 1];
        assert(fs@.take(n as int).last() == fs@[n - 1]);
        assert(f@.take(f@.len() as int) =~= f@);
        let r = lookup_in_frame_exec(f, f.len(), raw, kind);
        match r {
            Some(name) => Some(name),
            None => {
                let r2 = lookup_frames_exec(fs, n - 1, raw, kind);
                assert(fs@.take(n as int).drop_last() =~= fs@.take(n as int - 1));
                r2
            },
        }
    }
}

proof fn lemma_count_of_at(s: Seq<(String, usize)>, raw: Seq<char>, i: int)
    requires
        0 <= i < s.len(),
        s[i].0@ == raw,
        forall|j: int| 0 <= j < i ==> (#[trigger] s[j]).0@ != raw,
    ensures
        count_of_seq(s, raw) == s[i].1,
    decreases i,
{
    if i > 0 {
        lemma_count_of_at(s.drop_first(), raw, i - 1);
    }
}

proof fn lemma_count_of_absent(s: Seq<(String, usize)>, raw: Seq<char>)
    requires
        forall|j: int| 0 <= j < s.len() ==> (#[trigger] s[j]).0@ != raw,
    ensures
        count_of_seq(s, raw) == 0,
    decreases s.len(),
{
    if s.len() > 0 {
        lemma_count_of_absent(s.drop_first(), raw);
    }
}

proof fn lemma_count_of_update(s: Seq<(String, usize)>, i: int, e: (String, usize), r2: Seq<char>)
    requires
        0 <= i < s.len(),
        e.0@ == s[i].0@,
        forall|j: int| 0 <= j < i ==> (#[trigger] s[j]).0@ != s[i].0@,
    ensures
        count_of_seq(s.update(i, e), r2) == if r2 == s[i].0@ {
            e.1 as nat
        } else {
            count_of_seq(s, r2)
        },
    decreases i,
{
    let t = s.update(i, e);
    if i == 0 {
        assert(t.drop_first() =~= s.drop_first());
    } else {
        assert(t[0] == s[0]);
        assert(t.drop_first() =~= s.drop_first().update(i - 1, e));
        lemma_count_of_update(s.drop_first(), i - 1, e, r2);
    }
}

proof fn lemma_count_of_push(s: Seq<(String, usize)>, e: (String, usize), r2: Seq<char>)
    requires
        forall|j: int| 0 <= j < s.len() ==> (#[trigger] s[j]).0@ != e.0@,
    ensures
        count_of_seq(s.push(e), r2) == if r2 == e.0@ {
            e.1 as nat
        } else {
            count_of_seq(s, r2)
        },
    decreases s.len(),
{
    let t = s.push(e);
    assert(t.len() == s.len() + 1);
    assert(t[s.len() as int] == e);
    if s.len() == 0 {
        assert(t[0] == e);
        assert(t.drop_first() =~= Seq::<(String, usize)>::empty());
        assert(count_of_seq(t.drop_first(), r2) == 0);
        if r2 == e.0@ {
            assert(t[0].0@ == r2);
            assert(count_of_seq(t, r2) == e.1 as nat);
        } else {
            assert(t[0].0@ != r2);
            assert(count_of_seq(t, r2) == count_of_seq(t.drop_first(), r2));
        }
    } else {
        assert(t[0] == s[0]);
        assert(t.drop_first() =~= s.drop_first().push(e));
        lemma_count_of_push(s.drop_first(), e, r2);
        if r2 == e.0@ {
            assert(s[0].0@ != r2);
            assert(count_of_seq(t, r2) == count_of_seq(t.drop_first(), r2));
        }
    }
}


/// Pushing one freshly minted binding on the top frame, after raising
/// the raw name's counter past the minted index, keeps a table
/// well-formed: the new binding's index is below the new counter, and
/// no earlier binding — whose index sits below the old counter — can
/// share its `(raw, index)` pair.
proof fn lemma_push_binding_wf(pre: ScopeTable, post: ScopeTable, raw: Seq<char>, c: nat)
    requires
        pre.wf(),
        pre.frames@.len() > 0,
        c == pre.count_of(raw),
        counts_wf(post.counts@),
        count_of_seq(post.counts@, raw) == c + 1,
        forall|r2: Seq<char>|
            r2 != raw ==> count_of_seq(post.counts@, r2) == count_of_seq(pre.counts@, r2),
        post.frames@.len() == pre.frames@.len(),
        post.frames@.drop_last() == pre.frames@.drop_last(),
        post.frames@.last()@.len() == pre.frames@.last()@.len() + 1,
        post.frames@.last()@.drop_last() == pre.frames@.last()@,
        post.frames@.last()@.last().raw@ == raw,
        post.frames@.last()@.last().idx@ == c,
        post.frames@.last()@.last().resolved@ == name_parts(c, raw),
    ensures
        post.wf(),
{
    let lastf = post.frames@.len() - 1;
    let toplen = post.frames@.last()@.len() as int;
    assert forall|i: int, j: int|
        0 <= i < post.frames@.len() && 0 <= j < post.frames@[i]@.len() && !(i == lastf && j
            == toplen - 1) implies post.frames@[i]@[j] == pre.frames@[i]@[j] && 0 <= j
        < pre.frames@[i]@.len() by {
        if i < lastf {
            assert(post.frames@.drop_last()[i] == post.frames@[i]);
            assert(pre.frames@.drop_last()[i] == pre.frames@[i]);
        } else {
            assert(post.frames@.last()@.drop_last()[j] == post.frames@.last()@[j]);
            assert(post.frames@[i] == post.frames@.last());
            assert(pre.frames@[i] == pre.frames@.last());
        }
    }
    let nb = post.frames@.last()@.last();
    assert forall|i: int, j: int|
        0 <= i < post.frames@.len() && 0 <= j < post.frames@[i]@.len() implies ScopeTable::binding_wf(
        #[trigger] post.frames@[i]@[j],
        post.counts@,
    ) by {
        let bij = post.frames@[i]@[j];
        if i == lastf && j == toplen - 1 {
            assert(bij == nb);
        } else {
            assert(bij == pre.frames@[i]@[j]);
            assert(ScopeTable::binding_wf(bij, pre.counts@));
            if bij.raw@ == raw {
                assert(count_of_seq(pre.counts@, bij.raw@) == c);
            } else {
                assert(count_of_seq(post.counts@, bij.raw@) == count_of_seq(
                    pre.counts@,
                    bij.raw@,
                ));
            }
        }
    }
    assert forall|i1: int, j1: int, i2: int, j2: int|
        0 <= i1 < post.frames@.len() && 0 <= j1 < post.frames@[i1]@.len() && 0 <= i2
            < post.frames@.len() && 0 <= j2 < post.frames@[i2]@.len() && (i1 != i2 || j1 != j2)
            implies !((#[trigger] post.frames@[i1]@[j1]).raw@ == (
        #[trigger] post.frames@[i2]@[j2]).raw@ && post.frames@[i1]@[j1].idx@
        == post.frames@[i2]@[j2].idx@) by {
        let b1 = post.frames@[i1]@[j1];
        let b2 = post.frames@[i2]@[j2];
        let new1 = i1 == lastf && j1 == toplen - 1;
        let new2 = i2 == lastf && j2 == toplen - 1;
        if new1 && !new2 {
            assert(b2 == pre.frames@[i2]@[j2]);
            assert(ScopeTable::binding_wf(b2, pre.counts@));
            if b2.raw@ == raw {
                assert(b2.idx@ < c);
            }
        } else if !new1 && new2 {
            assert(b1 == pre.frames@[i1]@[j1]);
            assert(ScopeTable::binding_wf(b1, pre.counts@));
            if b1.raw@ == raw {
                assert(b1.idx@ < c);
            }
        } else if !new1 && !new2 {
            assert(b1 == pre.frames@[i1]@[j1]);
            assert(b2 == pre.frames@[i2]@[j2]);
        }
    }
}

impl ScopeTable {
    /// Looks a raw name up, top frame first, most recent binding first,
    /// in the requested name space.
    pub fn scope_lookup(&self, raw: &str, kind: SymbolKind) -> (r: Option<String>)
        ensures
            r == self.lookup_spec(raw@, kind),
    {
        assert(self.frames@.take(self.frames@.len() as int) =~= self.frames@);
        lookup_frames_exec(&self.frames, self.frames.len(), raw, kind)
    }

    /// Raises the counter of `raw` to `c + 1`, where `c` was its value.
    fn bump_count(&mut self, raw: &str, c: usize)
        requires
            counts_wf(old(self).counts@),
            c == old(self).count_of(raw@),
            c < usize::MAX,
        ensures
            counts_wf(final(self).counts@),
            count_of_seq(final(self).counts@, raw@) == c + 1,
            forall|r2: Seq<char>|
                #![trigger count_of_seq(final(self).counts@, r2)]
                r2 != raw@ ==> count_of_seq(final(self).counts@, r2) == count_of_seq(
                    old(self).counts@,
                    r2,
                ),
            final(self).frames == old(self).frames,
    {
        let n = self.counts.len();
        let mut i: usize = 0;
        while i < n
            invariant
                n == self.counts@.len(),
                i <= n,
                c < usize::MAX,
                c == count_of_seq(self.counts@, raw@),
                counts_wf(self.counts@),
                forall|j: int| 0 <= j < i ==> (#[trigger] self.counts@[j]).0@ != raw@,
                *self == *old(self),
            decreases n - i,
        {
            if str_eq(self.counts[i].0.as_str(), raw) {
                proof {
                    lemma_count_of_at(self.counts@, raw@, i as int);
                }
                let ghost s0 = self.counts@;
                self.counts[i].1 = c + 1;
                proof {
                    assert(self.counts@ == s0.update(i as int, self.counts@[i as int]));
                    assert(self.counts@[i as int].0 == s0[i as int].0);
                    assert(self.counts@[i as int].1 == c + 1);
                    lemma_count_of_update(
                        s0,
                        i as int,
                        self.counts@[i as int],
                        raw@,
                    );
                    assert forall|r2: Seq<char>| r2 != raw@ implies count_of_seq(
                        self.counts@,
                        r2,
                    ) == count_of_seq(s0, r2) by {
                        lemma_count_of_update(s0, i as int, self.counts@[i as int], r2);
                    }
                    assert forall|k: int| 0 <= k < self.counts@.len() implies (
                    #[trigger] self.counts@[k]).0@ == s0[k].0@ by {
                        if k != i as int {
                            assert(self.counts@[k] == s0[k]);
                        }
                    }
                    assert(counts_wf(self.counts@));
                }
                return ;
            }
            i += 1;
        }
        proof {
            lemma_count_of_absent(self.counts@, raw@);
            assert(c == 0);
        }
        let ghost s0 = self.counts@;
        self.counts.push((raw.to_owned(), c + 1));
        proof {
            assert(self.counts@.last().0@ == raw@);
            lemma_count_of_push(s0, self.counts@.last(), raw@);
            assert forall|r2: Seq<char>| r2 != raw@ implies count_of_seq(self.counts@, r2)
                == count_of_seq(s0, r2) by {
                lemma_count_of_push(s0, self.counts@.last(), r2);
            }
        }
    }

    /// Introduces a new binding in the top frame. The minted name is
    /// `"<c>_<raw>"` for the current counter value `c`, so it differs
    /// from every name the table has minted before. Binding a raw name
    /// twice in the same frame and name space is a redefinition.
    pub fn scope_bind(&mut self, raw: &str, kind: SymbolKind) -> (r: Result<
        String,
        ResolverError,
    >)
        requires
            old(self).wf(),
            old(self).frames@.len() > 0,
        ensures
            final(self).wf(),
            final(self).frames@.len() == old(self).frames@.len(),
            match r {
                Ok(n) => {
                    &&& n@ == name_parts(old(self).count_of(raw@), raw@)
                    &&& final(self).count_of(raw@) == old(self).count_of(raw@) + 1
                    &&& forall|r2: Seq<char>|
                        r2 != raw@ ==> final(self).count_of(r2) == old(self).count_of(r2)
                    &&& final(self).frames@.drop_last() == old(self).frames@.drop_last()
                    &&& final(self).frames@.last()@.len() == old(self).frames@.last()@.len() + 1
                    &&& final(self).frames@.last()@.drop_last() == old(self).frames@.last()@
                    &&& binding_matches(final(self).frames@.last()@.last(), raw@, kind)
                    &&& final(self).frames@.last()@.last().kind == Some(kind)
                    &&& final(self).frames@.last()@.last().raw@ == raw@
                    &&& final(self).frames@.last()@.last().resolved == n
                },
                Err(e) => {
                    &&& *final(self) == *old(self)
                    &&& (match e {
                        ResolverError::Redefinition(s) => s@ == raw@,
                        _ => false,
                    })
                    &&& (lookup_in_frame(old(self).frames@.last()@, raw@, kind) is Some
                        || old(self).count_of(raw@) == usize::MAX)
                },
            },
            (r is Err) == (lookup_in_frame(old(self).frames@.last()@, raw@, kind) is Some
                || old(self).count_of(raw@) == usize::MAX),
    {
        let top = self.frames.len() - 1;
        let f = &self.frames[top];
        assert(f@.take(f@.len() as int) =~= f@);
        let dup = lookup_in_frame_exec(f, f.len(), raw, kind);
        if dup.is_some() {
            return Err(ResolverError::Redefinition(raw.to_owned()));
        }
        let c = self.count_exec(raw);
        if c == usize::MAX {
            return Err(ResolverError::Redefinition(raw.to_owned()));
        }
        let minted = name_format(raw, c);
        self.bump_count(raw, c);
        let b = Binding {
            raw: raw.to_owned(),
            kind: Some(kind),
            resolved: minted.clone(),
            idx: Ghost(c as nat),
        };
        let ghost fs0 = self.frames@;
        self.frames[top].push(b);
        proof {
            assert(self.frames@ == fs0.update(top as int, self.frames@[top as int]));
            assert(self.frames@.drop_last() =~= fs0.drop_last());
            assert(self.frames@.last()@ == fs0.last()@.push(self.frames@.last()@.last()));
            assert(self.frames@.last()@.drop_last() =~= old(self).frames@.last()@);
            lemma_push_binding_wf(*old(self), *self, raw@, c as nat);
        }
        Ok(minted)
    }

    /// Introduces a binding for a name brought in by a `use` import.
    /// The binding carries no kind, so it answers lookups in all three
    /// name spaces under the one minted name.
    pub fn bind_import(&mut self, raw: &str) -> (r: Result<String, ResolverError>)
        requires
            old(self).wf(),
            old(self).frames@.len() > 0,
        ensures
            final(self).wf(),
            final(self).frames@.len() == old(self).frames@.len(),
            match r {
                Ok(n) => {
                    &&& n@ == name_parts(old(self).count_of(raw@), raw@)
                    &&& final(self).count_of(raw@) == old(self).count_of(raw@) + 1
                    &&& forall|r2: Seq<char>|
                        r2 != raw@ ==> final(self).count_of(r2) == old(self).count_of(r2)
                    &&& final(self).frames@.drop_last() == old(self).frames@.drop_last()
                    &&& final(self).frames@.last()@.len() == old(self).frames@.last()@.len() + 1
                    &&& final(self).frames@.last()@.drop_last() == old(self).frames@.last()@
                    &&& final(self).frames@.last()@.last().raw@ == raw@
                    &&& final(self).frames@.last()@.last().kind is None
                    &&& final(self).frames@.last()@.last().resolved == n
                },
                Err(e) => {
                    &&& *final(self) == *old(self)
                    &&& (match e {
                        ResolverError::Redefinition(s) => s@ == raw@,
                        _ => false,
                    })
                },
            },
            (r is Err) == (frame_has_raw(old(self).frames@.last()@, raw@) || old(self).count_of(
                raw@,
            ) == usize::MAX),
    {
        let top = self.frames.len() - 1;
        let f = &self.frames[top];
        if frame_has_raw_exec(f, raw) {
            return Err(ResolverError::Redefinition(raw.to_owned()));
        }
        let c = self.count_exec(raw);
        if c == usize::MAX {
            return Err(ResolverError::Redefinition(raw.to_owned()));
        }
        let minted = name_format(raw, c);
        self.bump_count(raw, c);
        let b = Binding {
            raw: raw.to_owned(),
            kind: None,
            resolved: minted.clone(),
            idx: Ghost(c as nat),
        };
        let ghost fs0 = self.frames@;
        self.frames[top].push(b);
        proof {
            assert(self.frames@ == fs0.update(top as int, self.frames@[top as int]));
            assert(self.frames@.drop_last() =~= fs0.drop_last());
            assert(self.frames@.last()@ == fs0.last()@.push(self.frames@.last()@.last()));
            assert(self.frames@.last()@.drop_last() =~= old(self).frames@.last()@);
            lemma_push_binding_wf(*old(self), *self, raw@, c as nat);
        }
        Ok(minted)
    }

    /// Reads the current counter of `raw`.
    fn count_exec(&self, raw: &str) -> (c: usize)
        requires
            counts_wf(self.counts@),
        ensures
            c == self.count_of(raw@),
    {
        let n = self.counts.len();
        let mut i: usize = 0;
        while i < n
            invariant
                n == self.counts@.len(),
                i <= n,
                forall|j: int| 0 <= j < i ==> (#[trigger] self.counts@[j]).0@ != raw@,
            decreases n - i,
        {
            if str_eq(self.counts[i].0.as_str(), raw) {
                proof {
                    lemma_count_of_at(self.counts@, raw@, i as int);
                }
                return self.counts[i].1;
            }
            i += 1;
        }
        proof {
            lemma_count_of_absent(self.counts@, raw@);
        }
        0
    }
}

pub open spec fn frame_has_raw(f: Seq<Binding>, raw: Seq<char>) -> bool {
    exists|j: int| 0 <= j < f.len() && (#[trigger] f[j]).raw@ == raw
}

fn frame_has_raw_exec(f: &Vec<Binding>, raw: &str) -> (r: bool)
    ensures
        r == frame_has_raw(f@, raw@),
{
    let n = f.len();
    let mut i: usize = 0;
    while i < n
        invariant
            n == f@.len(),
            i <= n,
            forall|j: int| 0 <= j < i ==> (#[trigger] f@[j]).raw@ != raw@,
        decreases n - i,
    {
        if str_eq(f[i].raw.as_str(), raw) {
            return true;
        }
        i += 1;
    }
    false
}

proof fn lemma_lookup_finds_in_frame(f: Seq<Binding>, raw: Seq<char>, kind: SymbolKind)
    ensures
        match lookup_in_frame(f, raw, kind) {
            Some(n) => exists|j: int|
                0 <= j < f.len() && (#[trigger] f[j]).raw@ == raw && f[j].resolved == n,
            None => true,
        },
    decreases f.len(),
{
    if f.len() > 0 {
        if binding_matches(f.last(), raw, kind) {
            assert(f[f.len() - 1].raw@ == raw);
        } else {
            lemma_lookup_finds_in_frame(f.drop_last(), raw, kind);
            match lookup_in_frame(f.drop_last(), raw, kind) {
                Some(n) => {
                    let j = choose|j: int|
                        0 <= j < f.drop_last().len() && (#[trigger] f.drop_last()[j]).raw@ == raw
                            && f.drop_last()[j].resolved == n;
                    assert(f[j] == f.drop_last()[j]);
                },
                None => {},
            }
        }
    }
}

proof fn lemma_lookup_finds(fs: Seq<Vec<Binding>>, raw: Seq<char>, kind: SymbolKind)
    ensures
        match lookup_frames(fs, raw, kind) {
            Some(n) => exists|i: int, j: int|
                0 <= i < fs.len() && 0 <= j < fs[i]@.len() && (#[trigger] fs[i]@[j]).raw@ == raw
                    && fs[i]@[j].resolved == n,
            None => true,
        },
    decreases fs.len(),
{
    if fs.len() > 0 {
        match lookup_in_frame(fs.last()@, raw, kind) {
            Some(n) => {
                lemma_lookup_finds_in_frame(fs.last()@, raw, kind);
                let j = choose|j: int|
                    0 <= j < fs.last()@.len() && (#[trigger] fs.last()@[j]).raw@ == raw
                        && fs.last()@[j].resolved == n;
                assert(fs[fs.len() - 1]@[j].raw@ == raw);
            },
            None => {
                lemma_lookup_finds(fs.drop_last(), raw, kind);
                match lookup_frames(fs.drop_last(), raw, kind) {
                    Some(n) => {
                        let (i, j) = choose|i: int, j: int|
                            0 <= i < fs.drop_last().len() && 0 <= j < fs.drop_last()[i]@.len()
                                && (#[trigger] fs.drop_last()[i]@[j]).raw@ == raw
                                && fs.drop_last()[i]@[j].resolved == n;
                        assert(fs[i] == fs.drop_last()[i]);
                    },
                    None => {},
                }
            },
        }
    }
}

/// Law: the module-resolved names a scope table mints are collision-free
/// — two distinct bindings of one table never carry the same resolved
/// name, whatever frames they live in.
pub proof fn lemma_minted_names_collision_free(
    t: ScopeTable,
    i1: int,
    j1: int,
    i2: int,
    j2: int,
)
    requires
        t.wf(),
        0 <= i1 < t.frames@.len(),
        0 <= j1 < t.frames@[i1]@.len(),
        0 <= i2 < t.frames@.len(),
        0 <= j2 < t.frames@[i2]@.len(),
        i1 != i2 || j1 != j2,
    ensures
        t.frames@[i1]@[j1].resolved@ != t.frames@[i2]@[j2].resolved@,
{
    let b1 = t.frames@[i1]@[j1];
    let b2 = t.frames@[i2]@[j2];
    assert(ScopeTable::binding_wf(b1, t.counts@));
    assert(ScopeTable::binding_wf(b2, t.counts@));
    if b1.resolved@ == b2.resolved@ {
        lemma_name_parts_injective(b1.idx@, b1.raw@, b2.idx@, b2.raw@);
        assert(false);
    }
}

/// Law: a raw name re-bound in a nested frame receives a distinct
/// resolved name, and the outer binding is restored on scope exit — any
/// table whose frames equal the outer table's answers the lookup with
/// the outer name again.
pub proof fn lemma_shadowing(
    t: ScopeTable,
    raw: Seq<char>,
    kind: SymbolKind,
    n0: String,
    n1: Seq<char>,
    t3: ScopeTable,
)
    requires
        t.wf(),
        t.lookup_spec(raw, kind) == Some(n0),
        n1 == name_parts(t.count_of(raw), raw),
        t3.frames@ == t.frames@,
    ensures
        n1 != n0@,
        t3.lookup_spec(raw, kind) == Some(n0),
{
    lemma_lookup_finds(t.frames@, raw, kind);
    let (i, j) = choose|i: int, j: int|
        0 <= i < t.frames@.len() && 0 <= j < t.frames@[i]@.len()
            && (#[trigger] t.frames@[i]@[j]).raw@ == raw && t.frames@[i]@[j].resolved == n0;
    let b = t.frames@[i]@[j];
    assert(ScopeTable::binding_wf(b, t.counts@));
    if n1 == n0@ {
        lemma_name_parts_injective(t.count_of(raw), raw, b.idx@, b.raw@);
        assert(false);
    }
}

} // verus!
