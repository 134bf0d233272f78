//! The virtual filesystem the retriever reads: an in-memory map from
//! absolute slash-separated paths to file contents or directory
//! markers.

use vstd::prelude::*;
use vstd::string::StringExecFns;
use crate::names::str_eq;

verus! {

#[derive(Debug, PartialEq)]
pub enum FsEntry {
    File(String),
    Dir,
}

/// An in-memory filesystem; a later entry for a path replaces an
/// earlier one.
#[derive(Debug, PartialEq)]
pub struct MockFileSystem {
    pub root: String,
    pub entries: Vec<(String, FsEntry)>,
}

pub open spec fn fs_map(s: Seq<(String, FsEntry)>) -> Map<Seq<char>, FsEntry>
    decreases s.len(),
{
    if s.len() == 0 {
        Map::empty()
    } else {
        fs_map(s.drop_last()).insert(s.last().0@, s.last().1)
    }
}

impl View for MockFileSystem {
    type V = Map<Seq<char>, FsEntry>;

    open spec fn view(&self) -> Map<Seq<char>, FsEntry> {
        fs_map(self.entries@)
    }
}

proof fn lemma_fs_at(s: Seq<(String, FsEntry)>, path: Seq<char>, i: int)
    requires
        0 <= i < s.len(),
        s[i].0@ == path,
        forall|j: int| i < j < s.len() ==> (#[trigger] s[j]).0@ != path,
    ensures
        fs_map(s).contains_key(path),
        fs_map(s)[path] == s[i].1,
    decreases s.len(),
{
    if i == s.len() - 1 {
    } else {
        assert(s.drop_last()[i] == s[i]);
        lemma_fs_at(s.drop_last(), path, i);
    }
}

proof fn lemma_fs_absent(s: Seq<(String, FsEntry)>, path: Seq<char>)
    requires
        forall|j: int| 0 <= j < s.len() ==> (#[trigger] s[j]).0@ != path,
    ensures
        !fs_map(s).contains_key(path),
    decreases s.len(),
{
    if s.len() > 0 {
        lemma_fs_absent(s.drop_last(), path);
    }
}

impl MockFileSystem {
    pub fn new(root: String) -> (r: MockFileSystem)
        ensures
            r@ == Map::<Seq<char>, FsEntry>::empty(),
            r.root == root,
    {
        MockFileSystem { root, entries: Vec::new() }
    }

    /// Places a file at a path, replacing whatever was there.
    pub fn insert_file(&mut self, path: &str, content: &str)
        ensures
            final(self)@.dom() == old(self)@.dom().insert(path@),
            (match final(self)@[path@] {
                FsEntry::File(c) => c@ == content@,
                FsEntry::Dir => false,
            }),
            forall|p: Seq<char>| p != path@ ==> final(self)@.contains_key(p) == old(
                self,
            )@.contains_key(p) && (old(self)@.contains_key(p) ==> final(self)@[p] == old(
                self,
            )@[p]),
            final(self).root == old(self).root,
    {
        self.entries.push((path.to_owned(), FsEntry::File(content.to_owned())));
        proof {
            assert(self.entries@.drop_last() =~= old(self).entries@);
            assert(final(self)@ == fs_map(old(self).entries@).insert(
                path@,
                self.entries@.last().1,
            ));
            assert(final(self)@.dom() =~= old(self)@.dom().insert(path@));
        }
    }

    /// Marks a path as a directory.
    pub fn insert_dir(&mut self, path: &str)
        ensures
            final(self)@.dom() == old(self)@.dom().insert(path@),
            final(self)@[path@] == FsEntry::Dir,
            forall|p: Seq<char>| p != path@ ==> final(self)@.contains_key(p) == old(
                self,
            )@.contains_key(p) && (old(self)@.contains_key(p) ==> final(self)@[p] == old(
                self,
            )@[p]),
            final(self).root == old(self).root,
    {
        self.entries.push((path.to_owned(), FsEntry::Dir));
        proof {
            assert(self.entries@.drop_last() =~= old(self).entries@);
            assert(final(self)@ == fs_map(old(self).entries@).insert(
                path@,
                self.entries@.last().1,
            ));
            assert(final(self)@.dom() =~= old(self)@.dom().insert(path@));
        }
    }

    /// Reads a file's contents; `None` for a missing path or a
    /// directory.
    pub fn read_file(&self, path: &str) -> (r: Option<String>)
        ensures
            match r {
                Some(c) => self@.contains_key(path@) && (match self@[path@] {
                    FsEntry::File(c2) => c == c2,
                    FsEntry::Dir => false,
                }),
                None => !self@.contains_key(path@) || self@[path@] is Dir,
            },
    {
        let n = self.entries.len();
        let mut i: usize = n;
        while i > 0
            invariant
                i <= n,
                n == self.entries@.len(),
                forall|j: int| i <= j < n ==> (#[trigger] self.entries@[j]).0@ != path@,
            decreases i,
        {
            i -= 1;
            if str_eq(self.entries[i].0.as_str(), path) {
                proof {
                    lemma_fs_at(self.entries@, path@, i as int);
                }
                match &self.entries[i].1 {
                    FsEntry::File(c) => {
                        return Some(c.clone());
                    },
                    FsEntry::Dir => {
                        return None;
                    },
                }
            }
        }
        proof {
            lemma_fs_absent(self.entries@, path@);
        }
        None
    }
}

} // verus!
