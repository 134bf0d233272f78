//! The file retriever: starting from a package's entry file, follows
//! `mod` declarations to discover, read and parse every module of the
//! package, keying each by its canonical module path.

use vstd::prelude::*;
use vstd::string::StringExecFns;
use vstd::seq_lib::*;
use vstd::set_lib::lemma_len_subset;
use crate::ast::Module;
use crate::names::str_eq;
use crate::parse::{parse_module_source, raw_module};
use crate::vfs::{fs_map, FsEntry, MockFileSystem};

verus! {

/// Errors of module discovery.
#[derive(Debug, PartialEq)]
pub enum RetrieverError {
    /// A `mod` declaration whose file is absent; the payload is the
    /// missing file path.
    MissingModuleFile(String),
    /// Two `mod` declarations mapping to the same module; the payload
    /// is the declared module name.
    DuplicateModule(String),
    /// A file the parser rejected: its path and the parser's message.
    ParseFailure(String, String),
}

fn contains_module(v: &Vec<(String, Module)>, s: &str) -> (r: bool)
    ensures
        r == exists|j: int| 0 <= j < v@.len() && (#[trigger] v@[j]).0@ == s@,
{
    let n = v.len();
    let mut i: usize = 0;
    while i < n
        invariant
            i <= n,
            n == v@.len(),
            forall|j: int| 0 <= j < i ==> (#[trigger] v@[j]).0@ != s@,
        decreases n - i,
    {
        if str_eq(v[i].0.as_str(), s) {
            return true;
        }
        i += 1;
    }
    false
}

fn contains_str(v: &Vec<String>, s: &str) -> (r: bool)
    ensures
        r == exists|j: int| 0 <= j < v@.len() && (#[trigger] v@[j])@ == s@,
{
    let n = v.len();
    let mut i: usize = 0;
    while i < n
        invariant
            i <= n,
            n == v@.len(),
            forall|j: int| 0 <= j < i ==> (#[trigger] v@[j])@ != s@,
        decreases n - i,
    {
        if str_eq(v[i].as_str(), s) {
            return true;
        }
        i += 1;
    }
    false
}

proof fn lemma_fs_dom_finite(s: Seq<(String, FsEntry)>)
    ensures
        fs_map(s).dom().finite(),
    decreases s.len(),
{
    if s.len() == 0 {
        assert(fs_map(s).dom() =~= Set::<Seq<char>>::empty());
    } else {
        lemma_fs_dom_finite(s.drop_last());
    }
}

proof fn lemma_fs_dom_len(s: Seq<(String, FsEntry)>)
    ensures
        fs_map(s).dom().finite(),
        fs_map(s).dom().len() <= s.len(),
    decreases s.len(),
{
    lemma_fs_dom_finite(s);
    if s.len() > 0 {
        lemma_fs_dom_len(s.drop_last());
        assert(fs_map(s).dom() =~= fs_map(s.drop_last()).dom().insert(s.last().0@));
    }
}

/// The view of a list of visited file paths.
pub open spec fn path_views(v: Seq<String>) -> Seq<Seq<char>> {
    v.map_values(|s: String| s@)
}

/// Discovers and parses every module of one package.
#[derive(Debug)]
pub struct FileRetriever {
    pub modules: Vec<(String, Module)>,
}

impl FileRetriever {
    /// Walks the filesystem from the entry file `main.ing` of the
    /// root directory, following every `mod` declaration: a declaration
    /// `mod x;` of the module at directory `d` names the file
    /// `d/x.ing`, whose own children live under `d/x/`. Each file is
    /// read and parsed once; a module declared twice in one parent —
    /// two declarations naming the same file — is a duplicate. On
    /// success the module paths are pairwise distinct and each is a
    /// path of the package itself, under the `/root` prefix.
    pub fn new(fs: MockFileSystem) -> (r: Result<FileRetriever, RetrieverError>)
        ensures
            match r {
                Ok(rt) => {
                    &&& forall|i: int, j: int|
                        0 <= i < j < rt.modules@.len() ==> (#[trigger] rt.modules@[i]).0@ != (
                        #[trigger] rt.modules@[j]).0@
                    &&& forall|i: int|
                        0 <= i < rt.modules@.len() ==> crate::ast::is_local_module(
                            (#[trigger] rt.modules@[i]).0@,
                        ) && raw_module(rt.modules@[i].1)
                },
                Err(_) => true,
            },
            fs@ == Map::<Seq<char>, crate::vfs::FsEntry>::empty() ==> r is Err,
    {
        proof {
            reveal_strlit("/root");
            reveal_strlit("main.ing");
            reveal_strlit(".ing");
            reveal_strlit("/");
        }
        let mut modules: Vec<(String, Module)> = Vec::new();
        let mut files: Vec<String> = Vec::new();
        let mut worklist: Vec<(String, String, String, String)> = Vec::new();
        let mut entry = fs.root.clone();
        entry.append("main.ing");
        let root_path = "/root".to_owned();
        assert(root_path@ =~= seq!['/', 'r', 'o', 'o', 't']);
        worklist.push((root_path, fs.root.clone(), entry, "root".to_owned()));
        while worklist.len() > 0
            invariant
                fs@ == Map::<Seq<char>, FsEntry>::empty() ==> worklist@.len() > 0,
                path_views(files@).no_duplicates(),
                forall|j: int|
                    0 <= j < files@.len() ==> fs@.contains_key((#[trigger] files@[j])@),
                forall|i: int, j: int|
                    0 <= i < j < modules@.len() ==> (#[trigger] modules@[i]).0@ != (
                    #[trigger] modules@[j]).0@,
                forall|i: int|
                    0 <= i < modules@.len() ==> crate::ast::is_local_module(
                        (#[trigger] modules@[i]).0@,
                    ) && raw_module(modules@[i].1),
                forall|i: int|
                    0 <= i < worklist@.len() ==> crate::ast::is_local_module(
                        (#[trigger] worklist@[i]).0@,
                    ),
            decreases fs@.dom().len() - path_views(files@).to_set().len(), worklist@.len(),
        {
            let (mod_path, dir, file_path, decl_name) = match worklist.pop() {
                Some(w) => w,
                None => {
                    return Err(RetrieverError::MissingModuleFile("".to_owned()));
                },
            };
            if contains_str(&files, file_path.as_str()) {
                return Err(RetrieverError::DuplicateModule(decl_name));
            }
            if contains_module(&modules, mod_path.as_str()) {
                return Err(RetrieverError::DuplicateModule(decl_name));
            }
            let source = match fs.read_file(file_path.as_str()) {
                Some(s) => s,
                None => {
                    return Err(RetrieverError::MissingModuleFile(file_path));
                },
            };
            let module = match parse_module_source(source.as_str()) {
                Ok(m) => m,
                Err(msg) => {
                    return Err(RetrieverError::ParseFailure(file_path, msg));
                },
            };
            assert(crate::ast::is_local_module(mod_path@));
            let n = module.mods.len();
            let mut i: usize = 0;
            while i < n
                invariant
                    i <= n,
                    n == module.mods@.len(),
                    crate::ast::is_local_module(mod_path@),
                    forall|k: int|
                        0 <= k < worklist@.len() ==> crate::ast::is_local_module(
                            (#[trigger] worklist@[k]).0@,
                        ),
                decreases n - i,
            {
                let name = &module.mods[i].name;
                let mut child_file = dir.clone();
                child_file.append(name.as_str());
                child_file.append(".ing");
                let mut child_dir = dir.clone();
                child_dir.append(name.as_str());
                child_dir.append("/");
                let mut child_mod = mod_path.clone();
                child_mod.append("/");
                child_mod.append(name.as_str());
                assert(crate::ast::is_local_module(child_mod@));
                worklist.push((child_mod, child_dir, child_file, name.clone()));
                i += 1;
            }
            proof {
                let ghost old_views = path_views(files@);
                assert(!old_views.to_set().contains(file_path@)) by {
                    if old_views.to_set().contains(file_path@) {
                        let j = choose|j: int|
                            0 <= j < old_views.len() && old_views[j] == file_path@;
                        assert(files@[j]@ == file_path@);
                    }
                }
            }
            let ghost files_before = files@;
            files.push(file_path);
            modules.push((mod_path, module));
            proof {
                assert(path_views(files@) =~= path_views(files_before).push(
                    files@.last()@,
                ));
                assert(path_views(files@).no_duplicates()) by {
                    let pv = path_views(files@);
                    let pvb = path_views(files_before);
                    assert forall|a: int, b: int| 0 <= a < b < pv.len() implies pv[a] != pv[b] by {
                        if b == pv.len() - 1 {
                            if pvb.to_set().contains(pv[b]) {
                            } else {
                                assert(pvb[a] == pv[a]);
                                if pv[a] == pv[b] {
                                    assert(pvb.to_set().contains(pvb[a]));
                                }
                            }
                        } else {
                            assert(pvb[a] == pv[a] && pvb[b] == pv[b]);
                        }
                    }
                }
                lemma_fs_dom_len(fs.entries@);
                let pv = path_views(files@);
                let pvb = path_views(files_before);
                pv.unique_seq_to_set();
                pvb.unique_seq_to_set();
                let x = files@.last()@;
                assert forall|p: Seq<char>| #[trigger] pv.to_set().contains(p) implies pvb.to_set().insert(
                    x,
                ).contains(p) by {
                    let j = choose|j: int| 0 <= j < pv.len() && pv[j] == p;
                    if j < pvb.len() {
                        assert(pvb[j] == p);
                        assert(pvb.to_set().contains(p));
                    } else {
                        assert(p == x);
                    }
                }
                assert forall|p: Seq<char>| #[trigger] pvb.to_set().insert(x).contains(p) implies pv.to_set().contains(
                    p,
                ) by {
                    if p == x {
                        assert(pv[pv.len() - 1] == x);
                        assert(pv.contains(x));
                    } else {
                        let j = choose|j: int| 0 <= j < pvb.len() && pvb[j] == p;
                        assert(pv[j] == p);
                        assert(pv.contains(p));
                    }
                }
                assert(pv.to_set() =~= pvb.to_set().insert(x));
                assert forall|p: Seq<char>| pv.to_set().contains(p) implies fs@.dom().contains(
                    p,
                ) by {
                    let j = choose|j: int| 0 <= j < pv.len() && pv[j] == p;
                    assert(files@[j]@ == p);
                }
                lemma_len_subset(pv.to_set(), fs@.dom());
            }
        }
        Ok(FileRetriever { modules })
    }
}

} // verus!
