//! The packager: holds a package's retrieved modules and drives the
//! merge that turns them into one definition table.

use vstd::prelude::*;
use crate::merger::{inputs_installed, merged_ok, MergeError, ModuleMerger};
use crate::retriever::FileRetriever;
use crate::table::MergedModule;

verus! {

/// One package on its way through the front-end: its name, its
/// retrieved modules, and the merger that will combine them.
#[derive(Debug)]
pub struct Packager {
    pub package_name: String,
    pub retriever: Option<FileRetriever>,
    pub module_merger: ModuleMerger,
}

impl Packager {
    pub fn new(package_name: &str, retriever: FileRetriever) -> (r: Packager)
        ensures
            r.retriever == Some(retriever),
            r.package_name@ == package_name@,
            r.module_merger.package_name@ == package_name@,
    {
        Packager {
            package_name: package_name.to_owned(),
            retriever: Some(retriever),
            module_merger: ModuleMerger::new(package_name),
        }
    }

    /// Resolves, hoists and links every retrieved module. On success
    /// the private table holds the whole package under globally unique
    /// names, fully linked.
    pub fn merge_modules(&mut self) -> (r: Result<MergedModule, MergeError>)
        requires
            old(self).retriever is Some,
        ensures
            final(self).retriever is None,
            match r {
                Ok(mm) => merged_ok(mm) && (match old(self).retriever {
                    Some(rt) => inputs_installed(rt.modules@, mm.private_definitions),
                    None => false,
                }),
                Err(_) => true,
            },
            (match old(self).retriever {
                Some(rt) => rt.modules@.len() == 0,
                None => false,
            }) ==> r is Ok,
    {
        let rt = match self.retriever.take() {
            Some(rt) => rt,
            None => {
                proof {
                    assert(false);
                }
                vstd::pervasive::unreached()
            },
        };
        self.module_merger.merge_modules(rt.modules)
    }
}

} // verus!
