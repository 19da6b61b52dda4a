//! The targets a uutils experiment affects.

use vstd::prelude::*;
use crate::error::Result;
use crate::experiments::uutils::model::UutilsExperiment;
use crate::experiments::uutils::utils::{resolve_target, spec_uutils_target};
use crate::utils::paths::{file_name, path_file_name};
use crate::utils::text::{str_chars, string_from};
use crate::utils::worker::{strings_view, Worker};

verus! {

/// The file name of a listed path as text, or empty when it has none.
pub open spec fn spec_listed_name(f: Seq<char>) -> Seq<char> {
    match path_file_name(f) {
        Some(n) => n,
        None => seq![],
    }
}

/// The file name of a listed path, or empty when it has none.
pub fn listed_name(f: &str) -> (r: String)
    ensures
        r@ == spec_listed_name(f@),
{
    let c = str_chars(f);
    match file_name(c.as_slice()) {
        Some(n) => string_from(n.as_slice()),
        None => String::new(),
    }
}

/// The targets of a directory's listed files: for each file with a name, in order, the
/// name's target (see `spec_uutils_target`).
pub open spec fn spec_file_targets<W: Worker>(w: &W, fs: Seq<Seq<char>>) -> Seq<Seq<char>>
    decreases fs.len(),
{
    if fs.len() == 0 {
        seq![]
    } else {
        spec_file_targets(w, fs.drop_last()) + if spec_listed_name(fs.last()).len() > 0 {
            seq![spec_uutils_target(w, spec_listed_name(fs.last()))]
        } else {
            seq![]
        }
    }
}

/// The targets of the files in a directory listing.
pub fn file_targets<W: Worker>(worker: &W, files: &Vec<String>) -> (r: Vec<String>)
    ensures
        strings_view(r@) == spec_file_targets(worker, strings_view(files@)),
{
    let ghost fv = strings_view(files@);
    let mut out: Vec<String> = Vec::new();
    let mut i: usize = 0;
    assert(fv.take(0) =~= Seq::<Seq<char>>::empty());
    while i < files.len()
        invariant
            i <= files@.len(),
            fv == strings_view(files@),
            strings_view(out@) == spec_file_targets(worker, fv.take(i as int)),
        decreases files@.len() - i,
    {
        proof {
            assert(fv.take(i + 1).drop_last() =~= fv.take(i as int));
            assert(fv.take(i + 1).last() == files@[i as int]@);
        }
        let name = listed_name(files[i].as_str());
        let ghost o = out@;
        if !name.as_str().is_empty() {
            out.push(resolve_target(worker, name.as_str()));
            assert(strings_view(out@) =~= strings_view(o).push(out@.last()@));
        } else {
            assert(strings_view(out@) =~= strings_view(o) + seq![]);
        }
        i = i + 1;
    }
    assert(fv.take(files@.len() as int) =~= fv);
    out
}

impl UutilsExperiment {
    /// Lists target paths that would be affected: one for each named file in the binary
    /// directory, in order (see `spec_file_targets`); a listing that fails is an error.
    pub fn list_targets<W: Worker>(&self, worker: &W) -> (r: Result<Vec<String>>)
        ensures
            match worker.spec_list_files(self.bin_directory@) {
                Some(fs) => r matches Ok(v) && strings_view(v@) == spec_file_targets(worker, fs),
                None => r is Err,
            },
    {
        let files = worker.list_files(self.bin_directory.as_str())?;
        Ok(file_targets(worker, &files))
    }
}

} // verus!
