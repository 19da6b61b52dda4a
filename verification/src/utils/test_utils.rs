//! A worker that answers from fixed values, for exercising experiments.

use vstd::prelude::*;
use crate::error::Result;
use crate::utils::Distribution;
use crate::utils::text::concat_str;
use crate::utils::worker::{strings_view, Worker};

verus! {

/// A mock worker: the given distribution, every package installed, every binary at
/// `/usr/bin/<name>`, no files listed, and every change accepted without effect.
pub struct MockWorker {
    pub distribution: Distribution,
}

impl Default for MockWorker {
    fn default() -> (r: Self)
        ensures
            r.distribution.id@ == "arch"@,
            r.distribution.id_like@ == "arch"@,
            r.distribution.release@ == "rolling"@,
    {
        Self {
            distribution: Distribution {
                id: "arch".to_owned(),
                id_like: "arch".to_owned(),
                release: "rolling".to_owned(),
            },
        }
    }
}

impl Worker for MockWorker {
    open spec fn spec_update_outcome(&self, assume_yes: bool, r: Result<()>) -> bool {
        r is Ok
    }

    open spec fn spec_install_outcome(&self, package: Seq<char>, assume_yes: bool, r: Result<()>) -> bool {
        r is Ok
    }

    open spec fn spec_remove_outcome(&self, package: Seq<char>, assume_yes: bool, r: Result<()>) -> bool {
        r is Ok
    }

    open spec fn spec_installed_answer(&self, package: Seq<char>, r: Result<bool>) -> bool {
        r matches Ok(true)
    }

    open spec fn spec_link_outcome(&self, source: Seq<char>, target: Seq<char>, r: Result<()>) -> bool {
        r is Ok
    }

    open spec fn spec_restore_outcome(&self, target: Seq<char>, r: Result<()>) -> bool {
        r is Ok
    }

    open spec fn spec_force_link_outcome(&self, source: Seq<char>, link: Seq<char>, r: core::result::Result<(), String>) -> bool {
        r is Ok
    }

    open spec fn spec_copy_outcome(&self, from: Seq<char>, to: Seq<char>, r: core::result::Result<(), String>) -> bool {
        r is Ok
    }

    open spec fn spec_link_status(&self, path: Seq<char>, r: core::result::Result<bool, String>) -> bool {
        r matches Ok(true)
    }

    open spec fn spec_distribution_id(&self) -> Option<Seq<char>> {
        Some(self.distribution.id@)
    }

    open spec fn spec_extra_repo(&self) -> Option<bool> {
        Some(true)
    }

    open spec fn spec_aur_helper(&self) -> Option<bool> {
        Some(false)
    }

    open spec fn spec_repo_has(&self, package: Seq<char>) -> Option<bool> {
        Some(true)
    }

    open spec fn spec_which(&self, name: Seq<char>) -> Option<Option<Seq<char>>> {
        Some(Some("/usr/bin/"@ + name))
    }

    open spec fn spec_path_exists(&self, path: Seq<char>) -> bool {
        false
    }

    open spec fn spec_list_files(&self, dir: Seq<char>) -> Option<Seq<Seq<char>>> {
        Some(seq![])
    }

    fn distribution(&self) -> (r: Result<Distribution>)
        ensures
            r matches Ok(d) && d.id@ == self.distribution.id@ && d.id_like@ == self.distribution.id_like@ && d.release@ == self.distribution.release@,
    {
        Ok(self.distribution.duplicate())
    }

    fn update_packages(&self, _assume_yes: bool) -> (r: Result<()>)
        ensures
            r is Ok,
    {
        Ok(())
    }

    fn install_package(&self, _package: &str, _assume_yes: bool) -> (r: Result<()>)
        ensures
            r is Ok,
    {
        Ok(())
    }

    fn remove_package(&self, _package: &str, _assume_yes: bool) -> (r: Result<()>)
        ensures
            r is Ok,
    {
        Ok(())
    }

    fn check_installed(&self, _package: &str) -> (r: Result<bool>)
        ensures
            r matches Ok(true),
    {
        Ok(true)
    }

    fn which(&self, name: &str) -> (r: Result<Option<String>>)
        ensures
            r matches Ok(Some(p)) && p@ == "/usr/bin/"@ + name@,
    {
        Ok(Some(concat_str("/usr/bin/", name)))
    }

    fn list_files(&self, _dir: &str) -> (r: Result<Vec<String>>)
        ensures
            r matches Ok(v) && v@.len() == 0,
    {
        let v: Vec<String> = Vec::new();
        assert(strings_view(v@) =~= seq![]);
        Ok(v)
    }

    fn path_exists(&self, _path: &str) -> (r: bool)
        ensures
            !r,
    {
        false
    }

    fn symlink_status(&self, _path: &str) -> (r: core::result::Result<bool, String>)
        ensures
            r matches Ok(true),
    {
        Ok(true)
    }

    fn read_link(&self, _path: &str) -> (r: Option<String>)
        ensures
            r is None,
    {
        None
    }

    fn force_symlink(&self, _source: &str, _link: &str) -> (r: core::result::Result<(), String>)
        ensures
            r is Ok,
    {
        Ok(())
    }

    fn copy_file_with_permissions(&self, _from: &str, _to: &str) -> (r: core::result::Result<(), String>)
        ensures
            r is Ok,
    {
        Ok(())
    }

    fn replace_file_with_symlink(&self, _source: &str, _target: &str) -> (r: Result<()>)
        ensures
            r is Ok,
    {
        Ok(())
    }

    fn restore_file(&self, _target: &str) -> (r: Result<()>)
        ensures
            r is Ok,
    {
        Ok(())
    }

    fn extra_repo_available(&self) -> (r: Result<bool>)
        ensures
            r matches Ok(true),
    {
        Ok(true)
    }

    fn aur_helper_name(&self) -> (r: Result<Option<String>>)
        ensures
            r matches Ok(None),
    {
        Ok(None)
    }

    fn repo_has_package(&self, _package: &str) -> (r: Result<bool>)
        ensures
            r matches Ok(true),
    {
        Ok(true)
    }
}

} // verus!
