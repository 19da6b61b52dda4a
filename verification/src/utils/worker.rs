//! The worker abstraction through which experiments reach the system, and the
//! validation rules that guard what is handed to it.

use vstd::prelude::*;
use crate::config::aur_helpers::{PAMAC, PARU, TRIZEN, YAY};
use crate::config::security::MAX_PACKAGE_NAME_LENGTH;
use crate::error::{Error, Result};
use crate::utils::Distribution;
use crate::utils::text::{
    char_is_alphanumeric, is_alphanumeric, is_ascii_alnum, str_chars, utf8_len,
    utf8_len_exceeds,
};

pub use crate::symlink::ops::{backup_path, is_safe_path};

verus! {

/// Abstracts the system operations needed by experiments. Paths are passed as text.
///
/// Seven queries have a model: the distribution's id (and the error when it cannot be
/// read), whether the `extra` repository is configured, whether an AUR helper is
/// available, whether the repositories carry a package, what the search path finds for a
/// name, whether a path exists, and the files of a directory. These describe the system's
/// setup and where the installed packages put their binaries, which the experiments leave
/// as they are while they run: they replace targets that already exist, and look binaries
/// up only after installing. So an implementation answers each query the same way
/// throughout a run, and the spec functions name those answers (`None` where the query
/// fails). The one place where an experiment may itself create a path that it then asks
/// about is the link to the coreutils dispatcher; what depends on that answer is stated
/// for either answer. An implementation that does not define the spec functions leaves
/// the answers unnamed, each one fixed but unknown.
///
/// Each call that changes the system, and each installed or symlink check, has its
/// answers named too (`spec_link_outcome` and the like): a relation between the call's
/// arguments and what the worker can answer with. These do not claim the answer is the
/// same each time; they tie each answer to the call and the arguments it was given.
pub trait Worker {
    /// The distribution's id as the system reports it.
    closed spec fn spec_distribution_id(&self) -> Option<Seq<char>> {
        arbitrary()
    }

    /// Whether the `extra` repository is configured.
    closed spec fn spec_extra_repo(&self) -> Option<bool> {
        arbitrary()
    }

    /// Whether an AUR helper is available.
    closed spec fn spec_aur_helper(&self) -> Option<bool> {
        arbitrary()
    }

    /// Whether the official repositories carry `package`.
    closed spec fn spec_repo_has(&self, package: Seq<char>) -> Option<bool> {
        arbitrary()
    }

    /// The error of the distribution query, when it fails.
    closed spec fn spec_distribution_error(&self) -> Error {
        arbitrary()
    }

    /// What the search path finds for `name`.
    closed spec fn spec_which(&self, name: Seq<char>) -> Option<Option<Seq<char>>> {
        arbitrary()
    }

    /// Whether something exists at `path`.
    closed spec fn spec_path_exists(&self, path: Seq<char>) -> bool {
        arbitrary()
    }

    /// The regular files directly inside `dir`.
    closed spec fn spec_list_files(&self, dir: Seq<char>) -> Option<Seq<Seq<char>>> {
        arbitrary()
    }

    /// The answers the worker can give when asked to refresh the package databases.
    closed spec fn spec_update_outcome(&self, assume_yes: bool, r: Result<()>) -> bool {
        arbitrary()
    }

    /// The answers the worker can give when asked to install `package`.
    closed spec fn spec_install_outcome(&self, package: Seq<char>, assume_yes: bool, r: Result<()>) -> bool {
        arbitrary()
    }

    /// The answers the worker can give when asked to remove `package`.
    closed spec fn spec_remove_outcome(&self, package: Seq<char>, assume_yes: bool, r: Result<()>) -> bool {
        arbitrary()
    }

    /// The answers the worker can give when asked whether `package` is installed.
    closed spec fn spec_installed_answer(&self, package: Seq<char>, r: Result<bool>) -> bool {
        arbitrary()
    }

    /// The answers the worker can give when asked to swap `target` for a symlink to
    /// `source`.
    closed spec fn spec_link_outcome(&self, source: Seq<char>, target: Seq<char>, r: Result<()>) -> bool {
        arbitrary()
    }

    /// The answers the worker can give when asked to restore `target` from its backup.
    closed spec fn spec_restore_outcome(&self, target: Seq<char>, r: Result<()>) -> bool {
        arbitrary()
    }

    /// The answers the worker can give when asked to put a symlink to `source` at `link`.
    closed spec fn spec_force_link_outcome(
        &self,
        source: Seq<char>,
        link: Seq<char>,
        r: core::result::Result<(), String>,
    ) -> bool {
        arbitrary()
    }

    /// The answers the worker can give when asked to copy `from` to `to`.
    closed spec fn spec_copy_outcome(&self, from: Seq<char>, to: Seq<char>, r: core::result::Result<(), String>) -> bool {
        arbitrary()
    }

    /// The answers the worker can give when asked whether `path` is a symlink.
    closed spec fn spec_link_status(&self, path: Seq<char>, r: core::result::Result<bool, String>) -> bool {
        arbitrary()
    }

    /// Distribution and release.
    fn distribution(&self) -> (r: Result<Distribution>)
        ensures
            match r {
                Ok(d) => self.spec_distribution_id() == Some(d.id@),
                Err(e) => self.spec_distribution_id() is None && e == self.spec_distribution_error(),
            };

    /// Refresh the package databases.
    fn update_packages(&self, assume_yes: bool) -> (r: Result<()>)
        ensures
            self.spec_update_outcome(assume_yes, r);

    /// Install a package.
    fn install_package(&self, package: &str, assume_yes: bool) -> (r: Result<()>)
        ensures
            self.spec_install_outcome(package@, assume_yes, r);

    /// Remove a package.
    fn remove_package(&self, package: &str, assume_yes: bool) -> (r: Result<()>)
        ensures
            self.spec_remove_outcome(package@, assume_yes, r);

    /// Whether a package is installed.
    fn check_installed(&self, package: &str) -> (r: Result<bool>)
        ensures
            self.spec_installed_answer(package@, r);

    /// Find a binary on the search path.
    fn which(&self, name: &str) -> (r: Result<Option<String>>)
        ensures
            match r {
                Ok(Some(p)) => self.spec_which(name@) == Some(Some(p@)),
                Ok(None) => self.spec_which(name@) == Some(None::<Seq<char>>),
                Err(_) => self.spec_which(name@) is None,
            };

    /// The regular files directly inside a directory.
    fn list_files(&self, dir: &str) -> (r: Result<Vec<String>>)
        ensures
            match r {
                Ok(v) => self.spec_list_files(dir@) == Some(strings_view(v@)),
                Err(_) => self.spec_list_files(dir@) is None,
            };

    /// Whether something exists at a path (following symlinks).
    fn path_exists(&self, path: &str) -> (r: bool)
        ensures
            r == self.spec_path_exists(path@);

    /// Whether the path itself is a symlink, or the message of the failure to inspect it.
    fn symlink_status(&self, path: &str) -> (r: core::result::Result<bool, String>)
        ensures
            self.spec_link_status(path@, r);

    /// Where a symlink points, if the path is a readable symlink.
    fn read_link(&self, path: &str) -> Option<String>;

    /// Put a symlink to `source` at `link`, replacing whatever was there, without backup.
    fn force_symlink(&self, source: &str, link: &str) -> (r: core::result::Result<(), String>)
        ensures
            self.spec_force_link_outcome(source@, link@, r);

    /// Copy a file, keeping its permissions; the destination's directory is created and a
    /// file already there is replaced.
    fn copy_file_with_permissions(&self, from: &str, to: &str) -> (r: core::result::Result<(), String>)
        ensures
            self.spec_copy_outcome(from@, to@, r);

    /// Swap a target for a symlink to the source, backing the target up.
    fn replace_file_with_symlink(&self, source: &str, target: &str) -> (r: Result<()>)
        ensures
            self.spec_link_outcome(source@, target@, r);

    /// Restore a target from its backup.
    fn restore_file(&self, target: &str) -> (r: Result<()>)
        ensures
            self.spec_restore_outcome(target@, r);

    /// Whether the official `extra` repository is configured.
    fn extra_repo_available(&self) -> (r: Result<bool>)
        ensures
            match r {
                Ok(b) => self.spec_extra_repo() == Some(b),
                Err(_) => self.spec_extra_repo() is None,
            };

    /// The AUR helper that is available, if any.
    fn aur_helper_name(&self) -> (r: Result<Option<String>>)
        ensures
            match r {
                Ok(h) => self.spec_aur_helper() == Some(h is Some),
                Err(_) => self.spec_aur_helper() is None,
            };

    /// Whether the official repositories carry a package.
    fn repo_has_package(&self, package: &str) -> (r: Result<bool>)
        ensures
            match r {
                Ok(b) => self.spec_repo_has(package@) == Some(b),
                Err(_) => self.spec_repo_has(package@) is None,
            };
}

/// The characters that a package name may hold besides alphanumerics.
pub open spec fn is_name_punct(c: char) -> bool {
    c == '-' || c == '_' || c == '+' || c == '.'
}

/// A character allowed in a package name: alphanumeric (`char::is_alphanumeric`, which on
/// ASCII means letters and digits) or one of `- _ + .`.
pub open spec fn is_name_char(c: char) -> bool {
    (if (c as u32) < 128 {
        is_ascii_alnum(c)
    } else {
        char_is_alphanumeric(c)
    }) || is_name_punct(c)
}

/// A package name is valid when it is not empty, does not start with `-`, is at most
/// `MAX_PACKAGE_NAME_LENGTH` bytes long in UTF-8, and holds only alphanumerics and `- _ + .`.
pub open spec fn spec_is_valid_package_name(name: Seq<char>) -> bool {
    &&& name.len() > 0
    &&& name[0] != '-'
    &&& utf8_len(name) <= MAX_PACKAGE_NAME_LENGTH
    &&& forall|i: int| 0 <= i < name.len() ==> is_name_char(#[trigger] name[i])
}

/// Validate a package name, so that it cannot carry options or shell syntax.
pub fn is_valid_package_name(name: &str) -> (r: bool)
    ensures
        r == spec_is_valid_package_name(name@),
{
    let v = str_chars(name);
    if v.len() == 0 || v[0] == '-' {
        return false;
    }
    if utf8_len_exceeds(v.as_slice(), MAX_PACKAGE_NAME_LENGTH) {
        return false;
    }
    let mut i: usize = 0;
    while i < v.len()
        invariant
            i <= v@.len(),
            v@ == name@,
            forall|k: int| 0 <= k < i ==> is_name_char(#[trigger] v@[k]),
        decreases v@.len() - i,
    {
        let c = v[i];
        if !(is_alphanumeric(c) || c == '-' || c == '_' || c == '+' || c == '.') {
            assert(!is_name_char(v@[i as int]));
            return false;
        }
        i = i + 1;
    }
    true
}

/// Characters that a shell reads as syntax, quoting or separators.
pub open spec fn is_shell_meta(c: char) -> bool {
    c == ';' || c == '|' || c == '&' || c == '>' || c == '<' || c == '`' || c == '$' || c == '('
        || c == ')' || c == '{' || c == '}' || c == '[' || c == ']' || c == '\\' || c == '\'' || c
        == '"' || c == '*' || c == '?' || c == '~' || c == '#' || c == '!' || c == '=' || c == ' ' || c
        == '\t' || c == '\n' || c == '\r'
}

/// A valid package name can be handed to a command safely: it holds no shell
/// metacharacter, quote or whitespace, and cannot be read as an option.
pub proof fn law_valid_names_are_shell_safe(name: Seq<char>)
    requires
        spec_is_valid_package_name(name),
    ensures
        forall|i: int| 0 <= i < name.len() ==> !is_shell_meta(#[trigger] name[i]),
        name[0] != '-',
{
    assert forall|i: int| 0 <= i < name.len() implies !is_shell_meta(#[trigger] name[i]) by {
        assert(is_name_char(name[i]));
    }
}

/// The default helpers, in order.
pub open spec fn default_helpers() -> Seq<Seq<char>> {
    seq![PARU@, YAY@, TRIZEN@, PAMAC@]
}

/// The helpers to try: the configured one first (when one is configured), then the defaults.
pub open spec fn spec_aur_helper_candidates(configured: Seq<char>) -> Seq<Seq<char>> {
    if configured.len() > 0 {
        seq![configured] + default_helpers()
    } else {
        default_helpers()
    }
}

/// The views of a vector of strings.
pub open spec fn strings_view(v: Seq<String>) -> Seq<Seq<char>> {
    v.map_values(|s: String| s@)
}

/// The default helpers as strings.
pub fn default_helper_list() -> (r: Vec<String>)
    ensures
        strings_view(r@) == default_helpers(),
{
    let mut r: Vec<String> = Vec::new();
    r.push(PARU.to_owned());
    r.push(YAY.to_owned());
    r.push(TRIZEN.to_owned());
    r.push(PAMAC.to_owned());
    assert(strings_view(r@) =~= default_helpers());
    r
}

/// The AUR helpers to try: the configured one (if any) followed by the defaults.
pub fn aur_helper_candidates(configured: &str) -> (r: Vec<String>)
    ensures
        strings_view(r@) == spec_aur_helper_candidates(configured@),
{
    let defaults = default_helper_list();
    if !configured.is_empty() {
        let mut r: Vec<String> = Vec::new();
        r.push(configured.to_owned());
        let mut i: usize = 0;
        while i < defaults.len()
            invariant
                i <= defaults@.len(),
                strings_view(defaults@) == default_helpers(),
                strings_view(r@) == seq![configured@] + default_helpers().take(i as int),
            decreases defaults@.len() - i,
        {
            let d = defaults[i].clone();
            assert(d@ == default_helpers()[i as int]);
            let ghost old_r = r@;
            r.push(d);
            assert(strings_view(r@) =~= strings_view(old_r).push(d@));
            i = i + 1;
            assert(strings_view(r@) =~= seq![configured@] + default_helpers().take(i as int));
        }
        assert(default_helpers().take(4) =~= default_helpers());
        r
    } else {
        defaults
    }
}


/// Without a configured helper, only the whitelisted default helpers are ever tried.
pub proof fn law_unconfigured_helpers_are_whitelisted(configured: Seq<char>)
    requires
        configured.len() == 0,
    ensures
        spec_aur_helper_candidates(configured) == default_helpers(),
        forall|i: int| 0 <= i < spec_aur_helper_candidates(configured).len() ==> default_helpers().contains(
            #[trigger] spec_aur_helper_candidates(configured)[i],
        ),
{
}

/// A null worker, for scaffolding and dry checks: it touches nothing on the system; it
/// reports Arch rolling, no installed packages, no binaries and no files, and accepts every
/// operation without doing it. The worker that acts on the system is the program's own.
pub struct System {
    pub aur_helper: String,
}

impl Worker for System {
    open spec fn spec_update_outcome(&self, assume_yes: bool, r: Result<()>) -> bool {
        r is Ok
    }

    open spec fn spec_install_outcome(&self, package: Seq<char>, assume_yes: bool, r: Result<()>) -> bool {
        r is Ok
    }

    open spec fn spec_remove_outcome(&self, package: Seq<char>, assume_yes: bool, r: Result<()>) -> bool {
        r is Ok
    }

    open spec fn spec_installed_answer(&self, package: Seq<char>, r: Result<bool>) -> bool {
        r == Ok::<bool, Error>(false)
    }

    open spec fn spec_link_outcome(&self, source: Seq<char>, target: Seq<char>, r: Result<()>) -> bool {
        r is Ok
    }

    open spec fn spec_restore_outcome(&self, target: Seq<char>, r: Result<()>) -> bool {
        r is Ok
    }

    open spec fn spec_force_link_outcome(&self, source: Seq<char>, link: Seq<char>, r: core::result::Result<(), String>) -> bool {
        r is Ok
    }

    open spec fn spec_copy_outcome(&self, from: Seq<char>, to: Seq<char>, r: core::result::Result<(), String>) -> bool {
        r is Ok
    }

    open spec fn spec_link_status(&self, path: Seq<char>, r: core::result::Result<bool, String>) -> bool {
        r matches Ok(false)
    }

    open spec fn spec_distribution_id(&self) -> Option<Seq<char>> {
        Some("Arch"@)
    }

    open spec fn spec_extra_repo(&self) -> Option<bool> {
        Some(true)
    }

    open spec fn spec_aur_helper(&self) -> Option<bool> {
        Some(false)
    }

    open spec fn spec_repo_has(&self, package: Seq<char>) -> Option<bool> {
        Some(false)
    }

    open spec fn spec_which(&self, name: Seq<char>) -> Option<Option<Seq<char>>> {
        Some(None)
    }

    open spec fn spec_path_exists(&self, path: Seq<char>) -> bool {
        false
    }

    open spec fn spec_list_files(&self, dir: Seq<char>) -> Option<Seq<Seq<char>>> {
        Some(seq![])
    }

    fn distribution(&self) -> (r: Result<Distribution>)
        ensures
            r matches Ok(d) && d.id@ == "Arch"@ && d.id_like@.len() == 0 && d.release@ == "rolling"@,
    {
        Ok(Distribution { id: "Arch".to_owned(), id_like: String::new(), release: "rolling".to_owned() })
    }

    fn update_packages(&self, _assume_yes: bool) -> (r: Result<()>)
        ensures
            r is Ok,
    {
        Ok(())
    }

    fn install_package(&self, _package: &str, _assume_yes: bool) -> (r: Result<()>)
        ensures
            r is Ok,
    {
        Ok(())
    }

    fn remove_package(&self, _package: &str, _assume_yes: bool) -> (r: Result<()>)
        ensures
            r is Ok,
    {
        Ok(())
    }

    fn check_installed(&self, _package: &str) -> (r: Result<bool>)
        ensures
            r matches Ok(false),
    {
        Ok(false)
    }

    fn which(&self, _name: &str) -> (r: Result<Option<String>>)
        ensures
            r matches Ok(None),
    {
        Ok(None)
    }

    fn list_files(&self, _dir: &str) -> (r: Result<Vec<String>>)
        ensures
            r matches Ok(v) && v@.len() == 0,
    {
        let v: Vec<String> = Vec::new();
        assert(strings_view(v@) =~= seq![]);
        Ok(v)
    }

    fn path_exists(&self, _path: &str) -> (r: bool)
        ensures
            !r,
    {
        false
    }

    fn symlink_status(&self, _path: &str) -> (r: core::result::Result<bool, String>)
        ensures
            r matches Ok(false),
    {
        Ok(false)
    }

    fn read_link(&self, _path: &str) -> (r: Option<String>)
        ensures
            r is None,
    {
        None
    }

    fn force_symlink(&self, _source: &str, _link: &str) -> (r: core::result::Result<(), String>)
        ensures
            r is Ok,
    {
        Ok(())
    }

    fn copy_file_with_permissions(&self, _from: &str, _to: &str) -> (r: core::result::Result<(), String>)
        ensures
            r is Ok,
    {
        Ok(())
    }

    fn replace_file_with_symlink(&self, _source: &str, _target: &str) -> (r: Result<()>)
        ensures
            r is Ok,
    {
        Ok(())
    }

    fn restore_file(&self, _target: &str) -> (r: Result<()>)
        ensures
            r is Ok,
    {
        Ok(())
    }

    fn extra_repo_available(&self) -> (r: Result<bool>)
        ensures
            r matches Ok(true),
    {
        Ok(true)
    }

    fn aur_helper_name(&self) -> (r: Result<Option<String>>)
        ensures
            r matches Ok(None),
    {
        Ok(None)
    }

    fn repo_has_package(&self, _package: &str) -> (r: Result<bool>)
        ensures
            r matches Ok(false),
    {
        Ok(false)
    }
}

} // verus!
