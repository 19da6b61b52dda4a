//! What the command handler decides from the command line: which experiments run,
//! whether root and a confirmation are needed, and what `check` and `list-targets` print.

use vstd::prelude::*;
use crate::error::{Error, Result};
use crate::experiments::Experiment;
use crate::symlink::ops::opt_view;
use crate::experiments::coreutils::CoreutilsExperiment;
use crate::experiments::findutils::FindutilsExperiment;
use crate::experiments::sudors::SudoRsExperiment;
use crate::experiments::checksums::ChecksumsExperiment;
use crate::utils::text::{ascii_lower, ascii_lowercase, chars_eq_str, concat_str, str_chars, trim, trim_ws};
use crate::utils::worker::strings_view;

verus! {

/// The operations of the command line.
#[derive(PartialEq, Eq, Structural, Clone, Copy, Debug)]
pub enum Operation {
    Enable,
    Disable,
    Remove,
    Check,
    ListTargets,
}

/// The `--aur-helper` choices.
#[derive(PartialEq, Eq, Structural, Clone, Copy, Debug)]
pub enum AurHelperArg {
    Auto,
    NoHelper,
    Paru,
    Yay,
    Trizen,
    Pamac,
}

impl AurHelperArg {
    /// The helper setting handed to the worker: the choice's own name.
    pub fn as_helper_str(&self) -> (r: &'static str)
        ensures
            r@ == match *self {
                AurHelperArg::Auto => "auto"@,
                AurHelperArg::NoHelper => "none"@,
                AurHelperArg::Paru => "paru"@,
                AurHelperArg::Yay => "yay"@,
                AurHelperArg::Trizen => "trizen"@,
                AurHelperArg::Pamac => "pamac"@,
            },
    {
        match self {
            AurHelperArg::Auto => "auto",
            AurHelperArg::NoHelper => "none",
            AurHelperArg::Paru => "paru",
            AurHelperArg::Yay => "yay",
            AurHelperArg::Trizen => "trizen",
            AurHelperArg::Pamac => "pamac",
        }
    }
}

/// The names of the registered experiments, in registry order.
pub open spec fn registry_names() -> Seq<Seq<char>> {
    seq!["findutils"@, "coreutils"@, "sudo-rs"@, "checksums"@]
}

/// The names asked for: the `--experiments` list when it is not empty, else the single
/// `--experiment`, else nothing.
pub open spec fn spec_selection(experiments: Seq<Seq<char>>, experiment: Option<Seq<char>>) -> Option<Seq<Seq<char>>> {
    if experiments.len() > 0 {
        Some(experiments)
    } else {
        match experiment {
            Some(e) => Some(seq![e]),
            None => None,
        }
    }
}

/// A registered name, kept when it is selected.
pub open spec fn keep_if_selected(sel: Seq<Seq<char>>, name: Seq<char>) -> Seq<Seq<char>> {
    if sel.contains(name) {
        seq![name]
    } else {
        Seq::empty()
    }
}

/// The registered names that are selected, in registry order.
pub open spec fn spec_matching(sel: Seq<Seq<char>>) -> Seq<Seq<char>> {
    keep_if_selected(sel, "findutils"@) + keep_if_selected(sel, "coreutils"@) + keep_if_selected(sel, "sudo-rs"@)
        + keep_if_selected(sel, "checksums"@)
}

/// When findutils and coreutils are both selected, findutils runs first, so that the GNU
/// checksum tools are still in place for its AUR build; the selection never holds a name
/// twice, whatever the command line repeats.
pub proof fn law_findutils_before_coreutils(sel: Seq<Seq<char>>)
    requires
        sel.contains("findutils"@),
        sel.contains("coreutils"@),
    ensures
        spec_matching(sel)[0] == "findutils"@,
        spec_matching(sel)[1] == "coreutils"@,
        forall|i: int, j: int|
            0 <= i < j < spec_matching(sel).len() ==> spec_matching(sel)[i] != spec_matching(sel)[j],
{
    reveal_strlit("findutils");
    reveal_strlit("coreutils");
    reveal_strlit("sudo-rs");
    reveal_strlit("checksums");
    assert("findutils"@[0] != "coreutils"@[0]);
    assert("findutils"@[0] != "checksums"@[0]);
    assert("coreutils"@[1] != "checksums"@[1]);
    assert("sudo-rs"@[0] != "checksums"@[0]);
    assert("findutils"@[0] != "sudo-rs"@[0]);
    assert("coreutils"@[0] != "sudo-rs"@[0]);
}

/// The names of a sequence of experiments.
pub open spec fn experiment_names(v: Seq<Experiment>) -> Seq<Seq<char>> {
    v.map_values(|e: Experiment| e.spec_name())
}

/// Whether a list of strings holds the given one.
pub fn contains_string(v: &Vec<String>, s: &str) -> (r: bool)
    ensures
        r == strings_view(v@).contains(s@),
{
    let mut i: usize = 0;
    while i < v.len()
        invariant
            i <= v@.len(),
            forall|k: int| 0 <= k < i ==> strings_view(v@)[k] != s@,
        decreases v@.len() - i,
    {
        let c = str_chars(v[i].as_str());
        if chars_eq_str(c.as_slice(), s) {
            assert(strings_view(v@)[i as int] == s@);
            return true;
        }
        i = i + 1;
    }
    proof {
        assert forall|k: int| 0 <= k < strings_view(v@).len() implies strings_view(v@)[k] != s@ by {}
    }
    false
}

/// The experiments to run. With `all`, every registered experiment. Otherwise the names
/// asked for (`experiments`, or the single `experiment`) pick registered experiments, kept
/// in registry order. Asking for nothing, or for names that match nothing, is an error.
pub fn select_experiments(all: bool, experiments: &Vec<String>, experiment: &Option<String>) -> (r: Result<Vec<Experiment>>)
    ensures
        all ==> (r matches Ok(v) && experiment_names(v@) == registry_names()),
        !all && spec_selection(strings_view(experiments@), opt_view(*experiment)) is None ==> (r matches Err(
            Error::Other(m)) && m@ == "no experiments selected"@),
        !all ==> match spec_selection(strings_view(experiments@), opt_view(*experiment)) {
            Some(sel) => if spec_matching(sel).len() == 0 {
                r matches Err(Error::Other(m)) && m@ == "no experiments matched selection"@
            } else {
                r matches Ok(v) && experiment_names(v@) == spec_matching(sel)
            },
            None => true,
        },
{
    if all {
        let mut v: Vec<Experiment> = Vec::new();
        v.push(Experiment::Findutils(FindutilsExperiment::new()));
        v.push(Experiment::Coreutils(CoreutilsExperiment::new()));
        v.push(Experiment::SudoRs(SudoRsExperiment::new()));
        v.push(Experiment::Checksums(ChecksumsExperiment::new()));
        assert(experiment_names(v@) =~= registry_names());
        return Ok(v);
    }
    let sel: Vec<String> = if experiments.len() > 0 {
        experiments.clone()
    } else {
        match experiment {
            Some(e) => {
                let mut s: Vec<String> = Vec::new();
                s.push(e.clone());
                s
            },
            None => {
                return Err(Error::Other("no experiments selected".to_owned()));
            },
        }
    };
    let ghost want = spec_selection(strings_view(experiments@), opt_view(*experiment));
    proof {
        if experiments@.len() > 0 {
            assert(strings_view(sel@) =~= strings_view(experiments@));
        } else {
            assert(strings_view(sel@) =~= seq![experiment.unwrap()@]);
        }
        assert(want == Some(strings_view(sel@)));
    }
    let mut v: Vec<Experiment> = Vec::new();
    let ghost s = strings_view(sel@);
    if contains_string(&sel, "findutils") {
        v.push(Experiment::Findutils(FindutilsExperiment::new()));
    }
    assert(experiment_names(v@) =~= keep_if_selected(s, "findutils"@));
    let ghost v1 = v@;
    if contains_string(&sel, "coreutils") {
        v.push(Experiment::Coreutils(CoreutilsExperiment::new()));
    }
    assert(experiment_names(v@) =~= experiment_names(v1) + keep_if_selected(s, "coreutils"@));
    let ghost v2 = v@;
    if contains_string(&sel, "sudo-rs") {
        v.push(Experiment::SudoRs(SudoRsExperiment::new()));
    }
    assert(experiment_names(v@) =~= experiment_names(v2) + keep_if_selected(s, "sudo-rs"@));
    let ghost v3 = v@;
    if contains_string(&sel, "checksums") {
        v.push(Experiment::Checksums(ChecksumsExperiment::new()));
    }
    assert(experiment_names(v@) =~= experiment_names(v3) + keep_if_selected(s, "checksums"@));
    assert(experiment_names(v@) =~= spec_matching(s));
    if v.len() == 0 {
        return Err(Error::Other("no experiments matched selection".to_owned()));
    }
    Ok(v)
}

/// Whether an operation must run as root: enable, disable and remove do, unless it is a
/// dry run; check and list-targets never do.
pub open spec fn spec_needs_root(op: Operation, dry_run: bool) -> bool {
    !dry_run && (op == Operation::Enable || op == Operation::Disable || op == Operation::Remove)
}

/// Whether an operation must run as root.
pub fn needs_root(op: Operation, dry_run: bool) -> (r: bool)
    ensures
        r == spec_needs_root(op, dry_run),
{
    !dry_run && (op == Operation::Enable || op == Operation::Disable || op == Operation::Remove)
}

/// Whether the user is asked before switching: only `enable` asks, and `--assume-yes`
/// skips the question.
pub fn needs_confirmation(op: Operation, assume_yes: bool) -> (r: bool)
    ensures
        r == (op == Operation::Enable && !assume_yes),
{
    op == Operation::Enable && !assume_yes
}

/// An answer to the confirmation prompt accepts when, trimmed and in lower case, it is
/// `y` or `yes`.
pub open spec fn spec_confirmed(answer: Seq<char>) -> bool {
    let a = ascii_lower(trim_ws(answer));
    a == "y"@ || a == "yes"@
}

/// Whether an answer to the confirmation prompt accepts.
pub fn confirmed(answer: &str) -> (r: bool)
    ensures
        r == spec_confirmed(answer@),
{
    let c = str_chars(answer);
    let t = trim(c.as_slice());
    let a = ascii_lowercase(t.as_slice());
    chars_eq_str(a.as_slice(), "y") || chars_eq_str(a.as_slice(), "yes")
}

/// The line that `check` prints for an experiment.
pub open spec fn spec_check_line(name: Seq<char>, compatible: bool) -> Seq<char> {
    name + "\tCompatible: "@ + (if compatible { "true"@ } else { "false"@ })
}

/// The line that `check` prints for an experiment.
pub fn check_line(name: &str, compatible: bool) -> (r: String)
    ensures
        r@ == spec_check_line(name@, compatible),
{
    let a = concat_str(name, "\tCompatible: ");
    if compatible {
        concat_str(a.as_str(), "true")
    } else {
        concat_str(a.as_str(), "false")
    }
}

/// The line that `list-targets` prints for a target of an experiment.
pub fn target_line(name: &str, target: &str) -> (r: String)
    ensures
        r@ == name@ + "\t"@ + target@,
{
    let a = concat_str(name, "\t");
    concat_str(a.as_str(), target)
}

} // verus!
