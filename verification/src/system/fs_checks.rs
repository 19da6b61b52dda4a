//! Filesystem suitability checks: mount options, immutable flags and source trust.

use vstd::prelude::*;
use crate::error::{Error, Result};
use crate::utils::paths::{path_starts_with, starts_with_path};
use crate::utils::text::{
    ascii_lower, ascii_lowercase, chars_eq_str, contains_char, copy_chars, lines, split_char,
    split_lines, split_on, split_whitespace, split_ws, str_chars, string_from, utf8_len,
    utf8_length, views,
};

verus! {

/// A mount table entry found for a path: its mount point and its options.
pub struct MountEntry {
    pub mount_point: String,
    pub options: String,
}

/// The entry of a mount table (lines of `<source> <mount point> <type> <options> ...`)
/// whose mount point is the longest (in bytes) that begins the path; among equally long
/// ones the first; lines with fewer than four fields are skipped.
pub open spec fn spec_mount_scan(ls: Seq<Seq<char>>, p: Seq<char>) -> Option<(Seq<char>, Seq<char>)>
    decreases ls.len(),
{
    if ls.len() == 0 {
        None
    } else {
        let prev = spec_mount_scan(ls.drop_last(), p);
        let f = split_ws(ls.last());
        if f.len() >= 4 && path_starts_with(p, f[1]) {
            match prev {
                None => Some((f[1], f[3])),
                Some(b) => if utf8_len(f[1]) > utf8_len(b.0) {
                    Some((f[1], f[3]))
                } else {
                    prev
                },
            }
        } else {
            prev
        }
    }
}

/// The mount entry for `path` in a mount table text.
pub open spec fn spec_mount_entry_for(mounts: Seq<char>, path: Seq<char>) -> Option<(Seq<char>, Seq<char>)> {
    spec_mount_scan(split_lines(mounts), path)
}

/// The mount entry whose mount point is the longest one that begins `path`.
pub fn mount_entry_for(mounts: &str, path: &str) -> (r: Option<MountEntry>)
    ensures
        match r {
            Some(e) => spec_mount_entry_for(mounts@, path@) == Some((e.mount_point@, e.options@)),
            None => spec_mount_entry_for(mounts@, path@) is None,
        },
{
    let c = str_chars(mounts);
    let p = str_chars(path);
    let ls = lines(c.as_slice());
    let mut best: Option<(Vec<char>, Vec<char>)> = None;
    let mut i: usize = 0;
    assert(views(ls@).take(0) =~= seq![]);
    while i < ls.len()
        invariant
            i <= ls@.len(),
            p@ == path@,
            views(ls@) == split_lines(mounts@),
            match best {
                Some(b) => spec_mount_scan(views(ls@).take(i as int), p@) == Some((b.0@, b.1@)),
                None => spec_mount_scan(views(ls@).take(i as int), p@) is None,
            },
        decreases ls@.len() - i,
    {
        proof {
            assert(views(ls@).take(i + 1).drop_last() =~= views(ls@).take(i as int));
            assert(views(ls@).take(i + 1).last() == ls@[i as int]@);
        }
        let f = split_whitespace(ls[i].as_slice());
        if f.len() >= 4 && starts_with_path(p.as_slice(), f[1].as_slice()) {
            let replace = match &best {
                None => true,
                Some(b) => utf8_length(f[1].as_slice()) > utf8_length(b.0.as_slice()),
            };
            if replace {
                best = Some((copy_chars(f[1].as_slice()), copy_chars(f[3].as_slice())));
            }
        }
        i = i + 1;
    }
    assert(views(ls@).take(ls@.len() as int) =~= views(ls@));
    match best {
        Some(b) => Some(MountEntry { mount_point: string_from(b.0.as_slice()), options: string_from(b.1.as_slice()) }),
        None => None,
    }
}

/// Mount options allow replacing binaries when, in ASCII lowercase and split at commas,
/// they hold `rw` and do not hold `noexec`.
pub open spec fn spec_opts_rw_exec(opts: Seq<char>) -> bool {
    split_on(ascii_lower(opts), ',').contains("rw"@) && !split_on(ascii_lower(opts), ',').contains("noexec"@)
}

fn list_has(v: &Vec<Vec<char>>, w: &str) -> (r: bool)
    ensures
        r == views(v@).contains(w@),
{
    let mut i: usize = 0;
    while i < v.len()
        invariant
            i <= v@.len(),
            forall|k: int| 0 <= k < i ==> v@[k]@ != w@,
        decreases v@.len() - i,
    {
        if chars_eq_str(v[i].as_slice(), w) {
            assert(views(v@)[i as int] == w@);
            return true;
        }
        i = i + 1;
    }
    assert(!views(v@).contains(w@)) by {
        if views(v@).contains(w@) {
            let k = choose|k: int| 0 <= k < views(v@).len() && views(v@)[k] == w@;
            assert(v@[k]@ == w@);
        }
    }
    false
}

/// Whether mount options allow replacing binaries (read-write and not `noexec`).
pub fn opts_rw_exec(opts: &str) -> (r: bool)
    ensures
        r == spec_opts_rw_exec(opts@),
{
    let c = str_chars(opts);
    let l = ascii_lowercase(c.as_slice());
    let parts = split_char(l.as_slice(), ',');
    list_has(&parts, "rw") && !list_has(&parts, "noexec")
}

/// The message of a mount that does not allow replacing binaries.
pub open spec fn mount_unsuitable_message(path: Seq<char>, opts: Seq<char>) -> Seq<char> {
    "Filesystem at '"@ + path + "' not suitable: requires rw and exec (opts: "@ + opts + ")"@
}

/// Refuse a path whose filesystem is mounted read-only or `noexec`. `canonical` is the
/// path as resolved on disk; `mounts` is the mount table, if it could be read. A path
/// with no mount entry (or no table) passes.
pub fn ensure_mount_rw_exec(path: &str, canonical: &str, mounts: Option<&str>) -> (r: Result<()>)
    ensures
        match mounts {
            None => r is Ok,
            Some(m) => match spec_mount_entry_for(m@, canonical@) {
                None => r is Ok,
                Some(e) => if spec_opts_rw_exec(e.1) {
                    r is Ok
                } else {
                    r matches Err(Error::ExecutionFailed(x)) && x@ == mount_unsuitable_message(path@, e.1)
                },
            },
        },
{
    match mounts {
        None => Ok(()),
        Some(m) => match mount_entry_for(m, canonical) {
            None => Ok(()),
            Some(e) => {
                if opts_rw_exec(e.options.as_str()) {
                    Ok(())
                } else {
                    let mut s = "Filesystem at '".to_owned();
                    s.append(path);
                    s.append("' not suitable: requires rw and exec (opts: ");
                    s.append(e.options.as_str());
                    s.append(")");
                    Err(Error::ExecutionFailed(s))
                }
            },
        },
    }
}

/// `lsattr -d` output marks the path immutable: the first field of some line holds `i`.
pub open spec fn spec_reports_immutable(out: Seq<char>) -> bool {
    exists|k: int|
        0 <= k < split_lines(out).len() && split_ws(#[trigger] split_lines(out)[k]).len() > 0 && split_ws(
            split_lines(out)[k],
        )[0].contains('i')
}

/// Whether `lsattr -d` output marks the path immutable.
pub fn reports_immutable(out: &str) -> (r: bool)
    ensures
        r == spec_reports_immutable(out@),
{
    let c = str_chars(out);
    let ls = lines(c.as_slice());
    let mut k: usize = 0;
    while k < ls.len()
        invariant
            k <= ls@.len(),
            views(ls@) == split_lines(out@),
            forall|j: int|
                0 <= j < k ==> !(split_ws(#[trigger] split_lines(out@)[j]).len() > 0 && split_ws(
                    split_lines(out@)[j],
                )[0].contains('i')),
        decreases ls@.len() - k,
    {
        assert(split_lines(out@)[k as int] == ls@[k as int]@);
        let f = split_whitespace(ls[k].as_slice());
        if f.len() > 0 && contains_char(f[0].as_slice(), 'i') {
            assert(split_ws(split_lines(out@)[k as int])[0] == f@[0]@);
            return true;
        }
        k = k + 1;
    }
    false
}

/// The message of an immutable target.
pub open spec fn immutable_message(path: Seq<char>) -> Seq<char> {
    "Target '"@ + path + "' is immutable (chattr +i). Run 'chattr -i "@ + path + "' to clear before proceeding."@
}

/// Refuse a target that carries the immutable attribute. `lsattr_output` is the output of
/// `lsattr -d <path>` when that command ran successfully; otherwise the check passes.
pub fn check_immutable(path: &str, lsattr_output: Option<&str>) -> (r: Result<()>)
    ensures
        match lsattr_output {
            Some(out) => if spec_reports_immutable(out@) {
                r matches Err(Error::ExecutionFailed(x)) && x@ == immutable_message(path@)
            } else {
                r is Ok
            },
            None => r is Ok,
        },
{
    match lsattr_output {
        Some(out) => {
            if reports_immutable(out) {
                let mut s = "Target '".to_owned();
                s.append(path);
                s.append("' is immutable (chattr +i). Run 'chattr -i ");
                s.append(path);
                s.append("' to clear before proceeding.");
                Err(Error::ExecutionFailed(s))
            } else {
                Ok(())
            }
        },
        None => Ok(()),
    }
}

/// The facts about a candidate source that decide whether it is trusted.
pub struct SourceFacts {
    /// Permission bits of the source itself (not followed).
    pub mode: u32,
    /// Owner of the source.
    pub uid: u32,
    /// The source as resolved on disk, for the mount lookup.
    pub canonical: String,
    /// The home directory, when one is set.
    pub home: Option<String>,
}

/// The source lies under the home directory.
pub open spec fn under_home(source: Seq<char>, home: Option<String>) -> bool {
    match home {
        Some(h) => path_starts_with(source, h@),
        None => false,
    }
}

/// The outcome of the trust check: a world-writable or non-root-owned source, or one
/// under the home directory, is refused unless forced; the mount must allow binaries.
pub open spec fn spec_source_trust(
    source: Seq<char>,
    force: bool,
    facts: SourceFacts,
    mounts: Option<Seq<char>>,
    r: Result<()>,
) -> bool {
    if facts.mode & 2 != 0 && !force {
        r matches Err(Error::ExecutionFailed(x)) && x@ == "Untrusted source (world-writable): "@ + source
            + ". Pass --force to override."@
    } else if facts.uid != 0 && !force {
        r matches Err(Error::ExecutionFailed(x)) && x@ == "Untrusted source (not root-owned): "@ + source
            + ". Pass --force to override."@
    } else {
        let mount_bad = match mounts {
            None => false,
            Some(m) => match spec_mount_entry_for(m, facts.canonical@) {
                None => false,
                Some(e) => !spec_opts_rw_exec(e.1),
            },
        };
        if mount_bad {
            r matches Err(Error::ExecutionFailed(_))
        } else if under_home(source, facts.home) && !force {
            r matches Err(Error::ExecutionFailed(x)) && x@ == "Untrusted source under HOME: "@ + source
                + ". Pass --force to override."@
        } else {
            r is Ok
        }
    }
}

/// Whether a source binary may be linked into the system.
pub fn check_source_trust(source: &str, force: bool, facts: &SourceFacts, mounts: Option<&str>) -> (r: Result<()>)
    ensures
        spec_source_trust(source@, force, *facts, match mounts {
            Some(m) => Some(m@),
            None => None,
        }, r),
{
    if facts.mode & 2 != 0 && !force {
        let mut s = "Untrusted source (world-writable): ".to_owned();
        s.append(source);
        s.append(". Pass --force to override.");
        return Err(Error::ExecutionFailed(s));
    }
    if facts.uid != 0 && !force {
        let mut s = "Untrusted source (not root-owned): ".to_owned();
        s.append(source);
        s.append(". Pass --force to override.");
        return Err(Error::ExecutionFailed(s));
    }
    match ensure_mount_rw_exec(source, facts.canonical.as_str(), mounts) {
        Err(e) => {
            return Err(e);
        },
        Ok(()) => {},
    }
    match &facts.home {
        Some(h) => {
            let sv = str_chars(source);
            let hv = str_chars(h.as_str());
            if starts_with_path(sv.as_slice(), hv.as_slice()) && !force {
                let mut s = "Untrusted source under HOME: ".to_owned();
                s.append(source);
                s.append(". Pass --force to override.");
                return Err(Error::ExecutionFailed(s));
            }
        },
        None => {},
    }
    Ok(())
}

} // verus!
