//! The command line: the parsed arguments and what the program decides from them
//! before it touches the system.

pub mod handler;

use vstd::prelude::*;
use crate::coreutil::CoreUtilsImpl;
use crate::utils::worker::strings_view;

verus! {

/// The parsed command line.
pub struct Cli {
    /// Use uutils instead of GNU coreutils.
    pub use_uutils: bool,
    pub command: Commands,
}

/// The subcommands.
pub enum Commands {
    /// Execute a core utility with arguments.
    Exec { utility: String, args: Vec<String> },
    /// List available utilities.
    List,
}

impl Cli {
    /// The implementation selected by the `--uutils` flag.
    pub fn implementation(&self) -> (r: CoreUtilsImpl)
        ensures
            r == (if self.use_uutils { CoreUtilsImpl::Uutils } else { CoreUtilsImpl::Gnu }),
    {
        if self.use_uutils {
            CoreUtilsImpl::Uutils
        } else {
            CoreUtilsImpl::Gnu
        }
    }
}

/// What `list` prints, line by line.
pub open spec fn spec_list_lines() -> Seq<Seq<char>> {
    seq![
        "Available utilities:"@,
        "- ls"@,
        "- cat"@,
        "- grep"@,
        "- echo"@,
        "\nUse --help for more information"@,
    ]
}

/// The lines that `list` prints.
pub fn list_lines() -> (r: Vec<String>)
    ensures
        strings_view(r@) == spec_list_lines(),
{
    let mut r: Vec<String> = Vec::new();
    r.push("Available utilities:".to_owned());
    r.push("- ls".to_owned());
    r.push("- cat".to_owned());
    r.push("- grep".to_owned());
    r.push("- echo".to_owned());
    r.push("\nUse --help for more information".to_owned());
    assert(strings_view(r@) =~= spec_list_lines());
    r
}

} // verus!
