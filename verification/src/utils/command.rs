//! A command with its arguments, and the command line that shows it.

use vstd::prelude::*;
use crate::utils::text::push_char;

verus! {

#[derive(Debug)]
pub struct Command {
    pub command: String,
    pub args: Vec<String>,
}

/// The views of a sequence of strings.
pub open spec fn str_views(v: Seq<String>) -> Seq<Seq<char>> {
    v.map_values(|a: String| a@)
}

/// The command line: the command, then each argument preceded by one space.
pub open spec fn command_line(cmd: Seq<char>, args: Seq<Seq<char>>) -> Seq<char>
    decreases args.len(),
{
    if args.len() == 0 {
        cmd
    } else {
        command_line(cmd, args.drop_last()) + seq![' '] + args.last()
    }
}

impl Command {
    /// A command from its name and arguments.
    pub fn build(cmd: &str, args: &[&str]) -> (r: Self)
        ensures
            r.command@ == cmd@,
            str_views(r.args@) == args@.map_values(|a: &str| a@),
    {
        let mut v: Vec<String> = Vec::new();
        let mut i: usize = 0;
        while i < args.len()
            invariant
                i <= args@.len(),
                str_views(v@) == args@.subrange(0, i as int).map_values(|a: &str| a@),
            decreases args@.len() - i,
        {
            let a: String = args[i].to_owned();
            assert(a@ == args@[i as int]@);
            let ghost old_v = v@;
            v.push(a);
            assert(str_views(v@) =~= str_views(old_v).push(a@));
            i = i + 1;
            assert(str_views(v@) =~= args@.subrange(0, i as int).map_values(|a: &str| a@));
        }
        assert(args@.subrange(0, args@.len() as int) =~= args@);
        Self { command: cmd.to_owned(), args: v }
    }

    /// The command line that runs this command.
    pub fn command(&self) -> (s: String)
        ensures
            s@ == command_line(self.command@, str_views(self.args@)),
    {
        let mut s = self.command.clone();
        let mut i: usize = 0;
        assert(str_views(self.args@).take(0) =~= seq![]);
        while i < self.args.len()
            invariant
                i <= self.args@.len(),
                s@ == command_line(self.command@, str_views(self.args@).take(i as int)),
            decreases self.args@.len() - i,
        {
            push_char(&mut s, ' ');
            s.append(self.args[i].as_str());
            i = i + 1;
            assert(str_views(self.args@).take(i as int).drop_last() =~= str_views(self.args@).take(i - 1));
        }
        assert(str_views(self.args@).take(self.args@.len() as int) =~= str_views(self.args@));
        s
    }
}

} // verus!
