//! Building `svn` invocations and modelling what their answers carry.
//!
//! An [`SvnCmd`] is only a description — a subcommand name, arguments and
//! an optional working directory.  Running it is the caller's business;
//! every constructor here pins the exact argument list it produces.

use vstd::prelude::*;

use crate::auth::Credentials;
use crate::revision::{rev_num_to_string, spec_u64_digits};

verus! {

/// A path recorded in a log entry as copied from somewhere.
#[derive(Clone, Debug)]
pub struct FromPath {
    pub path: String,
    pub revision: String,
}

/// One changed path of a log entry.
#[derive(Clone, Debug)]
pub struct LogPath {
    pub path: String,
    pub kind: String,
    pub action: String,
    pub text_mods: bool,
    pub prop_mods: bool,
    pub from_path: Option<FromPath>,
}

/// One entry of a status report.
#[derive(Clone, Debug)]
pub struct StatusEntry {
    pub path: String,
    pub item_status: String,
    pub props_status: String,
    pub revision: String,
}

/// A status report for one target path.
#[derive(Clone, Debug)]
pub struct SvnStatus {
    pub path: String,
    pub entries: Vec<StatusEntry>,
}

/// The configured prefixes under which trunk, branches and tags live.
#[derive(Clone, Debug)]
pub struct Prefixes {
    pub trunk_prefix: String,
    pub branch_prefixes: Vec<String>,
    pub tag_prefixes: Vec<String>,
}

/// A described `svn` invocation: subcommand name, arguments, and the
/// directory to run in.
#[derive(Clone, Debug)]
pub struct SvnCmd {
    pub cwd: Option<String>,
    pub name: String,
    pub args: Vec<String>,
}

/// The arguments that a credential pair adds to a command.
pub open spec fn spec_creds_args(creds: Option<Credentials>) -> Seq<Seq<char>> {
    match creds {
        Some(c) => seq!["--username="@ + c.0@, "--password="@ + c.1@],
        None => Seq::<Seq<char>>::empty(),
    }
}

impl SvnCmd {
    /// The views of the arguments, in order.
    pub open spec fn args_view(self) -> Seq<Seq<char>> {
        self.args@.map_values(|a: String| a@)
    }

    /// A command with no arguments yet.
    pub fn new(name: &str) -> (r: Self)
        ensures
            r.name@ == name@,
            r.args_view() == Seq::<Seq<char>>::empty(),
            r.cwd is None,
    {
        let r = SvnCmd { cwd: None, name: name.to_owned(), args: Vec::new() };
        assert(r.args_view() =~= Seq::<Seq<char>>::empty());
        r
    }

    /// Set the working directory when one is given; keep the current one
    /// otherwise.
    pub fn with_cwd(self, cwd: Option<String>) -> (r: Self)
        ensures
            r.name == self.name,
            r.args == self.args,
            cwd is Some ==> r.cwd == cwd,
            cwd is None ==> r.cwd == self.cwd,
    {
        match cwd {
            Some(c) => SvnCmd { cwd: Some(c), ..self },
            None => self,
        }
    }

    /// Append one argument.
    pub fn arg(self, arg: &str) -> (r: Self)
        ensures
            r.name == self.name,
            r.cwd == self.cwd,
            r.args_view() == self.args_view().push(arg@),
    {
        let mut args = self.args;
        let ghost before = args@;
        args.push(arg.to_owned());
        let r = SvnCmd { cwd: self.cwd, name: self.name, args };
        assert(r.args_view() =~= before.map_values(|a: String| a@).push(arg@));
        r
    }

    /// Append the credential arguments when credentials are given.
    pub fn with_creds(self, creds: &Option<Credentials>) -> (r: Self)
        ensures
            r.name == self.name,
            r.cwd == self.cwd,
            r.args_view() == self.args_view() + spec_creds_args(*creds),
    {
        let ghost start = self.args_view();
        match creds {
            Some(c) => {
                let user_arg = String::from_str("--username=").concat(c.0.as_str());
                let pass_arg = String::from_str("--password=").concat(c.1.as_str());
                let r = self.arg(user_arg.as_str()).arg(pass_arg.as_str());
                assert(r.args_view() =~= start + spec_creds_args(*creds));
                r
            },
            None => {
                assert(self.args_view() =~= start + spec_creds_args(*creds));
                self
            },
        }
    }

    /// Append one argument only when the condition holds.
    pub fn arg_if(self, cond: bool, arg: &str) -> (r: Self)
        ensures
            r.name == self.name,
            r.cwd == self.cwd,
            cond ==> r.args_view() == self.args_view().push(arg@),
            !cond ==> r.args_view() == self.args_view(),
    {
        if cond {
            self.arg(arg)
        } else {
            self
        }
    }

    /// Append an optional argument when it is given.
    pub fn opt_arg(self, arg: &Option<String>) -> (r: Self)
        ensures
            r.name == self.name,
            r.cwd == self.cwd,
            *arg matches Some(a) ==> r.args_view() == self.args_view().push(a@),
            *arg is None ==> r.args_view() == self.args_view(),
    {
        match arg {
            Some(a) => self.arg(a.as_str()),
            None => self,
        }
    }

    /// Append a list of arguments, in order.
    pub fn args(self, args: &Vec<String>) -> (r: Self)
        ensures
            r.name == self.name,
            r.cwd == self.cwd,
            r.args_view() == self.args_view() + crate::logfmt::words_view(args@),
    {
        let ghost start = self.args_view();
        let ghost oname = self.name;
        let ghost ocwd = self.cwd;
        let mut r = self;
        let mut i: usize = 0;
        while i < args.len()
            invariant
                0 <= i <= args@.len(),
                r.name == oname,
                r.cwd == ocwd,
                r.args_view() == start + crate::logfmt::words_view(args@.take(i as int)),
            decreases args@.len() - i,
        {
            r = r.arg(args[i].as_str());
            proof {
                let prev = crate::logfmt::words_view(args@.take(i as int));
                let cur = crate::logfmt::words_view(args@.take(i as int + 1));
                assert(cur =~= prev.push(args@[i as int]@));
                assert(r.args_view() =~= start + cur);
            }
            i = i + 1;
        }
        assert(args@.take(args@.len() as int) =~= args@);
        r
    }
}

/// The `svn status --xml` invocation for one path.
pub fn status(path: &str, cwd: Option<String>) -> (r: SvnCmd)
    ensures
        r.name@ == "status"@,
        cwd is Some ==> r.cwd == cwd,
        cwd is None ==> r.cwd is None,
        r.args_view() == seq!["--xml"@, path@],
{
    let r = SvnCmd::new("status").with_cwd(cwd).arg("--xml").arg(path);
    assert(r.args_view() =~= seq!["--xml"@, path@]);
    r
}

/// The `svn add` invocation for a set of paths.
pub fn add(paths: &Vec<String>, depth: &str, auto_props: bool, cwd: Option<String>) -> (r: SvnCmd)
    ensures
        r.name@ == "add"@,
        cwd is Some ==> r.cwd == cwd,
        cwd is None ==> r.cwd is None,
        r.args_view() == seq!["--depth="@ + depth@]
            + seq![
            if auto_props {
                "--auto-props"@
            } else {
                "--no-auto-props"@
            },
        ] + crate::logfmt::words_view(paths@),
{
    let depth_arg = String::from_str("--depth=").concat(depth);
    let props_arg: &str = if auto_props {
        "--auto-props"
    } else {
        "--no-auto-props"
    };
    let r = SvnCmd::new("add").with_cwd(cwd).arg(depth_arg.as_str()).arg(props_arg).args(paths);
    assert(r.args_view() =~= seq!["--depth="@ + depth@]
        + seq![
        if auto_props {
            "--auto-props"@
        } else {
            "--no-auto-props"@
        },
    ] + crate::logfmt::words_view(paths@));
    r
}

/// The `svn revert` invocation for a set of paths.
pub fn revert(paths: &Vec<String>, depth: &str, remove_added: bool, cwd: Option<String>) -> (r:
    SvnCmd)
    ensures
        r.name@ == "revert"@,
        cwd is Some ==> r.cwd == cwd,
        cwd is None ==> r.cwd is None,
        remove_added ==> r.args_view() == seq!["--depth="@ + depth@, "--remove-added"@]
            + crate::logfmt::words_view(paths@),
        !remove_added ==> r.args_view() == seq!["--depth="@ + depth@] + crate::logfmt::words_view(
            paths@,
        ),
{
    let depth_arg = String::from_str("--depth=").concat(depth);
    let r = SvnCmd::new("revert").with_cwd(cwd).arg(depth_arg.as_str()).arg_if(
        remove_added,
        "--remove-added",
    ).args(paths);
    proof {
        if remove_added {
            assert(r.args_view() =~= seq!["--depth="@ + depth@, "--remove-added"@]
                + crate::logfmt::words_view(paths@));
        } else {
            assert(r.args_view() =~= seq!["--depth="@ + depth@] + crate::logfmt::words_view(
                paths@,
            ));
        }
    }
    r
}

/// The `svn patch` invocation that applies a patch file.
pub fn apply_patch(patch_file: &str, dry_run: bool, cwd: Option<String>) -> (r: SvnCmd)
    ensures
        r.name@ == "patch"@,
        cwd is Some ==> r.cwd == cwd,
        cwd is None ==> r.cwd is None,
        dry_run ==> r.args_view() == seq!["--dry-run"@, patch_file@],
        !dry_run ==> r.args_view() == seq![patch_file@],
{
    let r = SvnCmd::new("patch").with_cwd(cwd).arg_if(dry_run, "--dry-run").arg(patch_file);
    proof {
        if dry_run {
            assert(r.args_view() =~= seq!["--dry-run"@, patch_file@]);
        } else {
            assert(r.args_view() =~= seq![patch_file@]);
        }
    }
    r
}

/// The `svn update` invocation that materializes a revision into the
/// working tree.
pub fn update(revision: u64, depth: &str, cwd: Option<String>) -> (r: SvnCmd)
    ensures
        r.name@ == "update"@,
        cwd is Some ==> r.cwd == cwd,
        cwd is None ==> r.cwd is None,
        r.args_view() == seq![
            "--depth="@ + depth@,
            "--revision="@ + spec_u64_digits(revision),
        ],
{
    let depth_arg = String::from_str("--depth=").concat(depth);
    let rev_arg = String::from_str("--revision=").concat(rev_num_to_string(revision).as_str());
    let r = SvnCmd::new("update").with_cwd(cwd).arg(depth_arg.as_str()).arg(rev_arg.as_str());
    assert(r.args_view() =~= seq!["--depth="@ + depth@, "--revision="@ + spec_u64_digits(revision)]);
    r
}

/// The `svn diff --change` invocation that shows one commit's change.
pub fn change_diff(creds: &Option<Credentials>, path: &str, commit_rev: u64) -> (r: SvnCmd)
    ensures
        r.name@ == "diff"@,
        r.cwd is None,
        r.args_view() == spec_creds_args(*creds) + seq![
            "--change"@,
            spec_u64_digits(commit_rev),
            path@,
        ],
{
    let r = SvnCmd::new("diff").with_creds(creds).arg("--change").arg(
        rev_num_to_string(commit_rev).as_str(),
    ).arg(path);
    assert(r.args_view() =~= spec_creds_args(*creds) + seq![
        "--change"@,
        spec_u64_digits(commit_rev),
        path@,
    ]);
    r
}

} // verus!
