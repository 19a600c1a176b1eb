//! The base Wine runner: the translator every other variant
//! ultimately invokes.

use vstd::prelude::*;
use crate::bottle::env_view;
use crate::error::Error;
use crate::runner::Invocation;
use crate::runner::InvocationView;
use crate::runner::Runner;
use crate::runner::RunnerInfo;
use crate::runner::VersionProbe;
use crate::runner::merge_env;
use crate::runner::push_all_strings;
use crate::runner::strs_view;
use crate::text::display_name;
use crate::text::join_path;
use vstd::string::StringExecFns;

verus! {

/// The base Wine runner.  Its executable is `bin/wine` under the
/// base directory.
#[derive(Debug)]
pub struct Wine {
    /// The runner's metadata.
    pub info: RunnerInfo,
}

/// The architecture a prefix is created for.
#[derive(Clone, Copy, Debug, PartialEq, Eq, Structural)]
pub enum PrefixArch {
    /// A 32-bit prefix.
    Win32,
    /// A 64-bit prefix.
    Win64,
}

/// The Windows version a prefix emulates.
#[derive(Clone, Copy, Debug, PartialEq, Eq, Structural)]
pub enum WindowsVersion {
    Win7,
    Win8,
    Win10,
}

impl Wine {
    /// Discover a Wine installation from the facts the host gathered
    /// about a base directory: the executable is `bin/wine` under it.
    pub fn try_from(
        directory: String,
        directory_exists: bool,
        executable_is_file: bool,
        probe: Option<VersionProbe>,
    ) -> (r: Result<Wine, Error>)
        requires
            directory_exists && executable_is_file ==> probe is Some,
        ensures
            !directory_exists ==> (r matches Err(e) && e is NotFound),
            directory_exists && !executable_is_file ==> (r matches Err(e) && e is NotFound),
            directory_exists && executable_is_file ==> match probe {
                Some(VersionProbe::Failed(m)) => r matches Err(e) && e is Io,
                Some(VersionProbe::Output(out)) => r matches Ok(w) && w.info.name@ == display_name(
                    directory@,
                ) && w.info.version@ == (if out@.len() == 0 {
                    display_name(directory@)
                } else {
                    out@
                }) && w.info.directory@ == directory@ && w.info.executable@ == "bin/wine"@,
                None => false,
            },
    {
        let executable = String::from_str("bin/wine");
        match RunnerInfo::assemble(
            directory,
            executable,
            directory_exists,
            executable_is_file,
            probe,
        ) {
            Ok(info) => Ok(Wine { info }),
            Err(e) => Err(e),
        }
    }

    /// The default availability predicate: the runner is available
    /// exactly when its executable resolves to a regular file, which
    /// the host reports as a fact.
    pub fn is_available(&self, executable_is_file: bool) -> (r: bool)
        ensures
            r == executable_is_file,
    {
        executable_is_file
    }
}

impl Runner for Wine {
    open spec fn wine_ok(&self) -> bool {
        true
    }

    open spec fn spec_wine(&self) -> Wine {
        *self
    }

    open spec fn spec_info(&self) -> RunnerInfo {
        self.info
    }

    /// Bootstrap: `<exec> wineboot --init` with `WINEPREFIX` set to
    /// the prefix.
    open spec fn spec_initialize(&self, prefix: Seq<char>) -> InvocationView {
        InvocationView {
            program: join_path(self.info.directory@, self.info.executable@),
            args: seq!["wineboot"@, "--init"@],
            env: seq![("WINEPREFIX"@, prefix)],
        }
    }

    /// Launch: `<exec> <executable> <args...>` with `WINEPREFIX` set
    /// first and the caller's entries after it.
    open spec fn spec_launch(
        &self,
        executable: Seq<char>,
        args: Seq<Seq<char>>,
        prefix: Seq<char>,
        env: Seq<(Seq<char>, Seq<char>)>,
    ) -> InvocationView {
        InvocationView {
            program: join_path(self.info.directory@, self.info.executable@),
            args: seq![executable] + args,
            env: seq![("WINEPREFIX"@, prefix)] + env,
        }
    }

    fn wine(&self) -> (w: &Wine) {
        self
    }

    fn info(&self) -> (i: &RunnerInfo) {
        &self.info
    }

    fn initialize_invocation(&self, prefix: &String) -> (inv: Invocation) {
        let program = self.info.executable_path();
        let mut args: Vec<String> = Vec::new();
        args.push(String::from_str("wineboot"));
        args.push(String::from_str("--init"));
        let mut env: Vec<(String, String)> = Vec::new();
        env.push((String::from_str("WINEPREFIX"), prefix.clone()));
        let inv = Invocation { program, args, env };
        proof {
            assert(strs_view(inv.args@) =~= seq!["wineboot"@, "--init"@]);
            assert(env_view(inv.env@) =~= seq![("WINEPREFIX"@, prefix@)]);
            assert(inv@ =~= self.spec_initialize(prefix@));
        }
        inv
    }

    fn launch_invocation(
        &self,
        executable: &String,
        args: &Vec<String>,
        prefix: &String,
        env: &Vec<(String, String)>,
    ) -> (inv: Invocation) {
        let program = self.info.executable_path();
        let mut a: Vec<String> = Vec::new();
        a.push(executable.clone());
        proof {
            assert(strs_view(a@) =~= seq![executable@]);
        }
        push_all_strings(&mut a, args);
        let mut mandatory: Vec<(String, String)> = Vec::new();
        mandatory.push((String::from_str("WINEPREFIX"), prefix.clone()));
        proof {
            assert(env_view(mandatory@) =~= seq![("WINEPREFIX"@, prefix@)]);
        }
        let merged = merge_env(mandatory, env);
        let inv = Invocation { program, args: a, env: merged };
        proof {
            assert(inv@ =~= self.spec_launch(executable@, strs_view(args@), prefix@, env_view(env@)));
        }
        inv
    }
}

} // verus!
