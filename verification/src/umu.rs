//! The UMU runner: a unified launcher that wraps a Proton (or
//! arranges to fetch one) and standardizes environment handling for
//! non-Steam invocation.

use vstd::prelude::*;
use crate::bottle::env_view;
use crate::error::Error;
use crate::proton::Proton;
use crate::runner::Invocation;
use crate::runner::InvocationView;
use crate::runner::Runner;
use crate::runner::RunnerInfo;
use crate::runner::VersionProbe;
use crate::runner::merge_env;
use crate::runner::push_all_strings;
use crate::runner::strs_view;
use crate::text::display_name;
use crate::text::join_path;
use crate::text::third_token_or_unknown;
use crate::text::third_token_exec;
use crate::wine::Wine;
use vstd::pervasive::arbitrary;
use vstd::pervasive::unreached;
use vstd::string::StringExecFns;

verus! {

/// The UMU runner.  Its executable is `umu-run` under the base
/// directory.  When a Proton is wrapped, UMU defers to that Proton's
/// installation directory; when none is, the launcher fetches a
/// current one at initialize time.
#[derive(Debug)]
pub struct UMU {
    /// The runner's metadata; its version is the normalized form of
    /// the raw version report.
    pub info: RunnerInfo,
    /// The wrapped Proton, when one is set.
    pub proton: Option<Proton>,
}

impl UMU {
    /// Discover a UMU installation from the facts the host gathered
    /// about a base directory: the executable is `umu-run` under it.
    /// The raw version report is normalized to its third
    /// whitespace-separated token, or `unknown` where there is none.
    pub fn try_from(
        directory: String,
        proton: Option<Proton>,
        directory_exists: bool,
        executable_is_file: bool,
        probe: Option<VersionProbe>,
    ) -> (r: Result<UMU, Error>)
        requires
            directory_exists && executable_is_file ==> probe is Some,
        ensures
            !directory_exists ==> (r matches Err(e) && e is NotFound),
            directory_exists && !executable_is_file ==> (r matches Err(e) && e is NotFound),
            directory_exists && executable_is_file ==> match probe {
                Some(VersionProbe::Failed(m)) => r matches Err(e) && e is Io,
                Some(VersionProbe::Output(out)) => r matches Ok(u) && u.info.name@
                    == display_name(directory@) && u.info.version@ == third_token_or_unknown(
                    if out@.len() == 0 {
                        display_name(directory@)
                    } else {
                        out@
                    },
                ) && u.info.directory@ == directory@ && u.info.executable@ == "umu-run"@
                    && u.proton == proton,
                None => false,
            },
    {
        let executable = String::from_str("umu-run");
        match RunnerInfo::assemble(directory, executable, directory_exists, executable_is_file, probe) {
            Err(e) => Err(e),
            Ok(info) => {
                let version = third_token_exec(&info.version);
                let info2 = RunnerInfo {
                    name: info.name,
                    version,
                    directory: info.directory,
                    executable: info.executable,
                };
                Ok(UMU { info: info2, proton })
            },
        }
    }

    /// The availability predicate: the default one, and when a Proton
    /// is wrapped, the wrapped Proton must be available too.  Both
    /// executables' states are facts the host reports.
    pub fn is_available(&self, executable_is_file: bool, wrapped_executable_is_file: bool) -> (r:
        bool)
        ensures
            r == (executable_is_file && (self.proton is Some ==> wrapped_executable_is_file)),
    {
        match &self.proton {
            Some(_) => executable_is_file && wrapped_executable_is_file,
            None => executable_is_file,
        }
    }
}

impl Runner for UMU {
    /// The underlying Wine is reachable only through a wrapped
    /// Proton.
    open spec fn wine_ok(&self) -> bool {
        self.proton is Some
    }

    open spec fn spec_wine(&self) -> Wine {
        match self.proton {
            Some(p) => p.wine,
            None => arbitrary(),
        }
    }

    open spec fn spec_info(&self) -> RunnerInfo {
        self.info
    }

    /// Bootstrap: `<exec> wineboot` with `WINEPREFIX` set to the
    /// prefix and, when a Proton is wrapped, `PROTONPATH` set to its
    /// base directory.
    open spec fn spec_initialize(&self, prefix: Seq<char>) -> InvocationView {
        InvocationView {
            program: join_path(self.info.directory@, self.info.executable@),
            args: seq!["wineboot"@],
            env: match self.proton {
                Some(p) => seq![("WINEPREFIX"@, prefix), ("PROTONPATH"@, p.info.directory@)],
                None => seq![("WINEPREFIX"@, prefix)],
            },
        }
    }

    /// Launch: `<exec> <executable> <args...>` with `WINEPREFIX`,
    /// `PROTONPATH` when a Proton is wrapped, and the caller's
    /// entries after them.
    open spec fn spec_launch(
        &self,
        executable: Seq<char>,
        args: Seq<Seq<char>>,
        prefix: Seq<char>,
        env: Seq<(Seq<char>, Seq<char>)>,
    ) -> InvocationView {
        InvocationView {
            program: join_path(self.info.directory@, self.info.executable@),
            args: seq![executable] + args,
            env: (match self.proton {
                Some(p) => seq![("WINEPREFIX"@, prefix), ("PROTONPATH"@, p.info.directory@)],
                None => seq![("WINEPREFIX"@, prefix)],
            }) + env,
        }
    }

    fn wine(&self) -> (w: &Wine) {
        match &self.proton {
            Some(p) => &p.wine,
            None => unreached(),
        }
    }

    fn info(&self) -> (i: &RunnerInfo) {
        &self.info
    }

    fn initialize_invocation(&self, prefix: &String) -> (inv: Invocation) {
        let program = self.info.executable_path();
        let mut args: Vec<String> = Vec::new();
        args.push(String::from_str("wineboot"));
        let mut env: Vec<(String, String)> = Vec::new();
        env.push((String::from_str("WINEPREFIX"), prefix.clone()));
        match &self.proton {
            Some(p) => {
                env.push((String::from_str("PROTONPATH"), p.info.directory.clone()));
                proof {
                    assert(env_view(env@) =~= seq![
                        ("WINEPREFIX"@, prefix@),
                        ("PROTONPATH"@, self.proton.unwrap().info.directory@),
                    ]);
                }
            },
            None => {
                proof {
                    assert(env_view(env@) =~= seq![("WINEPREFIX"@, prefix@)]);
                }
            },
        }
        let inv = Invocation { program, args, env };
        proof {
            assert(strs_view(inv.args@) =~= seq!["wineboot"@]);
            assert(inv@ =~= self.spec_initialize(prefix@));
        }
        inv
    }

    fn launch_invocation(
        &self,
        executable: &String,
        args: &Vec<String>,
        prefix: &String,
        env: &Vec<(String, String)>,
    ) -> (inv: Invocation) {
        let program = self.info.executable_path();
        let mut a: Vec<String> = Vec::new();
        a.push(executable.clone());
        proof {
            assert(strs_view(a@) =~= seq![executable@]);
        }
        push_all_strings(&mut a, args);
        let mut mandatory: Vec<(String, String)> = Vec::new();
        mandatory.push((String::from_str("WINEPREFIX"), prefix.clone()));
        match &self.proton {
            Some(p) => {
                mandatory.push((String::from_str("PROTONPATH"), p.info.directory.clone()));
                proof {
                    assert(env_view(mandatory@) =~= seq![
                        ("WINEPREFIX"@, prefix@),
                        ("PROTONPATH"@, self.proton.unwrap().info.directory@),
                    ]);
                }
            },
            None => {
                proof {
                    assert(env_view(mandatory@) =~= seq![("WINEPREFIX"@, prefix@)]);
                }
            },
        }
        let merged = merge_env(mandatory, env);
        let inv = Invocation { program, args: a, env: merged };
        proof {
            assert(inv@ =~= self.spec_launch(executable@, strs_view(args@), prefix@, env_view(env@)));
        }
        inv
    }
}

} // verus!
