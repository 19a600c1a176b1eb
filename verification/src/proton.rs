//! The Proton runner: the gaming fork of the base translator,
//! shipped as a top-level launcher script with a nested `files/` tree
//! holding the translator binaries.

use vstd::prelude::*;
use crate::bottle::env_view;
use crate::error::Error;
use crate::runner::Invocation;
use crate::runner::InvocationView;
use crate::runner::Runner;
use crate::runner::RunnerInfo;
use crate::runner::VersionProbe;
use crate::runner::merge_env;
use crate::runner::push_all_strings;
use crate::runner::strs_view;
use crate::text::display_name;
use crate::text::join_path;
use crate::wine::Wine;
use vstd::string::StringExecFns;

verus! {

/// The Proton runner.  Its executable is `proton` under the base
/// directory; it owns the Wine discovered under `<base>/files`, whose
/// display name is overwritten with Proton's own so downstream
/// metadata reports Proton, not the nested directory.
#[derive(Debug)]
pub struct Proton {
    /// The runner's metadata.
    pub info: RunnerInfo,
    /// The owned inner Wine, discovered under `<base>/files`.
    pub wine: Wine,
}

impl Proton {
    /// Discover Proton's own metadata from the facts the host
    /// gathered about a base directory: the executable is `proton`
    /// under it.  The host then discovers the inner Wine under
    /// `<base>/files` and combines the two with `try_from`.
    pub fn discover_info(
        directory: String,
        directory_exists: bool,
        executable_is_file: bool,
        probe: Option<VersionProbe>,
    ) -> (r: Result<RunnerInfo, Error>)
        requires
            directory_exists && executable_is_file ==> probe is Some,
        ensures
            !directory_exists ==> (r matches Err(e) && e is NotFound),
            directory_exists && !executable_is_file ==> (r matches Err(e) && e is NotFound),
            directory_exists && executable_is_file ==> match probe {
                Some(VersionProbe::Failed(m)) => r matches Err(e) && e is Io,
                Some(VersionProbe::Output(out)) => r matches Ok(info) && info.name@
                    == display_name(directory@) && info.version@ == (if out@.len() == 0 {
                    display_name(directory@)
                } else {
                    out@
                }) && info.directory@ == directory@ && info.executable@ == "proton"@,
                None => false,
            },
    {
        let executable = String::from_str("proton");
        RunnerInfo::assemble(directory, executable, directory_exists, executable_is_file, probe)
    }

    /// Combine Proton's own metadata with its inner Wine.  The inner
    /// Wine's display name is overwritten with Proton's; everything
    /// else about it is kept.
    pub fn try_from(info: RunnerInfo, wine: Wine) -> (r: Proton)
        ensures
            r.info == info,
            r.wine.info.name == info.name,
            r.wine.info.version == wine.info.version,
            r.wine.info.directory == wine.info.directory,
            r.wine.info.executable == wine.info.executable,
    {
        let name2 = info.name.clone();
        let mut w = wine;
        w.info.name = name2;
        Proton { info, wine: w }
    }

    /// The default availability predicate: the runner is available
    /// exactly when its executable resolves to a regular file, which
    /// the host reports as a fact.
    pub fn is_available(&self, executable_is_file: bool) -> (r: bool)
        ensures
            r == executable_is_file,
    {
        executable_is_file
    }
}

impl Runner for Proton {
    open spec fn wine_ok(&self) -> bool {
        true
    }

    open spec fn spec_wine(&self) -> Wine {
        self.wine
    }

    open spec fn spec_info(&self) -> RunnerInfo {
        self.info
    }

    /// Bootstrap: `<exec> run wineboot` with `WINEPREFIX` and
    /// `STEAM_COMPAT_DATA_PATH` set to the prefix and
    /// `STEAM_COMPAT_CLIENT_INSTALL_PATH` empty.
    open spec fn spec_initialize(&self, prefix: Seq<char>) -> InvocationView {
        InvocationView {
            program: join_path(self.info.directory@, self.info.executable@),
            args: seq!["run"@, "wineboot"@],
            env: seq![
                ("WINEPREFIX"@, prefix),
                ("STEAM_COMPAT_DATA_PATH"@, prefix),
                ("STEAM_COMPAT_CLIENT_INSTALL_PATH"@, ""@),
            ],
        }
    }

    /// Launch: `<exec> run <executable> <args...>` with the three
    /// mandatory variables first and the caller's entries after them.
    open spec fn spec_launch(
        &self,
        executable: Seq<char>,
        args: Seq<Seq<char>>,
        prefix: Seq<char>,
        env: Seq<(Seq<char>, Seq<char>)>,
    ) -> InvocationView {
        InvocationView {
            program: join_path(self.info.directory@, self.info.executable@),
            args: seq!["run"@, executable] + args,
            env: seq![
                ("WINEPREFIX"@, prefix),
                ("STEAM_COMPAT_DATA_PATH"@, prefix),
                ("STEAM_COMPAT_CLIENT_INSTALL_PATH"@, ""@),
            ] + env,
        }
    }

    fn wine(&self) -> (w: &Wine) {
        &self.wine
    }

    fn info(&self) -> (i: &RunnerInfo) {
        &self.info
    }

    fn initialize_invocation(&self, prefix: &String) -> (inv: Invocation) {
        let program = self.info.executable_path();
        let mut args: Vec<String> = Vec::new();
        args.push(String::from_str("run"));
        args.push(String::from_str("wineboot"));
        let mut env: Vec<(String, String)> = Vec::new();
        env.push((String::from_str("WINEPREFIX"), prefix.clone()));
        env.push((String::from_str("STEAM_COMPAT_DATA_PATH"), prefix.clone()));
        env.push((String::from_str("STEAM_COMPAT_CLIENT_INSTALL_PATH"), String::new()));
        let inv = Invocation { program, args, env };
        proof {
            reveal_strlit("");
            assert(""@ =~= Seq::<char>::empty());
            assert(strs_view(inv.args@) =~= seq!["run"@, "wineboot"@]);
            assert(env_view(inv.env@) =~= seq![
                ("WINEPREFIX"@, prefix@),
                ("STEAM_COMPAT_DATA_PATH"@, prefix@),
                ("STEAM_COMPAT_CLIENT_INSTALL_PATH"@, ""@),
            ]);
            assert(inv@ =~= self.spec_initialize(prefix@));
        }
        inv
    }

    fn launch_invocation(
        &self,
        executable: &String,
        args: &Vec<String>,
        prefix: &String,
        env: &Vec<(String, String)>,
    ) -> (inv: Invocation) {
        let program = self.info.executable_path();
        let mut a: Vec<String> = Vec::new();
        a.push(String::from_str("run"));
        a.push(executable.clone());
        proof {
            assert(strs_view(a@) =~= seq!["run"@, executable@]);
        }
        push_all_strings(&mut a, args);
        let mut mandatory: Vec<(String, String)> = Vec::new();
        mandatory.push((String::from_str("WINEPREFIX"), prefix.clone()));
        mandatory.push((String::from_str("STEAM_COMPAT_DATA_PATH"), prefix.clone()));
        mandatory.push((String::from_str("STEAM_COMPAT_CLIENT_INSTALL_PATH"), String::new()));
        proof {
            reveal_strlit("");
            assert(""@ =~= Seq::<char>::empty());
            assert(env_view(mandatory@) =~= seq![
                ("WINEPREFIX"@, prefix@),
                ("STEAM_COMPAT_DATA_PATH"@, prefix@),
                ("STEAM_COMPAT_CLIENT_INSTALL_PATH"@, ""@),
            ]);
        }
        let merged = merge_env(mandatory, env);
        let inv = Invocation { program, args: a, env: merged };
        proof {
            assert(inv@ =~= self.spec_launch(executable@, strs_view(args@), prefix@, env_view(env@)));
        }
        inv
    }
}

} // verus!
