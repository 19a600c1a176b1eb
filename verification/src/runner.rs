//! The runner abstraction: validated metadata of a discovered
//! runtime, the capability set every variant exposes, and the process
//! invocations the variants compute.
//!
//! The host layer gathers the discovery facts (does the base
//! directory exist, is the executable a regular file, what did the
//! version probe report) and performs the invocations; everything
//! decided from those facts is decided here.

use vstd::prelude::*;
use crate::bottle::env_view;
use crate::error::Error;
use crate::text::display_name;
use crate::text::display_name_exec;
use crate::text::join_path;
use crate::text::join_path_exec;
use crate::wine::Wine;
use vstd::pervasive::unreached;
use vstd::string::StringExecFns;

verus! {

/// What the host observed when it ran a runtime's version probe.
#[derive(Debug)]
pub enum VersionProbe {
    /// The probe process ran; its captured standard output, as it
    /// came, trailing line break included.
    Output(String),
    /// The probe could not be executed at the OS level; the error
    /// text.
    Failed(String),
}

/// Validated record of a discovered runtime: its base directory, the
/// executable's path relative to it, a display name derived from the
/// directory, and the version its executable reported.
#[derive(Debug)]
pub struct RunnerInfo {
    /// Human-readable name, derived from the base directory's final
    /// component.
    pub name: String,
    /// Version string the runtime reported, or the display name where
    /// the report was empty.
    pub version: String,
    /// Base directory the runtime is installed under.
    pub directory: String,
    /// Path of the main executable, relative to the directory.
    pub executable: String,
}

impl RunnerInfo {
    /// Assemble a runtime's metadata from the discovery facts the
    /// host gathered.  The base directory must exist and the
    /// executable must be a regular file under it; otherwise
    /// discovery fails with a `NotFound` error.  A version probe that
    /// could not be executed fails discovery with an `Io` error; one
    /// that printed nothing falls back to the display name.
    pub fn assemble(
        directory: String,
        executable: String,
        directory_exists: bool,
        executable_is_file: bool,
        probe: Option<VersionProbe>,
    ) -> (r: Result<RunnerInfo, Error>)
        requires
            directory_exists && executable_is_file ==> probe is Some,
        ensures
            !directory_exists ==> (r matches Err(e) && e is NotFound && e.spec_message()
                == directory@ + " does not exist"@),
            directory_exists && !executable_is_file ==> (r matches Err(e) && e is NotFound
                && e.spec_message() == executable@ + " not found in "@ + directory@),
            directory_exists && executable_is_file ==> match probe {
                Some(VersionProbe::Failed(m)) => r matches Err(e) && e is Io && e.spec_message()
                    == m@,
                Some(VersionProbe::Output(out)) => r matches Ok(info) && info.name@
                    == display_name(directory@) && info.version@ == (if out@.len() == 0 {
                    display_name(directory@)
                } else {
                    out@
                }) && info.directory@ == directory@ && info.executable@ == executable@,
                None => false,
            },
    {
        if !directory_exists {
            let mut m = directory;
            m.append(" does not exist");
            return Err(Error::NotFound { message: m });
        }
        if !executable_is_file {
            let mut m = executable;
            m.append(" not found in ");
            m.append(directory.as_str());
            return Err(Error::NotFound { message: m });
        }
        let name = display_name_exec(&directory);
        match probe {
            Some(VersionProbe::Failed(m)) => Err(Error::Io { message: m }),
            Some(VersionProbe::Output(out)) => {
                let version = if out.as_str().is_empty() {
                    name.clone()
                } else {
                    out
                };
                Ok(RunnerInfo { name, version, directory, executable })
            },
            None => unreached(),
        }
    }

    /// The full path of the runtime's executable: the base directory
    /// joined with the relative path.
    pub fn executable_path(&self) -> (r: String)
        ensures
            r@ == join_path(self.directory@, self.executable@),
    {
        join_path_exec(&self.directory, &self.executable)
    }

    /// The runtime's display name.
    pub fn name(&self) -> (r: &String)
        ensures
            r@ == self.name@,
    {
        &self.name
    }

    /// The runtime's version string.
    pub fn version(&self) -> (r: &String)
        ensures
            r@ == self.version@,
    {
        &self.version
    }

    /// The base directory the runtime is installed under.
    pub fn directory(&self) -> (r: &String)
        ensures
            r@ == self.directory@,
    {
        &self.directory
    }
}

/// A process invocation a variant asks the host to perform: the
/// program to run, its arguments, and the environment entries to set,
/// in order, later entries overriding earlier ones.
#[derive(Debug)]
pub struct Invocation {
    pub program: String,
    pub args: Vec<String>,
    pub env: Vec<(String, String)>,
}

/// The mathematical value of an invocation.
#[verifier::ext_equal]
pub struct InvocationView {
    pub program: Seq<char>,
    pub args: Seq<Seq<char>>,
    pub env: Seq<(Seq<char>, Seq<char>)>,
}

/// The views of a sequence of strings.
pub open spec fn strs_view(v: Seq<String>) -> Seq<Seq<char>> {
    v.map_values(|x: String| x@)
}

impl View for Invocation {
    type V = InvocationView;

    open spec fn view(&self) -> InvocationView {
        InvocationView {
            program: self.program@,
            args: strs_view(self.args@),
            env: env_view(self.env@),
        }
    }
}

/// The value an environment list gives a variable: that of the last
/// entry bearing the key, as later entries override earlier ones.
pub open spec fn env_lookup(env: Seq<(Seq<char>, Seq<char>)>, key: Seq<char>) -> Option<Seq<char>>
    decreases env.len(),
{
    if env.len() == 0 {
        None
    } else if env.last().0 == key {
        Some(env.last().1)
    } else {
        env_lookup(env.drop_last(), key)
    }
}

/// Mandatory variables come first and caller entries after them, so a
/// caller entry bearing the same key overrides the mandatory value,
/// and a key the caller does not set keeps its mandatory value.
pub proof fn lemma_env_merge_precedence(
    mandatory: Seq<(Seq<char>, Seq<char>)>,
    caller: Seq<(Seq<char>, Seq<char>)>,
    key: Seq<char>,
)
    ensures
        env_lookup(mandatory + caller, key) == match env_lookup(caller, key) {
            Some(v) => Some(v),
            None => env_lookup(mandatory, key),
        },
    decreases caller.len(),
{
    if caller.len() == 0 {
        assert(mandatory + caller =~= mandatory);
    } else {
        let all = mandatory + caller;
        assert(all.last() == caller.last());
        if caller.last().0 == key {
        } else {
            assert(all.drop_last() =~= mandatory + caller.drop_last());
            lemma_env_merge_precedence(mandatory, caller.drop_last(), key);
        }
    }
}

/// Append copies of the caller's environment entries after the
/// mandatory ones.
pub fn merge_env(mandatory: Vec<(String, String)>, caller: &Vec<(String, String)>) -> (r: Vec<
    (String, String),
>)
    ensures
        env_view(r@) == env_view(mandatory@) + env_view(caller@),
{
    let mut r = mandatory;
    let mut i: usize = 0;
    proof {
        assert(env_view(r@) =~= env_view(mandatory@) + env_view(caller@.take(0)));
    }
    while i < caller.len()
        invariant
            i <= caller.len(),
            env_view(r@) == env_view(mandatory@) + env_view(caller@.take(i as int)),
        decreases caller.len() - i,
    {
        let ghost r0 = r@;
        let p = &caller[i];
        let c0 = p.0.clone();
        let c1 = p.1.clone();
        r.push((c0, c1));
        i = i + 1;
        proof {
            assert(env_view(r0).len() == r0.len());
            assert(env_view(caller@.take(i as int - 1)).len() == i - 1);
            assert(r0.len() == mandatory@.len() + i - 1);
            assert forall|k: int| 0 <= k < r@.len() implies env_view(r@)[k] == (env_view(
                mandatory@,
            ) + env_view(caller@.take(i as int)))[k] by {
                if k < r0.len() {
                    assert(r@[k] == r0[k]);
                    assert(env_view(r0)[k] == (env_view(mandatory@) + env_view(
                        caller@.take(i as int - 1),
                    ))[k]);
                    if k >= mandatory@.len() {
                        assert(caller@.take(i as int - 1)[k - mandatory@.len()] == caller@[k
                            - mandatory@.len()]);
                        assert(caller@.take(i as int)[k - mandatory@.len()] == caller@[k
                            - mandatory@.len()]);
                    }
                } else {
                    assert(r@[k] == (c0, c1));
                    assert(caller@.take(i as int)[k - mandatory@.len()] == caller@[i - 1]);
                }
            }
            assert(env_view(r@) =~= env_view(mandatory@) + env_view(caller@.take(i as int)));
        }
    }
    proof {
        assert(caller@.take(caller@.len() as int) =~= caller@);
    }
    r
}

/// Append copies of the given argument strings.
pub fn push_all_strings(out: &mut Vec<String>, items: &Vec<String>)
    ensures
        strs_view(final(out)@) == strs_view(old(out)@) + strs_view(items@),
{
    let mut i: usize = 0;
    proof {
        assert(strs_view(out@) =~= strs_view(old(out)@) + strs_view(items@.take(0)));
    }
    while i < items.len()
        invariant
            i <= items.len(),
            strs_view(out@) == strs_view(old(out)@) + strs_view(items@.take(i as int)),
        decreases items.len() - i,
    {
        let ghost o0 = out@;
        let c = items[i].clone();
        out.push(c);
        i = i + 1;
        proof {
            assert(strs_view(o0).len() == o0.len());
            assert(strs_view(items@.take(i as int - 1)).len() == i - 1);
            assert(o0.len() == old(out)@.len() + i - 1);
            assert forall|k: int| 0 <= k < out@.len() implies strs_view(out@)[k] == (strs_view(
                old(out)@,
            ) + strs_view(items@.take(i as int)))[k] by {
                if k < o0.len() {
                    assert(out@[k] == o0[k]);
                    assert(strs_view(o0)[k] == (strs_view(old(out)@) + strs_view(
                        items@.take(i as int - 1),
                    ))[k]);
                    if k >= old(out)@.len() {
                        assert(items@.take(i as int - 1)[k - old(out)@.len()] == items@[k - old(
                            out,
                        )@.len()]);
                        assert(items@.take(i as int)[k - old(out)@.len()] == items@[k - old(
                            out,
                        )@.len()]);
                    }
                } else {
                    assert(out@[k] == c);
                    assert(items@.take(i as int)[k - old(out)@.len()] == items@[i - 1]);
                }
            }
            assert(strs_view(out@) =~= strs_view(old(out)@) + strs_view(items@.take(i as int)));
        }
    }
    proof {
        assert(items@.take(items@.len() as int) =~= items@);
    }
}

/// The common capability set every runner variant exposes: access to
/// its underlying Wine, access to its metadata, and the invocations
/// that bootstrap a prefix and launch a process inside it.  The host
/// layer performs the invocations and waits on or returns the child.
pub trait Runner: Sized {
    /// Whether this runner can reach an underlying Wine.
    spec fn wine_ok(&self) -> bool;

    /// The underlying Wine.
    spec fn spec_wine(&self) -> Wine;

    /// The runner's metadata.
    spec fn spec_info(&self) -> RunnerInfo;

    /// The invocation that bootstraps the given prefix.
    spec fn spec_initialize(&self, prefix: Seq<char>) -> InvocationView;

    /// The invocation that launches an executable inside the given
    /// prefix with the caller's environment additions.
    spec fn spec_launch(
        &self,
        executable: Seq<char>,
        args: Seq<Seq<char>>,
        prefix: Seq<char>,
        env: Seq<(Seq<char>, Seq<char>)>,
    ) -> InvocationView;

    /// The underlying Wine instance.
    fn wine(&self) -> (w: &Wine)
        requires
            self.wine_ok(),
        ensures
            *w == self.spec_wine(),
    ;

    /// The runner's metadata.
    fn info(&self) -> (i: &RunnerInfo)
        ensures
            *i == self.spec_info(),
    ;

    /// Compute the invocation that bootstraps the given prefix.  The
    /// runtime creates the prefix directory when it is missing.
    fn initialize_invocation(&self, prefix: &String) -> (inv: Invocation)
        ensures
            inv@ == self.spec_initialize(prefix@),
    ;

    /// Compute the invocation that launches `executable` with `args`
    /// inside `prefix`: the variant's mandatory variables come first
    /// and the caller's entries after them, overriding on equal keys.
    fn launch_invocation(
        &self,
        executable: &String,
        args: &Vec<String>,
        prefix: &String,
        env: &Vec<(String, String)>,
    ) -> (inv: Invocation)
        ensures
            inv@ == self.spec_launch(executable@, strs_view(args@), prefix@, env_view(env@)),
    ;
}

} // verus!
