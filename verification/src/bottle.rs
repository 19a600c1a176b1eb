//! The bottle model: a named, on-disk Windows-compatibility prefix
//! together with its configuration overrides.

use vstd::prelude::*;

verus! {

/// The category a bottle belongs to.
#[derive(Clone, Copy, Debug, PartialEq, Eq, Structural)]
pub enum BottleType {
    Gaming,
    Software,
    Custom,
}

impl Default for BottleType {
    /// When no category is specified, a bottle is a custom one.
    fn default() -> (r: Self)
        ensures
            r == BottleType::Custom,
    {
        BottleType::Custom
    }
}

/// Per-bottle configuration overrides.  Every field is optional; the
/// environment mapping keeps its entries in insertion order and its
/// keys unique.
#[derive(Debug)]
pub struct BottleConfig {
    /// Identifier of the runner this bottle prefers, when set.
    pub runner: Option<String>,
    /// Version of the Direct3D 9/10/11 translation component, when set.
    pub dxvk_version: Option<String>,
    /// Version of the Direct3D 12 translation component, when set.
    pub vkd3d_version: Option<String>,
    /// Extra environment variables, in insertion order.
    pub environment: Vec<(String, String)>,
}

/// The mathematical value of a configuration.
pub struct ConfigView {
    pub runner: Option<Seq<char>>,
    pub dxvk_version: Option<Seq<char>>,
    pub vkd3d_version: Option<Seq<char>>,
    pub environment: Seq<(Seq<char>, Seq<char>)>,
}

/// The view of an optional string.
pub open spec fn opt_view(o: Option<String>) -> Option<Seq<char>> {
    match o {
        Some(s) => Some(s@),
        None => None,
    }
}

/// The view of an environment mapping.
pub open spec fn env_view(v: Seq<(String, String)>) -> Seq<(Seq<char>, Seq<char>)> {
    v.map_values(|p: (String, String)| (p.0@, p.1@))
}

/// Keys of an environment mapping are pairwise distinct.
pub open spec fn env_keys_unique(env: Seq<(Seq<char>, Seq<char>)>) -> bool {
    forall|i: int, j: int| 0 <= i < j < env.len() ==> (#[trigger] env[i]).0 != (#[trigger] env[j]).0
}

impl View for BottleConfig {
    type V = ConfigView;

    open spec fn view(&self) -> ConfigView {
        ConfigView {
            runner: opt_view(self.runner),
            dxvk_version: opt_view(self.dxvk_version),
            vkd3d_version: opt_view(self.vkd3d_version),
            environment: env_view(self.environment@),
        }
    }
}

/// The all-unset configuration.
pub open spec fn default_config_view() -> ConfigView {
    ConfigView {
        runner: None,
        dxvk_version: None,
        vkd3d_version: None,
        environment: Seq::empty(),
    }
}

impl Default for BottleConfig {
    /// A fresh configuration has every option unset and no environment
    /// entries.
    fn default() -> (r: Self)
        ensures
            r@ == default_config_view(),
    {
        let r = BottleConfig {
            runner: None,
            dxvk_version: None,
            vkd3d_version: None,
            environment: Vec::new(),
        };
        proof {
            assert(r@.environment =~= default_config_view().environment);
            assert(r@ =~= default_config_view());
        }
        r
    }
}

/// A named, on-disk environment representing one isolated
/// Windows-compatibility prefix plus its configuration.
#[derive(Debug)]
pub struct Bottle {
    /// Display name of the bottle.
    pub name: String,
    /// On-disk path of the prefix.
    pub path: String,
    /// Category of the bottle.
    pub kind: BottleType,
    /// Configuration overrides, persisted with the bottle.
    pub config: BottleConfig,
    /// Runtime-only flag marking the bottle as currently in use; it is
    /// never persisted.
    pub active: bool,
}

/// The mathematical value of a bottle.
pub struct BottleView {
    pub name: Seq<char>,
    pub path: Seq<char>,
    pub kind: BottleType,
    pub config: ConfigView,
    pub active: bool,
}

impl View for Bottle {
    type V = BottleView;

    open spec fn view(&self) -> BottleView {
        BottleView {
            name: self.name@,
            path: self.path@,
            kind: self.kind,
            config: self.config@,
            active: self.active,
        }
    }
}

impl BottleConfig {
    /// The position of the entry bearing the given variable name, if
    /// any.
    fn env_index(&self, key: &String) -> (r: Option<usize>)
        ensures
            match r {
                Some(i) => i < self.environment@.len() && env_view(self.environment@)[
                    i as int
                ].0 == key@,
                None => forall|k: int|
                    0 <= k < env_view(self.environment@).len() ==> (#[trigger] env_view(
                        self.environment@,
                    )[k]).0 != key@,
            },
    {
        let mut i: usize = 0;
        while i < self.environment.len()
            invariant
                i <= self.environment.len(),
                forall|k: int|
                    0 <= k < i ==> (#[trigger] env_view(self.environment@)[k]).0 != key@,
            decreases self.environment.len() - i,
        {
            if self.environment[i].0 == *key {
                proof {
                    assert(env_view(self.environment@)[i as int].0 == key@);
                }
                return Some(i);
            }
            i = i + 1;
        }
        None
    }

    /// The value the environment maps a variable to, if any.
    pub fn get_env(&self, key: &String) -> (r: Option<&String>)
        ensures
            match r {
                Some(v) => exists|k: int|
                    0 <= k < env_view(self.environment@).len() && #[trigger] env_view(
                        self.environment@,
                    )[k] == (key@, v@),
                None => forall|k: int|
                    0 <= k < env_view(self.environment@).len() ==> (#[trigger] env_view(
                        self.environment@,
                    )[k]).0 != key@,
            },
    {
        match self.env_index(key) {
            Some(i) => {
                let v = &self.environment[i].1;
                proof {
                    assert(env_view(self.environment@)[i as int] == (key@, v@));
                }
                Some(v)
            },
            None => None,
        }
    }

    /// Set a variable: replace the value of the entry bearing the
    /// name, in place, or append a new entry.  Insertion order is
    /// kept and keys stay unique.
    pub fn set_env(&mut self, key: String, value: String)
        requires
            env_keys_unique(env_view(old(self).environment@)),
        ensures
            env_keys_unique(env_view(final(self).environment@)),
            final(self).runner == old(self).runner,
            final(self).dxvk_version == old(self).dxvk_version,
            final(self).vkd3d_version == old(self).vkd3d_version,
            (exists|k: int|
                0 <= k < env_view(old(self).environment@).len() && (#[trigger] env_view(
                    old(self).environment@,
                )[k]).0 == key@ && env_view(final(self).environment@) == env_view(
                    old(self).environment@,
                ).update(k, (key@, value@))) || ((forall|k: int|
                0 <= k < env_view(old(self).environment@).len() ==> (#[trigger] env_view(
                    old(self).environment@,
                )[k]).0 != key@) && env_view(final(self).environment@) == env_view(
                old(self).environment@,
            ).push((key@, value@))),
    {
        let ghost oldv = env_view(self.environment@);
        match self.env_index(&key) {
            Some(i) => {
                self.environment[i] = (key, value);
                proof {
                    let newv = env_view(self.environment@);
                    assert(newv =~= oldv.update(i as int, (key@, value@)));
                    assert forall|a: int, b: int| 0 <= a < b < newv.len() implies (
                    #[trigger] newv[a]).0 != (#[trigger] newv[b]).0 by {
                        assert(newv[a].0 == oldv[a].0);
                        assert(newv[b].0 == oldv[b].0);
                    }
                }
            },
            None => {
                self.environment.push((key, value));
                proof {
                    let newv = env_view(self.environment@);
                    assert(newv =~= oldv.push((key@, value@)));
                    assert forall|a: int, b: int| 0 <= a < b < newv.len() implies (
                    #[trigger] newv[a]).0 != (#[trigger] newv[b]).0 by {
                        assert(newv[a].0 == oldv[a].0);
                        if b < oldv.len() {
                            assert(newv[b].0 == oldv[b].0);
                        } else {
                            assert(newv[b].0 == key@);
                        }
                    }
                }
            },
        }
    }
}

/// The views of a sequence of bottles.
pub open spec fn bottles_view(v: Seq<Bottle>) -> Seq<BottleView> {
    v.map_values(|b: Bottle| b@)
}

impl Bottle {
    /// A new bottle carries the given name, path, and category, starts
    /// with a default configuration, and is inactive.
    pub fn new(name: String, path: String, kind: BottleType) -> (r: Self)
        ensures
            r@.name == name@,
            r@.path == path@,
            r@.kind == kind,
            r@.config == default_config_view(),
            r@.active == false,
    {
        Bottle {
            name,
            path,
            kind,
            config: BottleConfig::default(),
            active: false,
        }
    }
}

} // verus!
