//! The building blocks of an application specification: its deployment
//! target, its configuration trait, the contexts handed to modules, loaders
//! and actions, and the process environment as a configuration source.
use vstd::prelude::*;
use vstd::hash_map::StringHashMap;
use crate::env::{EnvConfig, EnvError};

verus! {

/// Where an application runs.
#[derive(Debug, Clone, Copy, PartialEq, Eq, Structural)]
pub enum Target {
    Server,
    Wasm,
    Edge,
    Desktop,
    MobileAndroid,
    MobileIos,
}

/// The configuration of an application: its error type and where its
/// environment variables come from.
pub trait AppConfig: Sized {
    type Error;
    type Env: EnvConfig;
}

/// What a module gets when it is initialised: the application's
/// configuration and environment.
pub struct ModuleContext<'a, C: AppConfig> {
    pub config: &'a C,
    pub env: &'a C::Env,
}

impl<'a, C: AppConfig> ModuleContext<'a, C> {
    /// The context for `config` and `env`.
    pub fn new(config: &'a C, env: &'a C::Env) -> (m: Self)
        ensures
            *m.config == *config,
            *m.env == *env,
    {
        ModuleContext { config, env }
    }
}

/// The context a loader runs in.
pub struct LoaderCtx<C: AppConfig> {
    pub config: C,
}

/// The context an action runs in.
pub struct ActionCtx<C: AppConfig> {
    pub config: C,
}

/// The process environment, as read when it was captured.
pub struct TypedEnv {
    vars: StringHashMap<String>,
}

impl View for TypedEnv {
    type V = Map<Seq<char>, Seq<char>>;

    /// The variables, keyed and valued by their characters.
    closed spec fn view(&self) -> Map<Seq<char>, Seq<char>> {
        self.vars@.map_values(|v: String| v@)
    }
}

/// The map of variables that setting `vars` in order leaves: a later
/// setting of a name wins.
pub open spec fn vars_map(vars: Seq<(String, String)>) -> Map<Seq<char>, Seq<char>>
    decreases vars.len(),
{
    if vars.len() == 0 {
        Map::empty()
    } else {
        vars_map(vars.drop_last()).insert(vars.last().0@, vars.last().1@)
    }
}

impl TypedEnv {
    /// The environment holding the variables `vars` (as the process
    /// environment lists them).
    pub fn from_vars(vars: Vec<(String, String)>) -> (e: Self)
        ensures
            e@ == vars_map(vars@),
    {
        let mut m: StringHashMap<String> = StringHashMap::new();
        let mut i: usize = 0;
        assert(m@.map_values(|v: String| v@) =~= vars_map(vars@.take(0)));
        while i < vars.len()
            invariant
                i <= vars@.len(),
                m@.map_values(|v: String| v@) == vars_map(vars@.take(i as int)),
            decreases vars.len() - i,
        {
            let (k, v) = (&vars[i].0, &vars[i].1);
            let ghost before = m@;
            m.insert(k.clone(), v.clone());
            assert(vars@.take(i + 1).drop_last() =~= vars@.take(i as int));
            assert(vars@.take(i + 1).last() == vars@[i as int]);
            assert(m@.map_values(|v: String| v@) =~= before.map_values(|v: String| v@).insert(k@, v@));
            i = i + 1;
        }
        assert(vars@.take(vars@.len() as int) =~= vars@);
        TypedEnv { vars: m }
    }
}

impl EnvConfig for TypedEnv {
    open spec fn var(&self, key: Seq<char>) -> Option<Seq<char>> {
        if self@.contains_key(key) {
            Some(self@[key])
        } else {
            None
        }
    }

    /// The variable `key`, or `MissingKey` naming it.
    fn get_var(&self, key: &str) -> (r: Result<String, EnvError>)
        ensures
            match r {
                Ok(v) => self@.contains_key(key@) && v@ == self@[key@],
                Err(e) => !self@.contains_key(key@) && (e matches EnvError::MissingKey(k) && k@ == key@),
            },
    {
        match self.vars.get(key) {
            Some(v) => Ok(v.clone()),
            None => Err(EnvError::MissingKey(key.to_owned())),
        }
    }
}

} // verus!
