//! Typed access to environment configuration, and an in-memory environment
//! for deterministic tests.
use vstd::prelude::*;
use vstd::hash_map::StringHashMap;
use crate::text::push_str;

verus! {

/// Why a configuration value could not be read.
#[derive(Debug, Clone, PartialEq, Eq)]
pub enum EnvError {
    /// The variable is not set.
    MissingKey(String),
    /// The variable is set but does not hold a value of the expected type.
    InvalidType(String),
}

/// The text that `EnvError` displays.
pub open spec fn env_error_message(e: EnvError) -> Seq<char> {
    match e {
        EnvError::MissingKey(k) => "Missing environment variable: "@ + k@,
        EnvError::InvalidType(k) => "Invalid type for environment variable: "@ + k@,
    }
}

impl EnvError {
    /// The human-readable description of the error.
    pub fn message(&self) -> (m: String)
        ensures
            m@ == env_error_message(*self),
    {
        let mut m = String::new();
        match self {
            EnvError::MissingKey(k) => {
                push_str(&mut m, "Missing environment variable: ");
                push_str(&mut m, k.as_str());
            },
            EnvError::InvalidType(k) => {
                push_str(&mut m, "Invalid type for environment variable: ");
                push_str(&mut m, k.as_str());
            },
        }
        m
    }
}

/// Conversion of a raw environment value into a typed value.
pub trait FromEnv: Sized {
    /// Whether `r` is what reading the raw value `val` gives.
    spec fn reads_as(val: Seq<char>, r: Result<Self, EnvError>) -> bool;

    fn from_env(val: String) -> (r: Result<Self, EnvError>)
        ensures
            Self::reads_as(val@, r),
    ;
}

impl FromEnv for String {
    /// A string value is taken as it is.
    open spec fn reads_as(val: Seq<char>, r: Result<String, EnvError>) -> bool {
        r matches Ok(s) && s@ == val
    }

    fn from_env(val: String) -> (r: Result<Self, EnvError>) {
        Ok(val)
    }
}

/// A source of configuration variables.
pub trait EnvConfig {
    /// The value the source holds for `key`, if any.
    spec fn var(&self, key: Seq<char>) -> Option<Seq<char>>;

    /// Reads the raw value of `key`.
    fn get_var(&self, key: &str) -> (r: Result<String, EnvError>)
        ensures
            match r {
                Ok(v) => self.var(key@) == Some(v@),
                Err(_) => self.var(key@) is None,
            },
    ;
}

/// Typed reads on top of any `EnvConfig`.
pub trait EnvConfigExt: EnvConfig {
    /// Reads `key` and converts it with `T::from_env`.
    fn get<T: FromEnv>(&self, key: &str) -> (r: Result<T, EnvError>)
        ensures
            match self.var(key@) {
                Some(v) => T::reads_as(v, r),
                None => r is Err,
            },
    {
        match self.get_var(key) {
            Ok(v) => T::from_env(v),
            Err(e) => Err(e),
        }
    }
}

impl<E: EnvConfig> EnvConfigExt for E {}

/// An in-memory environment whose variables are set by hand.
pub struct TestEnv {
    vars: StringHashMap<String>,
}

impl View for TestEnv {
    type V = Map<Seq<char>, Seq<char>>;

    /// The variables, keyed and valued by their characters.
    closed spec fn view(&self) -> Map<Seq<char>, Seq<char>> {
        self.vars@.map_values(|v: String| v@)
    }
}

impl TestEnv {
    /// An environment with no variables.
    pub fn new() -> (e: Self)
        ensures
            e@ == Map::<Seq<char>, Seq<char>>::empty(),
    {
        let e = TestEnv { vars: StringHashMap::new() };
        assert(e@ =~= Map::<Seq<char>, Seq<char>>::empty());
        e
    }

    /// Sets `key` to `value`, replacing any earlier value.
    pub fn set(&mut self, key: &str, value: &str)
        ensures
            final(self)@ == old(self)@.insert(key@, value@),
    {
        self.vars.insert(key.to_owned(), value.to_owned());
        assert(self@ =~= old(self)@.insert(key@, value@));
    }
}

impl Default for TestEnv {
    fn default() -> (e: Self)
        ensures
            e@ == Map::<Seq<char>, Seq<char>>::empty(),
    {
        TestEnv::new()
    }
}

impl EnvConfig for TestEnv {
    open spec fn var(&self, key: Seq<char>) -> Option<Seq<char>> {
        if self@.contains_key(key) {
            Some(self@[key])
        } else {
            None
        }
    }

    fn get_var(&self, key: &str) -> (r: Result<String, EnvError>)
        ensures
            match r {
                Ok(v) => self@.contains_key(key@) && v@ == self@[key@],
                Err(e) => !self@.contains_key(key@) && (e matches EnvError::MissingKey(k) && k@ == key@),
            },
    {
        match self.vars.get(key) {
            Some(v) => Ok(v.clone()),
            None => Err(EnvError::MissingKey(key.to_owned())),
        }
    }
}

/// A variable read back from a `TestEnv` gives what the last `set` of it
/// wrote, and setting one variable leaves every other variable unchanged.
pub proof fn law_read_after_set(before: TestEnv, after: TestEnv, key: Seq<char>, value: Seq<char>, other: Seq<char>)
    requires
        after@ == before@.insert(key, value),
    ensures
        after.var(key) == Some(value),
        other != key ==> after.var(other) == before.var(other),
{
}

} // verus!
