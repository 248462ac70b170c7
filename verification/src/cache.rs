//! Global cache management for PyBun.
//!
//! Layout:
//! - ~/.cache/pybun/packages/    (wheels)
//! - ~/.cache/pybun/envs/        (virtual environments)
//! - ~/.cache/pybun/build/       (build object cache)
//! - ~/.cache/pybun/logs/        (structured event logs)
//! - ~/.cache/pybun/pep723-envs/ (PEP 723 script venvs)
//!
//! Garbage collection evicts least-recently-used files until the cache is
//! under a size limit (see [`gc`]); sizes are parsed and printed by
//! [`size`].

pub mod gc;
pub mod size;

pub use gc::{CacheEntry, GcResult, total_size};
pub use size::{format_size, parse_size};

use vstd::prelude::*;
use crate::pathname::{join, join_path};

verus! {

/// Errors of cache setup. I/O failures carry the text of the underlying
/// error.
#[derive(Debug, Clone)]
pub enum CacheError {
    NoHomeDir,
    CreateDir { path: String, message: String },
    Io(String),
}

/// Represents the global cache configuration and paths.
#[derive(Debug, Clone)]
pub struct Cache {
    root: String,
}

impl View for Cache {
    type V = Seq<char>;

    /// The root directory of the cache.
    closed spec fn view(&self) -> Seq<char> {
        self.root@
    }
}

/// Calls `dirs::home_dir` and returns the directory as text (lossily, for a
/// path that is not UTF-8). What it returns depends on the environment and
/// the user database, so nothing is claimed of it.
#[verifier::external_body]
fn home_dir() -> Option<String> {
    dirs::home_dir().map(|p| p.to_string_lossy().into_owned())
}

/// Calls `Path::exists`; the answer depends on the file system, so nothing
/// is claimed of it.
#[verifier::external_body]
fn path_exists(path: &str) -> bool {
    std::path::Path::new(path).exists()
}

/// The cache root chosen from the value of `PYBUN_HOME` and the user's home
/// directory: `PYBUN_HOME` when set, else `~/.cache/pybun`.
pub open spec fn root_for(pybun_home: Option<Seq<char>>, home: Option<Seq<char>>) -> Option<
    Seq<char>,
> {
    match pybun_home {
        Some(h) => Some(h),
        None => match home {
            Some(d) => Some(join(d, ".cache/pybun"@)),
            None => None,
        },
    }
}

pub open spec fn opt_str(o: Option<String>) -> Option<Seq<char>> {
    match o {
        Some(s) => Some(s@),
        None => None,
    }
}

impl Cache {
    /// The cache for a given value of `PYBUN_HOME` and home directory (see
    /// [`root_for`]); `NoHomeDir` when neither is known.
    pub fn from_locations(pybun_home: Option<String>, home: Option<String>) -> (r: Result<
        Cache,
        CacheError,
    >)
        ensures
            match root_for(opt_str(pybun_home), opt_str(home)) {
                Some(root) => r matches Ok(c) && c@ == root,
                None => r matches Err(CacheError::NoHomeDir),
            },
    {
        match pybun_home {
            Some(h) => Ok(Cache { root: h }),
            None => match home {
                Some(d) => Ok(Cache { root: join_path(d.as_str(), ".cache/pybun") }),
                None => Err(CacheError::NoHomeDir),
            },
        }
    }

    /// Create a new cache instance from the value of the `PYBUN_HOME`
    /// environment variable (`None` when unset).
    ///
    /// Priority:
    /// 1. `PYBUN_HOME`
    /// 2. `~/.cache/pybun`
    pub fn new(pybun_home: Option<String>) -> (r: Result<Cache, CacheError>)
        ensures
            pybun_home matches Some(h) ==> r matches Ok(c) && c@ == h@,
            pybun_home is None ==> (r matches Err(CacheError::NoHomeDir)) || (r matches Ok(c)
                && exists|d: Seq<char>| c@ == join(d, ".cache/pybun"@)),
    {
        match pybun_home {
            Some(h) => Cache::from_locations(Some(h), None),
            None => {
                let home = home_dir();
                let ghost h = opt_str(home);
                let r = Cache::from_locations(None, home);
                proof {
                    if let Some(d) = h {
                        assert(r matches Ok(c) && c@ == join(d, ".cache/pybun"@));
                    }
                }
                r
            },
        }
    }

    /// Create a cache instance with a custom root directory (useful for testing).
    pub fn with_root(root: String) -> (c: Cache)
        ensures
            c@ == root@,
    {
        Cache { root }
    }

    /// Root directory of the cache.
    pub fn root(&self) -> (r: &str)
        ensures
            r@ == self@,
    {
        self.root.as_str()
    }

    /// Directory for cached wheel packages.
    pub fn packages_dir(&self) -> (r: String)
        ensures
            r@ == join(self@, "packages"@),
    {
        join_path(self.root.as_str(), "packages")
    }

    /// Directory for virtual environments.
    pub fn envs_dir(&self) -> (r: String)
        ensures
            r@ == join(self@, "envs"@),
    {
        join_path(self.root.as_str(), "envs")
    }

    /// Directory for build artifacts.
    pub fn build_dir(&self) -> (r: String)
        ensures
            r@ == join(self@, "build"@),
    {
        join_path(self.root.as_str(), "build")
    }

    /// Directory for logs.
    pub fn logs_dir(&self) -> (r: String)
        ensures
            r@ == join(self@, "logs"@),
    {
        join_path(self.root.as_str(), "logs")
    }

    /// Directory for PEP 723 script venv cache.
    pub fn pep723_envs_dir(&self) -> (r: String)
        ensures
            r@ == join(self@, "pep723-envs"@),
    {
        join_path(self.root.as_str(), "pep723-envs")
    }

    /// Get the path where a specific package wheel would be stored.
    ///
    /// Layout: packages/{name}/{name}-{version}-{wheel_tag}.whl
    pub fn wheel_path(&self, name: &str, _version: &str, wheel_file: &str) -> (r: String)
        ensures
            r@ == join(join(join(self@, "packages"@), name@), wheel_file@),
    {
        let dir = self.package_dir(name);
        join_path(dir.as_str(), wheel_file)
    }

    /// Get the directory for a specific package in the cache.
    pub fn package_dir(&self, name: &str) -> (r: String)
        ensures
            r@ == join(join(self@, "packages"@), name@),
    {
        let packages = self.packages_dir();
        join_path(packages.as_str(), name)
    }

    /// Check if a wheel exists in the cache: asks the file system whether
    /// [`Cache::wheel_path`] exists.
    pub fn has_wheel(&self, name: &str, version: &str, wheel_file: &str) -> bool {
        let path = self.wheel_path(name, version, wheel_file);
        path_exists(path.as_str())
    }
}

} // verus!
