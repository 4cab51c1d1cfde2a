//! Where the Ruby installation of a project keeps its files.

use vstd::prelude::*;
use vstd::string::StringExecFns;
use crate::text::{chars_of, rows, split, split_on, string_of};

verus! {

/// Why a directory of the installation cannot be named.
#[derive(Clone, Copy, Debug, PartialEq, Eq, Structural)]
pub enum EnvError {
    /// The project names no Ruby version.
    UnknownVersion,
    /// The version lacks a minor number.
    MalformedVersion,
}

/// The directory of the interface stubs for the version `version` below
/// `stubs_root`: `rubystubs`, then the major and the minor number.
pub open spec fn stubs_path(stubs_root: Seq<char>, version: Seq<char>) -> Seq<char> {
    let numbers = split_on(version, '.');
    stubs_root + "/rubystubs"@ + numbers[0] + numbers[1]
}

/// The directory of the gems for `version` and `gemset` below `rvm_root`.
pub open spec fn gems_path(
    rvm_root: Seq<char>,
    version: Seq<char>,
    gemset: Option<Seq<char>>,
) -> Seq<char> {
    let plain = rvm_root + "/gems/ruby-"@ + version;
    match gemset {
        Some(name) => plain + "@"@ + name,
        None => plain,
    }
}

/// The interpreter for `version` below `rvm_root`.
pub open spec fn interpreter_path(rvm_root: Seq<char>, version: Seq<char>) -> Seq<char> {
    rvm_root + "/rubies/"@ + version + "/bin/ruby"@
}

/// What a project says of its Ruby installation, and where the version
/// manager and the stubs are kept.
pub struct RubyEnvProvider {
    dir: String,
    stubs_root: String,
    rvm_root: String,
    ruby_version: Option<String>,
    gemset: Option<String>,
}

/// The characters of a string that may be absent.
pub open spec fn text_of(s: Option<String>) -> Option<Seq<char>> {
    match s {
        Some(s) => Some(s@),
        None => None,
    }
}

impl RubyEnvProvider {
    pub closed spec fn project(&self) -> Seq<char> {
        self.dir@
    }

    pub closed spec fn stubs(&self) -> Seq<char> {
        self.stubs_root@
    }

    pub closed spec fn rvm(&self) -> Seq<char> {
        self.rvm_root@
    }

    pub closed spec fn version(&self) -> Option<Seq<char>> {
        text_of(self.ruby_version)
    }

    pub closed spec fn gems(&self) -> Option<Seq<char>> {
        text_of(self.gemset)
    }

    /// The installation of the project at `dir`. `ruby_version` and `gemset`
    /// are what the project's version files hold, if it has them.
    pub fn new(
        dir: &str,
        stubs_root: &str,
        rvm_root: &str,
        ruby_version: Option<String>,
        gemset: Option<String>,
    ) -> (provider: RubyEnvProvider)
        ensures
            provider.project() == dir@,
            provider.stubs() == stubs_root@,
            provider.rvm() == rvm_root@,
            provider.version() == text_of(ruby_version),
            provider.gems() == text_of(gemset),
    {
        RubyEnvProvider {
            dir: dir.to_owned(),
            stubs_root: stubs_root.to_owned(),
            rvm_root: rvm_root.to_owned(),
            ruby_version,
            gemset,
        }
    }

    /// The directory of the interface stubs for the project's Ruby version;
    /// `None` for a project that names no version.
    pub fn stubs_dir(&self) -> (r: Result<Option<String>, EnvError>)
        ensures
            match self.version() {
                None => r == Ok::<Option<String>, EnvError>(None),
                Some(version) => if split_on(version, '.').len() >= 2 {
                    r is Ok && r->Ok_0 is Some && r->Ok_0->0@ == stubs_path(self.stubs(), version)
                } else {
                    r == Err::<Option<String>, EnvError>(EnvError::MalformedVersion)
                },
            },
    {
        let version = match &self.ruby_version {
            Some(version) => version,
            None => {
                return Ok(None);
            },
        };
        let numbers = split(&chars_of(version.as_str()), '.');
        if numbers.len() < 2 {
            return Err(EnvError::MalformedVersion);
        }
        assert(rows(numbers@)[0] == numbers@[0]@);
        assert(rows(numbers@)[1] == numbers@[1]@);
        let mut path = self.stubs_root.clone();
        path.append("/rubystubs");
        path.append(string_of(&numbers[0]).as_str());
        path.append(string_of(&numbers[1]).as_str());
        Ok(Some(path))
    }

    /// The directory of the project's gems; `None` for a project that names
    /// no version.
    pub fn gems_dir(&self) -> (r: Option<String>)
        ensures
            match self.version() {
                None => r is None,
                Some(version) => r is Some && r->0@ == gems_path(self.rvm(), version, self.gems()),
            },
    {
        let version = match &self.ruby_version {
            Some(version) => version,
            None => {
                return None;
            },
        };
        let mut path = self.rvm_root.clone();
        path.append("/gems/ruby-");
        path.append(version.as_str());
        match &self.gemset {
            Some(gemset) => {
                path.append("@");
                path.append(gemset.as_str());
            },
            None => {},
        }
        Some(path)
    }

    /// The directory of the executables that the project's gems install.
    pub fn ruby_bin_dir(&self) -> (r: Option<String>)
        ensures
            match self.version() {
                None => r is None,
                Some(version) => r is Some && r->0@ == gems_path(self.rvm(), version, self.gems())
                    + "/bin/"@,
            },
    {
        match self.gems_dir() {
            Some(mut path) => {
                path.append("/bin/");
                Some(path)
            },
            None => None,
        }
    }

    /// The interpreter of the project's Ruby version.
    pub fn ruby_path(&self) -> (r: Result<String, EnvError>)
        ensures
            match self.version() {
                None => r is Err && r->Err_0 == EnvError::UnknownVersion,
                Some(version) => r is Ok && r->Ok_0@ == interpreter_path(self.rvm(), version),
            },
    {
        let version = match &self.ruby_version {
            Some(version) => version,
            None => {
                return Err(EnvError::UnknownVersion);
            },
        };
        let mut path = self.rvm_root.clone();
        path.append("/rubies/");
        path.append(version.as_str());
        path.append("/bin/ruby");
        Ok(path)
    }

    /// The program that runs a command in the project's environment: the
    /// bundler among the executables of the project's gems. A project that
    /// names no version has none.
    pub fn context_command(&self) -> (r: Result<String, EnvError>)
        ensures
            match self.version() {
                None => r is Err && r->Err_0 == EnvError::UnknownVersion,
                Some(version) => r is Ok && r->Ok_0@ == gems_path(self.rvm(), version, self.gems())
                    + "/bin/"@ + "bundle"@,
            },
    {
        match self.ruby_bin_dir() {
            Some(mut path) => {
                path.append("bundle");
                Ok(path)
            },
            None => self.ruby_path(),
        }
    }
}

} // verus!
