//! A settings value in memory, bound to the place where it is kept.

use vstd::prelude::*;
use vstd::string::*;
use crate::settings::ConfigError;

verus! {

/// The place where one settings value of type `C` is kept. An implementor
/// reads and writes the file; nothing is assumed of what it answers.
pub trait ConfigManager<C> {
    /// The directory that holds the file.
    fn directory(&self) -> String;

    /// The name of the file inside the directory.
    fn file(&self) -> String;

    /// The file's full path.
    fn path(&self) -> String;

    /// Whether the file exists.
    fn file_exists(&self) -> bool;

    /// Reads and decodes the file.
    fn open(&self) -> Result<C, ConfigError>;

    /// Encodes the value and writes the file.
    fn save(&self, config: &C) -> Result<(), ConfigError>;
}

/// Names the user's settings file.
pub struct GlobalConfigManager;

impl GlobalConfigManager {
    /// The tool's directory inside the user's configuration directory.
    pub fn directory_name(&self) -> (name: String)
        ensures
            name@ == "shuttle"@,
    {
        String::from_str("shuttle")
    }

    /// The name of the settings file inside the tool's directory.
    pub fn file(&self) -> (name: String)
        ensures
            name@ == "config.toml"@,
    {
        String::from_str("config.toml")
    }
}

/// Names the settings file of a project, inside its working directory.
#[derive(Debug, Clone)]
pub struct LocalConfigManager {
    pub working_directory: String,
    pub file_name: String,
}

impl LocalConfigManager {
    pub fn new(working_directory: String, file_name: String) -> (r: LocalConfigManager)
        ensures
            r.working_directory == working_directory,
            r.file_name == file_name,
    {
        LocalConfigManager { working_directory, file_name }
    }

    /// The directory that holds the file.
    pub fn directory(&self) -> (dir: String)
        ensures
            dir == self.working_directory,
    {
        self.working_directory.clone()
    }

    /// The name of the file.
    pub fn file(&self) -> (name: String)
        ensures
            name == self.file_name,
    {
        self.file_name.clone()
    }
}

/// A settings value of type `C`, if one was loaded or set, with the place
/// `M` where it is kept.
pub struct Config<M, C> {
    pub manager: M,
    pub config: Option<C>,
}

impl<M: ConfigManager<C>, C> Config<M, C> {
    /// A handle with no value yet; the file is not touched.
    pub fn new(manager: M) -> (r: Self)
        ensures
            r.manager == manager,
            r.config is None,
    {
        Config { manager, config: None }
    }

    /// Takes what a load gave: a value becomes the value in memory, a
    /// failure leaves the value in memory as it was and is handed on.
    pub fn absorb(&mut self, loaded: Result<C, ConfigError>) -> (r: Result<(), ConfigError>)
        ensures
            final(self).manager == old(self).manager,
            match loaded {
                Ok(value) => r is Ok && final(self).config == Some(value),
                Err(e) => r == Err::<(), ConfigError>(e) && final(self).config == old(self).config,
            },
    {
        match loaded {
            Ok(value) => {
                self.config = Some(value);
                Ok(())
            },
            Err(e) => Err(e),
        }
    }

    /// Loads the value from its file: what the store read becomes the value
    /// in memory. On failure the store's error is handed on and the value in
    /// memory stays.
    pub fn open(&mut self) -> (r: Result<(), ConfigError>)
        ensures
            final(self).manager == old(self).manager,
            r is Ok ==> final(self).config is Some,
            r is Err ==> final(self).config == old(self).config,
            match r {
                Ok(_) => call_ensures(
                    M::open,
                    (&old(self).manager,),
                    Ok::<C, ConfigError>(final(self).config.unwrap()),
                ),
                Err(e) => call_ensures(M::open, (&old(self).manager,), Err::<C, ConfigError>(e)),
            },
    {
        let loaded = self.manager.open();
        self.absorb(loaded)
    }

    /// Writes the value in memory to its file: the store is handed that
    /// value, and its answer is the result.
    pub fn save(&self) -> (r: Result<(), ConfigError>)
        requires
            self.config is Some,
        ensures
            call_ensures(M::save, (&self.manager, &self.config.unwrap()), r),
    {
        match &self.config {
            Some(value) => self.manager.save(value),
            None => Ok(()),
        }
    }

    /// Whether the file exists, as the store answers.
    pub fn file_exists(&self) -> (r: bool)
        ensures
            call_ensures(M::file_exists, (&self.manager,), r),
    {
        self.manager.file_exists()
    }

    /// Puts a new value in memory and hands back the one it replaces. The
    /// file is not touched.
    pub fn replace(&mut self, config: C) -> (previous: Option<C>)
        ensures
            previous == old(self).config,
            final(self).config == Some(config),
            final(self).manager == old(self).manager,
    {
        let previous = self.config.take();
        self.config = Some(config);
        previous
    }

    /// The value in memory, to change it.
    pub fn as_mut(&mut self) -> (r: Option<&mut C>)
        ensures
            old(self).config is None ==> r is None && *final(self) == *old(self),
            old(self).config is Some ==> r is Some && *r.unwrap() == old(self).config.unwrap()
                && final(self).config == Some(*final(r.unwrap())) && final(self).manager == old(
                self,
            ).manager,
    {
        match &mut self.config {
            Some(value) => Some(value),
            None => None,
        }
    }

    /// The value in memory.
    pub fn as_ref(&self) -> (r: Option<&C>)
        ensures
            r is Some <==> self.config is Some,
            r is Some ==> *r.unwrap() == self.config.unwrap(),
    {
        self.config.as_ref()
    }

    /// Writes a file with the default value, unless a file exists: an
    /// existing file is never overwritten.
    pub fn create(&self) -> (r: Result<(), ConfigError>)
        where C: Default,
        ensures
            created::<M, C>(&self.manager, r),
    {
        let present = self.manager.file_exists();
        self.create_unless(present)
    }

    /// Writes a file with the default value unless `present` says that a
    /// file exists; then nothing is written and nothing can fail.
    pub fn create_unless(&self, present: bool) -> (r: Result<(), ConfigError>)
        where C: Default,
        ensures
            present ==> r is Ok,
            created_unless::<M, C>(&self.manager, present, r),
    {
        if present {
            Ok(())
        } else {
            let config = C::default();
            self.manager.save(&config)
        }
    }
}

/// Whether `r` is what the store answered when a default value was handed
/// to it for writing.
pub open spec fn wrote_default<M: ConfigManager<C>, C: Default>(
    manager: &M,
    r: Result<(), ConfigError>,
) -> bool {
    exists|value: C|
        call_ensures(C::default, (), value) && #[trigger] call_ensures(
            M::save,
            (manager, &value),
            r,
        )
}

/// Whether `r` is the outcome of creating the file, given whether one is
/// `present`: with a file present nothing is written and the outcome is
/// success; without one it is what writing a default value gave.
pub open spec fn created_unless<M: ConfigManager<C>, C: Default>(
    manager: &M,
    present: bool,
    r: Result<(), ConfigError>,
) -> bool {
    if present {
        r is Ok
    } else {
        wrote_default::<M, C>(manager, r)
    }
}

/// Whether `r` is the outcome of creating the file where the store says
/// that none exists.
pub open spec fn created<M: ConfigManager<C>, C: Default>(
    manager: &M,
    r: Result<(), ConfigError>,
) -> bool {
    exists|present: bool| #[trigger]
        call_ensures(M::file_exists, (manager,), present) && created_unless::<M, C>(
            manager,
            present,
            r,
        )
}

} // verus!
