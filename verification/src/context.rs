//! The settings in force for one run of the tool: the user's settings, the
//! project's settings once loaded, and what the command line overrides.

use vstd::prelude::*;
use vstd::string::*;
use crate::record::optional_text;
use crate::settings::{
    fallback_api_url,
    beta_url,
    is_default_url,
    key_from,
    key_outcome,
    outcome_of,
    settled_name,
    ApiKey,
    ConfigError,
    GlobalConfig,
    KeySource,
    ProjectConfig,
};
use crate::store::{created, Config, ConfigManager};

verus! {

/// The user's settings, the project's settings, and the address given on
/// the command line.
pub struct RequestContext<G, L> {
    pub global: Config<G, GlobalConfig>,
    pub project: Option<Config<L, ProjectConfig>>,
    pub api_url: Option<String>,
}

/// The address in force: the one given on the command line, else the stored
/// one, else the fallback.
pub open spec fn effective_url(
    flag: Option<Seq<char>>,
    stored: Option<Seq<char>>,
    fallback: Seq<char>,
) -> Seq<char> {
    match flag {
        Some(url) => url,
        None => match stored {
            Some(url) => url,
            None => fallback,
        },
    }
}

/// Picks the address in force.
pub fn choose_api_url(flag: &Option<String>, stored: &Option<String>, fallback: String) -> (url:
    String)
    ensures
        url@ == effective_url(optional_text(*flag), optional_text(*stored), fallback@),
{
    match flag {
        Some(url) => url.clone(),
        None => match stored {
            Some(url) => url.clone(),
            None => fallback,
        },
    }
}

impl<G: ConfigManager<GlobalConfig>, L: ConfigManager<ProjectConfig>> RequestContext<G, L> {
    /// Whether the user's settings are in memory.
    pub open spec fn wf(&self) -> bool {
        self.global.config is Some
    }

    /// Whether the project's settings are in memory.
    pub open spec fn has_project(&self) -> bool {
        self.project is Some && self.project.unwrap().config is Some
    }

    /// Whether the project's settings are in memory and hold a name.
    pub open spec fn has_project_name(&self) -> bool {
        self.has_project() && self.project.unwrap().config.unwrap().name is Some
    }

    /// Loads the user's settings, writing a file of defaults first where
    /// none exists. No project is loaded and no address overridden.
    pub fn load_global(manager: G) -> (r: Result<Self, ConfigError>)
        ensures
            r is Ok ==> {
                &&& r.unwrap().wf()
                &&& r.unwrap().global.manager == manager
                &&& r.unwrap().project is None
                &&& r.unwrap().api_url is None
            },
            Self::global_outcome(manager, r),
    {
        let global: Config<G, GlobalConfig> = Config::new(manager);
        let present = global.file_exists();
        let made = if present {
            Ok(())
        } else {
            global.create()
        };
        match made {
            Ok(_) => {
                let loaded = global.manager.open();
                let r = Self::global_from(global.manager, loaded);
                proof {
                    assert(call_ensures(G::open, (&manager,), loaded));
                    assert(Self::global_result(manager, loaded, r));
                    assert(call_ensures(G::file_exists, (&manager,), present));
                    assert(Self::global_outcome(manager, r));
                }
                r
            },
            Err(e) => {
                proof {
                    assert(call_ensures(G::file_exists, (&manager,), present));
                    assert(created::<G, GlobalConfig>(&manager, made));
                    assert(Self::global_outcome(manager, Err::<Self, ConfigError>(e)));
                }
                Err(e)
            },
        }
    }

    /// Makes the context of what a load of the user's settings gave: the
    /// settings become the ones in force, with no project and no address
    /// overridden; a failed load is handed on.
    pub fn global_from(manager: G, loaded: Result<GlobalConfig, ConfigError>) -> (r: Result<
        Self,
        ConfigError,
    >)
        ensures
            match loaded {
                Ok(settings) => {
                    &&& r is Ok
                    &&& r.unwrap().global.manager == manager
                    &&& r.unwrap().global.config == Some(settings)
                    &&& r.unwrap().project is None
                    &&& r.unwrap().api_url is None
                },
                Err(e) => r == Err::<Self, ConfigError>(e),
            },
    {
        match loaded {
            Ok(settings) => Ok(
                RequestContext {
                    global: Config { manager, config: Some(settings) },
                    project: None,
                    api_url: None,
                },
            ),
            Err(e) => Err(e),
        }
    }

    /// Takes the settings that `get_local_config` loaded as the project's.
    /// Result: whether the project's name still has to be inferred.
    pub fn load_local(&mut self, manager: L, name: Option<String>) -> (r: Result<
        bool,
        ConfigError,
    >)
        ensures
            final(self).global == old(self).global,
            final(self).api_url == old(self).api_url,
            r is Err ==> final(self).project == old(self).project,
            r is Ok ==> {
                &&& final(self).has_project()
                &&& final(self).project.unwrap().manager == manager
                &&& r.unwrap() == !final(self).has_project_name()
                &&& name is Some ==> final(self).project.unwrap().config.unwrap().name == name
            },
            exists|loaded: Result<Config<L, ProjectConfig>, ConfigError>| #[trigger]
                Self::local_outcome(manager, name, loaded) && Self::local_taken(
                    *old(self),
                    loaded,
                    *final(self),
                    r,
                ),
    {
        let loaded = Self::get_local_config(manager, name);
        self.take_local(loaded)
    }

    /// Takes what a load of the project's settings gave: the settings become
    /// the project's, and the result says whether the name is still open; a
    /// failed load is handed on and leaves the context as it was.
    pub fn take_local(&mut self, loaded: Result<Config<L, ProjectConfig>, ConfigError>) -> (r:
        Result<bool, ConfigError>)
        ensures
            Self::local_taken(*old(self), loaded, *final(self), r),
    {
        match loaded {
            Ok(project) => {
                let missing = match &project.config {
                    Some(config) => config.name.is_none(),
                    None => true,
                };
                self.project = Some(project);
                Ok(missing)
            },
            Err(e) => Err(e),
        }
    }

    /// Loads the project's settings, or takes the defaults where the project
    /// has no settings file, and applies the name given on the command line.
    /// A name given there always wins; else the stored name stays; where
    /// neither exists the name is left open, to be inferred.
    pub fn get_local_config(manager: L, name: Option<String>) -> (r: Result<
        Config<L, ProjectConfig>,
        ConfigError,
    >)
        ensures
            r is Ok ==> {
                &&& r.unwrap().manager == manager
                &&& r.unwrap().config is Some
                &&& name is Some ==> r.unwrap().config.unwrap().name == name
            },
            Self::local_outcome(manager, name, r),
    {
        let present = manager.file_exists();
        let loaded = if !present {
            Ok(ProjectConfig::default())
        } else {
            manager.open()
        };
        let r = Self::local_from(manager, loaded, name);
        proof {
            assert(call_ensures(L::file_exists, (&manager,), present));
            assert(Self::local_result(manager, loaded, name, r));
            if present {
                assert(call_ensures(L::open, (&manager,), loaded));
            } else {
                assert(loaded.unwrap() == (ProjectConfig { name: None, assets: None }));
            }
        }
        r
    }

    /// Makes the project's settings of what a load gave and of the name
    /// given on the command line: that name if there is one, else the name
    /// that was loaded, else none yet. A failed load is handed on.
    pub fn local_from(
        manager: L,
        loaded: Result<ProjectConfig, ConfigError>,
        name: Option<String>,
    ) -> (r: Result<Config<L, ProjectConfig>, ConfigError>)
        ensures
            match loaded {
                Ok(stored) => {
                    &&& r is Ok
                    &&& r.unwrap().manager == manager
                    &&& r.unwrap().config is Some
                    &&& optional_text(r.unwrap().config.unwrap().name) == settled_name(
                        optional_text(name),
                        optional_text(stored.name),
                    )
                    &&& name is Some ==> r.unwrap().config.unwrap().name == name
                    &&& name is None ==> r.unwrap().config.unwrap().name == stored.name
                    &&& r.unwrap().config.unwrap().assets == stored.assets
                },
                Err(e) => r == Err::<Config<L, ProjectConfig>, ConfigError>(e),
            },
    {
        match loaded {
            Ok(stored) => {
                let mut config = stored;
                config.resolve_name(name);
                Ok(Config { manager, config: Some(config) })
            },
            Err(e) => Err(e),
        }
    }

    /// Takes the name inferred from the project, unless the command line or
    /// the settings file gave one.
    pub fn infer_project_name(&mut self, inferred: String)
        requires
            old(self).has_project(),
        ensures
            final(self).has_project_name(),
            final(self).global == old(self).global,
            final(self).api_url == old(self).api_url,
            final(self).project.unwrap().manager == old(self).project.unwrap().manager,
            final(self).project.unwrap().config.unwrap().assets == old(
                self,
            ).project.unwrap().config.unwrap().assets,
            optional_text(final(self).project.unwrap().config.unwrap().name) == Some(
                match optional_text(old(self).project.unwrap().config.unwrap().name) {
                    Some(name) => name,
                    None => inferred@,
                },
            ),
    {
        match &mut self.project {
            Some(project) => match &mut project.config {
                Some(config) => {
                    config.infer_name(inferred);
                },
                None => {},
            },
            None => {},
        }
    }

    /// Overrides the address of the service, or lifts the override.
    pub fn set_api_url(&mut self, api_url: Option<String>)
        ensures
            final(self).api_url == api_url,
            final(self).global == old(self).global,
            final(self).project == old(self).project,
    {
        self.api_url = api_url;
    }

    /// The address of the service: the override, else the stored address,
    /// else the beta or the default address.
    pub fn api_url(&self, beta: bool) -> (url: String)
        requires
            self.wf(),
        ensures
            self.api_url is Some ==> url@ == self.api_url.unwrap()@,
            self.api_url is None && self.global.config.unwrap().api_url is Some ==> url@
                == self.global.config.unwrap().api_url.unwrap()@,
            self.api_url is None && self.global.config.unwrap().api_url is None && beta ==> url@
                == beta_url(),
            self.api_url is None && self.global.config.unwrap().api_url is None && !beta
                ==> is_default_url(url@),
    {
        let fallback = fallback_api_url(beta);
        match &self.global.config {
            Some(global) => choose_api_url(&self.api_url, &global.api_url, fallback),
            None => fallback,
        }
    }

    /// The API key in force. `env` is what the environment variable
    /// `SHUTTLE_API_KEY` holds, if it is set: it alone decides then, and a
    /// text there that is no key fails even where a key is stored. Where the
    /// stored text is no key, or no key is found at all, the error names the
    /// path that the store gives for the user's settings.
    pub fn api_key(&self, env: Option<String>) -> (r: Result<ApiKey, ConfigError>)
        requires
            self.wf(),
        ensures
            outcome_of(r) == key_outcome(
                optional_text(env),
                optional_text(self.global.config.unwrap().api_key),
            ),
            r is Err ==> (r.unwrap_err() is InvalidApiKey || r.unwrap_err() is NoApiKey),
            match r {
                Err(ConfigError::NoApiKey { path }) => call_ensures(
                    G::path,
                    (&self.global.manager,),
                    path,
                ),
                Err(ConfigError::InvalidApiKey { source: KeySource::ConfigFile { path }, .. }) =>
                    call_ensures(G::path, (&self.global.manager,), path),
                _ => true,
            },
    {
        match env {
            Some(key) => key_from(KeySource::Environment, ApiKey::parse(key.as_str())),
            None => {
                let stored = match &self.global.config {
                    Some(global) => global.api_key(),
                    None => None,
                };
                match stored {
                    Some(Ok(key)) => Ok(key),
                    Some(Err(e)) => {
                        let path = self.global.manager.path();
                        key_from(KeySource::ConfigFile { path }, Err(e))
                    },
                    None => Err(ConfigError::NoApiKey { path: self.global.manager.path() }),
                }
            },
        }
    }

    /// The directory of the project's settings, as the project's store
    /// names it.
    pub fn working_directory(&self) -> (dir: String)
        requires
            self.project is Some,
        ensures
            call_ensures(L::directory, (&self.project.unwrap().manager,), dir),
    {
        match &self.project {
            Some(project) => project.manager.directory(),
            None => String::new(),
        }
    }

    /// Stores the key in the user's settings and writes them out at once:
    /// the store is handed the changed settings, and its answer is the
    /// result.
    pub fn set_api_key(&mut self, api_key: ApiKey) -> (r: Result<(), ConfigError>)
        requires
            old(self).wf(),
        ensures
            final(self).wf(),
            optional_text(final(self).global.config.unwrap().api_key) == Some(api_key@),
            final(self).global.config.unwrap().api_url == old(self).global.config.unwrap().api_url,
            final(self).global.manager == old(self).global.manager,
            final(self).project == old(self).project,
            final(self).api_url == old(self).api_url,
            call_ensures(
                G::save,
                (&final(self).global.manager, &final(self).global.config.unwrap()),
                r,
            ),
    {
        match &mut self.global.config {
            Some(global) => {
                global.set_api_key(api_key);
            },
            None => {},
        }
        self.global.save()
    }

    /// Forgets the stored key and writes the user's settings out at once:
    /// the store is handed the changed settings, and its answer is the
    /// result.
    pub fn clear_api_key(&mut self) -> (r: Result<(), ConfigError>)
        requires
            old(self).wf(),
        ensures
            final(self).wf(),
            final(self).global.config.unwrap().api_key is None,
            final(self).global.config.unwrap().api_url == old(self).global.config.unwrap().api_url,
            final(self).global.manager == old(self).global.manager,
            final(self).project == old(self).project,
            final(self).api_url == old(self).api_url,
            call_ensures(
                G::save,
                (&final(self).global.manager, &final(self).global.config.unwrap()),
                r,
            ),
    {
        match &mut self.global.config {
            Some(global) => {
                global.clear_api_key();
            },
            None => {},
        }
        self.global.save()
    }

    /// The project's name.
    pub fn project_name(&self) -> (name: &str)
        requires
            self.has_project_name(),
        ensures
            name@ == self.project.unwrap().config.unwrap().name.unwrap()@,
    {
        self.project.as_ref().unwrap().config.as_ref().unwrap().name.as_ref().unwrap().as_str()
    }

    /// The files that the project ships, if it names any.
    pub fn assets(&self) -> (assets: Option<&Vec<String>>)
        requires
            self.has_project(),
        ensures
            assets is Some <==> self.project.unwrap().config.unwrap().assets is Some,
            assets is Some ==> *assets.unwrap() == self.project.unwrap().config.unwrap().assets.unwrap(),
    {
        self.project.as_ref().unwrap().config.as_ref().unwrap().assets.as_ref()
    }

    /// Whether `r` is the context made of what a load of the user's
    /// settings gave: the settings in force, no project and no address
    /// overridden; or the failure of the load.
    pub open spec fn global_result(
        manager: G,
        loaded: Result<GlobalConfig, ConfigError>,
        r: Result<Self, ConfigError>,
    ) -> bool {
        match loaded {
            Ok(settings) => {
                &&& r is Ok
                &&& r.unwrap().global.manager == manager
                &&& r.unwrap().global.config == Some(settings)
                &&& r.unwrap().project is None
                &&& r.unwrap().api_url is None
            },
            Err(e) => r == Err::<Self, ConfigError>(e),
        }
    }

    /// Whether `r` is what loading the user's settings from the store gives:
    /// where the store says that no file exists, one is created first, and a
    /// failure to create it is the result; else the result is made of what
    /// the store then read.
    pub open spec fn global_outcome(manager: G, r: Result<Self, ConfigError>) -> bool {
        exists|present: bool, made: Result<(), ConfigError>| #[trigger]
            call_ensures(G::file_exists, (&manager,), present) && (if present {
                made is Ok
            } else {
                #[trigger] created::<G, GlobalConfig>(&manager, made)
            }) && (match made {
                Ok(_) => exists|loaded: Result<GlobalConfig, ConfigError>| #[trigger]
                    call_ensures(G::open, (&manager,), loaded) && Self::global_result(
                        manager,
                        loaded,
                        r,
                    ),
                Err(e) => r == Err::<Self, ConfigError>(e),
            })
    }

    /// Whether `r` holds the project's settings made of what a load gave and
    /// of the name given on the command line: that name if there is one,
    /// else the loaded name; or the failure of the load.
    pub open spec fn local_result(
        manager: L,
        loaded: Result<ProjectConfig, ConfigError>,
        name: Option<String>,
        r: Result<Config<L, ProjectConfig>, ConfigError>,
    ) -> bool {
        match loaded {
            Ok(stored) => {
                &&& r is Ok
                &&& r.unwrap().manager == manager
                &&& r.unwrap().config is Some
                &&& name is Some ==> r.unwrap().config.unwrap().name == name
                &&& name is None ==> r.unwrap().config.unwrap().name == stored.name
                &&& r.unwrap().config.unwrap().assets == stored.assets
            },
            Err(e) => r == Err::<Config<L, ProjectConfig>, ConfigError>(e),
        }
    }

    /// Whether `r` is what loading the project's settings from the store
    /// gives: where the store says that no file exists, the defaults with
    /// the given name, which cannot fail; else what is made of what the
    /// store read.
    pub open spec fn local_outcome(
        manager: L,
        name: Option<String>,
        r: Result<Config<L, ProjectConfig>, ConfigError>,
    ) -> bool {
        exists|present: bool| #[trigger]
            call_ensures(L::file_exists, (&manager,), present) && (if present {
                exists|loaded: Result<ProjectConfig, ConfigError>| #[trigger]
                    call_ensures(L::open, (&manager,), loaded) && Self::local_result(
                        manager,
                        loaded,
                        name,
                        r,
                    )
            } else {
                Self::local_result(
                    manager,
                    Ok((ProjectConfig { name: None, assets: None })),
                    name,
                    r,
                )
            })
    }

    /// Whether `after` and `r` are what taking the loaded settings makes of
    /// the context `before`.
    pub open spec fn local_taken(
        before: Self,
        loaded: Result<Config<L, ProjectConfig>, ConfigError>,
        after: Self,
        r: Result<bool, ConfigError>,
    ) -> bool {
        &&& after.global == before.global
        &&& after.api_url == before.api_url
        &&& match loaded {
            Ok(project) => {
                &&& after.project == Some(project)
                &&& r == Ok::<bool, ConfigError>(
                    project.config is None || project.config.unwrap().name is None,
                )
            },
            Err(e) => after.project == before.project && r == Err::<bool, ConfigError>(e),
        }
    }
}

} // verus!
