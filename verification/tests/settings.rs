use std::cell::{Cell, RefCell};

use shuttle_config::settings::{fallback_api_url, key_from};
use shuttle_config::{
    ApiKey, Config, ConfigError, ConfigManager, GlobalConfig, GlobalConfigManager, KeySource,
    LocalConfigManager, ProjectConfig, RequestContext,
};

/// A store that keeps its value in memory and counts what is asked of it.
struct Memory<C> {
    directory: String,
    stored: RefCell<Option<C>>,
    unreadable: bool,
    saves: Cell<usize>,
}

impl<C> Memory<C> {
    fn absent(directory: &str) -> Self {
        Memory {
            directory: directory.to_string(),
            stored: RefCell::new(None),
            unreadable: false,
            saves: Cell::new(0),
        }
    }

    fn holding(directory: &str, value: C) -> Self {
        Memory {
            directory: directory.to_string(),
            stored: RefCell::new(Some(value)),
            unreadable: false,
            saves: Cell::new(0),
        }
    }

    fn broken(directory: &str, value: C) -> Self {
        Memory {
            directory: directory.to_string(),
            stored: RefCell::new(Some(value)),
            unreadable: true,
            saves: Cell::new(0),
        }
    }
}

impl<C: Clone> ConfigManager<C> for Memory<C> {
    fn directory(&self) -> String {
        self.directory.clone()
    }

    fn file(&self) -> String {
        "settings.toml".to_string()
    }

    fn path(&self) -> String {
        format!("{}/settings.toml", self.directory)
    }

    fn file_exists(&self) -> bool {
        self.stored.borrow().is_some()
    }

    fn open(&self) -> Result<C, ConfigError> {
        if self.unreadable {
            return Err(ConfigError::Store(format!(
                "Invalid global configuration file: {}",
                self.path()
            )));
        }
        match &*self.stored.borrow() {
            Some(value) => Ok(value.clone()),
            None => Err(ConfigError::Store(format!(
                "Unable to read configuration file: {}",
                self.path()
            ))),
        }
    }

    fn save(&self, config: &C) -> Result<(), ConfigError> {
        self.saves.set(self.saves.get() + 1);
        *self.stored.borrow_mut() = Some(config.clone());
        Ok(())
    }
}

type Context = RequestContext<Memory<GlobalConfig>, Memory<ProjectConfig>>;

fn global(api_key: Option<&str>, api_url: Option<&str>) -> GlobalConfig {
    GlobalConfig {
        api_key: api_key.map(|s| s.to_string()),
        api_url: api_url.map(|s| s.to_string()),
    }
}

fn project(name: Option<&str>) -> ProjectConfig {
    ProjectConfig {
        name: name.map(|s| s.to_string()),
        assets: Some(vec!["static/*".to_string()]),
    }
}

fn context(api_key: Option<&str>, api_url: Option<&str>) -> Context {
    RequestContext::load_global(Memory::holding("/home/u/.config/shuttle", global(api_key, api_url)))
        .unwrap()
}

fn unwrap_project_name(config: &Config<Memory<ProjectConfig>, ProjectConfig>) -> String {
    config.as_ref().unwrap().name.as_ref().unwrap().to_string()
}

#[test]
fn get_local_config_finds_name_in_shuttle_toml() {
    let manager = Memory::holding(
        "examples/axum/hello-world/",
        project(Some("hello-world-axum-app")),
    );

    let local_config = Context::get_local_config(manager, None).unwrap();

    assert_eq!(unwrap_project_name(&local_config), "hello-world-axum-app");
    assert_eq!(local_config.manager.saves.get(), 0);
}

#[test]
fn get_local_config_finds_name_from_workspace_dir() {
    let manager = Memory::absent("examples/rocket/workspace/hello-world/");

    let mut local_config = Context::get_local_config(manager, None).unwrap();
    assert!(local_config.as_ref().unwrap().name.is_none());
    let missing = local_config.as_mut().unwrap().resolve_name(None);
    assert!(missing);
    local_config
        .as_mut()
        .unwrap()
        .infer_name("workspace".to_string());

    assert_eq!(unwrap_project_name(&local_config), "workspace");
    assert!(!local_config.file_exists());
}

#[test]
fn setting_name_overrides_name_in_config() {
    let manager = Memory::holding(
        "examples/axum/hello-world/",
        project(Some("hello-world-axum-app")),
    );

    let local_config =
        Context::get_local_config(manager, Some("my-fancy-project-name".to_owned())).unwrap();

    assert_eq!(unwrap_project_name(&local_config), "my-fancy-project-name");
    assert_eq!(
        local_config.as_ref().unwrap().assets,
        Some(vec!["static/*".to_string()])
    );
}

#[test]
fn explicit_name_wins_without_a_settings_file() {
    let manager = Memory::absent("w");
    let local_config = Context::get_local_config(manager, Some("given".to_owned())).unwrap();
    assert_eq!(unwrap_project_name(&local_config), "given");
    assert!(local_config.as_ref().unwrap().assets.is_none());
}

#[test]
fn inferred_name_does_not_replace_a_name_in_force() {
    let mut config = project(Some("stored"));
    assert!(!config.resolve_name(None));
    config.infer_name("inferred".to_string());
    assert_eq!(config.name, Some("stored".to_string()));
    let mut config = project(None);
    assert!(!config.resolve_name(Some("given".to_string())));
    config.infer_name("inferred".to_string());
    assert_eq!(config.name, Some("given".to_string()));
}

#[test]
fn an_unreadable_settings_file_fails_the_load() {
    let manager = Memory::broken("w", project(Some("n")));
    let r = Context::get_local_config(manager, Some("given".to_owned()));
    match r {
        Err(ConfigError::Store(reason)) => {
            assert_eq!(reason, "Invalid global configuration file: w/settings.toml")
        }
        _ => panic!("the load should fail"),
    }
    let r = Context::local_from(
        Memory::absent("w"),
        Err(ConfigError::ProjectName("no manifest".to_string())),
        None,
    );
    assert!(matches!(r, Err(ConfigError::ProjectName(_))));
}

#[test]
fn load_local_says_when_the_name_is_open() {
    let mut ctx = context(None, None);
    let missing = ctx.load_local(Memory::absent("proj"), None).unwrap();
    assert!(missing);
    ctx.infer_project_name("crate-name".to_string());
    assert_eq!(ctx.project_name(), "crate-name");
    assert_eq!(ctx.working_directory(), "proj");
    assert_eq!(ctx.assets(), None);

    let mut ctx = context(None, None);
    let missing = ctx
        .load_local(Memory::holding("proj", project(Some("stored"))), None)
        .unwrap();
    assert!(!missing);
    ctx.infer_project_name("crate-name".to_string());
    assert_eq!(ctx.project_name(), "stored");
    assert_eq!(ctx.assets(), Some(&vec!["static/*".to_string()]));

    let mut ctx = context(None, None);
    let missing = ctx
        .load_local(
            Memory::holding("proj", project(Some("stored"))),
            Some("flag".to_string()),
        )
        .unwrap();
    assert!(!missing);
    assert_eq!(ctx.project_name(), "flag");
}

#[test]
fn take_local_installs_what_the_load_gave() {
    let mut ctx = context(None, Some("http://stored"));
    let loaded = Context::local_from(Memory::absent("proj"), Ok(project(None)), None);
    assert!(ctx.take_local(loaded).unwrap());
    assert_eq!(ctx.working_directory(), "proj");
    assert_eq!(ctx.assets(), Some(&vec!["static/*".to_string()]));

    let loaded = Context::local_from(Memory::absent("other"), Ok(project(Some("n"))), None);
    assert!(!ctx.take_local(loaded).unwrap());
    assert_eq!(ctx.project_name(), "n");
    assert_eq!(ctx.working_directory(), "other");

    let r = ctx.take_local(Err(ConfigError::Store("gone".to_string())));
    assert!(matches!(r, Err(ConfigError::Store(_))));
    assert_eq!(ctx.project_name(), "n");
    assert_eq!(ctx.api_url(false), "http://stored");
}

#[test]
fn load_local_failure_keeps_the_context() {
    let mut ctx = context(None, None);
    let r = ctx.load_local(Memory::broken("proj", project(None)), None);
    assert!(r.is_err());
    assert!(ctx.project.is_none());
}

#[test]
fn malformed_environment_key_fails_despite_a_stored_key() {
    let ctx = context(Some("abcdefgh12345678"), None);
    let r = ctx.api_key(Some("not a key".to_string()));
    assert!(matches!(
        r,
        Err(ConfigError::InvalidApiKey {
            source: KeySource::Environment,
            ..
        })
    ));
    let r = ctx.api_key(Some(String::new()));
    assert!(matches!(
        r,
        Err(ConfigError::InvalidApiKey {
            source: KeySource::Environment,
            ..
        })
    ));
}

#[test]
fn environment_key_wins_over_the_stored_key() {
    let ctx = context(Some("abcdefgh12345678"), None);
    let key = ctx.api_key(Some("ZYXWVUTS87654321".to_string())).unwrap();
    assert_eq!(key.as_str(), "ZYXWVUTS87654321");
    let ctx = context(Some("broken"), None);
    let key = ctx.api_key(Some("ZYXWVUTS87654321".to_string())).unwrap();
    assert_eq!(key.as_str(), "ZYXWVUTS87654321");
}

#[test]
fn stored_key_is_used_without_an_environment_key() {
    let ctx = context(Some("abcdefgh12345678"), None);
    assert_eq!(ctx.api_key(None).unwrap().as_str(), "abcdefgh12345678");
    let ctx = context(Some("tooshort"), None);
    match ctx.api_key(None) {
        Err(ConfigError::InvalidApiKey {
            source: KeySource::ConfigFile { path },
            cause,
        }) => {
            assert_eq!(path, "/home/u/.config/shuttle/settings.toml");
            assert!(cause.to_string().contains("16 characters"));
        }
        _ => panic!("the stored text is no key"),
    }
}

#[test]
fn no_key_anywhere_names_the_settings_file() {
    let ctx = context(None, None);
    match ctx.api_key(None) {
        Err(ConfigError::NoApiKey { path }) => {
            assert_eq!(path, "/home/u/.config/shuttle/settings.toml")
        }
        _ => panic!("there is no key"),
    }
    let e = ConfigError::NoApiKey {
        path: "p".to_string(),
    };
    assert_eq!(
        e.message(),
        "No valid API key found, try logging in first with:\n\tcargo shuttle login\nConfiguration file: `p`"
    );
    let from_env = ConfigError::InvalidApiKey {
        source: KeySource::Environment,
        cause: ApiKey::parse("tooshort").err().unwrap(),
    };
    assert_eq!(
        from_env.message(),
        "environment variable SHUTTLE_API_KEY is invalid: Invalid API key:\nThe API key should be exactly 16 characters in length."
    );
    let from_file = ConfigError::InvalidApiKey {
        source: KeySource::ConfigFile {
            path: "/cfg/config.toml".to_string(),
        },
        cause: ApiKey::parse("dh9z58jttoes3qv@").err().unwrap(),
    };
    assert_eq!(
        from_file.message(),
        "the API key in the configuration file `/cfg/config.toml` is invalid: Invalid API key:\nThe API key should consist of only alphanumeric characters."
    );
    assert_eq!(ConfigError::Store("s".to_string()).message(), "s");
    assert_eq!(ConfigError::ProjectName("n".to_string()).message(), "n");
}

#[test]
fn api_key_parse_cuts_blanks_and_checks_the_form() {
    assert_eq!(
        ApiKey::parse("  abcdefgh12345678\n").unwrap().as_str(),
        "abcdefgh12345678"
    );
    assert!(ApiKey::parse("tooshort").is_err());
    assert!(ApiKey::parse("dh9z58jttoes3qv@").is_err());
    assert!(ApiKey::parse("").is_err());
    let source = KeySource::ConfigFile {
        path: "p".to_string(),
    };
    match key_from(source, ApiKey::parse("tooshort")) {
        Err(ConfigError::InvalidApiKey {
            source: KeySource::ConfigFile { path },
            cause,
        }) => {
            assert_eq!(path, "p");
            assert_eq!(
                cause.to_string(),
                ApiKey::parse("tooshort").err().unwrap().to_string()
            );
        }
        _ => panic!("the text is no key"),
    }
    let r = key_from(KeySource::Environment, ApiKey::parse("abcdefgh12345678"));
    assert_eq!(r.unwrap().as_str(), "abcdefgh12345678");
}

#[test]
fn global_config_yields_its_key_validated() {
    assert!(GlobalConfig::default().api_key().is_none());
    assert!(GlobalConfig::default().api_url().is_none());
    let config = global(Some(" abcdefgh12345678 "), Some("http://x"));
    assert_eq!(
        config.api_key().unwrap().unwrap().as_str(),
        "abcdefgh12345678"
    );
    assert_eq!(config.api_url(), Some("http://x".to_string()));
    assert!(global(Some("bad"), None).api_key().unwrap().is_err());
}

#[test]
fn api_url_follows_the_order_of_its_sources() {
    let mut ctx = context(None, Some("http://stored"));
    assert_eq!(ctx.api_url(false), "http://stored");
    assert_eq!(ctx.api_url(true), "http://stored");
    ctx.set_api_url(Some("http://flag".to_string()));
    assert_eq!(ctx.api_url(false), "http://flag");
    assert_eq!(ctx.api_url(true), "http://flag");
    ctx.set_api_url(None);
    assert_eq!(ctx.api_url(true), "http://stored");

    let ctx = context(None, None);
    assert_eq!(ctx.api_url(true), "https://api.shuttle.dev");
    let default = ctx.api_url(false);
    assert!(default == "http://localhost:8001" || default == "https://api.shuttle.rs");
    assert_eq!(fallback_api_url(true), "https://api.shuttle.dev");
    assert_eq!(fallback_api_url(false), default);
}

#[test]
fn setting_and_clearing_the_key_writes_the_settings() {
    let mut ctx = context(None, Some("http://stored"));
    assert_eq!(ctx.global.manager.saves.get(), 0);
    ctx.set_api_key(ApiKey::parse("abcdefgh12345678").unwrap())
        .unwrap();
    assert_eq!(ctx.global.manager.saves.get(), 1);
    let on_disk = ctx.global.manager.stored.borrow().clone().unwrap();
    assert_eq!(on_disk.api_key, Some("abcdefgh12345678".to_string()));
    assert_eq!(on_disk.api_url, Some("http://stored".to_string()));
    assert_eq!(ctx.api_key(None).unwrap().as_str(), "abcdefgh12345678");

    ctx.clear_api_key().unwrap();
    assert_eq!(ctx.global.manager.saves.get(), 2);
    let on_disk = ctx.global.manager.stored.borrow().clone().unwrap();
    assert_eq!(on_disk.api_key, None);
    assert_eq!(on_disk.api_url, Some("http://stored".to_string()));
    assert!(matches!(
        ctx.api_key(None),
        Err(ConfigError::NoApiKey { .. })
    ));
}

#[test]
fn a_stored_key_is_read_back_by_a_fresh_load() {
    let mut ctx = context(None, Some("http://stored"));
    ctx.set_api_key(ApiKey::parse("abcdefgh12345678").unwrap())
        .unwrap();
    let on_disk = ctx.global.manager.stored.borrow().clone().unwrap();
    let fresh: Context =
        RequestContext::load_global(Memory::holding("/home/u/.config/shuttle", on_disk)).unwrap();
    assert_eq!(fresh.api_key(None).unwrap().as_str(), "abcdefgh12345678");
    assert_eq!(fresh.api_url(false), "http://stored");

    ctx.clear_api_key().unwrap();
    let on_disk = ctx.global.manager.stored.borrow().clone().unwrap();
    let fresh: Context =
        RequestContext::load_global(Memory::holding("/home/u/.config/shuttle", on_disk)).unwrap();
    assert!(matches!(
        fresh.api_key(None),
        Err(ConfigError::NoApiKey { .. })
    ));
    assert_eq!(fresh.api_url(false), "http://stored");
}

#[test]
fn global_config_set_hands_back_the_previous_key() {
    let mut config = GlobalConfig::default();
    let previous = config.set_api_key(ApiKey::parse("abcdefgh12345678").unwrap());
    assert_eq!(previous, None);
    let previous = config.set_api_key(ApiKey::parse("ZYXWVUTS87654321").unwrap());
    assert_eq!(previous, Some("abcdefgh12345678".to_string()));
    assert_eq!(config.api_key, Some("ZYXWVUTS87654321".to_string()));
    config.clear_api_key();
    assert_eq!(config.api_key, None);
}

#[test]
fn load_global_writes_defaults_only_where_no_file_exists() {
    let ctx: Context = RequestContext::load_global(Memory::absent("cfg")).unwrap();
    assert_eq!(ctx.global.manager.saves.get(), 1);
    assert!(ctx.global.as_ref().unwrap().api_key.is_none());
    assert!(ctx.global.as_ref().unwrap().api_url.is_none());
    assert!(ctx.project.is_none());
    assert!(ctx.api_url.is_none());

    let ctx = context(Some("abcdefgh12345678"), None);
    assert_eq!(ctx.global.manager.saves.get(), 0);
    assert_eq!(
        ctx.global.as_ref().unwrap().api_key,
        Some("abcdefgh12345678".to_string())
    );

    let r: Result<Context, ConfigError> =
        RequestContext::load_global(Memory::broken("cfg", global(None, None)));
    assert!(matches!(r, Err(ConfigError::Store(_))));
}

#[test]
fn global_from_takes_what_the_load_gave() {
    let ctx: Context =
        RequestContext::global_from(Memory::absent("cfg"), Ok(global(None, Some("http://u"))))
            .unwrap();
    assert_eq!(ctx.global.as_ref().unwrap().api_url, Some("http://u".to_string()));
    assert!(ctx.project.is_none());
    assert!(ctx.api_url.is_none());
    assert_eq!(ctx.global.manager.saves.get(), 0);
    let r: Result<Context, ConfigError> = RequestContext::global_from(
        Memory::absent("cfg"),
        Err(ConfigError::Store("unreadable".to_string())),
    );
    match r {
        Err(ConfigError::Store(reason)) => assert_eq!(reason, "unreadable"),
        _ => panic!("the failure should be handed on"),
    }
}

#[test]
fn create_unless_writes_only_where_nothing_is_present() {
    let config: Config<Memory<ProjectConfig>, ProjectConfig> = Config::new(Memory::absent("p"));
    config.create_unless(true).unwrap();
    assert_eq!(config.manager.saves.get(), 0);
    assert!(!config.file_exists());
    config.create_unless(false).unwrap();
    assert_eq!(config.manager.saves.get(), 1);
    let written = config.manager.stored.borrow().clone().unwrap();
    assert_eq!(written.name, None);
    assert_eq!(written.assets, None);
}

#[test]
fn create_never_overwrites() {
    let config: Config<Memory<GlobalConfig>, GlobalConfig> =
        Config::new(Memory::holding("cfg", global(Some("k"), None)));
    config.create().unwrap();
    assert_eq!(config.manager.saves.get(), 0);
    assert_eq!(
        config.manager.stored.borrow().clone().unwrap().api_key,
        Some("k".to_string())
    );
    let config: Config<Memory<GlobalConfig>, GlobalConfig> = Config::new(Memory::absent("cfg"));
    assert!(!config.file_exists());
    config.create().unwrap();
    assert!(config.file_exists());
    assert_eq!(config.manager.saves.get(), 1);
}

#[test]
fn replace_hands_back_the_previous_value() {
    let mut config: Config<Memory<ProjectConfig>, ProjectConfig> =
        Config::new(Memory::absent("p"));
    assert!(config.as_ref().is_none());
    assert!(config.as_mut().is_none());
    assert!(config.replace(project(Some("a"))).is_none());
    let previous = config.replace(project(Some("b"))).unwrap();
    assert_eq!(previous.name, Some("a".to_string()));
    assert_eq!(config.as_ref().unwrap().name, Some("b".to_string()));
    config.as_mut().unwrap().name = Some("c".to_string());
    assert_eq!(config.as_ref().unwrap().name, Some("c".to_string()));
    assert_eq!(config.manager.saves.get(), 0);
    config.save().unwrap();
    assert_eq!(config.manager.saves.get(), 1);
    assert_eq!(
        config.manager.stored.borrow().clone().unwrap().name,
        Some("c".to_string())
    );
}

#[test]
fn a_failed_open_keeps_the_value_in_memory() {
    let mut config: Config<Memory<ProjectConfig>, ProjectConfig> =
        Config::new(Memory::broken("p", project(Some("on disk"))));
    config.replace(project(Some("in memory")));
    assert!(config.open().is_err());
    assert_eq!(config.as_ref().unwrap().name, Some("in memory".to_string()));
    let r = config.absorb(Ok(project(Some("loaded"))));
    assert!(r.is_ok());
    assert_eq!(config.as_ref().unwrap().name, Some("loaded".to_string()));
    let r = config.absorb(Err(ConfigError::Store("gone".to_string())));
    assert!(matches!(r, Err(ConfigError::Store(_))));
    assert_eq!(config.as_ref().unwrap().name, Some("loaded".to_string()));
}

#[test]
fn managers_name_their_files() {
    assert_eq!(GlobalConfigManager.file(), "config.toml");
    assert_eq!(GlobalConfigManager.directory_name(), "shuttle");
    let local = LocalConfigManager::new("work/dir".to_string(), "Shuttle.toml".to_string());
    assert_eq!(local.directory(), "work/dir");
    assert_eq!(local.file(), "Shuttle.toml");
}
