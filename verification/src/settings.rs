//! The settings of the user and of a project, and the API key.

use vstd::prelude::*;
use vstd::string::*;
use crate::record::optional_text;

verus! {

/// The error of the `anyhow` crate, carried through unread.
#[verifier::external_type_specification]
#[verifier::external_body]
pub struct ExAnyhowError(anyhow::Error);

/// What `shuttle_common::ApiKey::parse` makes of a text: the key it accepts,
/// with the blanks around it cut off, or nothing where it rejects the text.
pub uninterp spec fn api_key_parsed(key: Seq<char>) -> Option<Seq<char>>;

/// Calls `shuttle_common::ApiKey::parse` and hands out the text of the key
/// it accepted, or its error. Result and named value `api_key_parsed` agree;
/// nothing more is claimed.
#[verifier::external_body]
fn validate_api_key(key: &str) -> (r: Result<String, anyhow::Error>)
    ensures
        match r {
            Ok(text) => api_key_parsed(key@) == Some(text@),
            Err(_) => api_key_parsed(key@) is None,
        },
{
    match shuttle_common::ApiKey::parse(key) {
        Ok(parsed) => Ok(parsed.as_ref().to_string()),
        Err(e) => Err(e),
    }
}

/// The address of the beta service.
pub open spec fn beta_url() -> Seq<char> {
    "https://api.shuttle.dev"@
}

/// Whether a text is one of the two addresses that a build may have as its
/// default: the local one of a debug build, or the production one.
pub open spec fn is_default_url(url: Seq<char>) -> bool {
    url == "http://localhost:8001"@ || url == "https://api.shuttle.rs"@
}

/// Reads `shuttle_common::constants::API_URL_BETA`, which is the address
/// named by `beta_url`.
#[verifier::external_body]
fn api_url_beta() -> (r: String)
    ensures
        r@ == beta_url(),
{
    shuttle_common::constants::API_URL_BETA.to_string()
}

/// Reads `shuttle_common::constants::API_URL_DEFAULT`, which is the local
/// address in a debug build and the production address otherwise.
#[verifier::external_body]
fn api_url_default() -> (r: String)
    ensures
        is_default_url(r@),
{
    shuttle_common::constants::API_URL_DEFAULT.to_string()
}

/// The address to fall back on when none is configured.
pub fn fallback_api_url(beta: bool) -> (url: String)
    ensures
        beta ==> url@ == beta_url(),
        !beta ==> is_default_url(url@),
{
    if beta {
        api_url_beta()
    } else {
        api_url_default()
    }
}

/// Where an API key was read from.
#[derive(Debug, Clone)]
pub enum KeySource {
    /// The environment variable `SHUTTLE_API_KEY`.
    Environment,
    /// The user's configuration file, at `path`.
    ConfigFile { path: String },
}

/// Calls `to_string` on an `anyhow::Error`, which writes the error as its
/// `Display` does. Nothing is claimed of the text.
#[verifier::external_body]
fn error_text(e: &anyhow::Error) -> (text: String) {
    e.to_string()
}

/// Whether a text begins with the given words.
pub open spec fn begins_with(text: Seq<char>, words: Seq<char>) -> bool {
    text.len() >= words.len() && text.subrange(0, words.len() as int) == words
}

/// Why a setting could not be loaded, saved or resolved.
#[derive(Debug)]
pub enum ConfigError {
    /// The store could not read, decode or write its file; the text says
    /// which file and why.
    Store(String),
    /// The text from `source` is not a well-formed API key; `cause` is what
    /// the validator said of it.
    InvalidApiKey { source: KeySource, cause: anyhow::Error },
    /// No key is configured anywhere. `path` is the user's configuration file.
    NoApiKey { path: String },
    /// The project's name could not be inferred; the text says why.
    ProjectName(String),
}

impl ConfigError {
    /// A description for the user. For a text that is no API key it names
    /// the source, with the path of a configuration file, and then gives
    /// what the validator said.
    pub fn message(&self) -> (text: String)
        ensures
            match *self {
                ConfigError::Store(reason) => text@ == reason@,
                ConfigError::InvalidApiKey { source: KeySource::Environment, .. } => begins_with(
                    text@,
                    "environment variable SHUTTLE_API_KEY is invalid: "@,
                ),
                ConfigError::InvalidApiKey { source: KeySource::ConfigFile { path }, .. } =>
                    begins_with(
                    text@,
                    "the API key in the configuration file `"@ + path@ + "` is invalid: "@,
                ),
                ConfigError::NoApiKey { path } => text@
                    == "No valid API key found, try logging in first with:\n\tcargo shuttle login\nConfiguration file: `"@
                    + path@ + "`"@,
                ConfigError::ProjectName(reason) => text@ == reason@,
            },
    {
        match self {
            ConfigError::Store(reason) => reason.clone(),
            ConfigError::InvalidApiKey { source: KeySource::Environment, cause } => {
                let mut text = String::from_str("environment variable SHUTTLE_API_KEY is invalid: ");
                let ghost words = text@;
                let reason = error_text(cause);
                text.append(reason.as_str());
                assert(text@.subrange(0, words.len() as int) =~= words);
                text
            },
            ConfigError::InvalidApiKey { source: KeySource::ConfigFile { path }, cause } => {
                let mut text = String::from_str("the API key in the configuration file `");
                text.append(path.as_str());
                text.append("` is invalid: ");
                let ghost words = text@;
                let reason = error_text(cause);
                text.append(reason.as_str());
                assert(text@.subrange(0, words.len() as int) =~= words);
                text
            },
            ConfigError::NoApiKey { path } => {
                let mut text = String::from_str(
                    "No valid API key found, try logging in first with:\n\tcargo shuttle login\nConfiguration file: `",
                );
                text.append(path.as_str());
                text.append("`");
                text
            },
            ConfigError::ProjectName(reason) => reason.clone(),
        }
    }
}

/// An API key that the validator accepted.
#[derive(Debug, Clone)]
pub struct ApiKey {
    text: String,
}

impl View for ApiKey {
    type V = Seq<char>;

    closed spec fn view(&self) -> Seq<char> {
        self.text@
    }
}

impl ApiKey {
    /// Validates a text as an API key.
    pub fn parse(key: &str) -> (r: Result<ApiKey, anyhow::Error>)
        ensures
            match r {
                Ok(parsed) => api_key_parsed(key@) == Some(parsed@),
                Err(_) => api_key_parsed(key@) is None,
            },
    {
        match validate_api_key(key) {
            Ok(text) => Ok(ApiKey { text }),
            Err(e) => Err(e),
        }
    }

    /// The text of the key.
    pub fn as_str(&self) -> (text: &str)
        ensures
            text@ == self@,
    {
        self.text.as_str()
    }
}

/// How the search for an API key ends.
pub enum KeyOutcome {
    /// This key is in force.
    Key(Seq<char>),
    /// The environment holds a text that is no key.
    InvalidEnvironment,
    /// The environment holds nothing and the stored text is no key.
    InvalidStored,
    /// Neither the environment nor the configuration holds a key.
    Missing,
}

/// The key in force. A text in the environment decides alone, whether it is
/// a key or not; the stored text is looked at only when the environment
/// holds nothing.
pub open spec fn key_outcome(env: Option<Seq<char>>, stored: Option<Seq<char>>) -> KeyOutcome {
    match env {
        Some(text) => match api_key_parsed(text) {
            Some(key) => KeyOutcome::Key(key),
            None => KeyOutcome::InvalidEnvironment,
        },
        None => match stored {
            Some(text) => match api_key_parsed(text) {
                Some(key) => KeyOutcome::Key(key),
                None => KeyOutcome::InvalidStored,
            },
            None => KeyOutcome::Missing,
        },
    }
}

/// The outcome that a result of the search stands for.
pub open spec fn outcome_of(r: Result<ApiKey, ConfigError>) -> KeyOutcome {
    match r {
        Ok(key) => KeyOutcome::Key(key@),
        Err(ConfigError::InvalidApiKey { source: KeySource::Environment, .. }) =>
            KeyOutcome::InvalidEnvironment,
        Err(ConfigError::InvalidApiKey { source: KeySource::ConfigFile { .. }, .. }) =>
            KeyOutcome::InvalidStored,
        Err(_) => KeyOutcome::Missing,
    }
}

/// A text in the environment that is no key fails the search, whatever is
/// stored: a valid stored key does not make up for it.
pub proof fn lemma_invalid_environment_key_fails(env: Seq<char>, stored: Option<Seq<char>>)
    requires
        api_key_parsed(env) is None,
    ensures
        key_outcome(Some(env), stored) == KeyOutcome::InvalidEnvironment,
{
}

/// A key in the environment is in force, whatever is stored.
pub proof fn lemma_environment_key_wins(env: Seq<char>, stored: Option<Seq<char>>)
    requires
        api_key_parsed(env) is Some,
    ensures
        key_outcome(Some(env), stored) == KeyOutcome::Key(api_key_parsed(env).unwrap()),
{
}

/// Turns what the validator said of the text from `source` into the
/// library's own result. A rejection keeps the source and the validator's
/// own error.
pub fn key_from(source: KeySource, parsed: Result<ApiKey, anyhow::Error>) -> (r: Result<
    ApiKey,
    ConfigError,
>)
    ensures
        match parsed {
            Ok(key) => r == Ok::<ApiKey, ConfigError>(key),
            Err(e) => r == Err::<ApiKey, ConfigError>(
                (ConfigError::InvalidApiKey { source, cause: e }),
            ),
        },
{
    match parsed {
        Ok(key) => Ok(key),
        Err(e) => Err(ConfigError::InvalidApiKey { source, cause: e }),
    }
}

/// Global client settings: the API key and the address of the service.
#[derive(Debug, Clone)]
pub struct GlobalConfig {
    pub api_key: Option<String>,
    pub api_url: Option<String>,
}

impl Default for GlobalConfig {
    fn default() -> (r: GlobalConfig)
        ensures
            r.api_key is None,
            r.api_url is None,
    {
        GlobalConfig { api_key: None, api_url: None }
    }
}

impl GlobalConfig {
    /// The stored key, validated, if one is stored.
    pub fn api_key(&self) -> (r: Option<Result<ApiKey, anyhow::Error>>)
        ensures
            r is Some <==> self.api_key is Some,
            r is Some ==> (match r.unwrap() {
                Ok(parsed) => api_key_parsed(self.api_key.unwrap()@) == Some(parsed@),
                Err(_) => api_key_parsed(self.api_key.unwrap()@) is None,
            }),
    {
        match &self.api_key {
            Some(key) => Some(ApiKey::parse(key.as_str())),
            None => None,
        }
    }

    /// Stores a key and hands back the text that was stored before.
    pub fn set_api_key(&mut self, api_key: ApiKey) -> (previous: Option<String>)
        ensures
            previous == old(self).api_key,
            optional_text(final(self).api_key) == Some(api_key@),
            final(self).api_url == old(self).api_url,
    {
        let previous = self.api_key.take();
        self.api_key = Some(api_key.as_str().to_owned());
        previous
    }

    /// Forgets the stored key.
    pub fn clear_api_key(&mut self)
        ensures
            final(self).api_key is None,
            final(self).api_url == old(self).api_url,
    {
        self.api_key = None;
    }

    /// The stored address of the service.
    pub fn api_url(&self) -> (url: Option<String>)
        ensures
            url == self.api_url,
    {
        match &self.api_url {
            Some(url) => Some(url.clone()),
            None => None,
        }
    }
}

/// Settings of one project: its name and the files it ships.
#[derive(Debug, Clone)]
pub struct ProjectConfig {
    pub name: Option<String>,
    pub assets: Option<Vec<String>>,
}

impl Default for ProjectConfig {
    fn default() -> (r: ProjectConfig)
        ensures
            r.name is None,
            r.assets is None,
    {
        ProjectConfig { name: None, assets: None }
    }
}

/// The name in force before anything is inferred: the one given on the
/// command line, else the stored one.
pub open spec fn settled_name(
    explicit: Option<Seq<char>>,
    stored: Option<Seq<char>>,
) -> Option<Seq<char>> {
    match explicit {
        Some(name) => Some(name),
        None => stored,
    }
}

/// The project's name: the one given on the command line, else the stored
/// one, else the one inferred from the project itself.
pub open spec fn resolved_name(
    explicit: Option<Seq<char>>,
    stored: Option<Seq<char>>,
    inferred: Seq<char>,
) -> Seq<char> {
    match settled_name(explicit, stored) {
        Some(name) => name,
        None => inferred,
    }
}

/// The order of the three sources of a project's name: a name given on the
/// command line always wins; without one a stored name stays; only where
/// both are missing the inferred name is taken.
pub proof fn lemma_name_precedence(
    explicit: Option<Seq<char>>,
    stored: Option<Seq<char>>,
    inferred: Seq<char>,
)
    ensures
        explicit is Some ==> resolved_name(explicit, stored, inferred) == explicit.unwrap(),
        explicit is None && stored is Some ==> resolved_name(explicit, stored, inferred)
            == stored.unwrap(),
        explicit is None && stored is None ==> resolved_name(explicit, stored, inferred)
            == inferred,
{
}

impl ProjectConfig {
    /// Applies the name given on the command line, if any, and says whether
    /// the name still has to be inferred from the project.
    pub fn resolve_name(&mut self, explicit: Option<String>) -> (missing: bool)
        ensures
            optional_text(final(self).name) == settled_name(
                optional_text(explicit),
                optional_text(old(self).name),
            ),
            explicit is None ==> final(self).name == old(self).name,
            explicit is Some ==> final(self).name == explicit,
            missing == (final(self).name is None),
            final(self).assets == old(self).assets,
    {
        match explicit {
            Some(name) => {
                self.name = Some(name);
            },
            None => {},
        }
        self.name.is_none()
    }

    /// Takes the inferred name, unless a name is in force already.
    pub fn infer_name(&mut self, inferred: String)
        ensures
            optional_text(final(self).name) == Some(
                resolved_name(None, optional_text(old(self).name), inferred@),
            ),
            old(self).name is Some ==> final(self).name == old(self).name,
            final(self).assets == old(self).assets,
    {
        if self.name.is_none() {
            self.name = Some(inferred);
        }
    }
}

} // verus!
