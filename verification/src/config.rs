//! Server configuration: defaults, environment overrides, and what the
//! frontend is told about the language-model settings.
use vstd::prelude::*;
use crate::paths::{data_local_dir, expand_home_with, expand_tilde, home_dir, home_or_root, home_or_root_spec, join,
    path_join};
use crate::text::{parse_u16, parse_u16_spec, str_eq};

verus! {

/// The OpenAI endpoint that counts as the default for the `openai` provider.
pub const DEFAULT_OPENAI_URL: &'static str = "https://api.openai.com/v1";

/// The port used when none is configured or the configured one does not parse.
pub const DEFAULT_PORT: u16 = 3000;

/// HTTP server settings.
#[derive(Debug, Clone)]
pub struct ServerConfig {
    pub port: u16,
    pub token: String,
    pub data_dir: String,
    pub static_dir: String,
    pub projects_dir: String,
}

/// Language-model settings.
#[derive(Debug, Clone)]
pub struct LlmConfig {
    pub provider: String,
    pub url: String,
    pub api_key: String,
    pub model: String,
    pub max_context_size: usize,
    pub api_mode: String,
}

/// Embedding-model settings.
#[derive(Debug, Clone)]
pub struct EmbeddingConfig {
    pub provider: String,
    pub url: String,
    pub api_key: String,
    pub model: String,
}

/// Web-search settings.
#[derive(Debug, Clone)]
pub struct SearchConfig {
    pub enabled: bool,
    pub provider: String,
    pub api_key: String,
}

/// The whole configuration.
#[derive(Debug, Clone)]
pub struct AppConfig {
    pub server: ServerConfig,
    pub llm: LlmConfig,
    pub embedding: EmbeddingConfig,
    pub search: SearchConfig,
}

/// The values of the environment variables that override the configuration
/// file (`None` for a variable that is not set).
#[derive(Debug, Clone)]
pub struct EnvOverrides {
    /// `LLM_WIKI_TOKEN`
    pub token: Option<String>,
    /// `LLM_WIKI_PORT`
    pub port: Option<String>,
    /// `LLM_WIKI_DATA_DIR`
    pub data_dir: Option<String>,
    /// `LLM_WIKI_STATIC_DIR`
    pub static_dir: Option<String>,
    /// `LLM_PROVIDER`
    pub llm_provider: Option<String>,
    /// `LLM_URL`
    pub llm_url: Option<String>,
    /// `LLM_API_KEY`
    pub llm_api_key: Option<String>,
    /// `LLM_MODEL`
    pub llm_model: Option<String>,
}

/// The language-model settings as the frontend receives them.
#[derive(Debug, Clone)]
pub struct LlmFrontendConfig {
    pub provider: String,
    pub api_key: String,
    pub model: String,
    pub max_context_size: usize,
    pub ollama_url: String,
    pub custom_endpoint: String,
    pub api_mode: String,
}

/// The overriding value when the variable is set, the configured one otherwise.
pub open spec fn or_keep(v: Option<String>, current: String) -> String {
    match v {
        Some(s) => s,
        None => current,
    }
}

/// The port that `LLM_WIKI_PORT` sets: its value when it parses as a `u16`,
/// the default port otherwise.
pub open spec fn port_from_env(v: Option<String>, current: u16) -> u16 {
    match v {
        Some(s) => match parse_u16_spec(s@) {
            Some(p) => p,
            None => DEFAULT_PORT,
        },
        None => current,
    }
}

fn take_or_keep(v: &Option<String>, current: String) -> (r: String)
    ensures
        r == or_keep(*v, current),
{
    match v {
        Some(s) => s.clone(),
        None => current,
    }
}

impl ServerConfig {
    /// The server defaults, given the local data directory and the home
    /// directory when they are known.
    pub fn from_dirs(data_local: Option<String>, home: Option<String>) -> (r: Self)
        ensures
            r.port == DEFAULT_PORT,
            r.token@ == Seq::<char>::empty(),
            r.data_dir@ == path_join(
                match data_local { Some(d) => d@, None => "."@ },
                "llm-wiki-server"@,
            ),
            r.static_dir@ == "dist-server/public"@,
            r.projects_dir@ == path_join(
                match home { Some(h) => h@, None => "."@ },
                "wiki-projects"@,
            ),
    {
        let data_base = match data_local {
            Some(d) => d,
            None => String::from_str("."),
        };
        let home_base = match home {
            Some(h) => h,
            None => String::from_str("."),
        };
        ServerConfig {
            port: DEFAULT_PORT,
            token: String::new(),
            data_dir: join(data_base.as_str(), "llm-wiki-server"),
            static_dir: String::from_str("dist-server/public"),
            projects_dir: join(home_base.as_str(), "wiki-projects"),
        }
    }
}

impl Default for ServerConfig {
    /// Port 3000, no token, the data directory under the user's local data
    /// directory and the projects under the home directory (or under `.`
    /// where the environment knows neither).
    fn default() -> (r: Self)
        ensures
            r.port == DEFAULT_PORT,
            r.token@ == Seq::<char>::empty(),
            r.static_dir@ == "dist-server/public"@,
            exists|d: Seq<char>| r.data_dir@ == path_join(d, "llm-wiki-server"@),
            exists|h: Seq<char>| r.projects_dir@ == path_join(h, "wiki-projects"@),
    {
        ServerConfig::from_dirs(data_local_dir(), home_dir())
    }
}

impl Default for LlmConfig {
    /// The OpenAI provider and endpoint with model `gpt-4o`, a context of
    /// 128000 and the chat-completions API.
    fn default() -> (r: Self)
        ensures
            r.provider@ == "openai"@,
            r.url@ == DEFAULT_OPENAI_URL@,
            r.api_key@ == Seq::<char>::empty(),
            r.model@ == "gpt-4o"@,
            r.max_context_size == 128000,
            r.api_mode@ == "chat_completions"@,
    {
        LlmConfig {
            provider: String::from_str("openai"),
            url: String::from_str(DEFAULT_OPENAI_URL),
            api_key: String::new(),
            model: String::from_str("gpt-4o"),
            max_context_size: 128000,
            api_mode: String::from_str("chat_completions"),
        }
    }
}

impl Default for EmbeddingConfig {
    /// The OpenAI provider and endpoint with model `text-embedding-3-small`.
    fn default() -> (r: Self)
        ensures
            r.provider@ == "openai"@,
            r.url@ == DEFAULT_OPENAI_URL@,
            r.api_key@ == Seq::<char>::empty(),
            r.model@ == "text-embedding-3-small"@,
    {
        EmbeddingConfig {
            provider: String::from_str("openai"),
            url: String::from_str(DEFAULT_OPENAI_URL),
            api_key: String::new(),
            model: String::from_str("text-embedding-3-small"),
        }
    }
}

impl Default for SearchConfig {
    /// Search disabled, provider `google`, no key.
    fn default() -> (r: Self)
        ensures
            !r.enabled,
            r.provider@ == "google"@,
            r.api_key@ == Seq::<char>::empty(),
    {
        SearchConfig { enabled: false, provider: String::from_str("google"), api_key: String::new() }
    }
}

impl Default for AppConfig {
    /// The defaults of every section.
    fn default() -> (r: Self)
        ensures
            r.server.port == DEFAULT_PORT,
            r.server.token@ == Seq::<char>::empty(),
            r.llm.provider@ == "openai"@,
            r.llm.url@ == DEFAULT_OPENAI_URL@,
            r.llm.model@ == "gpt-4o"@,
            r.llm.max_context_size == 128000,
            r.llm.api_mode@ == "chat_completions"@,
            r.embedding.provider@ == "openai"@,
            r.embedding.model@ == "text-embedding-3-small"@,
            !r.search.enabled,
            r.search.provider@ == "google"@,
    {
        AppConfig {
            server: ServerConfig::default(),
            llm: LlmConfig::default(),
            embedding: EmbeddingConfig::default(),
            search: SearchConfig::default(),
        }
    }
}

impl AppConfig {
    /// The configuration with the environment's overrides applied: each set
    /// variable replaces its field, and `LLM_WIKI_PORT` sets the port it
    /// spells, or the default port when it does not parse.
    pub fn with_overrides(self, env: &EnvOverrides) -> (r: Self)
        ensures
            r.server.token == or_keep(env.token, self.server.token),
            r.server.port == port_from_env(env.port, self.server.port),
            r.server.data_dir == or_keep(env.data_dir, self.server.data_dir),
            r.server.static_dir == or_keep(env.static_dir, self.server.static_dir),
            r.server.projects_dir == self.server.projects_dir,
            r.llm.provider == or_keep(env.llm_provider, self.llm.provider),
            r.llm.url == or_keep(env.llm_url, self.llm.url),
            r.llm.api_key == or_keep(env.llm_api_key, self.llm.api_key),
            r.llm.model == or_keep(env.llm_model, self.llm.model),
            r.llm.max_context_size == self.llm.max_context_size,
            r.llm.api_mode == self.llm.api_mode,
            r.embedding == self.embedding,
            r.search == self.search,
    {
        let mut c = self;
        c.server.token = take_or_keep(&env.token, c.server.token);
        match &env.port {
            Some(p) => {
                c.server.port = match parse_u16(p.as_str()) {
                    Some(v) => v,
                    None => DEFAULT_PORT,
                };
            },
            None => {},
        }
        c.server.data_dir = take_or_keep(&env.data_dir, c.server.data_dir);
        c.server.static_dir = take_or_keep(&env.static_dir, c.server.static_dir);
        c.llm.provider = take_or_keep(&env.llm_provider, c.llm.provider);
        c.llm.url = take_or_keep(&env.llm_url, c.llm.url);
        c.llm.api_key = take_or_keep(&env.llm_api_key, c.llm.api_key);
        c.llm.model = take_or_keep(&env.llm_model, c.llm.model);
        c
    }

    /// The configuration with a leading `~` in the data, static and project
    /// directories expanded to `home`.
    pub fn with_home(self, home: &str) -> (r: Self)
        ensures
            r.server.data_dir@ == expand_tilde(self.server.data_dir@, home@),
            r.server.static_dir@ == expand_tilde(self.server.static_dir@, home@),
            r.server.projects_dir@ == expand_tilde(self.server.projects_dir@, home@),
            r.server.port == self.server.port,
            r.server.token == self.server.token,
            r.llm == self.llm,
            r.embedding == self.embedding,
            r.search == self.search,
    {
        let mut c = self;
        c.server.data_dir = expand_home_with(c.server.data_dir.as_str(), home);
        c.server.static_dir = expand_home_with(c.server.static_dir.as_str(), home);
        c.server.projects_dir = expand_home_with(c.server.projects_dir.as_str(), home);
        c
    }

    /// The configuration with a leading `~` in its directories expanded to
    /// `home`, or to `/` when no home directory is known.
    pub fn with_home_or_root(self, home: Option<String>) -> (r: Self)
        ensures
            r.server.data_dir@ == expand_tilde(self.server.data_dir@, home_or_root_spec(home)),
            r.server.static_dir@ == expand_tilde(self.server.static_dir@, home_or_root_spec(home)),
            r.server.projects_dir@ == expand_tilde(self.server.projects_dir@, home_or_root_spec(home)),
            r.server.port == self.server.port,
            r.server.token == self.server.token,
            r.llm == self.llm,
            r.embedding == self.embedding,
            r.search == self.search,
    {
        let h = home_or_root(home);
        self.with_home(h.as_str())
    }

    /// The configuration with a leading `~` in its directories expanded to
    /// the user's home directory (to `/` where none is known).
    pub fn with_expanded_home(self) -> (r: Self)
        ensures
            exists|home: Option<String>|
                {
                    &&& r.server.data_dir@ == expand_tilde(self.server.data_dir@, #[trigger] home_or_root_spec(home))
                    &&& r.server.static_dir@ == expand_tilde(self.server.static_dir@, home_or_root_spec(home))
                    &&& r.server.projects_dir@ == expand_tilde(self.server.projects_dir@, home_or_root_spec(home))
                },
            r.server.port == self.server.port,
            r.server.token == self.server.token,
            r.llm == self.llm,
            r.embedding == self.embedding,
            r.search == self.search,
    {
        let home = home_dir();
        self.with_home_or_root(home)
    }

    /// The provider the frontend is told: `custom` for the `openai`
    /// provider at any URL other than the OpenAI endpoint, the configured
    /// provider otherwise.
    pub open spec fn effective_provider(&self) -> Seq<char> {
        if self.llm.provider@ == "openai"@ && self.llm.url@ != DEFAULT_OPENAI_URL@ {
            "custom"@
        } else {
            self.llm.provider@
        }
    }

    /// The language-model settings for the frontend: the effective provider,
    /// the URL as `ollamaUrl` for the `ollama` provider, and as
    /// `customEndpoint` when the provider is or becomes `custom`.
    pub fn llm_frontend(&self) -> (r: LlmFrontendConfig)
        ensures
            r.provider@ == self.effective_provider(),
            r.api_key == self.llm.api_key,
            r.model == self.llm.model,
            r.max_context_size == self.llm.max_context_size,
            r.ollama_url@ == (if self.llm.provider@ == "ollama"@ { self.llm.url@ } else { Seq::empty() }),
            r.custom_endpoint@ == (if self.effective_provider() == "custom"@ || self.llm.provider@
                == "custom"@ {
                self.llm.url@
            } else {
                Seq::empty()
            }),
            r.api_mode == self.llm.api_mode,
    {
        let is_default_openai = str_eq(self.llm.url.as_str(), DEFAULT_OPENAI_URL);
        let provider_is_openai = str_eq(self.llm.provider.as_str(), "openai");
        let effective = if provider_is_openai && !is_default_openai {
            String::from_str("custom")
        } else {
            self.llm.provider.clone()
        };
        let ollama_url = if str_eq(self.llm.provider.as_str(), "ollama") {
            self.llm.url.clone()
        } else {
            String::new()
        };
        let custom_endpoint = if str_eq(effective.as_str(), "custom") || str_eq(
            self.llm.provider.as_str(),
            "custom",
        ) {
            self.llm.url.clone()
        } else {
            String::new()
        };
        LlmFrontendConfig {
            provider: effective,
            api_key: self.llm.api_key.clone(),
            model: self.llm.model.clone(),
            max_context_size: self.llm.max_context_size,
            ollama_url,
            custom_endpoint,
            api_mode: self.llm.api_mode.clone(),
        }
    }
}

} // verus!
