use std::path::Path;
use wiki_server::config::{
    AppConfig, EmbeddingConfig, EnvOverrides, LlmConfig, SearchConfig, ServerConfig, DEFAULT_OPENAI_URL,
    DEFAULT_PORT,
};

fn no_env() -> EnvOverrides {
    EnvOverrides {
        token: None,
        port: None,
        data_dir: None,
        static_dir: None,
        llm_provider: None,
        llm_url: None,
        llm_api_key: None,
        llm_model: None,
    }
}

fn base() -> AppConfig {
    AppConfig {
        server: ServerConfig::from_dirs(Some("/data".to_string()), Some("/home/u".to_string())),
        llm: LlmConfig::default(),
        embedding: EmbeddingConfig::default(),
        search: SearchConfig::default(),
    }
}

#[test]
fn server_defaults_from_dirs() {
    let s = ServerConfig::from_dirs(Some("/data".to_string()), Some("/home/u".to_string()));
    assert_eq!(s.port, 3000);
    assert_eq!(s.token, "");
    assert_eq!(s.data_dir, Path::new("/data").join("llm-wiki-server").to_string_lossy());
    assert_eq!(s.static_dir, "dist-server/public");
    assert_eq!(s.projects_dir, "/home/u/wiki-projects");
    let t = ServerConfig::from_dirs(None, None);
    assert_eq!(t.data_dir, "./llm-wiki-server");
    assert_eq!(t.projects_dir, "./wiki-projects");
}

#[test]
fn section_defaults() {
    let l = LlmConfig::default();
    assert_eq!(l.provider, "openai");
    assert_eq!(l.url, DEFAULT_OPENAI_URL);
    assert_eq!(l.model, "gpt-4o");
    assert_eq!(l.max_context_size, 128000);
    assert_eq!(l.api_mode, "chat_completions");
    let e = EmbeddingConfig::default();
    assert_eq!(e.model, "text-embedding-3-small");
    let s = SearchConfig::default();
    assert!(!s.enabled);
    assert_eq!(s.provider, "google");
    let a = AppConfig::default();
    assert_eq!(a.server.port, DEFAULT_PORT);
    assert!(a.server.data_dir.ends_with("llm-wiki-server"));
    assert!(a.server.projects_dir.ends_with("wiki-projects"));
}

#[test]
fn overrides_replace_set_fields_only() {
    let mut env = no_env();
    env.token = Some("secret".to_string());
    env.port = Some("8080".to_string());
    env.llm_model = Some("llama3".to_string());
    let c = base().with_overrides(&env);
    assert_eq!(c.server.token, "secret");
    assert_eq!(c.server.port, 8080);
    assert_eq!(c.llm.model, "llama3");
    assert_eq!(c.llm.provider, "openai");
    assert_eq!(c.server.data_dir, base().server.data_dir);
}

#[test]
fn unparsable_port_falls_back_to_default() {
    let mut custom = base();
    custom.server.port = 9999;
    let mut env = no_env();
    env.port = Some("not-a-port".to_string());
    assert_eq!(custom.clone().with_overrides(&env).server.port, 3000);
    env.port = Some("70000".to_string());
    assert_eq!(custom.clone().with_overrides(&env).server.port, 3000);
    assert_eq!(custom.with_overrides(&no_env()).server.port, 9999);
}

#[test]
fn home_expansion_of_directories() {
    let mut c = base();
    c.server.data_dir = "~/data".to_string();
    c.server.static_dir = "/static".to_string();
    c.server.projects_dir = "~".to_string();
    let h = c.with_home("/home/x");
    assert_eq!(h.server.data_dir, "/home/x/data");
    assert_eq!(h.server.static_dir, "/static");
    assert_eq!(h.server.projects_dir, "/home/x/");
    let mut d = base();
    d.server.static_dir = "/abs".to_string();
    let e = d.with_expanded_home();
    assert_eq!(e.server.static_dir, "/abs");
}

#[test]
fn frontend_sees_custom_for_openai_elsewhere() {
    let mut c = base();
    c.llm.url = "http://localhost:1234/v1".to_string();
    let f = c.llm_frontend();
    assert_eq!(f.provider, "custom");
    assert_eq!(f.custom_endpoint, "http://localhost:1234/v1");
    assert_eq!(f.ollama_url, "");

    let d = base().llm_frontend();
    assert_eq!(d.provider, "openai");
    assert_eq!(d.custom_endpoint, "");

    let mut o = base();
    o.llm.provider = "ollama".to_string();
    o.llm.url = "http://localhost:11434".to_string();
    let fo = o.llm_frontend();
    assert_eq!(fo.provider, "ollama");
    assert_eq!(fo.ollama_url, "http://localhost:11434");
    assert_eq!(fo.custom_endpoint, "");

    let mut k = base();
    k.llm.provider = "custom".to_string();
    k.llm.url = DEFAULT_OPENAI_URL.to_string();
    assert_eq!(k.llm_frontend().custom_endpoint, DEFAULT_OPENAI_URL);
    assert_eq!(k.llm_frontend().max_context_size, 128000);
}

#[test]
fn home_expansion_falls_back_to_root() {
    let mut c = base();
    c.server.data_dir = "~/data".to_string();
    c.server.projects_dir = "~".to_string();
    let r = c.with_home_or_root(None);
    assert_eq!(r.server.data_dir, "/data");
    assert_eq!(r.server.projects_dir, "/");
}
