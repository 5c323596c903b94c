use std::sync::Arc;

use api_switch::config::{default_port, AppConfig, ModelConfig};
use api_switch::error::AppError;
use api_switch::handler::{backend_chat_url, resolve_model, AppState};

fn model(name: &str, key: &str, sign: &str, url: &str) -> ModelConfig {
    ModelConfig {
        name: name.into(),
        app_key: key.into(),
        app_sign: sign.into(),
        base_url: url.into(),
    }
}

#[test]
fn find_model_returns_matching_config() {
    let config = AppConfig {
        models: vec![
            model("qwen35-397b", "key1", "sign1", "http://host1"),
            model("glm-5", "key2", "sign2", "http://host2"),
        ],
        port: 3000,
    };
    let result = config.find_model("glm-5");
    assert!(result.is_some());
    let mc = result.unwrap();
    assert_eq!(mc.app_key, "key2");
    assert_eq!(mc.app_sign, "sign2");
    assert_eq!(mc.base_url, "http://host2");
}

#[test]
fn find_model_returns_none_for_unknown() {
    let config = AppConfig {
        models: vec![model("qwen35-397b", "key1", "sign1", "http://host1")],
        port: 3000,
    };
    assert!(config.find_model("unknown-model").is_none());
}

#[test]
fn find_model_is_case_sensitive() {
    let config = AppConfig {
        models: vec![model("qwen35-397b", "key1", "sign1", "http://host1")],
        port: 3000,
    };
    assert!(config.find_model("Qwen35-397b").is_none());
    assert!(config.find_model("qwen35-397b").is_some());
}

#[test]
fn find_model_takes_the_first_of_duplicate_names() {
    let config = AppConfig {
        models: vec![
            model("m", "first", "s1", "http://a"),
            model("m", "second", "s2", "http://b"),
        ],
        port: 3000,
    };
    assert_eq!(config.find_model("m").unwrap().app_key, "first");
}

#[test]
fn require_model_reports_unknown_model() {
    let config = AppConfig {
        models: vec![model("glm-5", "k", "s", "http://h")],
        port: 3000,
    };
    match config.require_model("gpt-4") {
        Err(AppError::InvalidRequestError(m)) => assert_eq!(m, "Unknown model: gpt-4"),
        _ => panic!("expected InvalidRequestError"),
    }
    assert_eq!(config.require_model("glm-5").unwrap().app_key, "k");
}

#[test]
fn default_port_is_3000() {
    assert_eq!(default_port(), 3000);
}

#[test]
fn resolve_model_uses_the_state_configuration() {
    let state = AppState {
        config: Arc::new(AppConfig {
            models: vec![model("glm-5", "key2", "sign2", "http://host2/")],
            port: 0,
        }),
        client: reqwest::Client::new(),
    };
    assert_eq!(resolve_model(&state, "glm-5").unwrap().app_sign, "sign2");
    match resolve_model(&state, "nope") {
        Err(e) => {
            assert_eq!(e.status_code(), 400);
            assert_eq!(e.message(), "Unknown model: nope");
        }
        Ok(_) => panic!("expected an error"),
    }
}

#[test]
fn backend_chat_url_strips_trailing_slashes() {
    assert_eq!(
        backend_chat_url("http://host:9520/svc/model/"),
        "http://host:9520/svc/model/v1/chat/completions"
    );
    assert_eq!(backend_chat_url("http://host//"), "http://host/v1/chat/completions");
    assert_eq!(backend_chat_url("http://host"), "http://host/v1/chat/completions");
}
