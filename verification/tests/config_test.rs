use gas_codex::config::{
    answer_probe, codex_toml, default_codex_path, load_config, model_ids, save_config,
    save_config_in, test_connection, AppConfig, FileAction, ProbeAction, ProbeEvent, StoredConfig,
};
use gas_codex::http::{check_status, refusal};
use gas_codex::json::{parse_text, Json};
use gas_codex::paths::Platform;
use std::path::{Path, PathBuf};

fn sample() -> AppConfig {
    AppConfig {
        base_url: "https://www.dmxapi.cn/v1/".to_string(),
        api_key: "the-key".to_string(),
        model: "glm-5".to_string(),
        codex_path: "/opt/codex".to_string(),
        work_dir: "/work".to_string(),
    }
}

fn expected_toml() -> &'static str {
    r#"# Gas Codex 客户端生成 —— 自定义模型接入
[model_providers.dmxapi]
name = "DMX API"
base_url = "https://www.dmxapi.cn/v1"
wire_api = "responses"
env_key = "DMXAPI_KEY"
requires_openai_auth = false
request_max_retries = 6
stream_max_retries = 10
stream_idle_timeout_ms = 180000

model_provider = "dmxapi"
model = "glm-5"
"#
}

#[test]
fn usual_engine_path() {
    assert_eq!(default_codex_path(Platform::Windows), "codex");
    assert_eq!(default_codex_path(Platform::Aarch64), "/usr/local/bin/codex");
    assert_eq!(default_codex_path(Platform::Other), "/usr/local/bin/codex");
}

#[test]
fn fresh_settings() {
    let cfg = AppConfig::default(Platform::Windows);
    assert_eq!(cfg.base_url, "");
    assert_eq!(cfg.api_key, "");
    assert_eq!(cfg.model, "deepseek-v4-flash-guan");
    assert_eq!(cfg.codex_path, "codex");
    assert_eq!(cfg.work_dir, "");
}

#[test]
fn stored_settings_are_loaded() {
    let cfg = load_config(StoredConfig::Parsed(sample()), Platform::Other).unwrap();
    assert_eq!(cfg.base_url, "https://www.dmxapi.cn/v1/");
    assert_eq!(cfg.codex_path, "/opt/codex");
}

#[test]
fn missing_settings_are_fresh_ones() {
    for stored in [StoredConfig::Unreadable, StoredConfig::Malformed] {
        let cfg = load_config(stored, Platform::Other).unwrap();
        assert_eq!(cfg.model, "deepseek-v4-flash-guan");
        assert_eq!(cfg.codex_path, "/usr/local/bin/codex");
    }
}

#[test]
fn engine_settings() {
    assert_eq!(codex_toml(&sample()), expected_toml());
}

#[test]
fn slashes_make_no_difference() {
    let mut cfg = sample();
    cfg.base_url = "https://www.dmxapi.cn/v1".to_string();
    assert_eq!(codex_toml(&cfg), expected_toml());
    cfg.base_url = "https://www.dmxapi.cn/v1////".to_string();
    assert_eq!(codex_toml(&cfg), expected_toml());
}

#[test]
fn the_key_stays_out_of_the_engine_settings() {
    let mut cfg = sample();
    cfg.api_key = "another-key".to_string();
    cfg.work_dir = "/elsewhere".to_string();
    assert_eq!(codex_toml(&cfg), expected_toml());
    assert!(!codex_toml(&cfg).contains("another-key"));
}

fn check_saved(actions: &[FileAction], dir: &Path, engine: &Path) {
    assert_eq!(actions.len(), 4);
    match &actions[0] {
        FileAction::CreateDir(path) => assert_eq!(path, dir),
        FileAction::Write(..) => panic!("a directory comes first"),
    }
    match &actions[1] {
        FileAction::Write(path, text) => {
            assert_eq!(path, &dir.join("config.json"));
            assert_eq!(text, "{}");
        }
        FileAction::CreateDir(_) => panic!("then the client's file"),
    }
    match &actions[2] {
        FileAction::CreateDir(path) => assert_eq!(path, engine),
        FileAction::Write(..) => panic!("then the engine's directory"),
    }
    match &actions[3] {
        FileAction::Write(path, text) => {
            assert_eq!(path, &engine.join("config.toml"));
            assert_eq!(text, expected_toml());
        }
        FileAction::CreateDir(_) => panic!("then the engine's file"),
    }
}

#[test]
fn saving_under_the_home_directory() {
    let actions = save_config_in(&sample(), "{}".to_string(), None, &PathBuf::from("/home/a"));
    check_saved(&actions, Path::new("/home/a/.gas-codex"), Path::new("/home/a/.codex"));
}

#[test]
fn saving_with_a_named_engine_home() {
    let named = Some(PathBuf::from("/srv/codex"));
    let actions = save_config_in(&sample(), "{}".to_string(), named, &PathBuf::from("."));
    check_saved(&actions, Path::new("./.gas-codex"), Path::new("/srv/codex"));
}

#[test]
fn saving_for_this_user() {
    let root = dirs::home_dir().unwrap_or_else(|| PathBuf::from("."));
    let actions = save_config(&sample(), "{}".to_string(), None);
    check_saved(&actions, &root.join(".gas-codex"), &root.join(".codex"));
}

#[test]
fn the_probe_asks_for_models() {
    match test_connection(&sample(), ProbeEvent::Begin) {
        ProbeAction::Get(url, bearer) => {
            assert_eq!(url, "https://www.dmxapi.cn/v1/models");
            assert_eq!(bearer, Some("the-key".to_string()));
        }
        _ => panic!("a request comes first"),
    }
}

#[test]
fn without_a_key_no_token_is_sent() {
    let mut cfg = sample();
    cfg.api_key = String::new();
    match test_connection(&cfg, ProbeEvent::Begin) {
        ProbeAction::Get(_, bearer) => assert_eq!(bearer, None),
        _ => panic!("a request comes first"),
    }
}

fn finished(event: ProbeEvent) -> Result<Vec<String>, String> {
    match test_connection(&sample(), event) {
        ProbeAction::Finish(answer) => answer,
        _ => panic!("the probe goes on"),
    }
}

#[test]
fn probe_failures() {
    assert_eq!(
        finished(ProbeEvent::SendFailed("dns".to_string())),
        Err("连接失败: dns".to_string())
    );
    assert_eq!(
        finished(ProbeEvent::Status(401)),
        Err("HTTP 401 Unauthorized".to_string())
    );
    assert_eq!(
        finished(ProbeEvent::BodyFailed("cut off".to_string())),
        Err("cut off".to_string())
    );
    assert_eq!(
        finished(ProbeEvent::Body(b"<html>".to_vec())),
        Err("error decoding response body".to_string())
    );
}

#[test]
fn a_good_status_leads_to_the_body() {
    assert!(matches!(
        test_connection(&sample(), ProbeEvent::Status(200)),
        ProbeAction::ReadBody
    ));
}

#[test]
fn the_models_of_a_body() {
    let body = r#"{"data":[{"id":"b"},{"name":"x"},{"id":7},{"id":"a"},"c"]}"#;
    assert_eq!(
        finished(ProbeEvent::Body(body.as_bytes().to_vec())),
        Ok(vec!["b".to_string(), "a".to_string()])
    );
}

#[test]
fn bodies_without_models() {
    for body in ["{}", "[]", "null", r#"{"data":null}"#, r#"{"data":{"id":"a"}}"#] {
        assert_eq!(model_ids(&parse_text(body).unwrap()), Vec::<String>::new());
    }
}

#[test]
fn answers_of_the_probe() {
    assert_eq!(answer_probe(None), Err("error decoding response body".to_string()));
    assert_eq!(answer_probe(Some(Json::Null)), Ok(vec![]));
}

#[test]
fn statuses() {
    for code in [200, 204, 299] {
        assert_eq!(check_status(code), Ok(()));
    }
    assert_eq!(check_status(199), Err("HTTP 199 <unknown status code>".to_string()));
    assert_eq!(check_status(300), Err("HTTP 300 Multiple Choices".to_string()));
    assert_eq!(check_status(404), Err("HTTP 404 Not Found".to_string()));
    assert_eq!(refusal("418 I'm a teapot"), "HTTP 418 I'm a teapot");
}
