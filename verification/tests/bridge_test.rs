use gas_codex::bridge::{
    codex_event, codex_notify, codex_send, codex_send_raw, codex_sent, codex_spawned, codex_start,
    codex_stop, event_to_show, notification, request, written, CodexState, Launch, Spawn,
    StartStep, WriteOutcome,
};
use gas_codex::config::AppConfig;
use gas_codex::json::{parse_text, write_text, Json};
use gas_codex::paths::Platform;
use serde_json::Number;

type State = CodexState<u32, String, &'static str>;

fn settings() -> AppConfig {
    let mut cfg = AppConfig::default(Platform::Other);
    cfg.api_key = "the-key".to_string();
    cfg
}

fn params() -> Json {
    Json::Object(vec![("cwd".to_string(), Json::Text("/w".to_string()))])
}

fn running() -> State {
    let mut state = State::default();
    let spawn = Spawn::Running(42, Some("stdin".to_string()), Some("stdout"));
    let (answer, stdout) = codex_spawned(&mut state, "codex", spawn, "window").unwrap();
    assert_eq!(write_text(answer), r#"{"started":true}"#);
    assert_eq!(stdout, "stdout");
    state
}

fn launch(step: StartStep) -> Launch {
    match step {
        StartStep::Launch(launch) => launch,
        StartStep::Answer(_) => panic!("the engine runs already"),
    }
}

#[test]
fn the_first_state() {
    let state = State::default();
    assert_eq!(state.child, None);
    assert_eq!(state.writer, None);
    assert_eq!(state.next_id, 1);
    assert_eq!(state.app, None);
    assert_eq!(state.sink, None);
}

#[test]
fn launching_the_installed_engine() {
    let launch = launch(codex_start(&State::default(), &settings(), true, "/e/bin/codex.exe"));
    assert_eq!(launch.program, "/e/bin/codex.exe");
    assert_eq!(launch.args, vec!["app-server".to_string(), "--stdio".to_string()]);
    assert_eq!(
        launch.env,
        vec![
            ("DMXAPI_KEY".to_string(), "the-key".to_string()),
            ("RUST_LOG".to_string(), "error".to_string()),
        ]
    );
}

#[test]
fn launching_the_configured_engine() {
    let launch = launch(codex_start(&State::default(), &settings(), false, "/e/bin/codex.exe"));
    assert_eq!(launch.program, "/usr/local/bin/codex");
}

#[test]
fn a_running_engine_is_not_started_again() {
    match codex_start(&running(), &settings(), true, "/e") {
        StartStep::Answer(answer) => assert_eq!(write_text(answer), r#"{"alreadyRunning":true}"#),
        StartStep::Launch(_) => panic!("launched twice"),
    }
}

#[test]
fn taking_over_the_process() {
    let state = running();
    assert_eq!(state.child, Some(42));
    assert_eq!(state.writer, Some("stdin".to_string()));
    assert_eq!(state.app, Some("window"));
    assert_eq!(state.sink, Some("window"));
    assert_eq!(state.next_id, 1);
}

fn refused(spawn: Spawn<u32, String, &'static str>) -> String {
    let mut state = State::default();
    let message = codex_spawned(&mut state, "/bin/codex", spawn, "window").unwrap_err();
    assert_eq!(state.child, None);
    assert_eq!(state.writer, None);
    assert_eq!(state.app, None);
    assert_eq!(state.sink, None);
    message
}

#[test]
fn launches_that_fail() {
    assert_eq!(
        refused(Spawn::Failed("not found".to_string())),
        "启动 codex 失败（路径: /bin/codex）: not found\n若未安装引擎，客户端会自动下载；也可手动: npm install -g @openai/codex"
    );
    assert_eq!(refused(Spawn::Running(1, None, Some("out"))), "无法获取 stdin");
    assert_eq!(refused(Spawn::Running(1, None, None)), "无法获取 stdin");
    assert_eq!(refused(Spawn::Running(1, Some("in".to_string()), None)), "无法获取 stdout");
}

#[test]
fn the_message_of_a_request() {
    let message = request("thread/start".to_string(), 9, params());
    assert_eq!(
        write_text(message),
        r#"{"id":9,"method":"thread/start","params":{"cwd":"/w"}}"#
    );
}

#[test]
fn sending_requests() {
    let mut state = running();
    let first = codex_send(&mut state, "initialize".to_string(), params()).unwrap();
    assert_eq!(first.id, 1);
    assert_eq!(
        first.line,
        "{\"id\":1,\"method\":\"initialize\",\"params\":{\"cwd\":\"/w\"}}\n"
    );
    let second = codex_send(&mut state, "turn/start".to_string(), Json::Null).unwrap();
    assert_eq!(second.id, 2);
    assert_eq!(second.line, "{\"id\":2,\"method\":\"turn/start\",\"params\":null}\n");
    assert_eq!(state.next_id, 3);
}

#[test]
fn a_stream_of_requests_is_read_line_by_line() {
    let mut state = running();
    let mut stream = String::new();
    for method in ["a\nb", "c"] {
        let outgoing = codex_send(&mut state, method.to_string(), Json::Null).unwrap();
        stream.push_str(&outgoing.line);
    }
    let lines: Vec<&str> = stream.lines().collect();
    assert_eq!(lines.len(), 2);
    assert_eq!(
        parse_text(lines[0]).unwrap().field("method"),
        Some(&Json::Text("a\nb".to_string()))
    );
}

#[test]
fn sending_without_an_engine_takes_an_identifier() {
    let mut state = State::default();
    match codex_send(&mut state, "initialize".to_string(), Json::Null) {
        Ok(_) => panic!("nothing to send to"),
        Err(message) => assert_eq!(message, "codex 未启动，请先调用 codex_start"),
    }
    assert_eq!(state.next_id, 2);
}

#[test]
fn after_the_last_identifier_comes_zero() {
    let mut state = running();
    state.next_id = u64::MAX;
    let outgoing = codex_send(&mut state, "m".to_string(), Json::Null).unwrap();
    assert_eq!(outgoing.id, u64::MAX);
    assert_eq!(state.next_id, 0);
}

#[test]
fn events_are_shown_from_the_start_on() {
    let line = r#"{"method":"turn/completed"}"#;
    assert_eq!(codex_event(&State::default(), line), None);
    let mut state = running();
    assert!(codex_event(&state, line).is_some());
    assert_eq!(codex_event(&state, line), parse_text(line));
    assert_eq!(codex_event(&state, "warning: not json"), None);
    let answer = codex_sent(&mut state, 1, WriteOutcome::Written).unwrap();
    assert_eq!(write_text(answer), r#"{"id":1}"#);
    assert_eq!(state.sink, Some("window"));
    assert_eq!(codex_event(&state, line), parse_text(line));
    codex_stop(&mut state);
    assert_eq!(codex_event(&state, line), None);
}

#[test]
fn a_new_start_takes_events_to_its_own_window() {
    let mut state = running();
    codex_stop(&mut state);
    let spawn = Spawn::Running(43, Some("stdin".to_string()), Some("stdout"));
    codex_spawned(&mut state, "codex", spawn, "other window").unwrap();
    assert_eq!(state.sink, Some("other window"));
}

#[test]
fn the_message_of_a_notification() {
    let message = notification("initialized".to_string(), params());
    assert_eq!(message.field("id"), None);
    assert_eq!(message.field("jsonrpc"), None);
    assert_eq!(write_text(message), r#"{"method":"initialized","params":{"cwd":"/w"}}"#);
}

#[test]
fn sending_notifications() {
    let state = running();
    let line = codex_notify(&state, "initialized".to_string(), Json::Object(vec![])).unwrap();
    assert_eq!(line, "{\"method\":\"initialized\",\"params\":{}}\n");
    assert_eq!(state.next_id, 1);
    assert_eq!(
        codex_notify(&State::default(), "initialized".to_string(), Json::Null),
        Err("codex 未启动，请先调用 codex_start".to_string())
    );
}

#[test]
fn whole_numbers_are_read_back() {
    let state = running();
    for number in [Number::from(-3), Number::from(i64::MIN), Number::from(u64::MAX)] {
        let message = || Json::Array(vec![Json::Number(number.clone())]);
        let line = codex_send_raw(&state, message()).unwrap();
        assert_eq!(parse_text(line.trim_end()), Some(message()));
    }
}

#[test]
fn events_given_as_values() {
    let mut state = running();
    codex_stop(&mut state);
    assert_eq!(event_to_show(&state, Some(Json::Null)), None);
    state.sink = Some("window");
    assert_eq!(event_to_show(&state, Some(Json::Null)), Some(Json::Null));
    assert_eq!(event_to_show(&state, None), None);
}

#[test]
fn writes_that_fail() {
    let mut state = running();
    state.sink = None;
    assert_eq!(
        codex_sent(&mut state, 1, WriteOutcome::WriteFailed("pipe".to_string())),
        Err("写入失败: pipe".to_string())
    );
    assert_eq!(
        codex_sent(&mut state, 1, WriteOutcome::FlushFailed("pipe".to_string())),
        Err("flush 失败: pipe".to_string())
    );
    assert_eq!(state.sink, None);
    assert_eq!(written(WriteOutcome::Written), Ok(()));
}

#[test]
fn raw_messages() {
    let reply = parse_text(r#"{"id":3,"result":{"decision":"accept"}}"#).unwrap();
    assert_eq!(
        codex_send_raw(&running(), reply),
        Ok("{\"id\":3,\"result\":{\"decision\":\"accept\"}}\n".to_string())
    );
    assert_eq!(
        codex_send_raw(&State::default(), Json::Null),
        Err("codex 未启动".to_string())
    );
}

#[test]
fn stopping() {
    let mut state = running();
    codex_send(&mut state, "m".to_string(), Json::Null).unwrap();
    codex_sent(&mut state, 1, WriteOutcome::Written).unwrap();
    assert_eq!(codex_stop(&mut state), Some(42));
    assert_eq!(state.child, None);
    assert_eq!(state.writer, None);
    assert_eq!(state.sink, None);
    assert_eq!(state.app, Some("window"));
    assert_eq!(state.next_id, 2);
    assert_eq!(codex_stop(&mut state), None);
    assert!(codex_send_raw(&state, Json::Null).is_err());
    assert!(matches!(
        codex_start(&state, &settings(), false, ""),
        StartStep::Launch(_)
    ));
}
