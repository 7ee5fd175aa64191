//! The bridge to the engine's process: starting and stopping it, and the
//! JSON-RPC messages that go back and forth, one to a line.

use vstd::prelude::*;

use crate::config::{
    engine_toml, texts, toml_head, toml_tail, AppConfig, ConfigView, API_KEY_VARIABLE,
};
use crate::json::{
    field_of, json_text, lemma_fields_view_push, number_from, object_of_one, one_field, parse_text,
    reads_back, text_json, write_text, Json, JsonView, DEPTH_LIMIT,
};
use crate::text::{frame, framed};

verus! {

/// The state of the bridge. `C` is the engine's process, `W` the end that its
/// input is written to, `A` the handle that events are shown through.
pub struct CodexState<C, W, A> {
    /// The process, while it runs.
    pub child: Option<C>,
    /// Its input, while it runs.
    pub writer: Option<W>,
    /// The identifier of the next request.
    pub next_id: u64,
    /// The handle of the window that started the process.
    pub app: Option<A>,
    /// The handle that events go to, from the start of the process on.
    pub sink: Option<A>,
}

impl<C, W, A> CodexState<C, W, A> {
    /// A process and its input come and go together, events only go to a window
    /// that once started a process, and while a process runs they do go there.
    pub open spec fn well_formed(self) -> bool {
        &&& self.child is Some <==> self.writer is Some
        &&& self.sink is Some ==> self.app is Some
        &&& self.child is Some ==> self.sink is Some
    }
}

impl<C, W, A> Default for CodexState<C, W, A> {
    fn default() -> (state: Self)
        ensures
            state == (CodexState::<C, W, A> {
                child: None,
                writer: None,
                next_id: 1,
                app: None,
                sink: None,
            }),
            state.well_formed(),
    {
        CodexState { child: None, writer: None, next_id: 1, app: None, sink: None }
    }
}

/// How to launch the engine. Its input and output are piped, its error output
/// is dropped.
pub struct Launch {
    pub program: String,
    pub args: Vec<String>,
    pub env: Vec<(String, String)>,
}

/// How to launch the engine.
pub struct LaunchView {
    pub program: Seq<char>,
    pub args: Seq<Seq<char>>,
    pub env: Seq<(Seq<char>, Seq<char>)>,
}

impl View for Launch {
    type V = LaunchView;

    open spec fn view(&self) -> LaunchView {
        LaunchView {
            program: self.program@,
            args: texts(self.args@),
            env: self.env@.map_values(|pair: (String, String)| (pair.0@, pair.1@)),
        }
    }
}

/// The program to run: the engine that the client installed, if it is there,
/// else the one that the settings name.
pub open spec fn engine_program(
    cfg: ConfigView,
    installed: bool,
    engine_bin: Seq<char>,
) -> Seq<char> {
    if installed {
        engine_bin
    } else {
        cfg.codex_path
    }
}

/// How the engine is launched: the API key goes to it through its environment.
pub open spec fn engine_launch(
    cfg: ConfigView,
    installed: bool,
    engine_bin: Seq<char>,
) -> LaunchView {
    LaunchView {
        program: engine_program(cfg, installed, engine_bin),
        args: seq!["app-server"@, "--stdio"@],
        env: seq![(API_KEY_VARIABLE@, cfg.api_key), ("RUST_LOG"@, "error"@)],
    }
}

/// What starting the engine does first.
pub enum StartStep {
    /// Nothing: answer with this.
    Answer(Json),
    /// Launch the process.
    Launch(Launch),
}

/// What came of launching the process.
pub enum Spawn<C, W, R> {
    /// It could not be launched, with the error as text.
    Failed(String),
    /// It runs, with the ends of its input and output as far as they were had.
    Running(C, Option<W>, Option<R>),
}

/// What the user is told when the engine cannot be launched.
pub open spec fn launch_failure(program: Seq<char>, error: Seq<char>) -> Seq<char> {
    "启动 codex 失败（路径: "@ + program + "）: "@ + error
        + "\n若未安装引擎，客户端会自动下载；也可手动: npm install -g @openai/codex"@
}

/// The message that a request makes.
pub open spec fn request_json(method: Seq<char>, id: u64, params: JsonView) -> JsonView {
    JsonView::Object(
        Map::empty().insert("method"@, JsonView::Text(method)).insert(
            "id"@,
            JsonView::Integer(id as int),
        ).insert("params"@, params),
    )
}

/// A request carries its identifier under `id`.
pub proof fn lemma_request_id(method: Seq<char>, id: u64, params: JsonView)
    ensures
        field_of(request_json(method, id, params), "id"@) == Some(
            JsonView::Integer(id as int),
        ),
{
    reveal_strlit("id");
    reveal_strlit("params");
    assert("id"@.len() != "params"@.len());
}

/// A request is read back as it was written, if its parameters are sure to be.
pub proof fn lemma_request_reads_back(method: Seq<char>, id: u64, params: JsonView, depth: nat)
    requires
        reads_back(params, depth),
    ensures
        reads_back(request_json(method, id, params), depth + 1),
{
    let message = request_json(method, id, params);
    let fields = message->Object_0;
    assert(fields.dom() == Set::empty().insert("method"@).insert("id"@).insert("params"@));
    assert(fields.dom().finite());
    assert forall|name: Seq<char>| fields.contains_key(name) implies reads_back(
        #[trigger] fields[name],
        depth,
    ) by {
        if name == "params"@ {
        } else if name == "id"@ {
            assert(fields[name] == JsonView::Integer(id as int));
        } else {
            assert(fields[name] == JsonView::Text(method));
        }
    }
}

/// Requests with different identifiers are different messages.
pub proof fn lemma_requests_differ(
    method: Seq<char>,
    id: u64,
    params: JsonView,
    other_method: Seq<char>,
    other_id: u64,
    other_params: JsonView,
)
    requires
        id != other_id,
    ensures
        request_json(method, id, params) != request_json(other_method, other_id, other_params),
{
    lemma_request_id(method, id, params);
    lemma_request_id(other_method, other_id, other_params);
}

/// Makes [`request_json`].
pub fn request(method: String, id: u64, params: Json) -> (message: Json)
    ensures
        message@ == request_json(method@, id, params@),
{
    let number = number_from(id);
    let method_field = ("method".to_owned(), Json::Text(method));
    let id_field = ("id".to_owned(), Json::Number(number));
    let params_field = ("params".to_owned(), params);
    let mut fields: Vec<(String, Json)> = Vec::new();
    proof {
        let none = fields@;
        lemma_fields_view_push(none, method_field);
        lemma_fields_view_push(none.push(method_field), id_field);
        lemma_fields_view_push(none.push(method_field).push(id_field), params_field);
    }
    fields.push(method_field);
    fields.push(id_field);
    fields.push(params_field);
    Json::Object(fields)
}

/// The identifier after this one; after the last comes zero.
pub open spec fn id_after(id: u64) -> u64 {
    if id == u64::MAX {
        0
    } else {
        (id + 1) as u64
    }
}

/// A request that is ready to be written: its identifier, and the line that it
/// makes.
pub struct Outgoing {
    pub id: u64,
    pub line: String,
}

/// What came of writing a line.
pub enum WriteOutcome {
    Written,
    /// Writing failed, with the error as text.
    WriteFailed(String),
    /// Flushing failed, with the error as text.
    FlushFailed(String),
}

/// The error that a failed write is answered with, if it failed.
pub open spec fn write_error(outcome: WriteOutcome) -> Option<Seq<char>> {
    match outcome {
        WriteOutcome::Written => None,
        WriteOutcome::WriteFailed(error) => Some("写入失败: "@ + error@),
        WriteOutcome::FlushFailed(error) => Some("flush 失败: "@ + error@),
    }
}

/// Answers a message that was written, or could not be.
pub fn written(outcome: WriteOutcome) -> (answer: Result<(), String>)
    ensures
        match answer {
            Ok(_) => write_error(outcome) is None,
            Err(message) => write_error(outcome) == Some(message@),
        },
{
    match outcome {
        WriteOutcome::Written => Ok(()),
        WriteOutcome::WriteFailed(error) => Err("写入失败: ".to_owned().concat(error.as_str())),
        WriteOutcome::FlushFailed(error) => Err("flush 失败: ".to_owned().concat(error.as_str())),
    }
}

/// Sets out to start the engine. `installed` tells whether the client's own
/// engine is in place, `engine_bin` is the path of it as text.
pub fn codex_start<C, W, A>(
    state: &CodexState<C, W, A>,
    cfg: &AppConfig,
    installed: bool,
    engine_bin: &str,
) -> (step: StartStep)
    ensures
        match step {
            StartStep::Answer(answer) => {
                &&& state.child is Some
                &&& answer@ == one_field("alreadyRunning"@, JsonView::Bool(true))
            },
            StartStep::Launch(launch) => {
                &&& state.child is None
                &&& launch@ == engine_launch(cfg@, installed, engine_bin@)
            },
        },
{
    if state.child.is_some() {
        return StartStep::Answer(object_of_one("alreadyRunning", Json::Bool(true)));
    }
    let program = if installed {
        engine_bin.to_owned()
    } else {
        cfg.codex_path.clone()
    };
    let launch = Launch {
        program,
        args: vec!["app-server".to_owned(), "--stdio".to_owned()],
        env: vec![
            (API_KEY_VARIABLE.to_owned(), cfg.api_key.clone()),
            ("RUST_LOG".to_owned(), "error".to_owned()),
        ],
    };
    assert(launch@.args == seq!["app-server"@, "--stdio"@]);
    assert(launch@.env == seq![(API_KEY_VARIABLE@, cfg@.api_key), ("RUST_LOG"@, "error"@)]);
    StartStep::Launch(launch)
}

/// The state that a start leaves: the process, its input, the window that
/// started it, and the handle that its events go to.
pub open spec fn started_state<C, W, A>(
    state: CodexState<C, W, A>,
    child: C,
    stdin: W,
    app: A,
    sink: A,
) -> CodexState<C, W, A> {
    CodexState {
        child: Some(child),
        writer: Some(stdin),
        app: Some(app),
        sink: Some(sink),
        ..state
    }
}

/// Takes over the process that was launched, and hands back the end of its
/// output for the reader of events. From here on events go to the window that
/// started the process. Where a part is missing, nothing is taken over.
pub fn codex_spawned<C, W, A, R>(
    state: &mut CodexState<C, W, A>,
    program: &str,
    spawn: Spawn<C, W, R>,
    app: A,
) -> (answer: Result<(Json, R), String>) where A: Clone
    ensures
        match spawn {
            Spawn::Failed(error) => {
                &&& answer matches Err(message)
                &&& message@ == launch_failure(program@, error@)
                &&& *final(state) == *old(state)
            },
            Spawn::Running(_, None, _) => {
                &&& answer matches Err(message)
                &&& message@ == "无法获取 stdin"@
                &&& *final(state) == *old(state)
            },
            Spawn::Running(_, Some(_), None) => {
                &&& answer matches Err(message)
                &&& message@ == "无法获取 stdout"@
                &&& *final(state) == *old(state)
            },
            Spawn::Running(child, Some(stdin), Some(stdout)) => {
                &&& answer matches Ok(started)
                &&& started.0@ == one_field("started"@, JsonView::Bool(true))
                &&& started.1 == stdout
                &&& final(state).sink matches Some(sink)
                &&& cloned(app, sink)
                &&& *final(state) == started_state(*old(state), child, stdin, app, sink)
            },
        },
        old(state).well_formed() ==> final(state).well_formed(),
{
    match spawn {
        Spawn::Failed(error) => Err(
            "启动 codex 失败（路径: ".to_owned().concat(program).concat("）: ").concat(
                error.as_str(),
            ).concat("\n若未安装引擎，客户端会自动下载；也可手动: npm install -g @openai/codex"),
        ),
        Spawn::Running(_, None, _) => Err("无法获取 stdin".to_owned()),
        Spawn::Running(_, Some(_), None) => Err("无法获取 stdout".to_owned()),
        Spawn::Running(child, Some(stdin), Some(stdout)) => {
            state.writer = Some(stdin);
            state.child = Some(child);
            state.sink = Some(app.clone());
            state.app = Some(app);
            Ok((object_of_one("started", Json::Bool(true)), stdout))
        },
    }
}

/// Sets out to send a request. It takes an identifier in any case; there is
/// a line to write only while the engine runs.
pub fn codex_send<C, W, A>(
    state: &mut CodexState<C, W, A>,
    method: String,
    params: Json,
) -> (ready: Result<Outgoing, String>)
    ensures
        match ready {
            Ok(outgoing) => {
                &&& old(state).writer is Some
                &&& outgoing.id == old(state).next_id
                &&& outgoing.line@ == framed(
                    json_text(request_json(method@, old(state).next_id, params@)),
                )
                &&& !json_text(request_json(method@, old(state).next_id, params@)).contains('\n')
                &&& reads_back(params@, (DEPTH_LIMIT - 1) as nat) ==> text_json(
                    json_text(request_json(method@, outgoing.id, params@)),
                ) == Some(request_json(method@, outgoing.id, params@))
            },
            Err(message) => {
                &&& old(state).writer is None
                &&& message@ == "codex 未启动，请先调用 codex_start"@
            },
        },
        *final(state) == (CodexState { next_id: id_after(old(state).next_id), ..*old(state) }),
        old(state).well_formed() ==> final(state).well_formed(),
{
    let id: u64 = state.next_id;
    state.next_id = id.wrapping_add(1);
    if state.writer.is_none() {
        return Err("codex 未启动，请先调用 codex_start".to_owned());
    }
    proof {
        if reads_back(params@, (DEPTH_LIMIT - 1) as nat) {
            lemma_request_reads_back(method@, id, params@, (DEPTH_LIMIT - 1) as nat);
        }
    }
    let line = frame(write_text(request(method, id, params)));
    Ok(Outgoing { id, line })
}

/// Answers a request once its line was written, or could not be. Once it was,
/// events go to the window that last started the engine.
pub fn codex_sent<C, W, A>(
    state: &mut CodexState<C, W, A>,
    id: u64,
    outcome: WriteOutcome,
) -> (answer: Result<Json, String>) where A: Clone
    ensures
        match write_error(outcome) {
            Some(error) => {
                &&& answer matches Err(message)
                &&& message@ == error
                &&& *final(state) == *old(state)
            },
            None => {
                &&& answer matches Ok(json)
                &&& json@ == one_field("id"@, JsonView::Integer(id as int))
                &&& *final(state) == (CodexState { sink: final(state).sink, ..*old(state) })
                &&& match old(state).app {
                    Some(app) => final(state).sink matches Some(sink) && cloned(app, sink),
                    None => final(state).sink == old(state).sink,
                }
            },
        },
        old(state).well_formed() ==> final(state).well_formed(),
{
    match written(outcome) {
        Err(message) => Err(message),
        Ok(_) => {
            if let Some(app) = &state.app {
                state.sink = Some(app.clone());
            }
            Ok(object_of_one("id", Json::Number(number_from(id))))
        },
    }
}

/// The message that a notification makes: a request without an identifier.
pub open spec fn notification_json(method: Seq<char>, params: JsonView) -> JsonView {
    JsonView::Object(
        Map::empty().insert("method"@, JsonView::Text(method)).insert("params"@, params),
    )
}

/// A notification carries its method and its parameters, and no identifier.
pub proof fn lemma_notification_has_no_id(method: Seq<char>, params: JsonView)
    ensures
        field_of(notification_json(method, params), "method"@) == Some(JsonView::Text(method)),
        field_of(notification_json(method, params), "params"@) == Some(params),
        field_of(notification_json(method, params), "id"@) is None,
{
    reveal_strlit("id");
    reveal_strlit("method");
    reveal_strlit("params");
    assert("id"@.len() != "method"@.len());
    assert("id"@.len() != "params"@.len());
    assert("method"@[0] != "params"@[0]);
}

/// Messages carry no `jsonrpc` header.
pub proof fn lemma_no_header(method: Seq<char>, id: u64, params: JsonView)
    ensures
        field_of(request_json(method, id, params), "jsonrpc"@) is None,
        field_of(notification_json(method, params), "jsonrpc"@) is None,
{
    reveal_strlit("jsonrpc");
    reveal_strlit("method");
    reveal_strlit("id");
    reveal_strlit("params");
    assert("jsonrpc"@.len() != "method"@.len());
    assert("jsonrpc"@.len() != "id"@.len());
    assert("jsonrpc"@.len() != "params"@.len());
}

/// A notification is read back as it was written, if its parameters are sure to
/// be.
pub proof fn lemma_notification_reads_back(method: Seq<char>, params: JsonView, depth: nat)
    requires
        reads_back(params, depth),
    ensures
        reads_back(notification_json(method, params), depth + 1),
{
    let fields = notification_json(method, params)->Object_0;
    assert(fields.dom() == Set::empty().insert("method"@).insert("params"@));
    assert(fields.dom().finite());
    assert forall|name: Seq<char>| fields.contains_key(name) implies reads_back(
        #[trigger] fields[name],
        depth,
    ) by {
        if name != "params"@ {
            assert(fields[name] == JsonView::Text(method));
        }
    }
}

/// Makes [`notification_json`].
pub fn notification(method: String, params: Json) -> (message: Json)
    ensures
        message@ == notification_json(method@, params@),
{
    let method_field = ("method".to_owned(), Json::Text(method));
    let params_field = ("params".to_owned(), params);
    let mut fields: Vec<(String, Json)> = Vec::new();
    proof {
        let none = fields@;
        lemma_fields_view_push(none, method_field);
        lemma_fields_view_push(none.push(method_field), params_field);
    }
    fields.push(method_field);
    fields.push(params_field);
    Json::Object(fields)
}

/// Sets out to send a notification, which takes no identifier and is not
/// answered by the engine. There is a line to write only while the engine runs.
pub fn codex_notify<C, W, A>(
    state: &CodexState<C, W, A>,
    method: String,
    params: Json,
) -> (ready: Result<String, String>)
    ensures
        match ready {
            Ok(line) => {
                &&& state.writer is Some
                &&& line@ == framed(json_text(notification_json(method@, params@)))
                &&& !json_text(notification_json(method@, params@)).contains('\n')
                &&& reads_back(params@, (DEPTH_LIMIT - 1) as nat) ==> text_json(
                    json_text(notification_json(method@, params@)),
                ) == Some(notification_json(method@, params@))
            },
            Err(message) => {
                &&& state.writer is None
                &&& message@ == "codex 未启动，请先调用 codex_start"@
            },
        },
{
    if state.writer.is_none() {
        return Err("codex 未启动，请先调用 codex_start".to_owned());
    }
    proof {
        if reads_back(params@, (DEPTH_LIMIT - 1) as nat) {
            lemma_notification_reads_back(method@, params@, (DEPTH_LIMIT - 1) as nat);
        }
    }
    Ok(frame(write_text(notification(method, params))))
}

/// Sets out to send a message as it is, such as the answer to a request of
/// the engine. There is a line to write only while the engine runs.
pub fn codex_send_raw<C, W, A>(state: &CodexState<C, W, A>, message: Json) -> (ready: Result<
    String,
    String,
>)
    ensures
        match ready {
            Ok(line) => {
                &&& state.writer is Some
                &&& line@ == framed(json_text(message@))
                &&& !json_text(message@).contains('\n')
                &&& reads_back(message@, DEPTH_LIMIT as nat) ==> text_json(json_text(message@))
                    == Some(message@)
            },
            Err(refusal) => {
                &&& state.writer is None
                &&& refusal@ == "codex 未启动"@
            },
        },
{
    if state.writer.is_none() {
        return Err("codex 未启动".to_owned());
    }
    Ok(frame(write_text(message)))
}

/// The state that stopping leaves.
pub open spec fn stopped<C, W, A>(state: CodexState<C, W, A>) -> CodexState<C, W, A> {
    CodexState { child: None, writer: None, sink: None, ..state }
}

/// Stops the engine as far as the bridge goes, and hands back the process
/// that is to be ended, if one runs. Identifiers go on from where they are.
pub fn codex_stop<C, W, A>(state: &mut CodexState<C, W, A>) -> (child: Option<C>)
    ensures
        child == old(state).child,
        *final(state) == stopped(*old(state)),
        old(state).well_formed() ==> final(state).well_formed(),
{
    let child = state.child.take();
    state.writer = None;
    state.sink = None;
    child
}

/// The event to show for what was read in a line of the engine's output: what
/// was read, as long as there is a window to show it.
pub open spec fn shown<C, W, A>(state: CodexState<C, W, A>, read: Option<JsonView>) -> Option<
    JsonView,
> {
    if state.sink is Some {
        read
    } else {
        None
    }
}

/// The event to show for what was read in a line of the engine's output.
pub fn event_to_show<C, W, A>(state: &CodexState<C, W, A>, read: Option<Json>) -> (event: Option<
    Json,
>)
    ensures
        event == if state.sink is Some {
            read
        } else {
            None
        },
{
    if state.sink.is_some() {
        read
    } else {
        None
    }
}

/// The event to show for a line of the engine's output. A line that is not
/// JSON is passed over.
pub fn codex_event<C, W, A>(state: &CodexState<C, W, A>, line: &str) -> (event: Option<Json>)
    ensures
        match event {
            Some(json) => shown(*state, text_json(line@)) == Some(json@),
            None => shown(*state, text_json(line@)) is None,
        },
{
    event_to_show(state, parse_text(line))
}

/// The identifier that comes `count` requests after this one.
pub open spec fn later_id(id: u64, count: nat) -> u64
    decreases count,
{
    if count == 0 {
        id
    } else {
        id_after(later_id(id, (count - 1) as nat))
    }
}

/// Identifiers count up by one, and begin again at zero after the last.
pub proof fn lemma_later_id(id: u64, count: nat)
    ensures
        later_id(id, count) == (id + count) % 0x1_0000_0000_0000_0000,
    decreases count,
{
    if count > 0 {
        lemma_later_id(id, (count - 1) as nat);
    }
}

/// No identifier is used twice before all of them were used.
pub proof fn lemma_ids_differ(id: u64, earlier: nat, later: nat)
    requires
        earlier < later,
        later - earlier < 0x1_0000_0000_0000_0000,
    ensures
        later_id(id, earlier) != later_id(id, later),
{
    lemma_later_id(id, earlier);
    lemma_later_id(id, later);
}

/// While the engine runs, every line of its output that is JSON is shown, and
/// shown as it was read: from the start on, whether or not a request was sent.
pub proof fn lemma_running_engine_is_heard<C, W, A>(state: CodexState<C, W, A>, line: Seq<char>)
    requires
        state.well_formed(),
        state.child is Some,
    ensures
        shown(state, text_json(line)) == text_json(line),
{
}

/// A start leaves a state in which every line that is JSON is shown.
pub proof fn lemma_start_is_heard<C, W, A>(
    state: CodexState<C, W, A>,
    child: C,
    stdin: W,
    app: A,
    sink: A,
    line: Seq<char>,
)
    ensures
        started_state(state, child, stdin, app, sink).well_formed(),
        shown(started_state(state, child, stdin, app, sink), text_json(line)) == text_json(line),
{
}

/// Stopping leaves no process, so the engine can be started again; no input, so
/// every message is refused; and no sink, so no event is shown. Stopping again
/// changes nothing, and the identifiers go on from where they were.
pub proof fn lemma_stopped<C, W, A>(state: CodexState<C, W, A>)
    ensures
        stopped(state).well_formed(),
        stopped(state).child is None,
        stopped(state).writer is None,
        stopped(state).sink is None,
        stopped(stopped(state)) == stopped(state),
        stopped(state).next_id == state.next_id,
{
}

/// The variable that the engine's settings name for the API key is the one that
/// the launch sets, and the launch sets it to the key of the same settings.
pub proof fn lemma_key_reaches_engine(cfg: ConfigView, installed: bool, engine_bin: Seq<char>)
    ensures
        engine_toml(cfg) == toml_head(cfg.base_url) + ("env_key = \""@ + API_KEY_VARIABLE@
            + "\"\n"@) + toml_tail(cfg.model),
        engine_launch(cfg, installed, engine_bin).env.contains((API_KEY_VARIABLE@, cfg.api_key)),
{
    let env = engine_launch(cfg, installed, engine_bin).env;
    assert(env[0] == (API_KEY_VARIABLE@, cfg.api_key));
}

/// An engine that the client installed goes before the one that the settings
/// name.
pub proof fn lemma_installed_engine_first(cfg: ConfigView, engine_bin: Seq<char>)
    ensures
        engine_launch(cfg, true, engine_bin).program == engine_bin,
        engine_launch(cfg, false, engine_bin).program == cfg.codex_path,
{
}

} // verus!
