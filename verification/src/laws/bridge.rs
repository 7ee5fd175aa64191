//! Laws of the engine's process and its messages.

use vstd::prelude::*;

use super::json::is_object;
use crate::bridge::{
    codex_event, codex_notify, codex_send, codex_send_raw, codex_sent, codex_spawned, codex_start,
    codex_stop, event_to_show, notification, notification_json, request, request_json, written,
    CodexState, Outgoing, Spawn, StartStep, WriteOutcome,
};
use crate::config::AppConfig;
use crate::json::{json_text, reads_back, text_json, Json, JsonView};

verus! {

/// The first state has no process, no input and no window, and counts from one.
pub proof fn law_default<C, W, A>(state: CodexState<C, W, A>)
    requires
        call_ensures(CodexState::<C, W, A>::default, (), state),
    ensures
        state.child is None,
        state.writer is None,
        state.app is None,
        state.sink is None,
        state.next_id == 1,
{
}

/// Starting launches the engine exactly while none runs. The program is the one
/// that the client installed, if it is there, else the one that the settings name;
/// the arguments are `app-server` and `--stdio`; the environment gets the API key
/// of the settings, whole, and the level of the log. All that holds whatever the
/// settings are.
pub proof fn law_codex_start<C, W, A>(
    state: CodexState<C, W, A>,
    cfg: AppConfig,
    installed: bool,
    engine_bin: &str,
    step: StartStep,
)
    requires
        call_ensures(codex_start::<C, W, A>, (&state, &cfg, installed, engine_bin), step),
    ensures
        match step {
            StartStep::Answer(answer) => {
                &&& state.child is Some
                &&& is_object(answer@, map!["alreadyRunning"@ => JsonView::Bool(true)])
            },
            StartStep::Launch(launch) => {
                &&& state.child is None
                &&& installed ==> launch.program@ == engine_bin@
                &&& !installed ==> launch.program@ == cfg.codex_path@
                &&& launch.args@.len() == 2
                &&& launch.args@[0]@ == "app-server"@
                &&& launch.args@[1]@ == "--stdio"@
                &&& launch.env@.len() == 2
                &&& launch.env@[0].0@ == "DMXAPI_KEY"@
                &&& launch.env@[0].1@ == cfg.api_key@
                &&& launch.env@[1].0@ == "RUST_LOG"@
                &&& launch.env@[1].1@ == "error"@
            },
        },
{
    match step {
        StartStep::Answer(answer) => {
            assert(answer@->Object_0 == map!["alreadyRunning"@ => JsonView::Bool(true)]);
        },
        StartStep::Launch(launch) => {
            let seen = launch@;
            assert(seen.args.len() == 2 && seen.env.len() == 2);
            assert(seen.args[0] == launch.args@[0]@);
            assert(seen.args[1] == launch.args@[1]@);
            assert(seen.env[0] == (launch.env@[0].0@, launch.env@[0].1@));
            assert(seen.env[1] == (launch.env@[1].0@, launch.env@[1].1@));
        },
    }
}

/// A process is taken over with both ends of it or not at all. Taken over, it is
/// in the state with its input and the window, events go to that window from then
/// on, and the identifiers go on from where they were; the end of its output is
/// handed back. Not taken over, nothing changes, and the error says what is
/// missing.
pub proof fn law_codex_spawned<C, W, A: Clone, R>(
    state: &mut CodexState<C, W, A>,
    program: &str,
    spawn: Spawn<C, W, R>,
    app: A,
    answer: Result<(Json, R), String>,
)
    requires
        call_ensures(codex_spawned::<C, W, A, R>, (state, program, spawn, app), answer),
    ensures
        answer is Ok <==> (spawn matches Spawn::Running(_, stdin, stdout) && stdin is Some
            && stdout is Some),
        spawn matches Spawn::Running(child, Some(stdin), Some(stdout)) ==> {
            &&& is_object(answer->Ok_0.0@, map!["started"@ => JsonView::Bool(true)])
            &&& answer->Ok_0.1 == stdout
            &&& final(state).child == Some(child)
            &&& final(state).writer == Some(stdin)
            &&& final(state).app == Some(app)
            &&& final(state).sink matches Some(sink)
            &&& cloned(app, sink)
            &&& final(state).next_id == old(state).next_id
        },
        answer is Err ==> *final(state) == *old(state),
        spawn matches Spawn::Failed(error) ==> answer->Err_0@ == "启动 codex 失败（路径: "@ + program@
            + "）: "@ + error@
            + "\n若未安装引擎，客户端会自动下载；也可手动: npm install -g @openai/codex"@,
        spawn matches Spawn::Running(_, None, _) ==> answer->Err_0@ == "无法获取 stdin"@,
        spawn matches Spawn::Running(_, Some(_), None) ==> answer->Err_0@ == "无法获取 stdout"@,
{
    if let Ok(started) = answer {
        assert(started.0@->Object_0 == map!["started"@ => JsonView::Bool(true)]);
    }
}

/// Whether a value is the message of a request: an object of the method, the
/// identifier and the parameters, each as given, and nothing else.
pub open spec fn is_request(
    message: JsonView,
    method: Seq<char>,
    id: u64,
    params: JsonView,
) -> bool {
    &&& message matches JsonView::Object(fields)
    &&& fields.dom() == set!["method"@, "id"@, "params"@]
    &&& fields["method"@] == JsonView::Text(method)
    &&& fields["id"@] == JsonView::Integer(id as int)
    &&& fields["params"@] == params
}

/// Whether a value is the message of a notification: an object of the method and
/// the parameters, each as given, and nothing else.
pub open spec fn is_notification(message: JsonView, method: Seq<char>, params: JsonView) -> bool {
    &&& message matches JsonView::Object(fields)
    &&& fields.dom() == set!["method"@, "params"@]
    &&& fields["method"@] == JsonView::Text(method)
    &&& fields["params"@] == params
}

proof fn lemma_names_differ()
    ensures
        "method"@ != "id"@,
        "method"@ != "params"@,
        "id"@ != "params"@,
{
    reveal_strlit("method");
    reveal_strlit("id");
    reveal_strlit("params");
    assert("id"@.len() != "method"@.len());
    assert("id"@.len() != "params"@.len());
    assert("method"@[0] != "params"@[0]);
}

proof fn lemma_request(method: Seq<char>, id: u64, params: JsonView)
    ensures
        is_request(request_json(method, id, params), method, id, params),
{
    lemma_names_differ();
    let fields = request_json(method, id, params)->Object_0;
    assert(fields.dom() == set!["method"@, "id"@, "params"@]);
}

proof fn lemma_notification(method: Seq<char>, params: JsonView)
    ensures
        is_notification(notification_json(method, params), method, params),
{
    lemma_names_differ();
    let fields = notification_json(method, params)->Object_0;
    assert(fields.dom() == set!["method"@, "params"@]);
}

/// A request holds its method, its identifier and its parameters, whatever they
/// are, and nothing else.
pub proof fn law_request(method: String, id: u64, params: Json, message: Json)
    requires
        call_ensures(request, (method, id, params), message),
    ensures
        is_request(message@, method@, id, params@),
{
    lemma_request(method@, id, params@);
}

/// A notification holds its method and its parameters, whatever they are, and
/// nothing else.
pub proof fn law_notification(method: String, params: Json, message: Json)
    requires
        call_ensures(notification, (method, params), message),
    ensures
        is_notification(message@, method@, params@),
{
    lemma_notification(method@, params@);
}

/// Whether a text is one line: a message as JSON, without a line feed in it, and a
/// line feed behind it.
pub open spec fn is_line_of(line: Seq<char>, message: JsonView) -> bool {
    &&& line == json_text(message) + seq!['\n']
    &&& forall|i: int| 0 <= i < line.len() - 1 ==> #[trigger] line[i] != '\n'
}

proof fn lemma_line(line: Seq<char>, message: JsonView)
    requires
        line == json_text(message).push('\n'),
        !json_text(message).contains('\n'),
    ensures
        is_line_of(line, message),
{
    let text = json_text(message);
    assert(line == text + seq!['\n']);
    assert forall|i: int| 0 <= i < line.len() - 1 implies #[trigger] line[i] != '\n' by {
        assert(line[i] == text[i]);
        assert(text.contains(text[i]));
    }
}

/// A request can be sent exactly while the engine has an input. It takes the next
/// identifier, sent or not, and changes nothing else. Its line is the message of
/// the method, that identifier and the parameters, from which the message is read
/// back.
pub proof fn law_codex_send<C, W, A>(
    state: &mut CodexState<C, W, A>,
    method: String,
    params: Json,
    ready: Result<Outgoing, String>,
)
    requires
        call_ensures(codex_send::<C, W, A>, (state, method, params), ready),
    ensures
        ready is Ok <==> old(state).writer is Some,
        ready matches Err(message) ==> message@ == "codex 未启动，请先调用 codex_start"@,
        ready matches Ok(outgoing) ==> {
            &&& outgoing.id == old(state).next_id
            &&& exists|message: JsonView| #[trigger]
                is_line_of(outgoing.line@, message) && is_request(
                    message,
                    method@,
                    outgoing.id,
                    params@,
                ) && (reads_back(params@, 126) ==> text_json(json_text(message)) == Some(message))
        },
        final(state).next_id == (old(state).next_id + 1) % 0x1_0000_0000_0000_0000,
        final(state).child == old(state).child,
        final(state).writer == old(state).writer,
        final(state).app == old(state).app,
        final(state).sink == old(state).sink,
{
    if let Ok(outgoing) = ready {
        let message = request_json(method@, outgoing.id, params@);
        lemma_request(method@, outgoing.id, params@);
        lemma_line(outgoing.line@, message);
        assert(is_line_of(outgoing.line@, message));
    }
}

/// Two requests one after the other have different identifiers, and so different
/// messages, whatever they ask.
pub proof fn law_requests_differ<C, W, A>(
    state: &mut CodexState<C, W, A>,
    method: String,
    params: Json,
    first: Result<Outgoing, String>,
    later: &mut CodexState<C, W, A>,
    later_method: String,
    later_params: Json,
    second: Result<Outgoing, String>,
)
    requires
        call_ensures(codex_send::<C, W, A>, (state, method, params), first),
        old(later).next_id == final(state).next_id,
        call_ensures(codex_send::<C, W, A>, (later, later_method, later_params), second),
    ensures
        first is Ok && second is Ok ==> first->Ok_0.id != second->Ok_0.id,
{
}

/// A request that was written is answered with its identifier, and events go to
/// the window that started the engine. One that was not is answered with the
/// error, whole, and changes nothing.
pub proof fn law_codex_sent<C, W, A: Clone>(
    state: &mut CodexState<C, W, A>,
    id: u64,
    outcome: WriteOutcome,
    answer: Result<Json, String>,
)
    requires
        call_ensures(codex_sent::<C, W, A>, (state, id, outcome), answer),
    ensures
        answer is Ok <==> outcome is Written,
        answer matches Ok(json) ==> is_object(json@, map!["id"@ => JsonView::Integer(id as int)]),
        answer is Ok && old(state).app is Some ==> (final(state).sink matches Some(sink) && cloned(
            old(state).app->0,
            sink,
        )),
        answer is Err || old(state).app is None ==> final(state).sink == old(state).sink,
        outcome matches WriteOutcome::WriteFailed(error) ==> answer->Err_0@ == "写入失败: "@ + error@,
        outcome matches WriteOutcome::FlushFailed(error) ==> answer->Err_0@ == "flush 失败: "@
            + error@,
        final(state).child == old(state).child,
        final(state).writer == old(state).writer,
        final(state).app == old(state).app,
        final(state).next_id == old(state).next_id,
{
    if let Ok(json) = answer {
        assert(json@->Object_0 == map!["id"@ => JsonView::Integer(id as int)]);
    }
}

/// Writing answers with nothing if it worked, else with the error, whole.
pub proof fn law_written(outcome: WriteOutcome, answer: Result<(), String>)
    requires
        call_ensures(written, (outcome,), answer),
    ensures
        answer is Ok <==> outcome is Written,
        outcome matches WriteOutcome::WriteFailed(error) ==> answer->Err_0@ == "写入失败: "@ + error@,
        outcome matches WriteOutcome::FlushFailed(error) ==> answer->Err_0@ == "flush 失败: "@
            + error@,
{
}

/// A notification can be sent exactly while the engine has an input. Its line is
/// the message of the method and the parameters, from which the message is read
/// back.
pub proof fn law_codex_notify<C, W, A>(
    state: CodexState<C, W, A>,
    method: String,
    params: Json,
    ready: Result<String, String>,
)
    requires
        call_ensures(codex_notify::<C, W, A>, (&state, method, params), ready),
    ensures
        ready is Ok <==> state.writer is Some,
        ready matches Err(message) ==> message@ == "codex 未启动，请先调用 codex_start"@,
        ready matches Ok(line) ==> exists|message: JsonView| #[trigger]
            is_line_of(line@, message) && is_notification(message, method@, params@) && (reads_back(
                params@,
                126,
            ) ==> text_json(json_text(message)) == Some(message)),
{
    if let Ok(line) = ready {
        let message = notification_json(method@, params@);
        lemma_notification(method@, params@);
        lemma_line(line@, message);
        assert(is_line_of(line@, message));
    }
}

/// Any message can be sent exactly while the engine has an input. Its line is the
/// message as it was given, from which it is read back.
pub proof fn law_codex_send_raw<C, W, A>(
    state: CodexState<C, W, A>,
    message: Json,
    ready: Result<String, String>,
)
    requires
        call_ensures(codex_send_raw::<C, W, A>, (&state, message), ready),
    ensures
        ready is Ok <==> state.writer is Some,
        ready matches Err(refusal) ==> refusal@ == "codex 未启动"@,
        ready matches Ok(line) ==> is_line_of(line@, message@),
        ready is Ok && reads_back(message@, 127) ==> text_json(json_text(message@)) == Some(
            message@,
        ),
{
    if let Ok(line) = ready {
        lemma_line(line@, message@);
    }
}

/// Stopping hands back the process that ran, if one did, and leaves no process, no
/// input and no window for events; the window that started it and the identifiers
/// stay.
pub proof fn law_codex_stop<C, W, A>(state: &mut CodexState<C, W, A>, child: Option<C>)
    requires
        call_ensures(codex_stop::<C, W, A>, (state,), child),
    ensures
        child == old(state).child,
        final(state).child is None,
        final(state).writer is None,
        final(state).sink is None,
        final(state).app == old(state).app,
        final(state).next_id == old(state).next_id,
{
}

/// Every line of the engine that is JSON is an event to show, as it was read, as
/// long as there is a window to show it; no other line is.
pub proof fn law_codex_event<C, W, A>(
    state: CodexState<C, W, A>,
    line: &str,
    event: Option<Json>,
)
    requires
        call_ensures(codex_event::<C, W, A>, (&state, line), event),
    ensures
        event is Some <==> state.sink is Some && text_json(line@) is Some,
        event matches Some(json) ==> text_json(line@) == Some(json@),
{
}

/// What was read is the event to show, as long as there is a window to show it.
pub proof fn law_event_to_show<C, W, A>(
    state: CodexState<C, W, A>,
    read: Option<Json>,
    event: Option<Json>,
)
    requires
        call_ensures(event_to_show::<C, W, A>, (&state, read), event),
    ensures
        state.sink is Some ==> event == read,
        state.sink is None ==> event is None,
{
}

/// From the start on, what the engine says is heard: after a process was taken
/// over, each line that is JSON is shown.
pub proof fn law_start_then_event<C, W, A: Clone, R>(
    state: &mut CodexState<C, W, A>,
    program: &str,
    spawn: Spawn<C, W, R>,
    app: A,
    answer: Result<(Json, R), String>,
    after: CodexState<C, W, A>,
    line: &str,
    event: Option<Json>,
)
    requires
        call_ensures(codex_spawned::<C, W, A, R>, (state, program, spawn, app), answer),
        answer is Ok,
        after == *final(state),
        call_ensures(codex_event::<C, W, A>, (&after, line), event),
    ensures
        event is Some <==> text_json(line@) is Some,
        event matches Some(json) ==> text_json(line@) == Some(json@),
{
}

/// After a stop the engine takes no message and shows no event, and can be started
/// again.
pub proof fn law_stop_then_anything<C, W, A>(
    state: &mut CodexState<C, W, A>,
    child: Option<C>,
    after: CodexState<C, W, A>,
    message: Json,
    ready: Result<String, String>,
    line: &str,
    event: Option<Json>,
    cfg: AppConfig,
    installed: bool,
    engine_bin: &str,
    step: StartStep,
)
    requires
        call_ensures(codex_stop::<C, W, A>, (state,), child),
        after == *final(state),
        call_ensures(codex_send_raw::<C, W, A>, (&after, message), ready),
        call_ensures(codex_event::<C, W, A>, (&after, line), event),
        call_ensures(codex_start::<C, W, A>, (&after, &cfg, installed, engine_bin), step),
    ensures
        ready is Err,
        event is None,
        step is Launch,
{
}

} // verus!
