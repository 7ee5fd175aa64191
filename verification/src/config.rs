//! The client's own settings, the settings of the engine that follow from them,
//! and the probe of the configured service.

use std::path::PathBuf;
use vstd::prelude::*;

use crate::http::{check_status, is_success, refusal_text, status_line};
use crate::json::{
    bytes_json, field_of, items_view, lemma_items_view, parse_bytes, Json, JsonView,
};
use crate::paths::{home_or_here, home_parts, join_name, path_parts, user_home, PathParts, Platform};
use crate::text::{
    lemma_trimmed_end_ignores_marks, lemma_trimmed_end_is_trimmed, trim_end, trimmed_end,
};

verus! {

/// The environment variable that the engine takes the API key from.
pub const API_KEY_VARIABLE: &'static str = "DMXAPI_KEY";

/// The settings that the user edits.
#[derive(Debug)]
pub struct AppConfig {
    pub base_url: String,
    pub api_key: String,
    pub model: String,
    pub codex_path: String,
    pub work_dir: String,
}

/// The settings as text.
pub struct ConfigView {
    pub base_url: Seq<char>,
    pub api_key: Seq<char>,
    pub model: Seq<char>,
    pub codex_path: Seq<char>,
    pub work_dir: Seq<char>,
}

impl View for AppConfig {
    type V = ConfigView;

    open spec fn view(&self) -> ConfigView {
        ConfigView {
            base_url: self.base_url@,
            api_key: self.api_key@,
            model: self.model@,
            codex_path: self.codex_path@,
            work_dir: self.work_dir@,
        }
    }
}

impl Clone for AppConfig {
    fn clone(&self) -> (copy: Self)
        ensures
            copy@ == self@,
    {
        AppConfig {
            base_url: self.base_url.clone(),
            api_key: self.api_key.clone(),
            model: self.model.clone(),
            codex_path: self.codex_path.clone(),
            work_dir: self.work_dir.clone(),
        }
    }
}

/// Where the engine is looked for as long as the user has not said.
pub open spec fn usual_codex_path(platform: Platform) -> Seq<char> {
    match platform {
        Platform::Windows => "codex"@,
        _ => "/usr/local/bin/codex"@,
    }
}

/// The settings of a user who has none yet.
pub open spec fn fresh_config(platform: Platform) -> ConfigView {
    ConfigView {
        base_url: Seq::empty(),
        api_key: Seq::empty(),
        model: "deepseek-v4-flash-guan"@,
        codex_path: usual_codex_path(platform),
        work_dir: Seq::empty(),
    }
}

/// The usual place of the engine. On Windows a global npm install puts it on
/// the search path, so its bare name is enough there.
pub fn default_codex_path(platform: Platform) -> (path: String)
    ensures
        path@ == usual_codex_path(platform),
{
    match platform {
        Platform::Windows => "codex".to_owned(),
        _ => "/usr/local/bin/codex".to_owned(),
    }
}

impl AppConfig {
    /// The settings to begin with.
    pub fn default(platform: Platform) -> (cfg: AppConfig)
        ensures
            cfg@ == fresh_config(platform),
    {
        AppConfig {
            base_url: String::new(),
            api_key: String::new(),
            model: "deepseek-v4-flash-guan".to_owned(),
            codex_path: default_codex_path(platform),
            work_dir: String::new(),
        }
    }
}

/// The path of the client's settings directory, under the root.
pub open spec fn config_dir_parts(root: PathParts) -> PathParts {
    root.push(".gas-codex"@)
}

/// The path of the client's settings file.
pub open spec fn config_file_parts(root: PathParts) -> PathParts {
    config_dir_parts(root).push("config.json"@)
}

/// The directory of the client's settings, under a given root.
pub fn config_dir_in(root: &PathBuf) -> (dir: PathBuf)
    ensures
        path_parts(dir) == config_dir_parts(path_parts(*root)),
{
    proof {
        reveal_strlit(".gas-codex");
    }
    join_name(root, ".gas-codex")
}

/// The file of the client's settings, under a given root.
pub fn config_file_in(root: &PathBuf) -> (file: PathBuf)
    ensures
        path_parts(file) == config_file_parts(path_parts(*root)),
{
    proof {
        reveal_strlit("config.json");
    }
    join_name(&config_dir_in(root), "config.json")
}

/// The directory of the client's settings.
pub fn config_dir() -> (dir: PathBuf)
    ensures
        exists|home: Option<PathBuf>|
            path_parts(dir) == config_dir_parts(#[trigger] home_parts(home)),
{
    config_dir_in(&home_or_here(user_home()))
}

/// The file of the client's settings.
pub fn config_file() -> (file: PathBuf)
    ensures
        exists|home: Option<PathBuf>|
            path_parts(file) == config_file_parts(#[trigger] home_parts(home)),
{
    config_file_in(&home_or_here(user_home()))
}

/// What came of reading the settings file.
pub enum StoredConfig {
    /// The file could not be read.
    Unreadable,
    /// Its text is not a set of settings.
    Malformed,
    /// The settings that its text holds.
    Parsed(AppConfig),
}

/// The settings that were found in the file, if any were.
pub open spec fn found_settings(stored: StoredConfig) -> Option<ConfigView> {
    match stored {
        StoredConfig::Parsed(cfg) => Some(cfg@),
        _ => None,
    }
}

/// The settings in force: those that were found, else fresh ones.
pub open spec fn settings_in_force(found: Option<ConfigView>, platform: Platform) -> ConfigView {
    match found {
        Some(cfg) => cfg,
        None => fresh_config(platform),
    }
}

/// The settings in force: those of the file, or fresh ones where it holds none.
/// It never fails.
pub fn load_config(stored: StoredConfig, platform: Platform) -> (loaded: Result<AppConfig, String>)
    ensures
        loaded matches Ok(cfg) && cfg@ == settings_in_force(found_settings(stored), platform),
{
    match stored {
        StoredConfig::Parsed(cfg) => Ok(cfg),
        StoredConfig::Malformed => Ok(AppConfig::default(platform)),
        StoredConfig::Unreadable => Ok(AppConfig::default(platform)),
    }
}

/// The base address without the slashes at its end.
pub open spec fn service_root(base_url: Seq<char>) -> Seq<char> {
    trimmed_end(base_url, '/')
}

/// The engine's settings, as far as the line that names the variable of the API
/// key.
pub open spec fn toml_head(base_url: Seq<char>) -> Seq<char> {
    "# Gas Codex 客户端生成 —— 自定义模型接入\n[model_providers.dmxapi]\nname = \"DMX API\"\nbase_url = \""@
        + service_root(base_url) + "\"\nwire_api = \"responses\"\n"@
}

/// The line that names the variable of the API key.
pub open spec fn toml_key_line() -> Seq<char> {
    "env_key = \""@ + API_KEY_VARIABLE@ + "\"\n"@
}

/// The engine's settings behind that line.
pub open spec fn toml_tail(model: Seq<char>) -> Seq<char> {
    "requires_openai_auth = false\nrequest_max_retries = 6\nstream_max_retries = 10\nstream_idle_timeout_ms = 180000\n\nmodel_provider = \"dmxapi\"\nmodel = \""@
        + model + "\"\n"@
}

/// The text of the engine's `config.toml`.
pub open spec fn engine_toml(cfg: ConfigView) -> Seq<char> {
    toml_head(cfg.base_url) + toml_key_line() + toml_tail(cfg.model)
}

/// Writes the engine's `config.toml`.
pub fn codex_toml(cfg: &AppConfig) -> (toml: String)
    ensures
        toml@ == engine_toml(cfg@),
{
    let root = trim_end(cfg.base_url.as_str(), '/');
    let head =
        "# Gas Codex 客户端生成 —— 自定义模型接入\n[model_providers.dmxapi]\nname = \"DMX API\"\nbase_url = \"".to_owned().concat(
    root.as_str()).concat("\"\nwire_api = \"responses\"\n");
    let key_line = "env_key = \"".to_owned().concat(API_KEY_VARIABLE).concat("\"\n");
    let tail =
        "requires_openai_auth = false\nrequest_max_retries = 6\nstream_max_retries = 10\nstream_idle_timeout_ms = 180000\n\nmodel_provider = \"dmxapi\"\nmodel = \"".to_owned().concat(
    cfg.model.as_str()).concat("\"\n");
    head.concat(key_line.as_str()).concat(tail.as_str())
}

/// A change to the file system.
pub enum FileAction {
    /// Make the directory, with those above it, unless it is there.
    CreateDir(PathBuf),
    /// Put the text in the file, in place of what it held.
    Write(PathBuf, String),
}

/// A change to the file system, with paths by what they say.
pub enum FileActionView {
    CreateDir(PathParts),
    Write(PathParts, Seq<char>),
}

impl View for FileAction {
    type V = FileActionView;

    open spec fn view(&self) -> FileActionView {
        match self {
            FileAction::CreateDir(dir) => FileActionView::CreateDir(path_parts(*dir)),
            FileAction::Write(file, text) => FileActionView::Write(path_parts(*file), text@),
        }
    }
}

/// The path of the engine's settings directory: the one that the user
/// named, else `.codex` under the root.
pub open spec fn codex_home_parts(
    named: Option<PathBuf>,
    root: PathParts,
) -> PathParts {
    match named {
        Some(dir) => path_parts(dir),
        None => root.push(".codex"@),
    }
}

/// The directory of the engine's settings.
pub fn codex_home(named: Option<PathBuf>, root: &PathBuf) -> (dir: PathBuf)
    ensures
        path_parts(dir) == codex_home_parts(named, path_parts(*root)),
        named matches Some(given) ==> dir == given,
{
    match named {
        Some(dir) => dir,
        None => {
            proof {
                reveal_strlit(".codex");
            }
            join_name(root, ".codex")
        },
    }
}

/// What saving the settings does: first the client's own file, with the text
/// given, then the engine's.
pub open spec fn save_actions(
    cfg: ConfigView,
    stored: Seq<char>,
    named: Option<PathBuf>,
    root: PathParts,
) -> Seq<FileActionView> {
    seq![
        FileActionView::CreateDir(config_dir_parts(root)),
        FileActionView::Write(config_file_parts(root), stored),
        FileActionView::CreateDir(codex_home_parts(named, root)),
        FileActionView::Write(codex_home_parts(named, root).push("config.toml"@), engine_toml(cfg)),
    ]
}

/// A row of changes to the file system, each by its view.
pub open spec fn actions_view(actions: Seq<FileAction>) -> Seq<FileActionView> {
    actions.map_values(|action: FileAction| action@)
}

/// The changes that save the settings under a given root, in order. The first
/// that fails ends the saving.
pub fn save_config_in(
    cfg: &AppConfig,
    stored: String,
    named: Option<PathBuf>,
    root: &PathBuf,
) -> (actions: Vec<FileAction>)
    ensures
        actions_view(actions@) == save_actions(cfg@, stored@, named, path_parts(*root)),
{
    proof {
        reveal_strlit("config.toml");
    }
    let engine_dir = codex_home(named, root);
    let engine_file = join_name(&engine_dir, "config.toml");
    vec![
        FileAction::CreateDir(config_dir_in(root)),
        FileAction::Write(config_file_in(root), stored),
        FileAction::CreateDir(engine_dir),
        FileAction::Write(engine_file, codex_toml(cfg)),
    ]
}

/// The changes that save the settings. `stored` is the text of the client's own
/// file, `named` the engine's settings directory where the user named one.
pub fn save_config(cfg: &AppConfig, stored: String, named: Option<PathBuf>) -> (actions: Vec<
    FileAction,
>)
    ensures
        exists|home: Option<PathBuf>|
            actions_view(actions@) == save_actions(
                cfg@,
                stored@,
                named,
                #[trigger] home_parts(home),
            ),
{
    save_config_in(cfg, stored, named, &home_or_here(user_home()))
}

/// What the probe of the service has come to.
pub enum ProbeEvent {
    /// Nothing was sent yet.
    Begin,
    /// Sending the request failed, with the error as text.
    SendFailed(String),
    /// A response with this status code.
    Status(u16),
    /// Reading the body failed, with the error as text.
    BodyFailed(String),
    /// The whole body.
    Body(Vec<u8>),
}

/// What the probe of the service does next.
pub enum ProbeAction {
    /// Send a GET request for the address, with the token as bearer where there
    /// is one.
    Get(String, Option<String>),
    /// Read the body of the response.
    ReadBody,
    /// Answer with the names of the models, or with an error.
    Finish(Result<Vec<String>, String>),
}

/// The address of the list of models.
pub open spec fn models_url(cfg: ConfigView) -> Seq<char> {
    service_root(cfg.base_url) + "/models"@
}

/// The texts of a row of strings.
pub open spec fn texts(strings: Seq<String>) -> Seq<Seq<char>> {
    strings.map_values(|s: String| s@)
}

/// The identifier that one item of the list of models gives, if it gives one.
pub open spec fn model_id(item: JsonView) -> Option<Seq<char>> {
    match field_of(item, "id"@) {
        Some(JsonView::Text(id)) => Some(id),
        _ => None,
    }
}

/// The identifiers that the items of a list give, in order; items without one
/// are passed over.
pub open spec fn ids_in(items: Seq<JsonView>) -> Seq<Seq<char>>
    decreases items.len(),
{
    if items.len() == 0 {
        Seq::empty()
    } else {
        match model_id(items.last()) {
            Some(id) => ids_in(items.drop_last()).push(id),
            None => ids_in(items.drop_last()),
        }
    }
}

/// The identifiers in a list of models: those under `data`, none where `data`
/// is no array.
pub open spec fn listed_ids(body: JsonView) -> Seq<Seq<char>> {
    match field_of(body, "data"@) {
        Some(JsonView::Array(items)) => ids_in(items),
        _ => Seq::empty(),
    }
}

/// Picks the identifiers out of a list of models.
pub fn model_ids(body: &Json) -> (ids: Vec<String>)
    ensures
        texts(ids@) == listed_ids(body@),
{
    let mut ids: Vec<String> = Vec::new();
    if let Some(Json::Array(items)) = body.field("data") {
        proof {
            lemma_items_view(items@);
        }
        let ghost row = items_view(items@);
        let mut i: usize = 0;
        while i < items.len()
            invariant
                i <= items@.len() == row.len(),
                forall|j: int| 0 <= j < row.len() ==> #[trigger] row[j] == items@[j]@,
                texts(ids@) == ids_in(row.take(i as int)),
            decreases items@.len() - i,
        {
            assert(row.take(i + 1).drop_last() == row.take(i as int));
            assert(row.take(i + 1).last() == items@[i as int]@);
            let ghost before = ids@;
            if let Some(Json::Text(id)) = items[i].field("id") {
                ids.push(id.clone());
                assert(texts(ids@) == texts(before).push(id@));
            }
            i = i + 1;
        }
        assert(row.take(row.len() as int) == row);
    }
    ids
}

/// What the probe answers for a body, given the JSON value read in it.
pub open spec fn probe_answer(read: Option<JsonView>) -> Result<Seq<Seq<char>>, Seq<char>> {
    match read {
        Some(body) => Ok(listed_ids(body)),
        None => Err("error decoding response body"@),
    }
}

/// Whether an answer says what it should.
pub open spec fn answers(
    answer: Result<Vec<String>, String>,
    expected: Result<Seq<Seq<char>>, Seq<char>>,
) -> bool {
    match (answer, expected) {
        (Ok(ids), Ok(names)) => texts(ids@) == names,
        (Err(message), Err(text)) => message@ == text,
        _ => false,
    }
}

/// The answer of the probe, once the body was read as JSON or turned out not to
/// be.
pub fn answer_probe(read: Option<Json>) -> (answer: Result<Vec<String>, String>)
    ensures
        answers(
            answer,
            probe_answer(
                match read {
                    Some(json) => Some(json@),
                    None => None,
                },
            ),
        ),
{
    match read {
        Some(json) => Ok(model_ids(&json)),
        None => Err("error decoding response body".to_owned()),
    }
}

/// Tests the service by asking it for its models: from what happened to what is
/// done next.
pub fn test_connection(cfg: &AppConfig, event: ProbeEvent) -> (action: ProbeAction)
    requires
        event matches ProbeEvent::Status(code) ==> 100 <= code <= 999,
    ensures
        match event {
            ProbeEvent::Begin => action matches ProbeAction::Get(url, bearer) && url@ == models_url(
                cfg@,
            ) && match bearer {
                Some(token) => token@ == cfg@.api_key && cfg@.api_key.len() > 0,
                None => cfg@.api_key.len() == 0,
            },
            ProbeEvent::SendFailed(error) => action matches ProbeAction::Finish(Err(message))
                && message@ == "连接失败: "@ + error@,
            ProbeEvent::Status(code) => if is_success(code) {
                action is ReadBody
            } else {
                action matches ProbeAction::Finish(Err(message)) && message@ == refusal_text(
                    status_line(code),
                )
            },
            ProbeEvent::BodyFailed(error) => action matches ProbeAction::Finish(Err(message))
                && message@ == error@,
            ProbeEvent::Body(bytes) => action matches ProbeAction::Finish(answer) && answers(
                answer,
                probe_answer(bytes_json(bytes@)),
            ),
        },
{
    match event {
        ProbeEvent::Begin => {
            let url = trim_end(cfg.base_url.as_str(), '/').concat("/models");
            let bearer = if cfg.api_key.as_str().unicode_len() == 0 {
                None
            } else {
                Some(cfg.api_key.clone())
            };
            ProbeAction::Get(url, bearer)
        },
        ProbeEvent::SendFailed(error) => ProbeAction::Finish(
            Err("连接失败: ".to_owned().concat(error.as_str())),
        ),
        ProbeEvent::Status(code) => match check_status(code) {
            Ok(_) => ProbeAction::ReadBody,
            Err(message) => ProbeAction::Finish(Err(message)),
        },
        ProbeEvent::BodyFailed(error) => ProbeAction::Finish(Err(error)),
        ProbeEvent::Body(bytes) => ProbeAction::Finish(answer_probe(parse_bytes(bytes.as_slice()))),
    }
}

/// Slashes at the end of the base address make no difference, neither to the
/// engine's settings nor to the address that is probed.
pub proof fn lemma_trailing_slashes(cfg: ConfigView, count: nat)
    ensures
        ({
            let slashed = ConfigView {
                base_url: cfg.base_url + Seq::new(count, |i: int| '/'),
                ..cfg
            };
            &&& engine_toml(slashed) == engine_toml(cfg)
            &&& models_url(slashed) == models_url(cfg)
        }),
{
    lemma_trimmed_end_ignores_marks(cfg.base_url, '/', count);
}

/// The address that goes into the engine's settings does not end in a slash.
pub proof fn lemma_service_root(base_url: Seq<char>)
    ensures
        service_root(base_url).len() > 0 ==> service_root(base_url).last() != '/',
        service_root(service_root(base_url)) == service_root(base_url),
{
    lemma_trimmed_end_is_trimmed(base_url, '/');
}

/// The engine's settings tell the base address and the model and nothing else
/// of the user's: neither the API key nor any path is in them.
pub proof fn lemma_engine_toml_keeps_secrets(left: ConfigView, right: ConfigView)
    requires
        left.base_url == right.base_url,
        left.model == right.model,
    ensures
        engine_toml(left) == engine_toml(right),
{
}

/// Saving puts the client's settings in the very file that they are loaded from,
/// and nothing else that it does touches that file.
pub proof fn lemma_saved_where_loaded(
    cfg: ConfigView,
    stored: Seq<char>,
    named: Option<PathBuf>,
    root: PathParts,
)
    ensures
        save_actions(cfg, stored, named, root)[1] == FileActionView::Write(
            config_file_parts(root),
            stored,
        ),
        forall|i: int|
            0 <= i < save_actions(cfg, stored, named, root).len() ==> (#[trigger] save_actions(
                cfg,
                stored,
                named,
                root,
            )[i] matches FileActionView::Write(file, _) ==> file == config_file_parts(root) ==> i
                == 1),
{
    reveal_strlit("config.json");
    reveal_strlit("config.toml");
    assert("config.json"@[7] != "config.toml"@[7]);
    assert(config_file_parts(root).names.last() == "config.json"@);
    assert(codex_home_parts(named, root).push("config.toml"@).names.last() == "config.toml"@);
}

/// What a file holds after a row of changes, given what it held before.
pub open spec fn contents_after(
    actions: Seq<FileActionView>,
    file: PathParts,
    before: Option<Seq<char>>,
) -> Option<Seq<char>>
    decreases actions.len(),
{
    if actions.len() == 0 {
        before
    } else {
        match actions.last() {
            FileActionView::Write(written, text) if written == file => Some(text),
            _ => contents_after(actions.drop_last(), file, before),
        }
    }
}

/// After saving, the file that settings are loaded from holds the text that was
/// stored. So with any reader of texts that finds in it the settings that were
/// saved, these are the settings in force, every one as it was: the base address
/// keeps the slashes at its end.
pub proof fn lemma_saved_settings_are_loaded(
    cfg: ConfigView,
    stored: Seq<char>,
    named: Option<PathBuf>,
    root: PathParts,
    before: Option<Seq<char>>,
    reader: spec_fn(Seq<char>) -> Option<ConfigView>,
    platform: Platform,
)
    requires
        reader(stored) == Some(cfg),
    ensures
        ({
            let text = contents_after(
                save_actions(cfg, stored, named, root),
                config_file_parts(root),
                before,
            );
            &&& text == Some(stored)
            &&& settings_in_force(reader(text->0), platform) == cfg
        }),
{
    let file = config_file_parts(root);
    let all = save_actions(cfg, stored, named, root);
    let three = all.drop_last();
    let two = three.drop_last();
    lemma_saved_where_loaded(cfg, stored, named, root);
    assert(all[3] == all.last());
    assert(contents_after(all, file, before) == contents_after(three, file, before));
    assert(three.last() == all[2]);
    assert(contents_after(three, file, before) == contents_after(two, file, before));
    assert(two.last() == all[1]);
}

/// Every file that saving writes goes into a directory that was made before.
pub proof fn lemma_directories_come_first(
    cfg: ConfigView,
    stored: Seq<char>,
    named: Option<PathBuf>,
    root: PathParts,
    i: int,
    file: PathParts,
    text: Seq<char>,
)
    requires
        0 <= i < save_actions(cfg, stored, named, root).len(),
        save_actions(cfg, stored, named, root)[i] == FileActionView::Write(file, text),
    ensures
        i > 0,
        exists|dir: PathParts, name: Seq<char>|
            file == #[trigger] dir.push(name) && save_actions(cfg, stored, named, root)[i - 1]
                == FileActionView::CreateDir(dir),
{
    assert(config_file_parts(root) == config_dir_parts(root).push("config.json"@));
    assert(i == 1 || i == 3);
}

/// The identifiers of a list are those of its items: each is found, and no other
/// is.
pub proof fn lemma_ids_in_finds_all(items: Seq<JsonView>, id: Seq<char>)
    ensures
        ids_in(items).contains(id) <==> exists|i: int|
            0 <= i < items.len() && #[trigger] model_id(items[i]) == Some(id),
    decreases items.len(),
{
    if items.len() > 0 {
        let shorter = items.drop_last();
        let before = ids_in(shorter);
        lemma_ids_in_finds_all(shorter, id);
        assert(model_id(items[items.len() - 1]) == model_id(items.last()));
        if let Some(last) = model_id(items.last()) {
            assert(before.push(last)[before.len() as int] == last);
            if before.contains(id) {
                let k = choose|k: int| 0 <= k < before.len() && before[k] == id;
                assert(before.push(last)[k] == id);
            }
            if before.push(last).contains(id) && id != last {
                let k = choose|k: int|
                    0 <= k < before.push(last).len() && before.push(last)[k] == id;
                assert(before[k] == id);
            }
        }
        if exists|i: int| 0 <= i < shorter.len() && #[trigger] model_id(shorter[i]) == Some(id) {
            let i = choose|i: int|
                0 <= i < shorter.len() && #[trigger] model_id(shorter[i]) == Some(id);
            assert(model_id(items[i]) == Some(id));
        }
        if exists|i: int| 0 <= i < items.len() && #[trigger] model_id(items[i]) == Some(id) {
            let i = choose|i: int| 0 <= i < items.len() && #[trigger] model_id(items[i]) == Some(id);
            if i < shorter.len() {
                assert(model_id(shorter[i]) == Some(id));
            }
        }
    }
}

/// The identifiers of a list come in the order of its items.
pub proof fn lemma_ids_in_order(front: Seq<JsonView>, back: Seq<JsonView>)
    ensures
        ids_in(front + back) == ids_in(front) + ids_in(back),
    decreases back.len(),
{
    if back.len() > 0 {
        assert((front + back).drop_last() == front + back.drop_last());
        assert((front + back).last() == back.last());
        lemma_ids_in_order(front, back.drop_last());
    } else {
        assert(front + back == front);
    }
    assert(ids_in(front + back) == ids_in(front) + ids_in(back));
}

} // verus!
