//! Laws of the settings and of the probe of the service.

use std::path::PathBuf;
use vstd::prelude::*;

use super::json::has_field;
use super::paths::lies_at;
use super::text::{is_trimmed, lemma_trimmed_end};
use crate::config::{
    answer_probe, codex_home, codex_toml, config_dir, config_dir_in, config_file, config_file_in,
    default_codex_path, ids_in, load_config, model_id, model_ids, save_config,
    save_config_in, service_root, test_connection, texts, AppConfig, FileAction, ProbeAction,
    ProbeEvent, StoredConfig,
};
use crate::http::status_line;
use crate::json::{bytes_json, field_of, Json, JsonView};
use crate::paths::{home_parts, path_parts, PathParts, Platform};

verus! {

/// Whether two sets of settings say the same, field by field.
pub open spec fn same_settings(left: AppConfig, right: AppConfig) -> bool {
    &&& left.base_url@ == right.base_url@
    &&& left.api_key@ == right.api_key@
    &&& left.model@ == right.model@
    &&& left.codex_path@ == right.codex_path@
    &&& left.work_dir@ == right.work_dir@
}

/// Whether these are the settings to begin with.
pub open spec fn is_fresh(cfg: AppConfig, platform: Platform) -> bool {
    &&& cfg.base_url@.len() == 0
    &&& cfg.api_key@.len() == 0
    &&& cfg.model@ == "deepseek-v4-flash-guan"@
    &&& platform is Windows ==> cfg.codex_path@ == "codex"@
    &&& !(platform is Windows) ==> cfg.codex_path@ == "/usr/local/bin/codex"@
    &&& cfg.work_dir@.len() == 0
}

/// On Windows the engine is looked for on the search path, elsewhere in
/// `/usr/local/bin`.
pub proof fn law_default_codex_path(platform: Platform, path: String)
    requires
        call_ensures(default_codex_path, (platform,), path),
    ensures
        platform is Windows ==> path@ == "codex"@,
        !(platform is Windows) ==> path@ == "/usr/local/bin/codex"@,
{
}

/// The settings to begin with name the usual model and the usual engine, and leave
/// the rest empty.
pub proof fn law_default(platform: Platform, cfg: AppConfig)
    requires
        call_ensures(AppConfig::default, (platform,), cfg),
    ensures
        is_fresh(cfg, platform),
{
}

/// A copy of settings says the same in every field.
pub proof fn law_clone(cfg: AppConfig, copy: AppConfig)
    requires
        call_ensures(AppConfig::clone, (&cfg,), copy),
    ensures
        same_settings(cfg, copy),
{
    assert(cfg@ == copy@);
}

/// Loading never fails. It gives back what the file held, every field as it was,
/// and fresh settings where the file held none.
pub proof fn law_load_config(
    stored: StoredConfig,
    platform: Platform,
    loaded: Result<AppConfig, String>,
)
    requires
        call_ensures(load_config, (stored, platform), loaded),
    ensures
        loaded is Ok,
        stored matches StoredConfig::Parsed(cfg) ==> same_settings(loaded->Ok_0, cfg),
        !(stored is Parsed) ==> is_fresh(loaded->Ok_0, platform),
{
    if let StoredConfig::Parsed(cfg) = stored {
        assert(cfg@ == loaded->Ok_0@);
    }
}

/// The client's settings lie in `.gas-codex/config.json` under the root.
pub proof fn law_config_paths(root: PathBuf, dir: PathBuf, file: PathBuf)
    requires
        call_ensures(config_dir_in, (&root,), dir),
        call_ensures(config_file_in, (&root,), file),
    ensures
        lies_at(path_parts(dir), path_parts(root), seq![".gas-codex"@]),
        lies_at(path_parts(file), path_parts(root), seq![".gas-codex"@, "config.json"@]),
{
    let base = path_parts(root).names;
    assert(path_parts(dir).names == base + seq![".gas-codex"@]);
    assert(path_parts(file).names == base + seq![".gas-codex"@, "config.json"@]);
}

/// The root of the client's settings is the home directory, or the current one.
pub proof fn law_config_paths_of_user(dir: PathBuf, file: PathBuf)
    requires
        call_ensures(config_dir, (), dir),
        call_ensures(config_file, (), file),
    ensures
        exists|home: Option<PathBuf>|
            lies_at(path_parts(dir), #[trigger] home_parts(home), seq![".gas-codex"@]),
        exists|home: Option<PathBuf>|
            lies_at(
                path_parts(file),
                #[trigger] home_parts(home),
                seq![".gas-codex"@, "config.json"@],
            ),
{
    let one = choose|home: Option<PathBuf>|
        path_parts(dir) == crate::config::config_dir_parts(#[trigger] home_parts(home));
    assert(path_parts(dir).names == home_parts(one).names + seq![".gas-codex"@]);
    let two = choose|home: Option<PathBuf>|
        path_parts(file) == crate::config::config_file_parts(#[trigger] home_parts(home));
    assert(path_parts(file).names == home_parts(two).names + seq![
        ".gas-codex"@,
        "config.json"@,
    ]);
}

/// The engine's settings lie in the directory that the user named, else in
/// `.codex` under the root.
pub proof fn law_codex_home(named: Option<PathBuf>, root: PathBuf, dir: PathBuf)
    requires
        call_ensures(codex_home, (named, &root), dir),
    ensures
        named matches Some(given) ==> dir == given,
        named is None ==> lies_at(path_parts(dir), path_parts(root), seq![".codex"@]),
{
    if named is None {
        assert(path_parts(dir).names == path_parts(root).names + seq![".codex"@]);
    }
}

/// The text of the engine's settings for an address and a model.
pub open spec fn toml_text(address: Seq<char>, model: Seq<char>) -> Seq<char> {
    "# Gas Codex 客户端生成 —— 自定义模型接入\n[model_providers.dmxapi]\nname = \"DMX API\"\nbase_url = \""@
        + address + "\"\nwire_api = \"responses\"\n"@ + ("env_key = \""@ + "DMXAPI_KEY"@
        + "\"\n"@)
        + "requires_openai_auth = false\nrequest_max_retries = 6\nstream_max_retries = 10\nstream_idle_timeout_ms = 180000\n\nmodel_provider = \"dmxapi\"\nmodel = \""@
        + model + "\"\n"@
}

/// Whether a text is the engine's settings for these settings of the client: it
/// holds the base address without the slashes at its end, and the model whole.
pub open spec fn is_toml_of(toml: Seq<char>, base_url: Seq<char>, model: Seq<char>) -> bool {
    exists|address: Seq<char>|
        is_trimmed(base_url, '/', address) && toml == #[trigger] toml_text(address, model)
}

proof fn lemma_engine_toml(cfg: AppConfig)
    ensures
        is_toml_of(crate::config::engine_toml(cfg@), cfg.base_url@, cfg.model@),
{
    let address = service_root(cfg.base_url@);
    lemma_trimmed_end(cfg.base_url@, '/');
    assert(crate::config::engine_toml(cfg@) == toml_text(address, cfg.model@));
}

/// The engine's settings hold the base address without the slashes at its end, the
/// name of the variable with the API key, and the model, whole; they end with the
/// line of the model.
pub proof fn law_codex_toml(cfg: AppConfig, toml: String)
    requires
        call_ensures(codex_toml, (&cfg,), toml),
    ensures
        is_toml_of(toml@, cfg.base_url@, cfg.model@),
        exists|front: Seq<char>|
            toml@ == #[trigger] (front + ("model = \""@ + cfg.model@ + "\"\n"@)),
{
    let address = service_root(cfg.base_url@);
    lemma_engine_toml(cfg);
    reveal_strlit("model = \"");
    reveal_strlit(
        "requires_openai_auth = false\nrequest_max_retries = 6\nstream_max_retries = 10\nstream_idle_timeout_ms = 180000\n\nmodel_provider = \"dmxapi\"\nmodel = \"",
    );
    let label = "model = \""@;
    let lines =
        "requires_openai_auth = false\nrequest_max_retries = 6\nstream_max_retries = 10\nstream_idle_timeout_ms = 180000\n\nmodel_provider = \"dmxapi\"\nmodel = \""@;
    let cut = lines.len() - label.len();
    assert(lines.skip(cut) == label);
    assert(lines == lines.take(cut) + label);
    let end = label + cfg.model@ + "\"\n"@;
    let front = toml@.take(toml@.len() - end.len());
    assert(toml@ == front + end);
}

/// Settings with different models make different engine settings, and so do
/// settings with different addresses; what else the client's settings hold makes
/// no difference.
pub proof fn law_codex_toml_tells_apart(
    left: AppConfig,
    right: AppConfig,
    toml: String,
    other: String,
)
    requires
        call_ensures(codex_toml, (&left,), toml),
        call_ensures(codex_toml, (&right,), other),
    ensures
        left.base_url@ == right.base_url@ && left.model@ == right.model@ ==> toml@ == other@,
        left.base_url@ == right.base_url@ && left.model@ != right.model@ ==> toml@ != other@,
        toml@ == other@ && left.model@ == right.model@ ==> exists|address: Seq<char>|
            #[trigger] is_trimmed(left.base_url@, '/', address) && is_trimmed(
                right.base_url@,
                '/',
                address,
            ),
{
    let l = service_root(left.base_url@);
    let r = service_root(right.base_url@);
    lemma_trimmed_end(left.base_url@, '/');
    lemma_trimmed_end(right.base_url@, '/');
    assert(toml@ == toml_text(l, left.model@));
    assert(other@ == toml_text(r, right.model@));
    if toml@ == other@ {
        lemma_toml_text_tells_apart(l, left.model@, r, right.model@);
    }
}

proof fn lemma_toml_text_tells_apart(
    left: Seq<char>,
    left_model: Seq<char>,
    right: Seq<char>,
    right_model: Seq<char>,
)
    requires
        toml_text(left, left_model) == toml_text(right, right_model),
    ensures
        left == right ==> left_model == right_model,
        left_model == right_model ==> left == right,
{
    let head =
        "# Gas Codex 客户端生成 —— 自定义模型接入\n[model_providers.dmxapi]\nname = \"DMX API\"\nbase_url = \""@;
    let middle = "\"\nwire_api = \"responses\"\n"@ + ("env_key = \""@ + "DMXAPI_KEY"@ + "\"\n"@)
        + "requires_openai_auth = false\nrequest_max_retries = 6\nstream_max_retries = 10\nstream_idle_timeout_ms = 180000\n\nmodel_provider = \"dmxapi\"\nmodel = \""@;
    let end = "\"\n"@;
    let a = toml_text(left, left_model);
    let b = toml_text(right, right_model);
    let h = head.len() as int;
    let m = middle.len() as int;
    assert(a == head + left + middle + left_model + end);
    assert(b == head + right + middle + right_model + end);
    if left == right {
        let at = h + left.len() + m;
        assert(left_model.len() == right_model.len());
        assert(left_model == a.subrange(at, at + left_model.len()));
        assert(right_model == b.subrange(at, at + right_model.len()));
    }
    if left_model == right_model {
        assert(left.len() == right.len());
        assert(left == a.subrange(h, h + left.len()));
        assert(right == b.subrange(h, h + right.len()));
    }
}

/// Whether the changes save these settings under a root: they make the client's
/// directory and write the stored text to its file, whole, then make the engine's
/// directory and write its settings there, and nothing else.
pub open spec fn saves(
    actions: Seq<FileAction>,
    cfg: AppConfig,
    stored: Seq<char>,
    named: Option<PathBuf>,
    root: PathParts,
) -> bool {
    &&& actions.len() == 4
    &&& actions[0] matches FileAction::CreateDir(dir)
    &&& lies_at(path_parts(dir), root, seq![".gas-codex"@])
    &&& actions[1] matches FileAction::Write(file, text)
    &&& lies_at(path_parts(file), root, seq![".gas-codex"@, "config.json"@])
    &&& text@ == stored
    &&& actions[2] matches FileAction::CreateDir(home)
    &&& actions[3] matches FileAction::Write(engine_file, toml)
    &&& match named {
        Some(given) => {
            &&& path_parts(home) == path_parts(given)
            &&& lies_at(path_parts(engine_file), path_parts(given), seq!["config.toml"@])
        },
        None => {
            &&& lies_at(path_parts(home), root, seq![".codex"@])
            &&& lies_at(path_parts(engine_file), root, seq![".codex"@, "config.toml"@])
        },
    }
    &&& is_toml_of(toml@, cfg.base_url@, cfg.model@)
}

proof fn lemma_saves(
    actions: Seq<FileAction>,
    cfg: AppConfig,
    stored: Seq<char>,
    named: Option<PathBuf>,
    root: PathParts,
)
    requires
        crate::config::actions_view(actions) == crate::config::save_actions(
            cfg@,
            stored,
            named,
            root,
        ),
    ensures
        saves(actions, cfg, stored, named, root),
{
    let seen = crate::config::actions_view(actions);
    assert(seen.len() == 4);
    assert(actions.len() == 4);
    assert(seen[0] == actions[0]@);
    assert(seen[1] == actions[1]@);
    assert(seen[2] == actions[2]@);
    assert(seen[3] == actions[3]@);
    lemma_engine_toml(cfg);
    let base = root.names;
    assert(base.push(".gas-codex"@) == base + seq![".gas-codex"@]);
    assert(base.push(".gas-codex"@).push("config.json"@) == base + seq![
        ".gas-codex"@,
        "config.json"@,
    ]);
    match named {
        Some(given) => {
            assert(path_parts(given).names.push("config.toml"@) == path_parts(given).names + seq![
                "config.toml"@,
            ]);
        },
        None => {
            assert(base.push(".codex"@) == base + seq![".codex"@]);
            assert(base.push(".codex"@).push("config.toml"@) == base + seq![
                ".codex"@,
                "config.toml"@,
            ]);
        },
    }
}

/// Saving writes the client's settings where they are loaded from and the engine's
/// settings that follow from them, under a given root.
pub proof fn law_save_config_in(
    cfg: AppConfig,
    stored: String,
    named: Option<PathBuf>,
    root: PathBuf,
    actions: Vec<FileAction>,
)
    requires
        call_ensures(save_config_in, (&cfg, stored, named, &root), actions),
    ensures
        saves(actions@, cfg, stored@, named, path_parts(root)),
{
    lemma_saves(actions@, cfg, stored@, named, path_parts(root));
}

/// Saving works under the home directory, or the current one.
pub proof fn law_save_config(
    cfg: AppConfig,
    stored: String,
    named: Option<PathBuf>,
    actions: Vec<FileAction>,
)
    requires
        call_ensures(save_config, (&cfg, stored, named), actions),
    ensures
        exists|home: Option<PathBuf>|
            saves(actions@, cfg, stored@, named, #[trigger] home_parts(home)),
{
    let home = choose|home: Option<PathBuf>|
        crate::config::actions_view(actions@) == crate::config::save_actions(
            cfg@,
            stored@,
            named,
            #[trigger] home_parts(home),
        );
    lemma_saves(actions@, cfg, stored@, named, home_parts(home));
}

/// Whether the names are the identifiers of the items, told by where they were
/// found: in order, each the text under `id` of its item, and none left out.
pub open spec fn picked(items: Seq<JsonView>, names: Seq<Seq<char>>, at: Seq<int>) -> bool {
    &&& at.len() == names.len()
    &&& forall|k: int|
        0 <= k < at.len() ==> 0 <= #[trigger] at[k] < items.len() && has_field(
            items[at[k]],
            "id"@,
            JsonView::Text(names[k]),
        )
    &&& forall|j: int, k: int| 0 <= j < k < at.len() ==> #[trigger] at[j] < #[trigger] at[k]
    &&& forall|i: int, id: Seq<char>|
        0 <= i < items.len() && #[trigger] has_field(items[i], "id"@, JsonView::Text(id))
            ==> at.contains(i)
}

proof fn lemma_picked(items: Seq<JsonView>) -> (at: Seq<int>)
    ensures
        picked(items, ids_in(items), at),
    decreases items.len(),
{
    if items.len() == 0 {
        Seq::empty()
    } else {
        let shorter = items.drop_last();
        let end = items.len() - 1;
        let before = lemma_picked(shorter);
        let at = if model_id(items.last()) is Some {
            before.push(end)
        } else {
            before
        };
        let names = ids_in(items);
        assert(items[end] == items.last());
        assert forall|k: int| 0 <= k < at.len() implies 0 <= #[trigger] at[k] < items.len()
            && has_field(items[at[k]], "id"@, JsonView::Text(names[k])) by {
            if k < before.len() {
                assert(at[k] == before[k]);
                assert(shorter[before[k]] == items[at[k]]);
                assert(names[k] == ids_in(shorter)[k]);
            }
        }
        assert forall|i: int, id: Seq<char>|
            0 <= i < items.len() && #[trigger] has_field(
                items[i],
                "id"@,
                JsonView::Text(id),
            ) implies at.contains(i) by {
            if i < end {
                assert(shorter[i] == items[i]);
                assert(has_field(shorter[i], "id"@, JsonView::Text(id)));
                assert(before.contains(i));
                let k = choose|k: int| 0 <= k < before.len() && before[k] == i;
                assert(at[k] == i);
            } else {
                assert(at[before.len() as int] == end);
            }
        }
        at
    }
}

/// Whether the names are those in a list of models: the identifiers of the items
/// under `data`, in order and none left out, whatever else the list holds; none
/// where there is no array under `data`.
pub open spec fn lists(body: JsonView, names: Seq<Seq<char>>) -> bool {
    &&& forall|items: Seq<JsonView>| #[trigger]
        has_field(body, "data"@, JsonView::Array(items)) ==> exists|at: Seq<int>| #[trigger]
            picked(items, names, at)
    &&& (forall|items: Seq<JsonView>| !#[trigger] has_field(body, "data"@, JsonView::Array(items)))
        ==> names.len() == 0
}

proof fn lemma_lists(body: JsonView)
    ensures
        lists(body, crate::config::listed_ids(body)),
{
    let names = crate::config::listed_ids(body);
    assert forall|items: Seq<JsonView>| #[trigger]
        has_field(body, "data"@, JsonView::Array(items)) implies exists|at: Seq<int>| #[trigger]
        picked(items, names, at) by {
        let at = lemma_picked(items);
        assert(picked(items, names, at));
    }
    if forall|items: Seq<JsonView>| !#[trigger] has_field(body, "data"@, JsonView::Array(items)) {
        if let Some(JsonView::Array(items)) = field_of(body, "data"@) {
            assert(has_field(body, "data"@, JsonView::Array(items)));
        }
    }
}

/// The characters of each string of a row.
pub open spec fn spelled(strings: Seq<String>) -> Seq<Seq<char>> {
    Seq::new(strings.len(), |i: int| strings[i]@)
}

/// The models of a body are the identifiers of the items under `data`, in order
/// and none left out, whatever else the body holds.
pub proof fn law_model_ids(body: Json, ids: Vec<String>)
    requires
        call_ensures(model_ids, (&body,), ids),
    ensures
        lists(body@, spelled(ids@)),
{
    lemma_lists(body@);
    assert(spelled(ids@) == texts(ids@));
}

/// A body that is JSON is answered with its models, any other with an error.
pub proof fn law_answer_probe(read: Option<Json>, answer: Result<Vec<String>, String>)
    requires
        call_ensures(answer_probe, (read,), answer),
    ensures
        read matches Some(body) ==> answer is Ok && lists(body@, spelled(answer->Ok_0@)),
        read is None ==> answer is Err && answer->Err_0@ == "error decoding response body"@,
{
    if let Some(body) = read {
        lemma_lists(body@);
        assert(spelled(answer->Ok_0@) == texts(answer->Ok_0@));
    }
}

/// The probe asks for `/models` behind the base address without the slashes at its
/// end, with the API key as bearer, whole, unless it is empty.
pub proof fn law_probe_begins(cfg: AppConfig, action: ProbeAction)
    requires
        call_ensures(test_connection, (&cfg, ProbeEvent::Begin), action),
    ensures
        action matches ProbeAction::Get(url, bearer) && {
            &&& exists|address: Seq<char>|
                is_trimmed(cfg.base_url@, '/', address) && url@ == #[trigger] (address
                    + "/models"@)
            &&& bearer is Some <==> cfg.api_key@.len() > 0
            &&& bearer matches Some(token) ==> token@ == cfg.api_key@
        },
{
    lemma_trimmed_end(cfg.base_url@, '/');
}

/// The probe reads the body of a response in the two hundreds and of no other, and
/// tells of whatever fails.
pub proof fn law_probe_fails(
    cfg: AppConfig,
    error: String,
    code: u16,
    unsent: ProbeAction,
    answered: ProbeAction,
    unread: ProbeAction,
)
    requires
        100 <= code <= 999,
        call_ensures(test_connection, (&cfg, ProbeEvent::SendFailed(error)), unsent),
        call_ensures(test_connection, (&cfg, ProbeEvent::Status(code)), answered),
        call_ensures(test_connection, (&cfg, ProbeEvent::BodyFailed(error)), unread),
    ensures
        unsent matches ProbeAction::Finish(Err(message)) && message@ == "连接失败: "@ + error@,
        answered is ReadBody <==> 200 <= code <= 299,
        !(200 <= code <= 299) ==> (answered matches ProbeAction::Finish(Err(message)) && message@
            == "HTTP "@ + status_line(code)),
        unread matches ProbeAction::Finish(Err(message)) && message@ == error@,
{
}

/// The probe ends with the models in the body, in order and none left out, or with
/// an error where the body is no JSON.
pub proof fn law_probe_ends(cfg: AppConfig, bytes: Vec<u8>, action: ProbeAction)
    requires
        call_ensures(test_connection, (&cfg, ProbeEvent::Body(bytes)), action),
    ensures
        bytes_json(bytes@) matches Some(body) ==> (action matches ProbeAction::Finish(Ok(ids))
            && lists(body, spelled(ids@))),
        bytes_json(bytes@) is None ==> (action matches ProbeAction::Finish(Err(message)) && message@
            == "error decoding response body"@),
{
    if let Some(body) = bytes_json(bytes@) {
        lemma_lists(body);
        if let ProbeAction::Finish(Ok(ids)) = action {
            assert(spelled(ids@) == texts(ids@));
        }
    }
}

} // verus!
