//! Laws of the install: where the engine lives, how its package is unpacked, and
//! what is done when a source fails.

use std::path::PathBuf;
use vstd::prelude::*;
use vstd::utf8::{
    decode_utf8_encode_utf8, encode_utf8, encode_utf8_decode_utf8, encode_utf8_valid_utf8,
    valid_utf8,
};

use super::json::is_object;
use super::names::{in_build, is_step, is_unpacked, lemma_is_step, lemma_step_in_build, spells};
use super::paths::lies_at;
use crate::config::texts;
use crate::http::status_line;
use crate::installer::{
    answer_with, archive_listing, codex_bin, codex_bin_in, codex_bin_parts, download_and_extract,
    download_file, download_file_in, download_urls, engine_dir, engine_dir_in, engine_dir_parts,
    entry_name, entry_text, extract_tgz, install_engine, lemma_plan_covers_listing, listed_view,
    listing_view, lossy_text, plan_extraction, plan_steps, plans, progress, steps_view,
    DownloadAction, DownloadEvent, EntryStep, ExtractEnd, ExtractPlan, InstallNext,
    InstallProgress, InstallStep, Installation, Listed, ListedView,
};
use crate::json::{Json, JsonView};
use crate::paths::{home_parts, path_parts, PathParts, Platform};

verus! {

/// Whether a path is that of the engine's binary under a root.
pub open spec fn is_binary_at(platform: Platform, path: PathParts, root: PathParts) -> bool {
    match platform {
        Platform::Windows => lies_at(
            path,
            root,
            seq![".gas-codex"@, "engine"@, "bin"@, "codex.exe"@],
        ),
        Platform::Aarch64 => lies_at(
            path,
            root,
            seq![".gas-codex"@, "engine"@, "aarch64-pc-windows-msvc"@, "bin"@, "codex"@],
        ),
        Platform::Other => lies_at(
            path,
            root,
            seq![".gas-codex"@, "engine"@, "x86_64-pc-windows-msvc"@, "bin"@, "codex"@],
        ),
    }
}

proof fn lemma_engine_paths(platform: Platform, root: PathParts)
    ensures
        lies_at(engine_dir_parts(root), root, seq![".gas-codex"@, "engine"@]),
        lies_at(
            engine_dir_parts(root).push("download.tgz"@),
            root,
            seq![".gas-codex"@, "engine"@, "download.tgz"@],
        ),
        is_binary_at(platform, codex_bin_parts(platform, root), root),
{
    let base = root.names;
    let dir = engine_dir_parts(root);
    assert(dir.names == base + seq![".gas-codex"@, "engine"@]);
    assert(dir.names.push("download.tgz"@) == base + seq![
        ".gas-codex"@,
        "engine"@,
        "download.tgz"@,
    ]);
    let bin = codex_bin_parts(platform, root).names;
    match platform {
        Platform::Windows => {
            assert(bin == base + seq![".gas-codex"@, "engine"@, "bin"@, "codex.exe"@]);
        },
        Platform::Aarch64 => {
            assert(bin == base + seq![
                ".gas-codex"@,
                "engine"@,
                "aarch64-pc-windows-msvc"@,
                "bin"@,
                "codex"@,
            ]);
        },
        Platform::Other => {
            assert(bin == base + seq![
                ".gas-codex"@,
                "engine"@,
                "x86_64-pc-windows-msvc"@,
                "bin"@,
                "codex"@,
            ]);
        },
    }
}

/// The engine lives in `.gas-codex/engine` under the root, with its binary and the
/// package that is being unpacked.
pub proof fn law_engine_paths(
    platform: Platform,
    root: PathBuf,
    dir: PathBuf,
    bin: PathBuf,
    file: PathBuf,
)
    requires
        call_ensures(engine_dir_in, (&root,), dir),
        call_ensures(codex_bin_in, (platform, &root), bin),
        call_ensures(download_file_in, (&root,), file),
    ensures
        lies_at(path_parts(dir), path_parts(root), seq![".gas-codex"@, "engine"@]),
        is_binary_at(platform, path_parts(bin), path_parts(root)),
        lies_at(
            path_parts(file),
            path_parts(root),
            seq![".gas-codex"@, "engine"@, "download.tgz"@],
        ),
{
    lemma_engine_paths(platform, path_parts(root));
}

/// The root of the engine is the home directory, or the current one.
pub proof fn law_engine_paths_of_user(
    platform: Platform,
    dir: PathBuf,
    bin: PathBuf,
    file: PathBuf,
)
    requires
        call_ensures(engine_dir, (), dir),
        call_ensures(codex_bin, (platform,), bin),
        call_ensures(download_file, (), file),
    ensures
        exists|home: Option<PathBuf>|
            lies_at(path_parts(dir), #[trigger] home_parts(home), seq![".gas-codex"@, "engine"@]),
        exists|home: Option<PathBuf>|
            is_binary_at(platform, path_parts(bin), #[trigger] home_parts(home)),
        exists|home: Option<PathBuf>|
            lies_at(
                path_parts(file),
                #[trigger] home_parts(home),
                seq![".gas-codex"@, "engine"@, "download.tgz"@],
            ),
{
    let one = choose|home: Option<PathBuf>|
        path_parts(dir) == engine_dir_parts(#[trigger] home_parts(home));
    lemma_engine_paths(platform, home_parts(one));
    let two = choose|home: Option<PathBuf>|
        path_parts(bin) == codex_bin_parts(platform, #[trigger] home_parts(home));
    lemma_engine_paths(platform, home_parts(two));
    let three = choose|home: Option<PathBuf>|
        path_parts(file) == engine_dir_parts(#[trigger] home_parts(home)).push("download.tgz"@);
    lemma_engine_paths(platform, home_parts(three));
}

/// Whether these are the sources of the engine: the mirror, then the proxy, each
/// with the version that the client installs.
pub open spec fn are_sources(urls: Seq<Seq<char>>) -> bool {
    let v = "0.153.0"@;
    &&& urls.len() == 2
    &&& urls[0] == "https://cdn.npmmirror.com/packages/@openai/codex/"@ + v + "-win32-x64/codex-"@
        + v + "-win32-x64.tgz"@
    &&& urls[1]
        == "https://gh-proxy.com/https://github.com/openai/codex/releases/download/rust-v"@ + v
        + "/codex-x86_64-pc-windows-msvc.exe.tar.gz"@
}

/// The engine is fetched from the mirror, or else through the proxy.
pub proof fn law_download_urls(urls: Vec<String>)
    requires
        call_ensures(download_urls, (), urls),
    ensures
        urls@.len() == 2,
        are_sources(seq![urls@[0]@, urls@[1]@]),
{
    let seen = texts(urls@);
    assert(seen.len() == 2);
    assert(seen[0] == urls@[0]@);
    assert(seen[1] == urls@[1]@);
}

/// What a listed entry is, over its bytes and the characters of its error.
pub open spec fn told(listed: Listed) -> ListedView {
    match listed {
        Ok(bytes) => Ok(bytes@),
        Err(error) => Err(error@),
    }
}

/// Whether an entry is called so, or has no name and that is why. Bytes that encode
/// a text are that text, whole. Other bytes are no name on Windows, and are patched
/// up elsewhere. An entry that could not be read keeps its error.
pub open spec fn is_called(
    platform: Platform,
    listed: ListedView,
    name: Result<Seq<char>, Seq<char>>,
) -> bool {
    match listed {
        Ok(bytes) => {
            &&& forall|text: Seq<char>|
                bytes == #[trigger] encode_utf8(text) ==> name == Ok::<Seq<char>, Seq<char>>(text)
            &&& (forall|text: Seq<char>| bytes != #[trigger] encode_utf8(text)) ==> if platform
                == Platform::Windows {
                name == Err::<Seq<char>, Seq<char>>(
                    "only Unicode paths are supported on Windows: "@ + lossy_text(bytes),
                )
            } else {
                name == Ok::<Seq<char>, Seq<char>>(lossy_text(bytes))
            }
        },
        Err(error) => name == Err::<Seq<char>, Seq<char>>(error),
    }
}

proof fn lemma_is_called(platform: Platform, listed: ListedView)
    ensures
        is_called(platform, listed, entry_text(platform, listed)),
{
    if let Ok(bytes) = listed {
        assert forall|text: Seq<char>| bytes == #[trigger] encode_utf8(text) implies entry_text(
            platform,
            listed,
        ) == Ok::<Seq<char>, Seq<char>>(text) by {
            encode_utf8_valid_utf8(text);
            encode_utf8_decode_utf8(text);
        }
        if valid_utf8(bytes) {
            decode_utf8_encode_utf8(bytes);
        }
    }
}

/// The name of an entry is the text that its bytes encode, whole and whatever its
/// length.
pub proof fn law_entry_name(platform: Platform, listed: Listed, name: Result<String, String>)
    requires
        call_ensures(entry_name, (platform, &listed), name),
    ensures
        is_called(
            platform,
            told(listed),
            match name {
                Ok(text) => Ok(text@),
                Err(error) => Err(error@),
            },
        ),
{
    assert(told(listed) == listed_view(listed));
    lemma_is_called(platform, told(listed));
}

/// Whether that is the step for an entry: the one for the name that it is called.
pub open spec fn is_step_of(platform: Platform, listed: ListedView, step: EntryStep) -> bool {
    exists|name: Seq<char>| #[trigger]
        is_called(platform, listed, Ok(name)) && is_step(platform, name, step)
}

/// Whether a plan is right for a listing: a step for each entry in turn, up to the
/// first without a name; then the stamp with the version if every entry had one,
/// else the reason why that entry had none.
pub open spec fn is_right(
    plan: ExtractPlan,
    platform: Platform,
    listing: Seq<ListedView>,
) -> bool {
    let count = plan.steps@.len() as int;
    &&& count <= listing.len()
    &&& forall|i: int|
        0 <= i < count ==> is_step_of(platform, listing[i], #[trigger] plan.steps@[i])
    &&& match plan.end {
        ExtractEnd::Stamp(name, text) => {
            &&& count == listing.len()
            &&& name@ == "VERSION"@
            &&& text@ == "0.153.0"@
        },
        ExtractEnd::Fail(error) => {
            &&& count < listing.len()
            &&& is_called(platform, listing[count], Err(error@))
        },
    }
}

proof fn lemma_is_right(plan: ExtractPlan, platform: Platform, listing: Seq<ListedView>)
    requires
        plans(plan, platform, listing),
    ensures
        is_right(plan, platform, listing),
{
    let steps = plan_steps(platform, listing);
    let count = plan.steps@.len() as int;
    lemma_plan_covers_listing(platform, listing);
    assert(steps_view(plan.steps@).len() == count);
    assert forall|i: int| 0 <= i < count implies is_step_of(
        platform,
        listing[i],
        #[trigger] plan.steps@[i],
    ) by {
        let name = entry_text(platform, listing[i])->Ok_0;
        assert(steps_view(plan.steps@)[i] == plan.steps@[i]@);
        assert(steps[i] == plan.steps@[i]@);
        lemma_is_called(platform, listing[i]);
        lemma_is_step(platform, name, plan.steps@[i]);
        assert(is_called(platform, listing[i], Ok(name)) && is_step(
            platform,
            name,
            plan.steps@[i],
        ));
    }
    if let ExtractEnd::Fail(error) = plan.end {
        lemma_is_called(platform, listing[count]);
        assert(entry_text(platform, listing[count]) == Err::<Seq<char>, Seq<char>>(error@));
        assert(is_called(platform, listing[count], Err(error@)));
    }
}

/// A listing is planned entry by entry.
pub proof fn law_plan_extraction(platform: Platform, listing: Vec<Listed>, plan: ExtractPlan)
    requires
        call_ensures(plan_extraction, (platform, &listing), plan),
    ensures
        is_right(plan, platform, Seq::new(listing@.len(), |i: int| told(listing@[i]))),
{
    let row = Seq::new(listing@.len(), |i: int| told(listing@[i]));
    assert(row == listing_view(listing@)) by {
        assert forall|i: int| 0 <= i < row.len() implies row[i] == listing_view(listing@)[i] by {
            assert(told(listing@[i]) == listed_view(listing@[i]));
        }
    }
    lemma_is_right(plan, platform, row);
}

/// A package is planned entry by entry, as they stand in its archive.
pub proof fn law_extract_tgz(platform: Platform, package: &[u8], plan: ExtractPlan)
    requires
        call_ensures(extract_tgz, (platform, package), plan),
    ensures
        is_right(plan, platform, archive_listing(package@)),
{
    lemma_is_right(plan, platform, archive_listing(package@));
}

/// An entry of the package in the directory of a build, whichever build it is, is
/// unpacked to exactly the rest of its name, whatever its length, if that is the
/// name of a file and leads nowhere but inside; unless an entry before it has no
/// name, which ends the plan.
pub proof fn law_vendor_entry(
    platform: Platform,
    package: &[u8],
    plan: ExtractPlan,
    i: int,
    build: Seq<char>,
    rest: Seq<char>,
    names: Seq<Seq<char>>,
)
    requires
        call_ensures(extract_tgz, (platform, package), plan),
        0 <= i < archive_listing(package@).len(),
        archive_listing(package@)[i] == Ok::<Seq<u8>, Seq<char>>(
            encode_utf8("package/vendor/"@ + build + "/"@ + rest),
        ),
        build.len() > 0,
        forall|k: int| 0 <= k < build.len() ==> #[trigger] build[k] != '/',
        spells(platform, rest, names),
        is_unpacked(platform, rest, names),
    ensures
        i < plan.steps@.len() ==> (plan.steps@[i] matches EntryStep::Unpack(to) && to@ == rest),
        i >= plan.steps@.len() ==> plan.end is Fail && plan.steps@.len() < i,
        plan.end is Stamp ==> i < plan.steps@.len(),
{
    let listing = archive_listing(package@);
    let text = "package/vendor/"@ + build + "/"@ + rest;
    law_extract_tgz(platform, package, plan);
    assert(listing[i] == Ok::<Seq<u8>, Seq<char>>(encode_utf8(text)));
    if i < plan.steps@.len() {
        let step = plan.steps@[i];
        let name = choose|name: Seq<char>| #[trigger]
            is_called(platform, listing[i], Ok(name)) && is_step(platform, name, step);
        assert(name == text);
        assert(in_build(name, build, rest));
        lemma_step_in_build(platform, name, build, rest, names, step);
    } else if plan.steps@.len() == i {
        if let ExtractEnd::Fail(error) = plan.end {
            assert(is_called(platform, listing[i], Err(error@)));
        }
    }
}

/// Whether a note says just that.
pub open spec fn says(
    note: InstallProgress,
    stage: Seq<char>,
    percent: int,
    message: Seq<char>,
) -> bool {
    note.stage@ == stage && note.percent == percent && note.message@ == message
}

/// A note says what it was made with, and a copy of it says the same.
pub proof fn law_progress(
    stage: &str,
    percent: u32,
    message: &str,
    note: InstallProgress,
    copy: InstallProgress,
)
    requires
        call_ensures(progress, (stage, percent, message), note),
        call_ensures(InstallProgress::clone, (&note,), copy),
    ensures
        says(note, stage@, percent as int, message@),
        says(copy, stage@, percent as int, message@),
{
    assert(note@ == copy@);
}

/// Whether an answer says just that one thing, and where the binary is.
pub open spec fn is_answer(answer: Json, fact: Seq<char>, bin: Seq<char>) -> bool {
    is_object(answer@, map![fact => JsonView::Bool(true), "path"@ => JsonView::Text(bin)])
}

proof fn lemma_is_answer(answer: Json, fact: Seq<char>, bin: Seq<char>)
    requires
        answer@ == crate::installer::engine_answer(fact, bin),
    ensures
        is_answer(answer, fact, bin),
{
    assert(answer@->Object_0 == map![
        fact => JsonView::Bool(true),
        "path"@ => JsonView::Text(bin),
    ]);
}

/// An answer says one thing of the engine and where its binary is, whole.
pub proof fn law_answer_with(fact: &str, bin: &str, answer: Json)
    requires
        call_ensures(answer_with, (fact, bin), answer),
    ensures
        is_answer(answer, fact@, bin@),
{
    lemma_is_answer(answer, fact@, bin@);
}

/// Whether a note tells of the attempt that begins.
pub open spec fn tells_of_attempt(note: InstallProgress) -> bool {
    says(note, "downloading"@, 0, "正在从镜像下载 codex 引擎（约 140MB）…"@)
}

/// Whether a step begins with the source at that address.
pub open spec fn begins_with(step: InstallStep, url: Seq<char>) -> bool {
    &&& step.notes@.len() == 1
    &&& tells_of_attempt(step.notes@[0])
    &&& step.next matches InstallNext::Download(address)
    &&& address@ == url
}

proof fn lemma_notes(step: InstallStep)
    ensures
        step@.notes.len() == step.notes@.len(),
        forall|i: int| 0 <= i < step.notes@.len() ==> step@.notes[i] == #[trigger] step.notes@[i]@,
{
}

/// An engine in place is left alone: nothing is shown, nothing is fetched, and the
/// answer says so and where it is. Else the install begins with the first source.
pub proof fn law_install_engine(
    installed: bool,
    bin: &str,
    begun: (Option<Installation>, InstallStep),
)
    requires
        call_ensures(install_engine, (installed, bin), begun),
    ensures
        begun.0 is None <==> installed,
        installed ==> begun.1.notes@.len() == 0 && (begun.1.next matches InstallNext::Answer(answer)
            && is_answer(answer, "alreadyInstalled"@, bin@)),
        begun.0 matches Some(installation) ==> {
            &&& are_sources(installation.sources())
            &&& installation.trying() == 0
            &&& begins_with(begun.1, installation.sources()[0])
        },
{
    lemma_notes(begun.1);
    if installed {
        if let InstallNext::Answer(answer) = begun.1.next {
            lemma_is_answer(answer, "alreadyInstalled"@, bin@);
        }
    } else {
        assert(begun.1@.notes.len() == 1);
        assert(begun.1@.notes[0] == begun.1.notes@[0]@);
    }
}

/// An install begins with the first source.
pub proof fn law_begin(begun: (Installation, InstallStep))
    requires
        call_ensures(Installation::begin, (), begun),
    ensures
        are_sources(begun.0.sources()),
        begun.0.trying() == 0,
        begins_with(begun.1, begun.0.sources()[0]),
{
    lemma_notes(begun.1);
    assert(begun.1@.notes.len() == 1);
    assert(begun.1@.notes[0] == begun.1.notes@[0]@);
}

/// What the user is told when the last source failed: its address and its error,
/// whole, and what else can be done.
pub open spec fn farewell(url: Seq<char>, error: Seq<char>) -> Seq<char> {
    "所有下载源均失败："@ + (url + " → "@ + error) + "\n可手动安装：npm install -g @openai/codex"@
}

/// An attempt that worked ends the install, with one note and an answer that says
/// where the binary is. One that failed is told of, and the next source is tried,
/// in order; after the last the install gives up and tells of that one.
pub proof fn law_attempted(
    installation: &mut Installation,
    outcome: Result<(), String>,
    bin: &str,
    step: InstallStep,
)
    requires
        old(installation).waiting(),
        call_ensures(Installation::attempted, (installation, outcome, bin), step),
    ensures
        final(installation).sources() == old(installation).sources(),
        outcome is Ok ==> {
            &&& !final(installation).waiting()
            &&& step.notes@.len() == 1
            &&& says(step.notes@[0], "done"@, 100, "codex 引擎安装完成"@)
            &&& step.next matches InstallNext::Answer(answer)
            &&& is_answer(answer, "installed"@, bin@)
        },
        outcome matches Err(error) ==> {
            let urls = old(installation).sources();
            let rank = old(installation).trying() as int;
            &&& final(installation).trying() == rank + 1
            &&& step.notes@.len() == 2
            &&& says(step.notes@[0], "downloading"@, 0, "该镜像失败，切换下一个…"@)
            &&& rank + 1 < urls.len() ==> tells_of_attempt(step.notes@[1]) && (
            step.next matches InstallNext::Download(url) && url@ == urls[rank + 1])
            &&& rank + 1 == urls.len() ==> says(
                step.notes@[1],
                "error"@,
                0,
                farewell(urls[rank], error@),
            ) && (step.next matches InstallNext::Fail(message) && message@ == farewell(
                urls[rank],
                error@,
            ))
        },
{
    lemma_notes(step);
    match outcome {
        Ok(_) => {
            assert(step@.notes.len() == 1);
            assert(step@.notes[0] == step.notes@[0]@);
            if let InstallNext::Answer(answer) = step.next {
                lemma_is_answer(answer, "installed"@, bin@);
            }
        },
        Err(error) => {
            assert(step@.notes.len() == 2);
            assert(step@.notes[0] == step.notes@[0]@);
            assert(step@.notes[1] == step.notes@[1]@);
        },
    }
}

/// A download keeps every piece of the body, in order, and nothing else; it reads
/// on after a response in the two hundreds and after each piece, unpacks what has
/// come once the body is complete, and gives up with the error on anything else.
pub proof fn law_download(
    platform: Platform,
    package: &mut Vec<u8>,
    event: DownloadEvent,
    action: DownloadAction,
)
    requires
        event matches DownloadEvent::Status(code) ==> 100 <= code <= 999,
        call_ensures(download_and_extract, (platform, package, event), action),
    ensures
        event matches DownloadEvent::Chunk(piece) ==> action is Read && final(package)@ == old(
            package,
        )@ + piece@,
        !(event is Chunk) ==> final(package)@ == old(package)@,
        event matches DownloadEvent::SendFailed(error) ==> (action matches DownloadAction::Fail(
            message,
        ) && message@ == error@),
        event matches DownloadEvent::ReadFailed(error) ==> (action matches DownloadAction::Fail(
            message,
        ) && message@ == error@),
        event matches DownloadEvent::Status(code) ==> (action is Read <==> 200 <= code <= 299),
        event matches DownloadEvent::Status(code) ==> !(200 <= code <= 299) ==> (
        action matches DownloadAction::Fail(message) && message@ == "HTTP "@ + status_line(code)),
        event is End ==> (action matches DownloadAction::Unpack(plan) && is_right(
            plan,
            platform,
            archive_listing(old(package)@),
        )),
{
    if let DownloadAction::Unpack(plan) = action {
        lemma_is_right(plan, platform, archive_listing(package@));
    }
}

} // verus!
