//! Where the engine lives, where it is fetched from, and what installing it
//! does step by step.

use std::path::PathBuf;
use vstd::prelude::*;
use vstd::utf8::{decode_utf8, valid_utf8};

use crate::config::{config_dir_parts, texts};
use crate::http::{check_status, is_success, refusal_text, status_line};
use crate::json::{lemma_fields_view_push, Json, JsonView};
use crate::paths::{home_or_here, home_parts, join_name, path_parts, user_home, PathParts, Platform};
use crate::text::{
    before_first, ends_with, find_first, lemma_before_first, lemma_before_first_joined, pieces_of,
    strip_prefix, without_prefix,
};

verus! {

/// The version of the engine that the client installs.
pub const CODEX_VERSION: &'static str = "0.153.0";

/// The path of the engine's directory, under the root.
pub open spec fn engine_dir_parts(root: PathParts) -> PathParts {
    root.push(".gas-codex"@).push("engine"@)
}

/// The path of the engine's binary, under the root.
///
/// On Windows this is where unpacking puts the binary. The packages are built for
/// Windows; elsewhere the path keeps a directory for the build, which unpacking
/// takes off, so what is unpacked there is not found at it.
pub open spec fn codex_bin_parts(platform: Platform, root: PathParts) -> PathParts {
    let engine = engine_dir_parts(root);
    match platform {
        Platform::Windows => engine.push("bin"@).push("codex.exe"@),
        Platform::Aarch64 => engine.push("aarch64-pc-windows-msvc"@).push("bin"@).push("codex"@),
        Platform::Other => engine.push("x86_64-pc-windows-msvc"@).push("bin"@).push("codex"@),
    }
}

/// The engine's directory, under a given root.
pub fn engine_dir_in(root: &PathBuf) -> (dir: PathBuf)
    ensures
        path_parts(dir) == engine_dir_parts(path_parts(*root)),
{
    proof {
        reveal_strlit(".gas-codex");
        reveal_strlit("engine");
    }
    join_name(&join_name(root, ".gas-codex"), "engine")
}

/// The engine's binary, under a given root.
pub fn codex_bin_in(platform: Platform, root: &PathBuf) -> (bin: PathBuf)
    ensures
        path_parts(bin) == codex_bin_parts(platform, path_parts(*root)),
{
    proof {
        reveal_strlit("bin");
        reveal_strlit("codex");
        reveal_strlit("codex.exe");
        reveal_strlit("aarch64-pc-windows-msvc");
        reveal_strlit("x86_64-pc-windows-msvc");
    }
    let dir = engine_dir_in(root);
    match platform {
        Platform::Windows => join_name(&join_name(&dir, "bin"), "codex.exe"),
        Platform::Aarch64 => join_name(
            &join_name(&join_name(&dir, "aarch64-pc-windows-msvc"), "bin"),
            "codex",
        ),
        Platform::Other => join_name(
            &join_name(&join_name(&dir, "x86_64-pc-windows-msvc"), "bin"),
            "codex",
        ),
    }
}

/// The engine's directory.
pub fn engine_dir() -> (dir: PathBuf)
    ensures
        exists|home: Option<PathBuf>|
            path_parts(dir) == engine_dir_parts(#[trigger] home_parts(home)),
{
    engine_dir_in(&home_or_here(user_home()))
}

/// The engine's binary. On Windows it is where unpacking puts it; elsewhere the
/// path keeps a directory for the build, which unpacking takes off.
pub fn codex_bin(platform: Platform) -> (bin: PathBuf)
    ensures
        exists|home: Option<PathBuf>|
            path_parts(bin) == codex_bin_parts(platform, #[trigger] home_parts(home)),
{
    codex_bin_in(platform, &home_or_here(user_home()))
}

/// The addresses that the engine's package can be fetched from, best first.
pub open spec fn source_urls() -> Seq<Seq<char>> {
    let v = CODEX_VERSION@;
    seq![
        "https://cdn.npmmirror.com/packages/@openai/codex/"@ + v + "-win32-x64/codex-"@ + v
            + "-win32-x64.tgz"@,
        "https://gh-proxy.com/https://github.com/openai/codex/releases/download/rust-v"@ + v
            + "/codex-x86_64-pc-windows-msvc.exe.tar.gz"@,
    ]
}

/// The addresses that the engine's package can be fetched from (Windows x64),
/// best first.
pub fn download_urls() -> (urls: Vec<String>)
    ensures
        texts(urls@) == source_urls(),
{
    let v = CODEX_VERSION;
    let cdn = "https://cdn.npmmirror.com/packages/@openai/codex/".to_owned().concat(v).concat(
        "-win32-x64/codex-",
    ).concat(v).concat("-win32-x64.tgz");
    let proxy =
        "https://gh-proxy.com/https://github.com/openai/codex/releases/download/rust-v".to_owned().concat(
    v).concat("/codex-x86_64-pc-windows-msvc.exe.tar.gz");
    let urls = vec![cdn, proxy];
    assert(texts(urls@) == source_urls());
    urls
}

/// The front of the names that belong to some build in an npm package.
pub const VENDOR_PREFIX: &'static str = "package/vendor/";

/// The front of the names in any npm package.
pub const PACKAGE_PREFIX: &'static str = "package/";

/// What follows the first name of a path and its slash, where both are there.
pub open spec fn behind_first_name(path: Seq<char>) -> Option<Seq<char>> {
    let end = before_first(path, '/') as int;
    if 0 < end < path.len() {
        Some(path.skip(end + 1))
    } else {
        None
    }
}

/// What an entry is called inside the directory of its build, where it lies in
/// one. The directory has the name of the build, whatever that is.
pub open spec fn name_in_build(name: Seq<char>) -> Option<Seq<char>> {
    match without_prefix(name, VENDOR_PREFIX@) {
        Some(rest) => behind_first_name(rest),
        None => None,
    }
}

/// The name inside the engine's directory that an entry of the package gets:
/// its own without the front that only the package needs. A package of another
/// make has its names bare already.
pub open spec fn placed_name(name: Seq<char>) -> Seq<char> {
    match name_in_build(name) {
        Some(rest) => rest,
        None => match without_prefix(name, PACKAGE_PREFIX@) {
            Some(rest) => rest,
            None => name,
        },
    }
}

/// The name inside the engine's directory that an entry of the package gets.
pub fn place_name(name: &str) -> (placed: String)
    ensures
        placed@ == placed_name(name@),
{
    if let Some(rest) = strip_prefix(name, VENDOR_PREFIX) {
        let len: usize = rest.as_str().unicode_len();
        let end: usize = find_first(rest.as_str(), '/');
        if 0 < end && end < len {
            assert(rest@.subrange(end + 1, len as int) == rest@.skip(end + 1));
            return rest.as_str().substring_char(end + 1, len).to_owned();
        }
    }
    match strip_prefix(name, PACKAGE_PREFIX) {
        Some(rest) => rest,
        None => name.to_owned(),
    }
}

/// Whether a character stands between the names of a path.
pub open spec fn is_separator(platform: Platform, c: char) -> bool {
    c == '/' || (platform is Windows && c == '\\')
}

/// A path with each separator written as a slash.
pub open spec fn slashed(platform: Platform, path: Seq<char>) -> Seq<char> {
    path.map_values(
        |c: char|
            if is_separator(platform, c) {
                '/'
            } else {
                c
            },
    )
}

/// The names along a path, first to last: the pieces between separators, empty
/// ones and dots among them.
pub open spec fn names_along(platform: Platform, path: Seq<char>) -> Seq<Seq<char>> {
    pieces_of(slashed(platform, path), '/')
}

/// Whether a name along a path leads nowhere: it is empty, or `.`.
pub open spec fn is_here(name: Seq<char>) -> bool {
    name.len() == 0 || (name.len() == 1 && name[0] == '.')
}

/// Whether a name along a path leads up: it is `..`.
pub open spec fn is_up(name: Seq<char>) -> bool {
    name.len() == 2 && name[0] == '.' && name[1] == '.'
}

/// Whether a name along a path leads down, to a file or directory of that name.
pub open spec fn is_down(name: Seq<char>) -> bool {
    !is_here(name) && !is_up(name)
}

/// Whether names followed one by one, beginning `depth` directories below some
/// directory, ever lead above that directory.
pub open spec fn climbs(names: Seq<Seq<char>>, depth: nat) -> bool
    decreases names.len(),
{
    if names.len() == 0 {
        false
    } else if is_up(names.first()) {
        depth == 0 || climbs(names.drop_first(), (depth - 1) as nat)
    } else if is_here(names.first()) {
        climbs(names.drop_first(), depth)
    } else {
        climbs(names.drop_first(), depth + 1)
    }
}

/// Whether a character is an ASCII letter.
pub open spec fn is_letter(c: char) -> bool {
    ('a' <= c && c <= 'z') || ('A' <= c && c <= 'Z')
}

/// Whether a path begins with a drive: on Windows, a letter and a colon.
pub open spec fn has_drive(platform: Platform, path: Seq<char>) -> bool {
    platform is Windows && path.len() > 1 && is_letter(path[0]) && path[1] == ':'
}

/// Whether a path leads nowhere but into the directory that it is joined to: it
/// does not begin with a separator or a drive, and never climbs above its start.
pub open spec fn stays_inside(platform: Platform, path: Seq<char>) -> bool {
    &&& path.len() > 0 ==> !is_separator(platform, path[0])
    &&& !has_drive(platform, path)
    &&& !climbs(names_along(platform, path), 0)
}

/// Whether a character stands between the names of a path.
fn separates(platform: Platform, c: char) -> (yes: bool)
    ensures
        yes == is_separator(platform, c),
{
    c == '/' || (platform == Platform::Windows && c == '\\')
}

/// Where the name that begins at `start` in a path ends.
fn name_end(platform: Platform, path: &str, start: usize) -> (end: usize)
    requires
        start <= path@.len(),
    ensures
        start <= end <= path@.len(),
        end - start == before_first(slashed(platform, path@).skip(start as int), '/'),
{
    let ghost plain = slashed(platform, path@);
    let len: usize = path.unicode_len();
    let mut end: usize = start;
    while end < len && !separates(platform, path.get_char(end))
        invariant
            start <= end <= len == path@.len() == plain.len(),
            plain == slashed(platform, path@),
            before_first(plain.skip(start as int), '/') == end - start + before_first(
                plain.skip(end as int),
                '/',
            ),
        decreases len - end,
    {
        assert(plain.skip(end as int).first() == plain[end as int]);
        assert(plain.skip(end as int).drop_first() == plain.skip(end + 1));
        end = end + 1;
    }
    end
}

/// Whether a path leads nowhere but into the directory that it is joined to.
pub fn keeps_inside(platform: Platform, path: &str) -> (yes: bool)
    ensures
        yes == stays_inside(platform, path@),
{
    let len: usize = path.unicode_len();
    if len > 0 && separates(platform, path.get_char(0)) {
        return false;
    }
    if platform == Platform::Windows && len > 1 && path.get_char(1) == ':' {
        let c = path.get_char(0);
        if ('a' <= c && c <= 'z') || ('A' <= c && c <= 'Z') {
            return false;
        }
    }
    let ghost plain = slashed(platform, path@);
    let mut start: usize = 0;
    let mut depth: usize = 0;
    assert(plain.skip(0) == plain);
    loop
        invariant
            depth <= start <= len == path@.len() == plain.len(),
            plain == slashed(platform, path@),
            path@.len() > 0 ==> !is_separator(platform, path@[0]),
            !has_drive(platform, path@),
            climbs(pieces_of(plain.skip(start as int), '/'), depth as nat) == climbs(
                names_along(platform, path@),
                0,
            ),
        decreases len - start,
    {
        let end: usize = name_end(platform, path, start);
        let ghost rest = plain.skip(start as int);
        let ghost names = pieces_of(rest, '/');
        let ghost was = depth as nat;
        let here = end == start || (end - start == 1 && path.get_char(start) == '.');
        let up = end - start == 2 && path.get_char(start) == '.' && path.get_char(start + 1) == '.';
        proof {
            if end < len {
                assert(names.first() == rest.take(end - start));
                assert(rest.skip(end - start + 1) == plain.skip(end + 1));
                assert(names.drop_first() == pieces_of(plain.skip(end + 1), '/'));
            } else {
                assert(names.first() == rest);
                assert(names.drop_first().len() == 0);
            }
            assert(here == is_here(names.first()));
            assert(up == is_up(names.first()));
        }
        if up {
            if depth == 0 {
                return false;
            }
            depth = depth - 1;
        }
        if end == len {
            assert(!climbs(names.drop_first(), depth as nat));
            assert(!climbs(names.drop_first(), depth as nat + 1));
            assert(!climbs(names, was));
            return true;
        }
        if !here && !up {
            depth = depth + 1;
        }
        start = end + 1;
    }
}

/// What is done with one entry of the package.
pub enum EntryStep {
    /// Nothing: the entry is a directory or the top of the package itself, or
    /// its name leads out of the engine's directory.
    Skip,
    /// Unpack it to this name inside the engine's directory.
    Unpack(String),
}

/// What is done with one entry of the package.
pub enum StepView {
    Skip,
    Unpack(Seq<char>),
}

impl View for EntryStep {
    type V = StepView;

    open spec fn view(&self) -> StepView {
        match self {
            EntryStep::Skip => StepView::Skip,
            EntryStep::Unpack(name) => StepView::Unpack(name@),
        }
    }
}

/// Whether a placed name stands for no file.
pub open spec fn names_no_file(placed: Seq<char>) -> bool {
    placed.len() == 0 || placed.last() == '/'
}

/// What is done with the entry of that name.
pub open spec fn step_for(platform: Platform, name: Seq<char>) -> StepView {
    if names_no_file(placed_name(name)) || !stays_inside(platform, placed_name(name)) {
        StepView::Skip
    } else {
        StepView::Unpack(placed_name(name))
    }
}

/// What is done with the entry of that name. Nothing is unpacked to a place
/// outside the engine's directory.
pub fn entry_step(platform: Platform, name: &str) -> (step: EntryStep)
    ensures
        step@ == step_for(platform, name@),
        step@ matches StepView::Unpack(placed) ==> stays_inside(platform, placed),
{
    let placed = place_name(name);
    if placed.as_str().unicode_len() == 0 || ends_with(placed.as_str(), '/') || !keeps_inside(
        platform,
        placed.as_str(),
    ) {
        EntryStep::Skip
    } else {
        EntryStep::Unpack(placed)
    }
}

/// One entry of an archive as far as the plan needs it: the bytes of its name,
/// or the error that reading it met.
pub type Listed = Result<Vec<u8>, String>;

/// One entry of an archive, over views.
pub type ListedView = Result<Seq<u8>, Seq<char>>;

/// The view of one entry.
pub open spec fn listed_view(listed: Listed) -> ListedView {
    match listed {
        Ok(bytes) => Ok(bytes@),
        Err(error) => Err(error@),
    }
}

/// The view of a row of entries.
pub open spec fn listing_view(listing: Seq<Listed>) -> Seq<ListedView> {
    listing.map_values(|listed: Listed| listed_view(listed))
}

/// The entries that `tar` finds in the archive that `flate2` unpacks from the
/// bytes.
pub uninterp spec fn archive_listing(package: Seq<u8>) -> Seq<ListedView>;

/// Calls `tar::Archive::entries` over a `flate2::read::GzDecoder` on the bytes,
/// and `tar::Entry::path_bytes` on each entry. What they find is named
/// [`archive_listing`].
#[verifier::external_body]
pub(crate) fn list_archive(package: &[u8]) -> (listing: Vec<Listed>)
    ensures
        listing_view(listing@) == archive_listing(package@),
{
    let mut archive = tar::Archive::new(flate2::read::GzDecoder::new(package));
    match archive.entries() {
        Ok(entries) => entries.map(
            |entry| match entry {
                Ok(entry) => Ok(entry.path_bytes().into_owned()),
                Err(error) => Err(error.to_string()),
            },
        ).collect(),
        Err(error) => vec![Err(error.to_string())],
    }
}

/// The text that bytes decode to, with what is not UTF-8 replaced.
pub uninterp spec fn lossy_text(bytes: Seq<u8>) -> Seq<char>;

/// Calls `String::from_utf8_lossy`. What it gives is named [`lossy_text`];
/// claimed besides: bytes that are UTF-8 give the text that they encode.
#[verifier::external_body]
pub(crate) fn decode_lossy(bytes: &[u8]) -> (text: String)
    ensures
        text@ == lossy_text(bytes@),
        valid_utf8(bytes@) ==> text@ == decode_utf8(bytes@),
{
    String::from_utf8_lossy(bytes).into_owned()
}

/// Calls `std::str::from_utf8`. Claimed: it succeeds on UTF-8 and on nothing
/// else.
#[verifier::external_body]
pub(crate) fn is_utf8(bytes: &[u8]) -> (valid: bool)
    ensures
        valid == valid_utf8(bytes@),
{
    std::str::from_utf8(bytes).is_ok()
}

/// The name of an entry as text, or why it has none: an entry that could not be
/// read, or on Windows one whose name is no Unicode. Elsewhere such a name is
/// patched up.
pub open spec fn entry_text(platform: Platform, listed: ListedView) -> Result<
    Seq<char>,
    Seq<char>,
> {
    match listed {
        Ok(bytes) => if valid_utf8(bytes) {
            Ok(decode_utf8(bytes))
        } else if platform is Windows {
            Err("only Unicode paths are supported on Windows: "@ + lossy_text(bytes))
        } else {
            Ok(lossy_text(bytes))
        },
        Err(error) => Err(error),
    }
}

/// The name of an entry as text, or why it has none.
pub fn entry_name(platform: Platform, listed: &Listed) -> (name: Result<String, String>)
    ensures
        match name {
            Ok(text) => entry_text(platform, listed_view(*listed)) == Ok::<Seq<char>, Seq<char>>(
                text@,
            ),
            Err(error) => entry_text(platform, listed_view(*listed)) == Err::<Seq<char>, Seq<char>>(
                error@,
            ),
        },
{
    match listed {
        Ok(bytes) => {
            let text = decode_lossy(bytes.as_slice());
            if platform == Platform::Windows && !is_utf8(bytes.as_slice()) {
                Err("only Unicode paths are supported on Windows: ".to_owned().concat(text.as_str()))
            } else {
                Ok(text)
            }
        },
        Err(error) => Err(error.clone()),
    }
}

/// What is done with the entries of an archive, up to the first without a name.
pub open spec fn plan_steps(platform: Platform, listing: Seq<ListedView>) -> Seq<StepView>
    decreases listing.len(),
{
    if listing.len() == 0 {
        Seq::empty()
    } else {
        match entry_text(platform, listing.first()) {
            Ok(name) => seq![step_for(platform, name)] + plan_steps(
                platform,
                listing.drop_first(),
            ),
            Err(_) => Seq::empty(),
        }
    }
}

/// Why the first entry without a name has none, if there is such an entry.
pub open spec fn plan_failure(platform: Platform, listing: Seq<ListedView>) -> Option<Seq<char>>
    decreases listing.len(),
{
    if listing.len() == 0 {
        None
    } else {
        match entry_text(platform, listing.first()) {
            Ok(_) => plan_failure(platform, listing.drop_first()),
            Err(error) => Some(error),
        }
    }
}

/// How unpacking ends, once the steps are done.
pub enum ExtractEnd {
    /// Write the text to the file of this name in the engine's directory, to
    /// mark the install as complete.
    Stamp(String, String),
    /// Give up with this error.
    Fail(String),
}

/// What unpacking a package does: one step for each entry in turn, then the end.
pub struct ExtractPlan {
    pub steps: Vec<EntryStep>,
    pub end: ExtractEnd,
}

/// The steps of a plan, each by its view.
pub open spec fn steps_view(steps: Seq<EntryStep>) -> Seq<StepView> {
    steps.map_values(|step: EntryStep| step@)
}

/// Whether a plan is the one for a listing.
pub open spec fn plans(plan: ExtractPlan, platform: Platform, listing: Seq<ListedView>) -> bool {
    &&& steps_view(plan.steps@) == plan_steps(platform, listing)
    &&& match plan.end {
        ExtractEnd::Stamp(name, text) => {
            &&& plan_failure(platform, listing) is None
            &&& name@ == "VERSION"@
            &&& text@ == CODEX_VERSION@
        },
        ExtractEnd::Fail(error) => plan_failure(platform, listing) == Some(error@),
    }
}

/// Plans the unpacking of an archive whose entries are listed.
pub fn plan_extraction(platform: Platform, listing: &Vec<Listed>) -> (plan: ExtractPlan)
    ensures
        plans(plan, platform, listing_view(listing@)),
{
    let ghost row = listing_view(listing@);
    let mut steps: Vec<EntryStep> = Vec::new();
    let mut i: usize = 0;
    assert(row.skip(0) == row);
    while i < listing.len()
        invariant
            i <= listing@.len() == row.len(),
            row == listing_view(listing@),
            plan_steps(platform, row) == steps_view(steps@) + plan_steps(
                platform,
                row.skip(i as int),
            ),
            plan_failure(platform, row) == plan_failure(platform, row.skip(i as int)),
        decreases listing@.len() - i,
    {
        let ghost rest = row.skip(i as int);
        assert(rest.first() == listed_view(listing@[i as int]));
        assert(rest.drop_first() == row.skip(i + 1));
        match entry_name(platform, &listing[i]) {
            Ok(name) => {
                let ghost before = steps@;
                steps.push(entry_step(platform, name.as_str()));
                assert(steps_view(steps@) == steps_view(before).push(step_for(platform, name@)));
                assert(plan_steps(platform, row) == steps_view(steps@) + plan_steps(
                    platform,
                    row.skip(i + 1),
                ));
            },
            Err(error) => {
                assert(plan_steps(platform, row) == steps_view(steps@));
                return ExtractPlan { steps, end: ExtractEnd::Fail(error) };
            },
        }
        i = i + 1;
    }
    assert(plan_steps(platform, row) == steps_view(steps@));
    let end = ExtractEnd::Stamp("VERSION".to_owned(), CODEX_VERSION.to_owned());
    ExtractPlan { steps, end }
}

/// Plans the unpacking of a package: which entry goes where inside the engine's
/// directory.
pub fn extract_tgz(platform: Platform, package: &[u8]) -> (plan: ExtractPlan)
    ensures
        plans(plan, platform, archive_listing(package@)),
{
    let listing = list_archive(package);
    plan_extraction(platform, &listing)
}

/// A word on how the install is going, for the user to see.
#[derive(Debug)]
pub struct InstallProgress {
    /// `downloading`, `extracting`, `done` or `error`.
    pub stage: String,
    /// From 0 to 100.
    pub percent: u32,
    pub message: String,
}

/// A word on how the install is going.
pub struct ProgressView {
    pub stage: Seq<char>,
    pub percent: u32,
    pub message: Seq<char>,
}

impl View for InstallProgress {
    type V = ProgressView;

    open spec fn view(&self) -> ProgressView {
        ProgressView { stage: self.stage@, percent: self.percent, message: self.message@ }
    }
}

impl Clone for InstallProgress {
    fn clone(&self) -> (copy: Self)
        ensures
            copy@ == self@,
    {
        InstallProgress {
            stage: self.stage.clone(),
            percent: self.percent,
            message: self.message.clone(),
        }
    }
}

/// Writes a word on how the install is going.
pub fn progress(stage: &str, percent: u32, message: &str) -> (note: InstallProgress)
    ensures
        note@ == (ProgressView { stage: stage@, percent: percent, message: message@ }),
{
    InstallProgress { stage: stage.to_owned(), percent, message: message.to_owned() }
}

/// What the install does next.
pub enum InstallNext {
    /// Fetch the package from this address and unpack it.
    Download(String),
    /// Answer that the engine is in place.
    Answer(Json),
    /// Give up with this error.
    Fail(String),
}

/// What the install does next.
pub enum NextView {
    Download(Seq<char>),
    Answer(JsonView),
    Fail(Seq<char>),
}

impl View for InstallNext {
    type V = NextView;

    open spec fn view(&self) -> NextView {
        match self {
            InstallNext::Download(url) => NextView::Download(url@),
            InstallNext::Answer(json) => NextView::Answer(json@),
            InstallNext::Fail(error) => NextView::Fail(error@),
        }
    }
}

/// One step of the install: the words to show, in order, and what comes next.
pub struct InstallStep {
    pub notes: Vec<InstallProgress>,
    pub next: InstallNext,
}

/// One step of the install.
pub struct InstallStepView {
    pub notes: Seq<ProgressView>,
    pub next: NextView,
}

impl View for InstallStep {
    type V = InstallStepView;

    open spec fn view(&self) -> InstallStepView {
        InstallStepView {
            notes: self.notes@.map_values(|note: InstallProgress| note@),
            next: self.next@,
        }
    }
}

/// The answer that says one thing of the engine and where its binary is.
pub open spec fn engine_answer(fact: Seq<char>, bin: Seq<char>) -> JsonView {
    JsonView::Object(
        Map::empty().insert(fact, JsonView::Bool(true)).insert("path"@, JsonView::Text(bin)),
    )
}

/// The word before each attempt.
pub open spec fn attempt_note() -> ProgressView {
    ProgressView {
        stage: "downloading"@,
        percent: 0,
        message: "正在从镜像下载 codex 引擎（约 140MB）…"@,
    }
}

/// The word after each attempt that failed.
pub open spec fn switch_note() -> ProgressView {
    ProgressView { stage: "downloading"@, percent: 0, message: "该镜像失败，切换下一个…"@ }
}

/// The word at the end of an install that worked.
pub open spec fn done_note() -> ProgressView {
    ProgressView { stage: "done"@, percent: 100, message: "codex 引擎安装完成"@ }
}

/// What the user is told when no source worked, given what the last one met.
pub open spec fn exhausted_text(last: Seq<char>) -> Seq<char> {
    "所有下载源均失败："@ + last + "\n可手动安装：npm install -g @openai/codex"@
}

/// What one source met, with its address.
pub open spec fn attempt_error(url: Seq<char>, error: Seq<char>) -> Seq<char> {
    url + " → "@ + error
}

/// The step to the source of that rank, or to the end where there is none.
pub open spec fn turn_to(urls: Seq<Seq<char>>, rank: int, last: Seq<char>) -> InstallStepView {
    if rank < urls.len() {
        InstallStepView { notes: seq![attempt_note()], next: NextView::Download(urls[rank]) }
    } else {
        InstallStepView {
            notes: seq![
                ProgressView { stage: "error"@, percent: 0, message: exhausted_text(last) },
            ],
            next: NextView::Fail(exhausted_text(last)),
        }
    }
}

/// The step after the source of that rank failed.
pub open spec fn after_failure(urls: Seq<Seq<char>>, rank: int, error: Seq<char>) -> InstallStepView {
    let turn = turn_to(urls, rank + 1, attempt_error(urls[rank], error));
    InstallStepView { notes: seq![switch_note()] + turn.notes, next: turn.next }
}

/// The step after a source worked.
pub open spec fn after_success(bin: Seq<char>) -> InstallStepView {
    InstallStepView {
        notes: seq![done_note()],
        next: NextView::Answer(engine_answer("installed"@, bin)),
    }
}

/// Makes [`engine_answer`].
pub fn answer_with(fact: &str, bin: &str) -> (answer: Json)
    ensures
        answer@ == engine_answer(fact@, bin@),
{
    let fact_field = (fact.to_owned(), Json::Bool(true));
    let path_field = ("path".to_owned(), Json::Text(bin.to_owned()));
    let mut fields: Vec<(String, Json)> = Vec::new();
    proof {
        lemma_fields_view_push(fields@, fact_field);
        lemma_fields_view_push(fields@.push(fact_field), path_field);
    }
    fields.push(fact_field);
    fields.push(path_field);
    Json::Object(fields)
}

/// An install that is under way: the sources, and which of them is being tried.
pub struct Installation {
    urls: Vec<String>,
    rank: usize,
}

impl Installation {
    /// The addresses of the sources, in the order in which they are tried.
    pub closed spec fn sources(&self) -> Seq<Seq<char>> {
        texts(self.urls@)
    }

    /// The rank of the source that is being tried; the number of sources once
    /// there is none left to try.
    pub closed spec fn trying(&self) -> nat {
        self.rank as nat
    }

    /// Whether an attempt is under way.
    pub open spec fn waiting(&self) -> bool {
        self.trying() < self.sources().len()
    }

    /// The step to the source that is being tried, or to the end.
    fn turn(&self, last: &str) -> (step: InstallStep)
        ensures
            step@ == turn_to(self.sources(), self.trying() as int, last@),
    {
        if self.rank < self.urls.len() {
            let step = InstallStep {
                notes: vec![
                    progress("downloading", 0, "正在从镜像下载 codex 引擎（约 140MB）…"),
                ],
                next: InstallNext::Download(self.urls[self.rank].clone()),
            };
            assert(step@.notes == seq![attempt_note()]);
            step
        } else {
            let message = "所有下载源均失败：".to_owned().concat(last).concat(
                "\n可手动安装：npm install -g @openai/codex",
            );
            let step = InstallStep {
                notes: vec![progress("error", 0, message.as_str())],
                next: InstallNext::Fail(message),
            };
            assert(step@.notes == turn_to(self.sources(), self.trying() as int, last@).notes);
            step
        }
    }

    /// Begins with the first source.
    pub fn begin() -> (begun: (Installation, InstallStep))
        ensures
            begun.0.sources() == source_urls(),
            begun.0.trying() == 0,
            begun.1@ == turn_to(source_urls(), 0, Seq::empty()),
    {
        let installation = Installation { urls: download_urls(), rank: 0 };
        let last = String::new();
        let step = installation.turn(last.as_str());
        (installation, step)
    }

    /// Takes note of what the attempt under way came to. `bin` is the path of
    /// the engine's binary, as text.
    pub fn attempted(&mut self, outcome: Result<(), String>, bin: &str) -> (step: InstallStep)
        requires
            old(self).waiting(),
        ensures
            final(self).sources() == old(self).sources(),
            match outcome {
                Ok(_) => {
                    &&& step@ == after_success(bin@)
                    &&& !final(self).waiting()
                },
                Err(error) => {
                    &&& step@ == after_failure(
                        old(self).sources(),
                        old(self).trying() as int,
                        error@,
                    )
                    &&& final(self).trying() == old(self).trying() + 1
                },
            },
    {
        match outcome {
            Ok(_) => {
                self.rank = self.urls.len();
                let step = InstallStep {
                    notes: vec![progress("done", 100, "codex 引擎安装完成")],
                    next: InstallNext::Answer(answer_with("installed", bin)),
                };
                assert(step@.notes == seq![done_note()]);
                step
            },
            Err(error) => {
                let last = self.urls[self.rank].clone().concat(" → ").concat(error.as_str());
                assert(self.rank < self.urls.len());
                self.rank = self.rank + 1;
                let turn = self.turn(last.as_str());
                let ghost shown = turn@.notes;
                let mut notes = vec![
                    progress("downloading", 0, "该镜像失败，切换下一个…"),
                ];
                let mut more = turn.notes;
                notes.append(&mut more);
                let step = InstallStep { notes, next: turn.next };
                assert(step@.notes == seq![switch_note()] + shown);
                step
            },
        }
    }
}

/// The first step of an install, given whether the binary is in place.
pub open spec fn first_step(installed: bool, bin: Seq<char>) -> InstallStepView {
    if installed {
        InstallStepView {
            notes: Seq::empty(),
            next: NextView::Answer(engine_answer("alreadyInstalled"@, bin)),
        }
    } else {
        turn_to(source_urls(), 0, Seq::empty())
    }
}

/// Sets out to install the engine. `installed` tells whether its binary is in
/// place, `bin` is the path of it as text. There is an install to go on with
/// only where the step is a download.
pub fn install_engine(installed: bool, bin: &str) -> (begun: (Option<Installation>, InstallStep))
    ensures
        begun.1@ == first_step(installed, bin@),
        match begun.0 {
            Some(installation) => {
                &&& !installed
                &&& installation.sources() == source_urls()
                &&& installation.trying() == 0
            },
            None => installed,
        },
{
    if installed {
        let step = InstallStep {
            notes: vec![],
            next: InstallNext::Answer(answer_with("alreadyInstalled", bin)),
        };
        assert(step@.notes == Seq::<ProgressView>::empty());
        (None, step)
    } else {
        let (installation, step) = Installation::begin();
        (Some(installation), step)
    }
}

/// What a download has come to.
pub enum DownloadEvent {
    /// Sending the request failed, with the error as text.
    SendFailed(String),
    /// A response with this status code.
    Status(u16),
    /// The next piece of the body.
    Chunk(Vec<u8>),
    /// Reading the body failed, with the error as text.
    ReadFailed(String),
    /// The body is complete.
    End,
}

/// What a download does next.
pub enum DownloadAction {
    /// Read the next piece of the body.
    Read,
    /// Give up with this error.
    Fail(String),
    /// Keep the package while it is unpacked as planned, then remove it.
    Unpack(ExtractPlan),
}

/// The file that the package is kept in while it is unpacked, under a given
/// root.
pub fn download_file_in(root: &PathBuf) -> (file: PathBuf)
    ensures
        path_parts(file) == engine_dir_parts(path_parts(*root)).push("download.tgz"@),
{
    proof {
        reveal_strlit("download.tgz");
    }
    join_name(&engine_dir_in(root), "download.tgz")
}

/// The file that the package is kept in while it is unpacked.
pub fn download_file() -> (file: PathBuf)
    ensures
        exists|home: Option<PathBuf>|
            path_parts(file) == engine_dir_parts(#[trigger] home_parts(home)).push(
                "download.tgz"@,
            ),
{
    download_file_in(&home_or_here(user_home()))
}

/// Goes on with a download: from what happened to what is done next. `package`
/// is what has come of the body so far.
pub fn download_and_extract(
    platform: Platform,
    package: &mut Vec<u8>,
    event: DownloadEvent,
) -> (action: DownloadAction)
    requires
        event matches DownloadEvent::Status(code) ==> 100 <= code <= 999,
    ensures
        final(package)@ == old(package)@ + match event {
            DownloadEvent::Chunk(piece) => piece@,
            _ => Seq::empty(),
        },
        match event {
            DownloadEvent::SendFailed(error) => action matches DownloadAction::Fail(message)
                && message@ == error@,
            DownloadEvent::Status(code) => if is_success(code) {
                action is Read
            } else {
                action matches DownloadAction::Fail(message) && message@ == refusal_text(
                    status_line(code),
                )
            },
            DownloadEvent::Chunk(_) => action is Read,
            DownloadEvent::ReadFailed(error) => action matches DownloadAction::Fail(message)
                && message@ == error@,
            DownloadEvent::End => action matches DownloadAction::Unpack(plan) && plans(
                plan,
                platform,
                archive_listing(old(package)@),
            ),
        },
{
    match event {
        DownloadEvent::SendFailed(error) => DownloadAction::Fail(error),
        DownloadEvent::Status(code) => match check_status(code) {
            Ok(_) => DownloadAction::Read,
            Err(message) => DownloadAction::Fail(message),
        },
        DownloadEvent::Chunk(piece) => {
            let mut piece = piece;
            package.append(&mut piece);
            DownloadAction::Read
        },
        DownloadEvent::ReadFailed(error) => DownloadAction::Fail(error),
        DownloadEvent::End => DownloadAction::Unpack(extract_tgz(platform, package.as_slice())),
    }
}

/// The engine's binary lies inside the engine's directory, which lies inside the
/// client's settings directory.
pub proof fn lemma_engine_inside(platform: Platform, root: PathParts)
    ensures
        codex_bin_parts(platform, root).inside(engine_dir_parts(root)),
        engine_dir_parts(root).inside(config_dir_parts(root)),
{
    let bin = codex_bin_parts(platform, root).names;
    let engine = engine_dir_parts(root).names;
    let config = config_dir_parts(root).names;
    assert(engine == bin.take(engine.len() as int));
    assert(config == engine.take(config.len() as int));
}

/// The front of the names in the directory of one build.
pub open spec fn build_prefix(build: Seq<char>) -> Seq<char> {
    VENDOR_PREFIX@ + build.push('/')
}

/// What lies in the directory of a build in the package lands right in the
/// engine's directory, whichever build it is.
pub proof fn lemma_vendor_names(build: Seq<char>, rest: Seq<char>)
    requires
        build.len() > 0,
        !build.contains('/'),
    ensures
        placed_name(build_prefix(build) + rest) == rest,
{
    let name = build_prefix(build) + rest;
    let tail = build.push('/') + rest;
    assert(name.take(VENDOR_PREFIX@.len() as int) == VENDOR_PREFIX@);
    assert(name.skip(VENDOR_PREFIX@.len() as int) == tail);
    lemma_before_first_joined(build, '/', rest);
    assert(tail.skip(build.len() as int + 1) == rest);
}

/// A name in the directory of a build is the front of that build and the name
/// that it is placed under; another name in the package loses the front of the
/// package; one outside the package stays as it is.
pub proof fn lemma_placed_names(name: Seq<char>)
    ensures
        name_in_build(name) is Some ==> exists|build: Seq<char>|
            build.len() > 0 && !build.contains('/') && name == #[trigger] build_prefix(build)
                + placed_name(name),
        name_in_build(name) is None && PACKAGE_PREFIX@.is_prefix_of(name) ==> name
            == PACKAGE_PREFIX@ + placed_name(name),
        name_in_build(name) is None && !PACKAGE_PREFIX@.is_prefix_of(name) ==> placed_name(name)
            == name,
{
    if name_in_build(name) is Some {
        let tail = name.skip(VENDOR_PREFIX@.len() as int);
        let end = before_first(tail, '/') as int;
        let build = tail.take(end);
        lemma_before_first(tail, '/');
        assert(name == VENDOR_PREFIX@ + tail);
        assert(tail == build.push('/') + placed_name(name));
        assert(name == build_prefix(build) + placed_name(name));
    } else if PACKAGE_PREFIX@.is_prefix_of(name) {
        assert(name == PACKAGE_PREFIX@ + name.skip(PACKAGE_PREFIX@.len() as int));
    }
}

/// A file in the directory of a build is unpacked right into the engine's
/// directory, unless its name leads out of there.
pub proof fn lemma_vendor_files(platform: Platform, build: Seq<char>, rest: Seq<char>)
    requires
        build.len() > 0,
        !build.contains('/'),
        !names_no_file(rest),
        stays_inside(platform, rest),
    ensures
        step_for(platform, build_prefix(build) + rest) == StepView::Unpack(rest),
{
    lemma_vendor_names(build, rest);
}

/// What is unpacked has the name of a file, not empty and not that of a
/// directory, and stays inside the engine's directory.
pub proof fn lemma_unpacked_names(platform: Platform, name: Seq<char>)
    ensures
        step_for(platform, name) matches StepView::Unpack(placed) ==> placed.len() > 0
            && placed.last() != '/' && stays_inside(platform, placed),
        name.len() > 0 && name.last() == '/' ==> step_for(platform, name) is Skip,
{
    if name.len() > 0 && name.last() == '/' {
        let placed = placed_name(name);
        if placed.len() > 0 {
            assert(placed.last() == name.last());
        }
    }
}

/// Where one name leads from a path of names.
pub open spec fn follow(names: Seq<Seq<char>>, name: Seq<char>) -> Seq<Seq<char>> {
    if is_here(name) {
        names
    } else if is_up(name) {
        names.drop_last()
    } else {
        names.push(name)
    }
}

/// Where names followed one by one lead from a path of names.
pub open spec fn follow_all(names: Seq<Seq<char>>, along: Seq<Seq<char>>) -> Seq<Seq<char>>
    decreases along.len(),
{
    if along.len() == 0 {
        names
    } else {
        follow_all(follow(names, along.first()), along.drop_first())
    }
}

/// The path that a name leads to from a directory, with the dots in it followed.
pub open spec fn file_in(platform: Platform, dir: PathParts, name: Seq<char>) -> PathParts {
    PathParts { front: dir.front, names: follow_all(dir.names, names_along(platform, name)) }
}

/// Names that do not climb lead to the same place below a directory, whichever
/// directory it is.
proof fn lemma_follow_below(
    dir: Seq<Seq<char>>,
    below: Seq<Seq<char>>,
    along: Seq<Seq<char>>,
)
    requires
        !climbs(along, below.len()),
    ensures
        follow_all(dir + below, along) == dir + follow_all(below, along),
    decreases along.len(),
{
    if along.len() > 0 {
        let next = follow(below, along.first());
        assert(follow(dir + below, along.first()) == dir + next);
        lemma_follow_below(dir, next, along.drop_first());
    }
}

/// What following names adds are names that lead down, and the last name is
/// among them if it leads down.
proof fn lemma_follow_down(below: Seq<Seq<char>>, along: Seq<Seq<char>>)
    requires
        !climbs(along, below.len()),
        forall|i: int| 0 <= i < below.len() ==> is_down(#[trigger] below[i]),
    ensures
        forall|i: int|
            0 <= i < follow_all(below, along).len() ==> is_down(
                #[trigger] follow_all(below, along)[i],
            ),
        along.len() > 0 && is_down(along.last()) ==> follow_all(below, along).len() > 0,
    decreases along.len(),
{
    if along.len() > 0 {
        let rest = along.drop_first();
        let next = follow(below, along.first());
        lemma_follow_down(next, rest);
        assert(follow_all(below, along) == follow_all(next, rest));
        if rest.len() > 0 {
            assert(rest.last() == along.last());
        }
    }
}

/// A name that stays inside leads from a directory to a path inside it, or to the
/// directory itself where nothing is left of the name once the dots in it are
/// followed. Below the directory there are no dots left in the path.
pub proof fn lemma_stays_inside(platform: Platform, dir: PathParts, name: Seq<char>)
    requires
        stays_inside(platform, name),
    ensures
        file_in(platform, dir, name).inside(dir) || file_in(platform, dir, name) == dir,
        is_down(names_along(platform, name).last()) ==> file_in(platform, dir, name).inside(dir),
        forall|i: int|
            dir.names.len() <= i < file_in(platform, dir, name).names.len() ==> is_down(
                #[trigger] file_in(platform, dir, name).names[i],
            ),
{
    let along = names_along(platform, name);
    let none = Seq::<Seq<char>>::empty();
    let added = follow_all(none, along);
    let path = file_in(platform, dir, name);
    lemma_follow_below(dir.names, none, along);
    lemma_follow_down(none, along);
    assert(dir.names + none == dir.names);
    assert(path.names == dir.names + added);
    assert(path.names.take(dir.names.len() as int) == dir.names);
    assert forall|i: int| dir.names.len() <= i < path.names.len() implies is_down(
        #[trigger] path.names[i],
    ) by {
        assert(path.names[i] == added[i - dir.names.len()]);
    }
    if added.len() == 0 {
        assert(path.names == dir.names);
    }
}

/// Whatever names an archive holds, no step of the plan for it unpacks an entry to
/// a path outside the engine's directory: the path lies inside, or is the
/// directory itself, and has no dots left below it. The plan goes by the names of
/// entries. Where a link that was unpacked before leads is not part of it.
pub proof fn lemma_plan_stays_inside(
    platform: Platform,
    listing: Seq<ListedView>,
    i: int,
    root: PathParts,
)
    requires
        0 <= i < plan_steps(platform, listing).len(),
    ensures
        plan_steps(platform, listing)[i] matches StepView::Unpack(placed) ==> {
            let dir = engine_dir_parts(root);
            let path = file_in(platform, dir, placed);
            &&& stays_inside(platform, placed)
            &&& path.inside(dir) || path == dir
            &&& is_down(names_along(platform, placed).last()) ==> path.inside(dir)
            &&& forall|j: int|
                dir.names.len() <= j < path.names.len() ==> is_down(#[trigger] path.names[j])
        },
{
    lemma_plan_covers_listing(platform, listing);
    if let StepView::Unpack(placed) = plan_steps(platform, listing)[i] {
        lemma_stays_inside(platform, engine_dir_parts(root), placed);
    }
}

/// Whether the steps unpack something to that path.
pub open spec fn unpacks_to(
    platform: Platform,
    steps: Seq<StepView>,
    dir: PathParts,
    path: PathParts,
) -> bool {
    exists|i: int|
        0 <= i < steps.len() && (#[trigger] steps[i] matches StepView::Unpack(name) && file_in(
            platform,
            dir,
            name,
        ) == path)
}

/// The name of the binary, inside the directory of a build.
pub const BINARY: &'static str = "bin/codex.exe";

/// The names along the name of the binary.
proof fn lemma_binary_names()
    ensures
        names_along(Platform::Windows, BINARY@) == seq!["bin"@, "codex.exe"@],
{
    let bin = "bin"@;
    let exe = "codex.exe"@;
    reveal_strlit("bin/codex.exe");
    reveal_strlit("bin");
    reveal_strlit("codex.exe");
    assert(slashed(Platform::Windows, BINARY@) == BINARY@);
    assert(BINARY@ == bin.push('/') + exe);
    lemma_before_first_joined(bin, '/', exe);
    lemma_before_first(exe, '/');
    assert(BINARY@.take(3) == bin);
    assert(BINARY@.skip(4) == exe);
    assert(pieces_of(exe, '/') == seq![exe]);
    assert(pieces_of(BINARY@, '/') == seq![bin] + seq![exe]);
}

/// The name of the binary names a file, and stays inside the engine's directory,
/// where it leads down twice.
proof fn lemma_binary_inside()
    ensures
        !names_no_file(BINARY@),
        stays_inside(Platform::Windows, BINARY@),
        is_down("bin"@),
        is_down("codex.exe"@),
{
    let along = names_along(Platform::Windows, BINARY@);
    lemma_binary_names();
    reveal_strlit("bin/codex.exe");
    reveal_strlit("bin");
    reveal_strlit("codex.exe");
    assert(along.drop_first().drop_first().len() == 0);
    assert(!climbs(along.drop_first().drop_first(), 2));
    assert(along.drop_first().first() == "codex.exe"@);
    assert(!climbs(along.drop_first(), 1));
}

/// On Windows, the name of the binary leads from the engine's directory to where
/// the binary is looked for.
pub proof fn lemma_binary_place(root: PathParts)
    ensures
        file_in(Platform::Windows, engine_dir_parts(root), BINARY@) == codex_bin_parts(
            Platform::Windows,
            root,
        ),
{
    let dir = engine_dir_parts(root).names;
    let along = names_along(Platform::Windows, BINARY@);
    lemma_binary_names();
    lemma_binary_inside();
    let rest = along.drop_first();
    assert(rest.first() == "codex.exe"@);
    assert(rest.drop_first().len() == 0);
    let lower = dir.push("bin"@);
    assert(follow_all(dir, along) == follow_all(lower, rest));
    assert(follow_all(lower, rest) == follow_all(lower.push("codex.exe"@), rest.drop_first()));
}

/// The binary gets its name whether it lies in the directory of a build, whichever
/// build it is, or bare in a package of another make.
pub proof fn lemma_binary_is_named(build: Seq<char>)
    requires
        build.len() > 0,
        !build.contains('/'),
    ensures
        placed_name(build_prefix(build) + BINARY@) == BINARY@,
        placed_name(BINARY@) == BINARY@,
{
    lemma_vendor_names(build, BINARY@);
    reveal_strlit("bin/codex.exe");
    reveal_strlit("package/vendor/");
    reveal_strlit("package/");
    assert(BINARY@[0] != VENDOR_PREFIX@[0]);
    assert(BINARY@.take(8)[0] != PACKAGE_PREFIX@[0]);
}

/// On Windows, an entry that gets the name of the binary is unpacked to where the
/// binary is looked for.
pub proof fn lemma_binary_is_placed(name: Seq<char>, root: PathParts)
    requires
        placed_name(name) == BINARY@,
    ensures
        step_for(Platform::Windows, name) == StepView::Unpack(BINARY@),
        file_in(Platform::Windows, engine_dir_parts(root), BINARY@) == codex_bin_parts(
            Platform::Windows,
            root,
        ),
{
    lemma_binary_inside();
    lemma_binary_place(root);
}

/// The engine is fetched once. On Windows, a package that holds the binary and was
/// unpacked to its end leaves the binary in its place, and an install that is
/// asked for when it is there shows nothing, fetches nothing, and answers that the
/// engine is installed already, and where.
pub proof fn lemma_installed_once(
    listing: Seq<ListedView>,
    i: int,
    name: Seq<char>,
    root: PathParts,
    bin: Seq<char>,
)
    requires
        plan_failure(Platform::Windows, listing) is None,
        0 <= i < listing.len(),
        entry_text(Platform::Windows, listing[i]) == Ok::<Seq<char>, Seq<char>>(name),
        placed_name(name) == BINARY@,
    ensures
        ({
            let there = unpacks_to(
                Platform::Windows,
                plan_steps(Platform::Windows, listing),
                engine_dir_parts(root),
                codex_bin_parts(Platform::Windows, root),
            );
            &&& there
            &&& first_step(there, bin).notes.len() == 0
            &&& first_step(there, bin).next == NextView::Answer(
                engine_answer("alreadyInstalled"@, bin),
            )
        }),
{
    let steps = plan_steps(Platform::Windows, listing);
    lemma_plan_covers_listing(Platform::Windows, listing);
    lemma_binary_is_placed(name, root);
    assert(steps[i] == StepView::Unpack(BINARY@));
}

/// A plan has a step for each entry up to the first without a name; where every
/// entry has one, it has a step for each, and ends well.
pub proof fn lemma_plan_covers_listing(platform: Platform, listing: Seq<ListedView>)
    ensures
        plan_steps(platform, listing).len() <= listing.len(),
        plan_failure(platform, listing) is None <==> plan_steps(platform, listing).len()
            == listing.len(),
        forall|i: int|
            0 <= i < plan_steps(platform, listing).len() ==> entry_text(platform, listing[i]) is Ok
                && #[trigger] plan_steps(platform, listing)[i] == step_for(
                platform,
                entry_text(platform, listing[i])->Ok_0,
            ),
        plan_failure(platform, listing) matches Some(error) ==> entry_text(
            platform,
            listing[plan_steps(platform, listing).len() as int],
        ) == Err::<Seq<char>, Seq<char>>(error),
    decreases listing.len(),
{
    if listing.len() > 0 {
        let rest = listing.drop_first();
        lemma_plan_covers_listing(platform, rest);
        if let Ok(name) = entry_text(platform, listing.first()) {
            let steps = plan_steps(platform, listing);
            assert(steps == seq![step_for(platform, name)] + plan_steps(platform, rest));
            assert forall|i: int| 0 <= i < steps.len() implies entry_text(platform, listing[i]) is Ok
                && #[trigger] steps[i] == step_for(
                platform,
                entry_text(platform, listing[i])->Ok_0,
            ) by {
                if i > 0 {
                    assert(rest[i - 1] == listing[i]);
                    assert(plan_steps(platform, rest)[i - 1] == steps[i]);
                }
            }
            if plan_failure(platform, listing) is Some {
                assert(rest[plan_steps(platform, rest).len() as int] == listing[steps.len() as int]);
            }
        }
    }
}

/// The step that an install has come to after the attempts so far all failed,
/// with these errors.
pub open spec fn step_after(urls: Seq<Seq<char>>, errors: Seq<Seq<char>>) -> InstallStepView {
    if errors.len() == 0 {
        turn_to(urls, 0, Seq::empty())
    } else {
        after_failure(urls, errors.len() - 1, errors.last())
    }
}

/// The sources are tried one by one in their order, each once; only when all
/// have failed does the install give up, and it tells of the last.
pub proof fn lemma_sources_in_turn(urls: Seq<Seq<char>>, errors: Seq<Seq<char>>)
    requires
        errors.len() <= urls.len(),
    ensures
        errors.len() < urls.len() ==> step_after(urls, errors).next == NextView::Download(
            urls[errors.len() as int],
        ),
        errors.len() == urls.len() && urls.len() > 0 ==> step_after(urls, errors).next
            == NextView::Fail(exhausted_text(attempt_error(urls.last(), errors.last()))),
{
}

/// The words that may be shown: a known stage, a percentage, and the full
/// hundred at the end of an install that worked and at no other time.
pub open spec fn is_proper_note(note: ProgressView) -> bool {
    &&& note.stage == "downloading"@ || note.stage == "extracting"@ || note.stage == "done"@
        || note.stage == "error"@
    &&& note.percent <= 100
    &&& note.percent == 100 <==> note.stage == "done"@
}

/// Every word that an install shows is a proper one.
pub proof fn lemma_notes_are_proper(
    urls: Seq<Seq<char>>,
    rank: int,
    error: Seq<char>,
    bin: Seq<char>,
)
    ensures
        forall|i: int|
            0 <= i < turn_to(urls, rank, error).notes.len() ==> is_proper_note(
                #[trigger] turn_to(urls, rank, error).notes[i],
            ),
        forall|i: int|
            0 <= i < after_failure(urls, rank, error).notes.len() ==> is_proper_note(
                #[trigger] after_failure(urls, rank, error).notes[i],
            ),
        forall|i: int|
            0 <= i < after_success(bin).notes.len() ==> is_proper_note(
                #[trigger] after_success(bin).notes[i],
            ),
{
    reveal_strlit("downloading");
    reveal_strlit("done");
    reveal_strlit("error");
    assert("downloading"@.len() != "done"@.len());
    assert("error"@.len() != "done"@.len());
}

} // verus!
