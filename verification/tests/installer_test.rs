use flate2::write::GzEncoder;
use flate2::Compression;
use gas_codex::installer::{
    answer_with, codex_bin, download_and_extract, download_urls, engine_dir, entry_name,
    entry_step, extract_tgz,
    install_engine, keeps_inside, place_name, plan_extraction, progress, DownloadAction, DownloadEvent,
    EntryStep, ExtractEnd, ExtractPlan, InstallNext, InstallStep, Installation, CODEX_VERSION,
};
use gas_codex::json::write_text;
use gas_codex::paths::Platform;

fn package(names: &[&[u8]]) -> Vec<u8> {
    let mut builder = tar::Builder::new(GzEncoder::new(Vec::new(), Compression::default()));
    for name in names {
        let mut header = tar::Header::new_gnu();
        header.as_old_mut().name[..name.len()].copy_from_slice(name);
        header.set_size(5);
        header.set_mode(0o644);
        header.set_cksum();
        builder.append(&header, &b"hello"[..]).unwrap();
    }
    builder.into_inner().unwrap().finish().unwrap()
}

fn shown(plan: &ExtractPlan) -> Vec<Option<String>> {
    plan.steps
        .iter()
        .map(|step| match step {
            EntryStep::Skip => None,
            EntryStep::Unpack(name) => Some(name.clone()),
        })
        .collect()
}

fn failure(plan: &ExtractPlan) -> Option<String> {
    match &plan.end {
        ExtractEnd::Stamp(name, text) => {
            assert_eq!(name, "VERSION");
            assert_eq!(text, "0.153.0");
            None
        }
        ExtractEnd::Fail(error) => Some(error.clone()),
    }
}

#[test]
fn the_sources() {
    assert_eq!(CODEX_VERSION, "0.153.0");
    assert_eq!(
        download_urls(),
        vec![
            "https://cdn.npmmirror.com/packages/@openai/codex/0.153.0-win32-x64/codex-0.153.0-win32-x64.tgz".to_string(),
            "https://gh-proxy.com/https://github.com/openai/codex/releases/download/rust-v0.153.0/codex-x86_64-pc-windows-msvc.exe.tar.gz".to_string(),
        ]
    );
}

#[test]
fn names_inside_the_engine_directory() {
    assert_eq!(place_name("package/vendor/x86_64-pc-windows-msvc/bin/codex.exe"), "bin/codex.exe");
    assert_eq!(place_name("package/vendor/aarch64-pc-windows-msvc/bin/codex.exe"), "bin/codex.exe");
    assert_eq!(place_name("package/package.json"), "package.json");
    assert_eq!(place_name("package/vendor/x86_64-unknown-linux-musl/bin/codex"), "bin/codex");
    assert_eq!(place_name("package/vendor/other/x"), "x");
    assert_eq!(place_name("package/vendor/other/"), "");
    assert_eq!(place_name("package/vendor/notes"), "vendor/notes");
    assert_eq!(place_name("package/vendor//x"), "vendor//x");
    assert_eq!(place_name("bin/codex.exe"), "bin/codex.exe");
    assert_eq!(place_name("package"), "package");
}

#[test]
fn entries_that_are_skipped() {
    for name in ["package/", "package/vendor/x86_64-pc-windows-msvc/", "bin/", ""] {
        assert!(matches!(entry_step(Platform::Windows, name), EntryStep::Skip));
        assert!(matches!(entry_step(Platform::Other, name), EntryStep::Skip));
    }
    match entry_step(Platform::Windows, "package/vendor/x86_64-pc-windows-msvc/bin/codex.exe") {
        EntryStep::Unpack(name) => assert_eq!(name, "bin/codex.exe"),
        EntryStep::Skip => panic!("the binary is skipped"),
    }
}

fn unpacked(platform: Platform, name: &str) -> Option<String> {
    match entry_step(platform, name) {
        EntryStep::Unpack(placed) => Some(placed),
        EntryStep::Skip => None,
    }
}

#[test]
fn entries_that_lead_out_are_skipped() {
    for platform in [Platform::Windows, Platform::Aarch64, Platform::Other] {
        for name in [
            "package/../../evil",
            "package//abs/evil",
            "/abs/evil",
            "..",
            "./../evil",
            "bin//../../evil",
            "bin/../../evil",
            "bin/../../bin/codex.exe",
            "package/vendor/x86_64-pc-windows-msvc/../evil",
        ] {
            assert_eq!(unpacked(platform, name), None, "{name}");
        }
        for name in [
            "..bin/a", "a../b", "a/...", "a/.../b", "./a", "a/../b", "a/b/../../c", "a/./../b",
            "bin/..", "1:b", "ab:c",
        ] {
            assert_eq!(unpacked(platform, name), Some(name.to_string()));
        }
    }
}

#[test]
fn what_leads_out_on_windows_only() {
    for name in ["C:evil", "z:\\evil", "\\evil", "..\\evil", "bin\\..\\..\\evil", "a/..\\..\\b"] {
        assert_eq!(unpacked(Platform::Windows, name), None);
        assert_eq!(unpacked(Platform::Other, name), Some(name.to_string()));
    }
    assert!(keeps_inside(Platform::Windows, "bin\\codex.exe"));
    assert!(keeps_inside(Platform::Windows, "bin\\..\\other"));
    assert!(keeps_inside(Platform::Windows, "a/..\\b"));
    assert!(keeps_inside(Platform::Windows, "é:b"));
    assert!(keeps_inside(Platform::Windows, ""));
    assert!(!keeps_inside(Platform::Windows, "C:"));
}

#[test]
fn a_package_that_leads_out_unpacks_nothing_outside() {
    let names: [&[u8]; 3] = [b"package/../../evil", b"package/a", b"package/a/../b"];
    let plan = extract_tgz(Platform::Other, &package(&names));
    assert_eq!(shown(&plan), vec![None, Some("a".to_string()), Some("a/../b".to_string())]);
    assert_eq!(failure(&plan), None);
}

#[test]
fn the_binary_lands_where_it_is_looked_for() {
    let placed = unpacked(
        Platform::Windows,
        "package/vendor/x86_64-pc-windows-msvc/bin/codex.exe",
    );
    let dir = engine_dir();
    assert_eq!(dir.join(placed.unwrap()), codex_bin(Platform::Windows));
}

#[test]
fn the_plan_of_a_package() {
    let bytes = package(&[
        b"package/",
        b"package/package.json",
        b"package/vendor/x86_64-pc-windows-msvc/bin/codex.exe",
        b"package/vendor/x86_64-pc-windows-msvc/bin/",
    ]);
    let plan = extract_tgz(Platform::Windows, &bytes);
    assert_eq!(
        shown(&plan),
        vec![
            None,
            Some("package.json".to_string()),
            Some("bin/codex.exe".to_string()),
            None,
        ]
    );
    assert_eq!(failure(&plan), None);
}

#[test]
fn an_empty_archive_ends_well() {
    let plan = extract_tgz(Platform::Windows, &package(&[]));
    assert_eq!(shown(&plan), Vec::<Option<String>>::new());
    assert_eq!(failure(&plan), None);
}

#[test]
fn what_is_no_archive_fails() {
    let plan = extract_tgz(Platform::Windows, b"<html>blocked</html>");
    assert!(plan.steps.is_empty());
    assert!(failure(&plan).is_some());
    let plan = extract_tgz(Platform::Windows, &[]);
    assert!(failure(&plan).is_some());
}

#[test]
fn a_package_that_breaks_off() {
    let mut bytes = package(&[b"package/a", b"package/b"]);
    bytes.truncate(bytes.len() - 12);
    let plan = extract_tgz(Platform::Other, &bytes);
    assert!(shown(&plan).contains(&Some("a".to_string())));
    assert!(failure(&plan).is_some());
}

#[test]
fn names_that_are_no_unicode() {
    let bytes = package(&[b"package/ok", b"package/\xffx", b"package/never"]);
    let plan = extract_tgz(Platform::Windows, &bytes);
    assert_eq!(shown(&plan), vec![Some("ok".to_string())]);
    assert_eq!(
        failure(&plan),
        Some("only Unicode paths are supported on Windows: package/\u{fffd}x".to_string())
    );
    let plan = extract_tgz(Platform::Other, &bytes);
    assert_eq!(
        shown(&plan),
        vec![
            Some("ok".to_string()),
            Some("\u{fffd}x".to_string()),
            Some("never".to_string()),
        ]
    );
    assert_eq!(failure(&plan), None);
}

#[test]
fn plans_of_listings() {
    let listing = vec![
        Ok(b"package/a".to_vec()),
        Err("bad header".to_string()),
        Ok(b"package/b".to_vec()),
    ];
    let plan = plan_extraction(Platform::Other, &listing);
    assert_eq!(shown(&plan), vec![Some("a".to_string())]);
    assert_eq!(failure(&plan), Some("bad header".to_string()));
    assert_eq!(entry_name(Platform::Windows, &listing[0]), Ok("package/a".to_string()));
    assert_eq!(entry_name(Platform::Windows, &listing[1]), Err("bad header".to_string()));
}

fn notes(step: &InstallStep) -> Vec<(String, u32, String)> {
    step.notes
        .iter()
        .map(|note| (note.stage.clone(), note.percent, note.message.clone()))
        .collect()
}

fn note(stage: &str, percent: u32, message: &str) -> (String, u32, String) {
    (stage.to_string(), percent, message.to_string())
}

fn trying() -> (String, u32, String) {
    note("downloading", 0, "正在从镜像下载 codex 引擎（约 140MB）…")
}

fn switching() -> (String, u32, String) {
    note("downloading", 0, "该镜像失败，切换下一个…")
}

fn url_of(step: &InstallStep) -> String {
    match &step.next {
        InstallNext::Download(url) => url.clone(),
        _ => panic!("no download"),
    }
}

fn begin() -> (Installation, InstallStep) {
    let (installation, step) = install_engine(false, "/e/codex");
    (installation.unwrap(), step)
}

#[test]
fn an_engine_in_place_is_left_alone() {
    let (installation, step) = install_engine(true, "/e/codex");
    assert!(installation.is_none());
    assert!(step.notes.is_empty());
    match step.next {
        InstallNext::Answer(answer) => {
            assert_eq!(write_text(answer), r#"{"alreadyInstalled":true,"path":"/e/codex"}"#)
        }
        _ => panic!("an answer is due"),
    }
}

#[test]
fn the_first_source_works() {
    let (mut installation, step) = begin();
    assert_eq!(notes(&step), vec![trying()]);
    assert_eq!(url_of(&step), download_urls()[0]);
    let step = installation.attempted(Ok(()), "/e/codex");
    assert_eq!(notes(&step), vec![note("done", 100, "codex 引擎安装完成")]);
    match step.next {
        InstallNext::Answer(answer) => {
            assert_eq!(write_text(answer), r#"{"installed":true,"path":"/e/codex"}"#)
        }
        _ => panic!("an answer is due"),
    }
}

#[test]
fn the_sources_are_tried_in_turn() {
    let urls = download_urls();
    let (mut installation, _) = begin();
    let step = installation.attempted(Err("HTTP 404 Not Found".to_string()), "/e");
    assert_eq!(notes(&step), vec![switching(), trying()]);
    assert_eq!(url_of(&step), urls[1]);
    assert_eq!(urls.len(), 2);
    let step = installation.attempted(Err("reset".to_string()), "/e");
    let message = format!(
        "所有下载源均失败：{} → reset\n可手动安装：npm install -g @openai/codex",
        urls[1]
    );
    assert_eq!(notes(&step), vec![switching(), note("error", 0, &message)]);
    match step.next {
        InstallNext::Fail(error) => assert_eq!(error, message),
        _ => panic!("no source is left"),
    }
}

#[test]
fn a_later_source_works() {
    let (mut installation, _) = begin();
    installation.attempted(Err("timeout".to_string()), "/e");
    let step = installation.attempted(Ok(()), "/e");
    assert!(matches!(step.next, InstallNext::Answer(_)));
}

#[test]
fn words_and_answers() {
    let word = progress("extracting", 50, "half way");
    assert_eq!((word.stage.as_str(), word.percent, word.message.as_str()), ("extracting", 50, "half way"));
    assert_eq!(word.clone().message, "half way");
    assert_eq!(write_text(answer_with("installed", "p")), r#"{"installed":true,"path":"p"}"#);
}

#[test]
fn downloads_collect_their_pieces() {
    let bytes = package(&[b"package/a"]);
    let (front, back) = bytes.split_at(10);
    let mut kept: Vec<u8> = Vec::new();
    let platform = Platform::Other;
    assert!(matches!(
        download_and_extract(platform, &mut kept, DownloadEvent::Status(200)),
        DownloadAction::Read
    ));
    for piece in [front, back] {
        assert!(matches!(
            download_and_extract(platform, &mut kept, DownloadEvent::Chunk(piece.to_vec())),
            DownloadAction::Read
        ));
    }
    assert_eq!(kept, bytes);
    match download_and_extract(platform, &mut kept, DownloadEvent::End) {
        DownloadAction::Unpack(plan) => assert_eq!(shown(&plan), vec![Some("a".to_string())]),
        _ => panic!("the package is complete"),
    }
    assert_eq!(kept, bytes);
}

fn failed(event: DownloadEvent) -> String {
    let mut kept: Vec<u8> = vec![1];
    match download_and_extract(Platform::Other, &mut kept, event) {
        DownloadAction::Fail(error) => {
            assert_eq!(kept, vec![1]);
            error
        }
        _ => panic!("the download goes on"),
    }
}

#[test]
fn downloads_that_fail() {
    assert_eq!(failed(DownloadEvent::SendFailed("dns".to_string())), "dns");
    assert_eq!(failed(DownloadEvent::Status(503)), "HTTP 503 Service Unavailable");
    assert_eq!(failed(DownloadEvent::ReadFailed("reset".to_string())), "reset");
}
