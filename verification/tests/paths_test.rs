use gas_codex::config::{codex_home, config_dir, config_dir_in, config_file, config_file_in};
use gas_codex::installer::{
    codex_bin, codex_bin_in, download_file, download_file_in, engine_dir, engine_dir_in,
};
use gas_codex::paths::{home_or_here, Platform};
use std::path::{Path, PathBuf};

fn real_root() -> PathBuf {
    dirs::home_dir().unwrap_or_else(|| PathBuf::from("."))
}

#[test]
fn the_home_directory_is_the_root() {
    assert_eq!(home_or_here(Some(PathBuf::from("/home/alice"))), PathBuf::from("/home/alice"));
}

#[test]
fn without_a_home_the_current_directory_is_the_root() {
    assert_eq!(home_or_here(None), PathBuf::from("."));
}

#[test]
fn settings_live_under_the_root() {
    let root = PathBuf::from("/home/alice");
    assert_eq!(config_dir_in(&root), Path::new("/home/alice/.gas-codex"));
    assert_eq!(config_file_in(&root), Path::new("/home/alice/.gas-codex/config.json"));
}

#[test]
fn settings_of_this_user() {
    assert_eq!(config_dir(), real_root().join(".gas-codex"));
    assert_eq!(config_file(), real_root().join(".gas-codex").join("config.json"));
}

#[test]
fn a_named_engine_home_goes_first() {
    let root = PathBuf::from("/home/alice");
    assert_eq!(codex_home(Some(PathBuf::from("/srv/codex")), &root), Path::new("/srv/codex"));
    assert_eq!(codex_home(None, &root), Path::new("/home/alice/.codex"));
}

#[test]
fn the_engine_lives_under_the_settings() {
    let root = PathBuf::from("/home/alice");
    assert_eq!(engine_dir_in(&root), Path::new("/home/alice/.gas-codex/engine"));
    assert_eq!(
        download_file_in(&root),
        Path::new("/home/alice/.gas-codex/engine/download.tgz")
    );
}

#[test]
fn the_binary_of_each_platform() {
    let root = PathBuf::from("/r");
    assert_eq!(
        codex_bin_in(Platform::Windows, &root),
        Path::new("/r/.gas-codex/engine/bin/codex.exe")
    );
    assert_eq!(
        codex_bin_in(Platform::Aarch64, &root),
        Path::new("/r/.gas-codex/engine/aarch64-pc-windows-msvc/bin/codex")
    );
    assert_eq!(
        codex_bin_in(Platform::Other, &root),
        Path::new("/r/.gas-codex/engine/x86_64-pc-windows-msvc/bin/codex")
    );
}

#[test]
fn the_engine_of_this_user() {
    let engine = real_root().join(".gas-codex").join("engine");
    assert_eq!(engine_dir(), engine);
    assert_eq!(download_file(), engine.join("download.tgz"));
    assert_eq!(codex_bin(Platform::Windows), engine.join("bin").join("codex.exe"));
    assert!(codex_bin(Platform::Other).starts_with(engine_dir()));
}
