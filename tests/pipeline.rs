use flex_update_tools::build_matrix::{artifact_name, build_args, cross_linker, locate_binary, resolve};
use flex_update_tools::document::Node;
use flex_update_tools::error::UpdateError;
use flex_update_tools::finalize::{commit_message, UpdateOutcome};
use flex_update_tools::toolchain::{channel_arg, day_before, toolchain_file};
use flex_update_tools::upstream::{derive_version, upstream_mc_version};

fn text(s: &str) -> Node {
    Node::Text(s.to_string())
}

fn upstream_doc(version: Option<&str>) -> Vec<(String, Node)> {
    let mut package = vec![("edition".to_string(), text("2024"))];
    if let Some(v) = version {
        package.push(("version".to_string(), text(v)));
    }
    vec![(
        "workspace".to_string(),
        Node::Table(vec![
            ("members".to_string(), Node::List(vec![text("azalea")])),
            ("package".to_string(), Node::Table(package)),
        ]),
    )]
}

#[test]
fn derives_version_after_marker() {
    assert_eq!(derive_version("0.13.0+mc1.21.7"), Ok("1.21.7".to_string()));
}

#[test]
fn version_without_marker_is_an_error() {
    assert_eq!(derive_version("0.13.0"), Err(UpdateError::VersionFormatError));
    assert_eq!(derive_version("0.13.0+mc"), Err(UpdateError::VersionFormatError));
}

#[test]
fn upstream_version_is_read_from_workspace_package() {
    assert_eq!(upstream_mc_version(upstream_doc(Some("0.12.0+mc1.21.5"))), Ok("1.21.5".to_string()));
}

#[test]
fn absent_upstream_version_is_a_version_error() {
    assert_eq!(upstream_mc_version(upstream_doc(None)), Err(UpdateError::VersionFormatError));
}

#[test]
fn missing_workspace_is_a_format_error() {
    assert_eq!(upstream_mc_version(vec![]), Err(UpdateError::ManifestFormatError));
}

#[test]
fn unchanged_outcome_asks_for_no_commit() {
    let outcome = UpdateOutcome::current("3333333333333333333333333333333333333333".to_string());
    assert_eq!(outcome.commit_plan(), Ok(None));
    assert!(!outcome.found_next());
    assert_eq!(outcome.status_line(), "has_changes=false");
}

#[test]
fn advanced_outcome_asks_for_one_commit() {
    let outcome = UpdateOutcome::advanced(
        "1111111111111111111111111111111111111111".to_string(),
        "2222222233333333444444445555555566666666".to_string(),
        "1.21.7".to_string(),
    );
    assert_eq!(outcome.commit_plan(), Ok(Some("Update azalea to 22222222 (MC 1.21.7)".to_string())));
    assert!(outcome.found_next());
    assert_eq!(outcome.status_line(), "has_changes=true");
}

#[test]
fn changed_outcome_without_revision_is_a_commit_error() {
    let outcome = UpdateOutcome { previous: "a".to_string(), next: None, version: None, changed: true };
    assert_eq!(outcome.commit_plan(), Err(UpdateError::CommitError));
}

#[test]
fn short_revision_is_kept_whole() {
    assert_eq!(commit_message("abc", "1.21"), "Update azalea to abc (MC 1.21)");
}

#[test]
fn linux_x64_resolves_without_suffix() {
    let t = resolve("linux", "x64").unwrap();
    assert_eq!(t.triple, "x86_64-unknown-linux-gnu");
    assert_eq!(t.exe_suffix, "");
    assert_eq!(t.os, "linux");
    assert_eq!(t.arch, "x64");
}

#[test]
fn every_supported_pair_resolves() {
    assert_eq!(resolve("linux", "arm64").unwrap().triple, "aarch64-unknown-linux-gnu");
    assert_eq!(resolve("windows", "x64").unwrap().triple, "x86_64-pc-windows-msvc");
    assert_eq!(resolve("windows", "arm64").unwrap().exe_suffix, ".exe");
    assert_eq!(resolve("macos", "x64").unwrap().triple, "x86_64-apple-darwin");
    assert_eq!(resolve("macos", "arm64").unwrap().triple, "aarch64-apple-darwin");
}

#[test]
fn unknown_platform_is_unsupported() {
    assert!(matches!(resolve("plan9", "x64"), Err(UpdateError::UnsupportedTargetError)));
    assert!(matches!(resolve("linux", "riscv"), Err(UpdateError::UnsupportedTargetError)));
}

#[test]
fn artifact_names_are_deterministic() {
    assert_eq!(artifact_name("1.21.7", "linux", "x64"), "flex-update-mc-bot-1.21.7-linux-x64");
    assert_eq!(artifact_name("1.21.7", "windows", "arm64"), "flex-update-mc-bot-1.21.7-windows-arm64.exe");
    assert_eq!(artifact_name("1.21.7", "macos", "arm64"), artifact_name("1.21.7", "macos", "arm64"));
}

#[test]
fn binary_path_depends_on_cross_build() {
    let t = resolve("windows", "x64").unwrap();
    assert_eq!(locate_binary(&t, "bot", "x86_64-pc-windows-msvc"), "bot/target/release/flex-update-mc-bot.exe");
    assert_eq!(
        locate_binary(&t, "bot", "x86_64-unknown-linux-gnu"),
        "bot/target/x86_64-pc-windows-msvc/release/flex-update-mc-bot.exe"
    );
}

#[test]
fn cross_builds_name_their_target() {
    let t = resolve("linux", "arm64").unwrap();
    assert_eq!(build_args(&t, "x86_64-unknown-linux-gnu"), vec!["build", "--release", "--target", "aarch64-unknown-linux-gnu"]);
    assert_eq!(build_args(&t, "aarch64-unknown-linux-gnu"), vec!["build", "--release"]);
    assert_eq!(
        cross_linker(&t, "x86_64-unknown-linux-gnu"),
        Some(("CARGO_TARGET_AARCH64_UNKNOWN_LINUX_GNU_LINKER".to_string(), "aarch64-linux-gnu-gcc".to_string()))
    );
    assert_eq!(cross_linker(&resolve("linux", "x64").unwrap(), "aarch64-unknown-linux-gnu"), None);
}

#[test]
fn nightly_date_is_the_day_before() {
    assert_eq!(day_before(2 * 86400 + 5), Some("1970-01-02".to_string()));
    assert_eq!(day_before(1_752_000_000), Some("2025-07-07".to_string()));
    assert_eq!(day_before(i64::MIN), None);
}

#[test]
fn toolchain_texts() {
    assert_eq!(toolchain_file("nightly-2025-07-07"), "[toolchain]\nchannel = \"nightly-2025-07-07\"\n");
    assert_eq!(channel_arg("nightly"), "+nightly");
}
