//! Basename-only log redaction of user paths.
use convertia::log_redact::{RedactedPath, NO_BASENAME_FALLBACK};
use convertia::platform::Platform;
use std::path::{Path, PathBuf};

// Built with `join`, so the platform's own separator is used on every OS and the redaction must
// split it where the tests run.
fn user_path() -> PathBuf {
    Path::new("home")
        .join("alice")
        .join("secret-project")
        .join("vacation.jpg")
}

fn text(p: &Path) -> String {
    p.to_str().expect("the test paths are UTF-8").to_owned()
}

#[test]
fn redacts_to_basename_only() {
    assert_eq!(RedactedPath::new(&text(&user_path())).to_string(), "vacation.jpg");
}

#[test]
fn never_leaks_a_directory_component() {
    let p = text(&user_path());
    let shown = RedactedPath::new(&p).to_string();
    let written = RedactedPath::new(&p).write_basename();
    for leaked in ["home", "alice", "secret-project"] {
        assert!(
            !shown.contains(leaked),
            "the rendered form leaked directory component `{leaked}`"
        );
        assert!(
            !written.contains(leaked),
            "the written form leaked directory component `{leaked}`"
        );
    }
}

#[test]
fn debug_matches_display_basename() {
    let p = text(&Path::new("var").join("data").join("report.pdf"));
    assert_eq!(RedactedPath::new(&p).write_basename(), "report.pdf");
    assert_eq!(RedactedPath::new(&p).to_string(), "report.pdf");
}

#[test]
fn bare_filename_is_unchanged() {
    assert_eq!(RedactedPath::new("photo.png").to_string(), "photo.png");
}

#[test]
fn unicode_basename_preserved() {
    let p = text(&Path::new("dir").join("Ferienfotos-Sommer-2026.jpeg"));
    assert_eq!(
        RedactedPath::new(&p).to_string(),
        "Ferienfotos-Sommer-2026.jpeg"
    );
}

#[test]
fn no_basename_path_renders_fallback() {
    assert_eq!(RedactedPath::new("/").to_string(), NO_BASENAME_FALLBACK);
    assert_eq!(RedactedPath::new("..").to_string(), NO_BASENAME_FALLBACK);
    let parent_terminated = text(&Path::new("some").join("dir").join(".."));
    assert_eq!(
        RedactedPath::new(&parent_terminated).to_string(),
        NO_BASENAME_FALLBACK
    );
}

#[test]
fn the_redaction_agrees_with_the_host_path_library() {
    for p in [
        text(&user_path()),
        "/a/b/".to_owned(),
        "/a/b/.".to_owned(),
        "a//b".to_owned(),
        "a\\b".to_owned(),
        "".to_owned(),
        ".".to_owned(),
        "x/..".to_owned(),
    ] {
        let expected = Path::new(&p)
            .file_name()
            .map_or(NO_BASENAME_FALLBACK.to_owned(), |n| n.to_string_lossy().into_owned());
        assert_eq!(RedactedPath::new(&p).to_string(), expected, "for {p:?}");
    }
}

#[test]
fn trailing_separators_and_dot_components_are_skipped() {
    for platform in [Platform::Linux, Platform::MacOs, Platform::Windows] {
        let shown = |p: &str| RedactedPath::for_platform(p, platform).to_string();
        assert_eq!(shown("/a/b/"), "b");
        assert_eq!(shown("/a/b/."), "b");
        assert_eq!(shown("a//b"), "b");
        assert_eq!(shown(""), NO_BASENAME_FALLBACK);
    }
    assert_eq!(NO_BASENAME_FALLBACK, "<no-basename>");
}

#[test]
fn windows_paths_split_on_both_separators() {
    let shown = |p: &str| RedactedPath::for_platform(p, Platform::Windows).to_string();
    assert_eq!(shown("home\\alice\\secret-project\\vacation.jpg"), "vacation.jpg");
    assert_eq!(shown("C:\\Users\\alice/Documents\\report.pdf"), "report.pdf");
    assert_eq!(shown("var\\data\\report.pdf"), "report.pdf");
    assert_eq!(shown("some\\dir\\.."), NO_BASENAME_FALLBACK);
    assert_eq!(shown("C:\\"), NO_BASENAME_FALLBACK);
    assert_eq!(shown("C:"), NO_BASENAME_FALLBACK);
    assert_eq!(shown("C:photo.png"), "photo.png");
    assert_eq!(shown("\\\\server\\share"), NO_BASENAME_FALLBACK);
    assert_eq!(shown("\\\\server\\share\\dir\\x.jpg"), "x.jpg");
    assert_eq!(shown("\\\\?\\C:\\Users\\alice\\x.jpg"), "x.jpg");
    assert_eq!(shown("\\\\?\\UNC\\server\\share"), NO_BASENAME_FALLBACK);
    assert_eq!(shown("\\\\.\\COM1"), NO_BASENAME_FALLBACK);
    assert_eq!(shown("\\\\.\\pipe/name"), "name");
    assert_eq!(shown("\\\\server"), "server");
    assert_eq!(shown("\\\\server\\"), "server");
}

#[test]
fn a_verbatim_windows_path_splits_on_backslashes_only() {
    let shown = |p: &str| RedactedPath::for_platform(p, Platform::Windows).to_string();
    assert_eq!(shown("\\\\?\\C:\\dir/x.jpg"), "dir/x.jpg");
    assert_eq!(shown("\\\\?\\C:\\dir\\x.jpg"), "x.jpg");
    assert_eq!(shown("\\\\?\\C:\\dir\\."), NO_BASENAME_FALLBACK);
    assert_eq!(shown("\\\\?\\C:\\dir\\\\x.jpg\\"), "x.jpg");
    assert_eq!(shown("\\\\?\\UNC\\server\\share\\x.jpg"), "x.jpg");
    assert_eq!(shown("\\\\?\\pictures"), NO_BASENAME_FALLBACK);
}

#[test]
fn elsewhere_a_backslash_is_part_of_the_name() {
    for platform in [Platform::Linux, Platform::MacOs] {
        let shown = |p: &str| RedactedPath::for_platform(p, platform).to_string();
        assert_eq!(shown("dir/a\\b.txt"), "a\\b.txt");
        assert_eq!(shown("C:photo.png"), "C:photo.png");
    }
}
