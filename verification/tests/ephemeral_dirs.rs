//! Whether an output directory lies in a temp location the OS may purge.
use convertia::paths::{
    ephemeral_root_sources, is_at_or_under, is_ephemeral_output_dir, path_components, RootSource,
};
use convertia::platform::Platform;

fn roots(list: &[&str]) -> Vec<Vec<u8>> {
    list.iter().map(|r| r.as_bytes().to_vec()).collect()
}

#[test]
fn a_temp_dir_subdir_is_classified_ephemeral() {
    let temp_roots = roots(&["/tmp", "/var/tmp", "/run/user"]);
    assert!(
        is_ephemeral_output_dir(b"/tmp/.tmpA1b2C3", &temp_roots, false),
        "a dir under the OS temp root is ephemeral, so it diverts"
    );
}

#[test]
fn a_non_temp_dir_is_not_ephemeral() {
    let temp_roots = roots(&["/tmp", "/var/tmp", "/run/user"]);
    assert!(
        !is_ephemeral_output_dir(b"/home/alice", &temp_roots, false),
        "the user home dir is not under any OS temp root"
    );
}

#[test]
fn a_not_yet_created_subtree_under_the_temp_root_is_still_ephemeral() {
    let temp_roots = roots(&["/tmp"]);
    assert!(
        is_ephemeral_output_dir(b"/tmp/.tmpXyz/sub/dir", &temp_roots, false),
        "a not-yet-created subtree dir under the OS temp root is still ephemeral"
    );
}

#[test]
fn the_comparison_is_component_wise() {
    assert!(!is_at_or_under(b"/tmpfoo", b"/tmp", false), "/tmpfoo is not under /tmp");
    assert!(is_at_or_under(b"/tmp", b"/tmp", false), "a root is at itself");
    assert!(is_at_or_under(b"/tmp/", b"/tmp", false));
    assert!(is_at_or_under(b"/tmp//x/./y", b"/tmp/x", false));
    assert!(!is_at_or_under(b"tmp/x", b"/tmp", false), "a relative path is not under a root");
    assert!(!is_at_or_under(b"/tmp", b"/tmp/x", false));
    assert!(is_at_or_under(b"C:\\Users\\a\\AppData\\Local\\Temp\\x", b"C:\\Users\\a\\AppData\\Local\\Temp", true));
    assert!(!is_at_or_under(b"C:\\Temp2", b"C:\\Temp", true));
    assert!(!is_at_or_under(b"C:\\Temp\\x", b"C:\\Temp", false), "a backslash separates only on Windows");
}

#[test]
fn components_read_like_a_path_library() {
    let c = path_components(b"/a//b/./c/", false);
    assert_eq!(c, vec![b"/".to_vec(), b"a".to_vec(), b"b".to_vec(), b"c".to_vec()]);
    let d = path_components(b"./x/..", false);
    assert_eq!(d, vec![b".".to_vec(), b"x".to_vec(), b"..".to_vec()]);
    assert!(path_components(b"", false).is_empty());
}

#[test]
fn each_platform_lists_its_known_temp_roots() {
    assert_eq!(
        ephemeral_root_sources(Platform::Linux),
        vec![
            RootSource::TempDir,
            RootSource::EnvVar("TMPDIR"),
            RootSource::Fixed("/tmp"),
            RootSource::Fixed("/var/tmp"),
            RootSource::Fixed("/run/user"),
        ]
    );
    assert_eq!(
        ephemeral_root_sources(Platform::MacOs),
        vec![
            RootSource::TempDir,
            RootSource::EnvVar("TMPDIR"),
            RootSource::Fixed("/tmp"),
            RootSource::Fixed("/var/folders"),
        ]
    );
    assert_eq!(
        ephemeral_root_sources(Platform::Windows),
        vec![
            RootSource::TempDir,
            RootSource::EnvVar("TEMP"),
            RootSource::EnvVar("TMP"),
        ]
    );
}
