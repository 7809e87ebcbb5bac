//! The open-folder / open-file resolution and the fixed project page.
use convertia::domain::{ItemId, OpenTarget};
use convertia::ipc::{
    open_path, project_page_open_failure, resolve_open_target, OpenerOp, RunResultPaths,
    PROJECT_PAGE_URL,
};
use convertia::outcome::ConversionErrorKind;

/// A run's recorded paths: outputs and residues keyed by item index, and the two roots.
fn paths_with(
    outputs: &[(u32, &str)],
    common_root: &str,
    divert_root: Option<&str>,
    residues: &[(u32, &str)],
) -> RunResultPaths {
    let mut paths = RunResultPaths::new(
        common_root.to_string(),
        divert_root.map(|d| d.to_string()),
    );
    for (i, p) in outputs {
        paths.record_output(ItemId::from_index(*i), p.to_string());
    }
    for (i, p) in residues {
        paths.record_residue(ItemId::from_index(*i), p.to_string());
    }
    paths
}

#[test]
fn project_page_url_is_the_canonical_https_ne_ia_releases_page() {
    assert_eq!(
        PROJECT_PAGE_URL, "https://github.com/Ne-IA/convertia/releases",
        "the project page is the canonical Ne-IA GitHub Releases page"
    );
    assert!(
        PROJECT_PAGE_URL.starts_with("https://"),
        "the only permitted network action opens an https origin, never a downgradeable http one"
    );
    assert!(
        PROJECT_PAGE_URL.starts_with("https://github.com/Ne-IA/convertia"),
        "the origin is the canonical Ne-IA/convertia GitHub project, not an arbitrary host"
    );
}

#[test]
fn c9_open_path_contract_is_invocable_and_typed() {
    let err = open_path(OpenTarget::CommonRoot)
        .expect_err("with no recorded paths to resolve against, every target is refused");
    assert_eq!(
        err.kind,
        ConversionErrorKind::InternalError,
        "the unresolvable-target outcome is the internal-error catch-all"
    );
}

#[test]
fn open_path_refusal_shows_no_path() {
    for target in [
        OpenTarget::CommonRoot,
        OpenTarget::DivertRoot,
        OpenTarget::Item(ItemId::from_index(0)),
        OpenTarget::Residue(ItemId::from_index(3)),
    ] {
        let err = open_path(target).expect_err("every target is refused");
        assert_eq!(err.message, "Could not open the requested location.");
        assert_eq!(err.path_display, None);
        assert_eq!(err.residue_display, None);
    }
}

#[test]
fn the_project_page_failure_is_an_internal_error() {
    let err = project_page_open_failure();
    assert_eq!(err.kind, ConversionErrorKind::InternalError);
    assert_eq!(err.message, "Could not open the project page.");
    assert_eq!(err.path_display, None);
}

#[test]
fn common_root_resolves_to_the_folder_open() {
    let paths = paths_with(&[(0, "/out/data.tsv")], "/out", None, &[]);
    assert_eq!(
        resolve_open_target(&OpenTarget::CommonRoot, &paths),
        Some(OpenerOp::OpenPath("/out".to_string())),
        "CommonRoot resolves to OpenPath on the run's common root (folder browse)"
    );
}

#[test]
fn divert_root_resolves_only_on_a_split_output_run() {
    let split = paths_with(
        &[(0, "/out/data.tsv"), (1, "/dl/other.tsv")],
        "/out",
        Some("/dl"),
        &[],
    );
    assert_eq!(
        resolve_open_target(&OpenTarget::DivertRoot, &split),
        Some(OpenerOp::OpenPath("/dl".to_string())),
        "a split-output run resolves DivertRoot to OpenPath on the divert root"
    );
    assert_eq!(
        resolve_open_target(&OpenTarget::CommonRoot, &split),
        Some(OpenerOp::OpenPath("/out".to_string())),
        "a split-output run ALSO resolves the beside-source common root (two open-folder buttons)"
    );
    let undiverted = paths_with(&[(0, "/out/data.tsv")], "/out", None, &[]);
    assert_eq!(
        resolve_open_target(&OpenTarget::DivertRoot, &undiverted),
        None,
        "DivertRoot on an undiverted run does not resolve — the refusal"
    );
}

#[test]
fn item_resolves_to_the_recorded_output_file_launch() {
    let paths = paths_with(
        &[(0, "/out/data.tsv"), (2, "/out/more.tsv")],
        "/out",
        None,
        &[],
    );
    assert_eq!(
        resolve_open_target(&OpenTarget::Item(ItemId::from_index(2)), &paths),
        Some(OpenerOp::OpenPath("/out/more.tsv".to_string())),
        "Item resolves to the recorded output file (file launch via OpenPath)"
    );
    assert_eq!(
        resolve_open_target(&OpenTarget::Item(ItemId::from_index(9)), &paths),
        None,
        "Item with an id absent from item_outputs does not resolve — the refusal"
    );
}

#[test]
fn residue_resolves_to_the_reveal_of_the_recorded_residue() {
    let paths = paths_with(
        &[(0, "/out/data.tsv")],
        "/out",
        None,
        &[(0, "/out/.convertia-residue")],
    );
    assert_eq!(
        resolve_open_target(&OpenTarget::Residue(ItemId::from_index(0)), &paths),
        Some(OpenerOp::RevealItemInDir(
            "/out/.convertia-residue".to_string()
        )),
        "Residue resolves to RevealItemInDir on the recorded residue location (reveal only)"
    );
    assert_eq!(
        resolve_open_target(
            &OpenTarget::Residue(ItemId::from_index(0)),
            &paths_with(&[], "/out", None, &[]),
        ),
        None,
        "Residue on an item with no recorded residue does not resolve — the refusal"
    );
}

#[test]
fn file_launch_and_reveal_tables_are_disjoint_lookups() {
    let paths = paths_with(
        &[(0, "/out/data.tsv")],
        "/out",
        None,
        &[(5, "/out/.convertia-residue")],
    );
    assert_eq!(
        resolve_open_target(&OpenTarget::Item(ItemId::from_index(5)), &paths),
        None,
        "an id present only in item_residues does not resolve as an Item file-launch (disjoint tables)"
    );
    assert_eq!(
        resolve_open_target(&OpenTarget::Residue(ItemId::from_index(0)), &paths),
        None,
        "an id present only in item_outputs does not resolve as a Residue reveal (disjoint tables)"
    );
}

#[test]
fn a_later_record_for_the_same_item_replaces_the_earlier_one() {
    let mut paths = paths_with(&[(1, "/out/a.tsv")], "/out", None, &[]);
    paths.record_output(ItemId::from_index(1), "/out/b.tsv".to_string());
    assert_eq!(
        resolve_open_target(&OpenTarget::Item(ItemId::from_index(1)), &paths),
        Some(OpenerOp::OpenPath("/out/b.tsv".to_string()))
    );
}
