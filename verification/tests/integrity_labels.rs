//! The Windows integrity-label texts and what their read-backs decide.
use convertia::label::{
    integrity_sid, label_ace_fields, label_ace_rid, label_blocks_lowered_access, label_sddl_dir,
    label_sddl_file, label_strip_needed, label_strip_verdict, lowering_outcome, LabelStrip,
    CONFINED_INTEGRITY_RID, LABEL_ACE_MARKER, LABEL_SDDL_NONE,
};
use convertia::platform::{DegradeReason, LegOutcome};

fn confined_sid() -> String {
    format!("S-1-16-{CONFINED_INTEGRITY_RID}")
}

#[test]
fn the_label_constants_all_name_the_confined_integrity_level() {
    let sid = confined_sid();
    assert_eq!(sid, "S-1-16-6144", "the level is fixed at 0x1800");
    assert_eq!(integrity_sid(CONFINED_INTEGRITY_RID), sid);
    let file_ace = label_sddl_file(CONFINED_INTEGRITY_RID);
    let dir_ace = label_sddl_dir(CONFINED_INTEGRITY_RID);
    assert!(
        file_ace.contains(&sid) && dir_ace.contains(&sid),
        "both label ACEs must name {sid}: file={file_ace} dir={dir_ace}"
    );
    assert_eq!(
        label_ace_rid(&file_ace),
        Some(CONFINED_INTEGRITY_RID),
        "the ACE's RID must parse back to the level the tier reasons about: {file_ace}"
    );
    assert!(
        dir_ace.contains("OICI"),
        "the directory ACE must be object+container inheritable so the engine's own subtree inherits it"
    );
    assert!(
        !LABEL_SDDL_NONE.contains("ML"),
        "the strip must be an EMPTY SACL, never a re-label: {LABEL_SDDL_NONE}"
    );
}

#[test]
fn the_label_aces_are_spelled_exactly() {
    assert_eq!(label_sddl_file(0x1800), "S:(ML;;NW;;;S-1-16-6144)");
    assert_eq!(label_sddl_dir(0x1800), "S:(ML;OICI;NW;;;S-1-16-6144)");
    assert_eq!(integrity_sid(0), "S-1-16-0");
    assert_eq!(label_ace_rid(&label_sddl_dir(4_000_000_000)), Some(4_000_000_000));
    assert_eq!(LABEL_ACE_MARKER, "(ML;");
}

#[test]
fn both_sddl_spellings_of_a_level_are_read() {
    assert_eq!(label_ace_rid("S:AI(ML;;NWNR;;;LW)"), Some(0x1000));
    assert_eq!(label_ace_rid("S:AI(ML;;NW;;;ME)"), Some(0x2000));
    assert_eq!(label_ace_rid("S:AI(ML;;NW;;;MP)"), Some(0x2100));
    assert_eq!(label_ace_rid("S:AI(ML;;NW;;;HI)"), Some(0x3000));
    assert_eq!(label_ace_rid("S:AI(ML;;NW;;;SI)"), Some(0x4000));
    assert_eq!(label_ace_rid("S:AI(ML;;NW;;;S-1-16-6144)"), Some(0x1800));
    assert_eq!(label_ace_rid("S:AI(ML;;NW;;;XX)"), None, "an unknown alias names no level");
    assert_eq!(label_ace_rid("S:AI(ML;;NW;;;S-1-16-x)"), None, "an unparsable RID names none");
    assert_eq!(label_ace_rid("S:AI(ML;;NW;;;S-1-16-+12)"), Some(12));
    assert_eq!(label_ace_rid("S:AI(ML;;NW;;;S-1-16-4294967296)"), None);
    assert_eq!(label_ace_rid("S:"), None, "no label ACE");
    assert_eq!(label_ace_rid("S:(ML;;NW)"), None, "too few fields");
}

#[test]
fn the_fields_come_from_the_first_label_ace() {
    assert_eq!(
        label_ace_fields("S:AI(ML;;NWNR;;;LW)(ML;;NX;;;HI)"),
        Some(("NWNR", "LW)(ML")),
        "the SID field runs to the next `;`, so a second ACE's opening stays in it"
    );
    assert_eq!(label_ace_rid("S:AI(ML;;NWNR;;;LW)(ML;;NX;;;HI)"), None);
    assert_eq!(label_ace_fields("S:(ML;OI;NX;;;S-1-16-8192)\0"), Some(("NX", "S-1-16-8192")));
    assert_eq!(label_ace_fields("D:(A;;FA;;;SY)"), None);
}

#[test]
fn a_read_blocking_label_only_counts_at_or_above_the_confined_level() {
    let below = "S:(ML;;NRNW;;;S-1-16-4096)";
    assert_eq!(label_ace_rid(below), Some(0x1000));
    assert!(
        !label_blocks_lowered_access(Some(below), CONFINED_INTEGRITY_RID),
        "a Low no-read-up ACE cannot block a confined reader — that is a read down"
    );
    assert!(
        !label_blocks_lowered_access(Some("S:AI(ML;;NWNR;;;LW)"), CONFINED_INTEGRITY_RID),
        "the same Low ACE in its alias spelling"
    );
    assert!(
        label_blocks_lowered_access(Some("S:(ML;;NRNW;;;S-1-16-8192)"), CONFINED_INTEGRITY_RID),
        "a Medium no-read-up ACE does block a lowered child"
    );
    assert!(
        label_blocks_lowered_access(Some("S:(ML;;NX;;;S-1-16-6144)"), CONFINED_INTEGRITY_RID),
        "no-execute-up at the confined level itself blocks"
    );
    assert!(
        !label_blocks_lowered_access(Some("S:(ML;;NW;;;HI)"), CONFINED_INTEGRITY_RID),
        "a no-write-up label never blocks reading or executing"
    );
    assert!(!label_blocks_lowered_access(Some("D:(A;;FA;;;SY)"), CONFINED_INTEGRITY_RID));
    assert!(
        label_blocks_lowered_access(None, CONFINED_INTEGRITY_RID),
        "an unreadable label counts as blocking"
    );
    assert!(
        label_blocks_lowered_access(Some("S:(ML;;NR;;;ZZ)"), CONFINED_INTEGRITY_RID),
        "a level that names nothing known counts as blocking"
    );
}

#[test]
fn our_own_labels_never_block_the_engine() {
    for level in [0x1000, 0x1800, 0x2000, 0x4000] {
        assert!(!label_blocks_lowered_access(Some(&label_sddl_file(0x1800)), level));
        assert!(!label_blocks_lowered_access(Some(&label_sddl_dir(0x1800)), level));
    }
}

#[test]
fn an_unreadable_label_state_routes_to_the_fallback_not_to_absent() {
    assert_eq!(
        label_strip_needed(None),
        Some(LabelStrip::Failed),
        "a label state that cannot be read is not evidence that there is none"
    );
}

#[test]
fn a_strip_writes_only_over_a_label_and_counts_only_a_read_back() {
    assert_eq!(label_strip_needed(Some("S:")), Some(LabelStrip::Absent));
    assert_eq!(label_strip_needed(Some("S:AI(ML;;NW;;;S-1-16-6144)")), None);
    assert_eq!(label_strip_verdict(true, Some(LABEL_SDDL_NONE)), LabelStrip::Stripped);
    assert_eq!(
        label_strip_verdict(true, Some("S:(ML;;NW;;;S-1-16-6144)")),
        LabelStrip::Failed,
        "a label still there after the write is a failed strip"
    );
    assert_eq!(label_strip_verdict(true, None), LabelStrip::Failed);
    assert_eq!(label_strip_verdict(false, Some("S:")), LabelStrip::Failed);
}

#[test]
fn a_lowering_applies_only_when_the_level_reads_back() {
    assert_eq!(lowering_outcome(true, Some(0x1800), 0x1800), LegOutcome::Applied);
    assert_eq!(
        lowering_outcome(true, Some(0x2000), 0x1800),
        LegOutcome::Degraded(DegradeReason::NotApplied)
    );
    assert_eq!(
        lowering_outcome(true, None, 0x1800),
        LegOutcome::Degraded(DegradeReason::Unavailable)
    );
    assert_eq!(
        lowering_outcome(false, Some(0x1800), 0x1800),
        LegOutcome::Degraded(DegradeReason::Unavailable)
    );
}
