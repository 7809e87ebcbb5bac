//! The decisions around a confined engine run.
use convertia::isolation::{
    confined_spawn_mode, engine_env, engine_input_staged_name, guard_drop, is_loader_injection_var,
    landlock_probe_outcome, linux_spawn_tier, netns_outcome, seccomp_probe_outcome, settle_run,
    staged_source_file_name, windows_spawn_tier, InvocationResult, ProgressModel, StdinPlan,
    StdoutMode, WaitEnd,
};
use convertia::outcome::ConversionErrorKind;
use convertia::platform::{DegradeReason, LegOutcome, Platform, TIER_CHEAP, TIER_PRIVILEGE_DROP};

#[test]
fn is_loader_injection_var_matches_exactly_the_four_loader_vars() {
    for var in [
        "LD_PRELOAD",
        "LD_LIBRARY_PATH",
        "DYLD_INSERT_LIBRARIES",
        "DYLD_LIBRARY_PATH",
    ] {
        assert!(
            is_loader_injection_var(var),
            "{var} is a stripped dynamic-loader injection var"
        );
    }
    for var in [
        "PATH",
        "HOME",
        "SystemRoot",
        "LIBHEIF_PLUGIN_PATH",
        "VIPS_BLOCK_UNTRUSTED",
        "ld_preload",
    ] {
        assert!(
            !is_loader_injection_var(var),
            "{var} is NOT a loader injection var — a legit var (or a case near-miss) must survive"
        );
    }
}

#[test]
fn the_loader_injection_vars_are_stripped_from_the_engine_env() {
    let plan: Vec<(String, String)> = [
        ("LD_PRELOAD", "evil-preload"),
        ("KEEP_ME", "1"),
        ("LD_LIBRARY_PATH", "evil-lib"),
        ("DYLD_INSERT_LIBRARIES", "evil-dyld"),
        ("LANG", "C"),
        ("DYLD_LIBRARY_PATH", "evil-dyld-path"),
    ]
    .iter()
    .map(|(k, v)| (k.to_string(), v.to_string()))
    .collect();
    let env = engine_env(&plan);
    assert_eq!(
        env,
        vec![
            ("KEEP_ME".to_string(), "1".to_string()),
            ("LANG".to_string(), "C".to_string())
        ],
        "only the loader variables go, the rest stay in order"
    );
    assert!(engine_env(&Vec::new()).is_empty());
}

#[test]
fn a_missing_cwd_is_a_mis_built_plan() {
    assert_eq!(
        confined_spawn_mode(None, StdinPlan::Null, ProgressModel::CoarseSpawnDone),
        Err(ConversionErrorKind::InternalError)
    );
}

#[test]
fn a_pipe_bytes_plan_is_the_honest_internal_error_seam() {
    assert_eq!(
        confined_spawn_mode(Some("/scratch"), StdinPlan::PipeBytes, ProgressModel::VipsStdout),
        Err(ConversionErrorKind::InternalError)
    );
}

#[test]
fn in_process_fraction_on_a_confined_spawn_is_the_mis_wired_seam() {
    assert_eq!(
        confined_spawn_mode(
            Some("/scratch"),
            StdinPlan::Null,
            ProgressModel::InProcessFraction
        ),
        Err(ConversionErrorKind::InternalError)
    );
}

#[test]
fn the_progress_model_picks_how_stdout_is_read() {
    assert_eq!(
        confined_spawn_mode(Some("/s"), StdinPlan::Null, ProgressModel::FfmpegKeyValue),
        Ok(StdoutMode::LineRead)
    );
    assert_eq!(
        confined_spawn_mode(Some("/s"), StdinPlan::Null, ProgressModel::VipsStdout),
        Ok(StdoutMode::LineRead)
    );
    assert_eq!(
        confined_spawn_mode(Some("/s"), StdinPlan::Null, ProgressModel::CoarseSpawnDone),
        Ok(StdoutMode::Buffered)
    );
}

#[test]
fn a_clean_exit_maps_to_succeeded_and_a_nonzero_exit_to_engine_crash() {
    let clean = settle_run(WaitEnd::Exited { success: true });
    assert_eq!(clean.result, InvocationResult::Succeeded);
    assert!(clean.group_settled && clean.clean_exit && clean.exit_recorded);
    assert!(!clean.confirm_wait);
    let crash = settle_run(WaitEnd::Exited { success: false });
    assert_eq!(
        crash.result,
        InvocationResult::Failed(ConversionErrorKind::EngineCrash)
    );
    assert!(!crash.group_settled && !crash.clean_exit && crash.exit_recorded);
}

#[test]
fn a_settled_guard_stands_down_while_an_unsettled_one_group_kills() {
    let reap = settle_run(WaitEnd::ReapFailed);
    assert_eq!(
        reap.result,
        InvocationResult::Failed(ConversionErrorKind::InternalError)
    );
    assert!(guard_drop(reap.group_settled, reap.clean_exit).group_kill);
    let clean = settle_run(WaitEnd::Exited { success: true });
    let drop = guard_drop(clean.group_settled, clean.clean_exit);
    assert!(!drop.group_kill && drop.stand_down_job);
    let crash = settle_run(WaitEnd::Exited { success: false });
    let drop = guard_drop(crash.group_settled, crash.clean_exit);
    assert!(drop.group_kill && !drop.stand_down_job);
}

#[test]
fn a_pre_tripped_cancel_token_yields_cancelled() {
    let delivered = settle_run(WaitEnd::Cancelled { kill_delivered: true });
    assert_eq!(delivered.result, InvocationResult::Cancelled);
    assert!(delivered.confirm_wait && delivered.group_settled && !delivered.clean_exit);
    let refused = settle_run(WaitEnd::Cancelled { kill_delivered: false });
    assert!(
        guard_drop(refused.group_settled, refused.clean_exit).group_kill,
        "an undelivered kill leaves the guard to kill again on the way out"
    );
}

#[test]
fn every_recorded_leg_reports_a_verdict() {
    let windows = windows_spawn_tier(None, true);
    assert_eq!(
        windows.outcome_of("integrity"),
        Some(LegOutcome::Degraded(DegradeReason::Unavailable)),
        "a grant never issued is the never-in-force class"
    );
    assert_eq!(windows.outcome_of("job"), Some(LegOutcome::Applied));
    assert_eq!(windows.tier(), TIER_PRIVILEGE_DROP);
    let degraded = windows_spawn_tier(
        Some(LegOutcome::Degraded(DegradeReason::NotApplied)),
        false,
    );
    assert_eq!(degraded.tier(), TIER_CHEAP);
    let linux = linux_spawn_tier(
        LegOutcome::Degraded(DegradeReason::Unavailable),
        LegOutcome::Applied,
        LegOutcome::Degraded(DegradeReason::Unavailable),
    );
    let legs: Vec<&str> = linux.verdicts().iter().map(|v| v.leg).collect();
    assert_eq!(legs, ["netns", "landlock", "seccomp"]);
    assert_eq!(linux.tier(), TIER_PRIVILEGE_DROP);
}

#[test]
fn the_probes_map_to_their_outcomes() {
    assert_eq!(
        netns_outcome(Some(b"net:[1]"), Some(b"net:[2]")),
        LegOutcome::Applied
    );
    assert_eq!(
        netns_outcome(Some(b"net:[1]"), Some(b"net:[1]")),
        LegOutcome::Degraded(DegradeReason::NotApplied)
    );
    assert_eq!(
        netns_outcome(Some(b"net:[1]"), None),
        LegOutcome::Degraded(DegradeReason::Unavailable)
    );
    assert_eq!(landlock_probe_outcome(Some(true)), LegOutcome::Applied);
    assert_eq!(
        landlock_probe_outcome(Some(false)),
        LegOutcome::Degraded(DegradeReason::Unavailable)
    );
    assert_eq!(
        landlock_probe_outcome(None),
        LegOutcome::Degraded(DegradeReason::NotApplied)
    );
    assert_eq!(seccomp_probe_outcome(true, true), LegOutcome::Applied);
    assert_eq!(
        seccomp_probe_outcome(false, true),
        LegOutcome::Degraded(DegradeReason::Unavailable)
    );
}

#[test]
fn the_staged_name_keeps_the_extension_but_not_the_user_basename() {
    assert_eq!(
        staged_source_file_name(12, "/Users/alice/Docs/Quarterly Report (final).docx"),
        "src-12.docx",
        "`src-<jobId>.<ext>` — the extension is kept, the user's basename is not"
    );
}

#[test]
fn an_extension_less_source_stages_without_one() {
    assert_eq!(staged_source_file_name(3, "/src/README"), "src-3");
}

#[test]
fn distinct_jobs_stage_to_distinct_paths_even_from_the_same_source() {
    let a = staged_source_file_name(1, "/src/a.png");
    let b = staged_source_file_name(2, "/src/a.png");
    assert_ne!(a, b);
}

#[test]
fn the_staged_extension_follows_the_last_dot() {
    assert_eq!(staged_source_file_name(7, "/x/archive.tar.gz"), "src-7.gz");
    assert_eq!(staged_source_file_name(7, "/x/.hidden"), "src-7");
    assert_eq!(staged_source_file_name(7, "/x/name."), "src-7");
    assert_eq!(staged_source_file_name(7, "/x/..a"), "src-7.a");
    assert_eq!(staged_source_file_name(0, "/x/photo.JPG/"), "src-0.JPG");
}

#[test]
fn off_macos_the_engine_input_is_the_source_itself_and_nothing_is_staged() {
    assert_eq!(engine_input_staged_name(Platform::Linux, 4, "/src/a.pdf"), None);
    assert_eq!(engine_input_staged_name(Platform::Windows, 4, "/src/a.pdf"), None);
}

#[test]
fn on_macos_the_engine_input_is_the_staged_copy() {
    assert_eq!(
        engine_input_staged_name(Platform::MacOs, 4, "/src/a.pdf"),
        Some("src-4.pdf".to_string())
    );
}

#[test]
fn the_leg_probes_report_a_well_formed_outcome() {
    for enforced in [None, Some(true), Some(false)] {
        assert!(matches!(
            landlock_probe_outcome(enforced),
            LegOutcome::Applied
                | LegOutcome::Degraded(DegradeReason::Unavailable | DegradeReason::NotApplied)
        ));
    }
    for built in [true, false] {
        for installed in [true, false] {
            assert!(matches!(
                seccomp_probe_outcome(built, installed),
                LegOutcome::Applied | LegOutcome::Degraded(DegradeReason::Unavailable)
            ));
        }
    }
}

#[test]
fn distinct_jobs_stage_to_distinct_names_even_from_the_same_source() {
    let source = "/Users/alice/Docs/report.docx";
    assert_eq!(staged_source_file_name(1, source), "src-1.docx");
    assert_eq!(staged_source_file_name(11, source), "src-11.docx");
    assert_ne!(
        staged_source_file_name(1, source),
        staged_source_file_name(2, source)
    );
    assert_ne!(
        staged_source_file_name(1, "/a/b.1"),
        staged_source_file_name(11, "/a/b")
    );
}
