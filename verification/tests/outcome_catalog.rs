//! The outcome taxonomy and its message catalogs, checked on the exact canonical strings.
use convertia::domain::{DetectionOutcome, LossyKind, ReadFailure, SkipReason};
use convertia::outcome::ConversionErrorKind as K;
use convertia::outcome::{
    conversion_failure, conversion_message_template, lossy_note, lossy_note_template,
    read_failure_to_error_kind, residue_annotation, skip_reason_to_error_kind, skipped_message,
    BatchSummary, ConversionErrorKind, ErrorKind, OutcomeMsg, RESIDUE_ANNOTATION_TEMPLATE,
    WITH_RESIDUE_TAIL,
};

/// Every predictable-loss kind, in the catalog's order.
const ALL_LOSSY_KINDS: [LossyKind; 27] = [
    LossyKind::ImageLossyCodec,
    LossyKind::ImagePalette,
    LossyKind::ImageDownscale,
    LossyKind::ImageAlphaFlatten,
    LossyKind::ImageAnimationFlatten,
    LossyKind::ImageSvgRaster,
    LossyKind::DocPdfReflow,
    LossyKind::DocPdfToText,
    LossyKind::DocHtmlRender,
    LossyKind::DocToText,
    LossyKind::DocSimplified,
    LossyKind::SheetToDelimited,
    LossyKind::XlsLegacyLimits,
    LossyKind::TextEncodingNarrowed,
    LossyKind::SlidesToPdfFlatten,
    LossyKind::OfficeRoundtripApprox,
    LossyKind::PptxToPptLegacy,
    LossyKind::AudioLossyTarget,
    LossyKind::AudioTranscode,
    LossyKind::AudioLossyOrigin,
    LossyKind::AudioBitdepth,
    LossyKind::AudioTagsDropped,
    LossyKind::VideoReencode,
    LossyKind::VideoAlphaLost,
    LossyKind::VideoSubsDropped,
    LossyKind::VideoToGif,
    LossyKind::AudioDownmix,
];

/// Every failure kind must be matched here; a new kind fails to compile until it is.
fn conversion_error_kind_exhaustive(k: &ConversionErrorKind) {
    match k {
        ConversionErrorKind::Corrupt
        | ConversionErrorKind::Empty
        | ConversionErrorKind::Unrecognized
        | ConversionErrorKind::UnsupportedType
        | ConversionErrorKind::UnsupportedPair
        | ConversionErrorKind::Unreadable
        | ConversionErrorKind::Gone
        | ConversionErrorKind::PasswordProtected
        | ConversionErrorKind::NoAudioTrack
        | ConversionErrorKind::TooBig
        | ConversionErrorKind::OutOfDisk
        | ConversionErrorKind::WriteFailed
        | ConversionErrorKind::PathTooLong
        | ConversionErrorKind::TooManyCollisions
        | ConversionErrorKind::UnopenableOutputName
        | ConversionErrorKind::EngineCrash
        | ConversionErrorKind::EngineHang
        | ConversionErrorKind::EngineError
        | ConversionErrorKind::PlatformUnavailable
        | ConversionErrorKind::QuarantinedByOs
        | ConversionErrorKind::CleanupResidue
        | ConversionErrorKind::InternalError
        | ConversionErrorKind::EngineMissing
        | ConversionErrorKind::WebviewFault
        | ConversionErrorKind::BundleDamaged
        | ConversionErrorKind::MixedDrop => {}
    }
}

fn skip_text(msg: &OutcomeMsg) -> Option<String> {
    match msg {
        OutcomeMsg::Skipped { text, .. } => Some(text.clone()),
        OutcomeMsg::Failure { .. }
        | OutcomeMsg::Lossy { .. }
        | OutcomeMsg::Residue { .. } => None,
    }
}

#[test]
fn read_failure_to_error_kind_classifies_turn_time_failures() {
    assert_eq!(
        read_failure_to_error_kind(ReadFailure::NotFound),
        ConversionErrorKind::Gone,
        "a frozen file now MISSING at its turn is Failed(Gone)"
    );
    for failure in [
        ReadFailure::PermissionDenied,
        ReadFailure::Locked,
        ReadFailure::IoError,
    ] {
        assert_eq!(
            read_failure_to_error_kind(failure),
            ConversionErrorKind::Unreadable,
            "a frozen file now UNREADABLE at its turn is Failed(Unreadable)"
        );
    }
    for failure in [
        ReadFailure::NotFound,
        ReadFailure::PermissionDenied,
        ReadFailure::Locked,
        ReadFailure::IoError,
    ] {
        assert_ne!(
            read_failure_to_error_kind(failure),
            ConversionErrorKind::Empty,
            "emptiness is an intake-only zero-byte skip — never a turn-time read-failure kind"
        );
    }
}

#[test]
fn intake_read_failure_is_a_skip_distinct_from_the_turn_time_failure() {
    for failure in [
        ReadFailure::NotFound,
        ReadFailure::PermissionDenied,
        ReadFailure::Locked,
        ReadFailure::IoError,
    ] {
        assert_eq!(
            DetectionOutcome::Unreadable { reason: failure }.skip_reason(),
            Some(SkipReason::Unreadable),
            "an intake-time read failure is Skipped(Unreadable) — pre-flight, never queued"
        );
        assert!(
            matches!(
                read_failure_to_error_kind(failure),
                ConversionErrorKind::Gone | ConversionErrorKind::Unreadable
            ),
            "the SAME read failure at turn-time is Failed(Gone|Unreadable), not a skip — the two totals must not be conflated"
        );
    }
}

#[test]
fn conversion_error_kind_exhaustive_match_is_exercised() {
    conversion_error_kind_exhaustive(&ConversionErrorKind::InternalError);
}

#[test]
fn error_kind_is_the_conversion_error_kind_alias() {
    fn coerce(k: ErrorKind) -> ConversionErrorKind {
        k
    }
    assert_eq!(
        coerce(ErrorKind::InternalError),
        ConversionErrorKind::InternalError,
        "ErrorKind is the ConversionErrorKind alias (the wire mirror is the same type)"
    );
}

#[test]
fn residue_annotation_row_matches_the_exact_canonical_english() {
    assert_eq!(
        RESIDUE_ANNOTATION_TEMPLATE, "Converted — a temporary file may remain at {path}.",
        "the residue row is the canonical English annotation, one string in one home"
    );
    assert_eq!(
        residue_annotation("/src/.data.tsv.part"),
        OutcomeMsg::Residue {
            text: "Converted — a temporary file may remain at /src/.data.tsv.part.".to_owned(),
        },
        "{{path}} is filled from the item's residue_display, and the note rides the non-failure Residue variant (the success stands, with where residue remains)"
    );
}

#[test]
fn skip_reason_projects_forward_to_error_kind() {
    assert_eq!(
        skip_reason_to_error_kind(SkipReason::UnsupportedType),
        ConversionErrorKind::UnsupportedType
    );
    assert_eq!(
        skip_reason_to_error_kind(SkipReason::Uncertain),
        ConversionErrorKind::Unrecognized,
        "the non-invertible mapping — Uncertain has no same-named ErrorKind"
    );
    assert_eq!(
        skip_reason_to_error_kind(SkipReason::Empty),
        ConversionErrorKind::Empty
    );
    assert_eq!(
        skip_reason_to_error_kind(SkipReason::Unreadable),
        ConversionErrorKind::Unreadable
    );
}

#[test]
fn every_conversion_kind_is_homed() {
    let conversion = [
        K::Corrupt,
        K::Empty,
        K::Unrecognized,
        K::UnsupportedType,
        K::UnsupportedPair,
        K::Unreadable,
        K::Gone,
        K::PasswordProtected,
        K::NoAudioTrack,
        K::TooBig,
        K::OutOfDisk,
        K::WriteFailed,
        K::PathTooLong,
        K::TooManyCollisions,
        K::UnopenableOutputName,
        K::EngineCrash,
        K::EngineHang,
        K::EngineError,
        K::PlatformUnavailable,
        K::QuarantinedByOs,
        K::CleanupResidue,
        K::InternalError,
    ];
    assert_eq!(
        conversion.len(),
        22,
        "defines 22 conversion-outcome rows"
    );
    for kind in conversion {
        let row = conversion_message_template(kind);
        assert!(
            matches!(row, Some(s) if !s.is_empty()),
            "{kind:?} must have a non-empty catalog row, got {row:?}"
        );
    }
    for kind in [
        K::EngineMissing,
        K::WebviewFault,
        K::BundleDamaged,
        K::MixedDrop,
    ] {
        assert_eq!(
            conversion_message_template(kind),
            None,
            "{kind:?} is homed elsewhere (/ ), not in this per-item catalog"
        );
    }
}

#[test]
fn catalog_rows_match_the_exact_canonical_english() {
    let expected: [(ConversionErrorKind, &str); 21] = [
        (K::Corrupt, "This file looks damaged and couldn't be converted."),
        (K::Empty, "This file is empty — there's nothing to convert."),
        (
            K::Unrecognized,
            "ConvertIA couldn't tell what kind of file this is, so it can't convert it.",
        ),
        (
            K::UnsupportedType,
            "ConvertIA can't convert this type of file — it looks like {detected}.",
        ),
        (K::UnsupportedPair, "That conversion isn't available."),
        (
            K::Unreadable,
            "ConvertIA couldn't open this file — it may be in use by another program, or you don't have permission to read it.",
        ),
        (
            K::Gone,
            "This file is no longer there — it may have been moved, renamed, or its drive removed.",
        ),
        (
            K::PasswordProtected,
            "This file is password-protected or copy-protected, so ConvertIA can't read it.",
        ),
        (K::NoAudioTrack, "This file has no audio to extract."),
        (
            K::TooBig,
            "This file is too large for ConvertIA to convert on this computer.",
        ),
        (
            K::OutOfDisk,
            "There isn't enough free disk space to finish this conversion.",
        ),
        (
            K::WriteFailed,
            "ConvertIA couldn't save the converted file to that location.",
        ),
        (
            K::PathTooLong,
            "The output name would be too long for this system, so this file was skipped. Try a shorter folder or file name.",
        ),
        (
            K::TooManyCollisions,
            "There are already too many files with this name in that folder, so this one couldn't be saved. Try a different folder.",
        ),
        (
            K::EngineCrash,
            "Something went wrong while converting this file, so it was skipped.",
        ),
        (
            K::EngineHang,
            "This file took too long to convert and was stopped.",
        ),
        (K::EngineError, "ConvertIA couldn't convert this file."),
        (
            K::PlatformUnavailable,
            "This conversion isn't available on {platform} because the required format support can't be included here.",
        ),
        (
            K::QuarantinedByOs,
            "macOS is blocking one of ConvertIA's built-in tools with a security check. Open System Settings → Privacy & Security and choose \"Open Anyway\", then try again.",
        ),
        (
            K::CleanupResidue,
            "This file couldn't be converted, and a temporary file may remain at {path}.",
        ),
        (
            K::InternalError,
            "Something unexpected went wrong, so this file was skipped. The rest of your files will continue.",
        ),
    ];
    for (kind, text) in expected {
        assert_eq!(
            conversion_message_template(kind),
            Some(text),
            "{kind:?} must match its exact canonical-English row"
        );
    }
}

#[test]
fn conversion_failure_substitutes_the_single_slot() {
    assert_eq!(
        conversion_failure(ConversionErrorKind::UnsupportedType, "a ZIP archive"),
        Some(OutcomeMsg::Failure {
            kind: ConversionErrorKind::UnsupportedType,
            text: "ConvertIA can't convert this type of file — it looks like a ZIP archive."
                .to_owned(),
        }),
        "{{detected}} is substituted"
    );
    assert_eq!(
        conversion_failure(ConversionErrorKind::PlatformUnavailable, "Linux"),
        Some(OutcomeMsg::Failure {
            kind: ConversionErrorKind::PlatformUnavailable,
            text: "This conversion isn't available on Linux because the required format support can't be included here.".to_owned(),
        }),
        "{{platform}} is substituted"
    );
    assert_eq!(
        conversion_failure(ConversionErrorKind::CleanupResidue, "C:/out/file.tmp"),
        Some(OutcomeMsg::Failure {
            kind: ConversionErrorKind::CleanupResidue,
            text: "This file couldn't be converted, and a temporary file may remain at C:/out/file.tmp."
                .to_owned(),
        }),
        "{{path}} is substituted — the only failure that names a residue path"
    );
    assert_eq!(
        conversion_failure(ConversionErrorKind::UnopenableOutputName, "CON.tsv"),
        Some(OutcomeMsg::Failure {
            kind: ConversionErrorKind::UnopenableOutputName,
            text: "The output name \"CON.tsv\" can't be used as a file on Windows, so this file was skipped. Rename the original so its name isn't a reserved word (like CON or NUL) and doesn't end with a dot or space."
                .to_owned(),
        }),
        "{{name}} is substituted with the offending CONSTRUCTED token"
    );
}

#[test]
fn conversion_failure_verbatim_for_plain_kinds_and_none_for_non_conversion() {
    assert_eq!(
        conversion_failure(ConversionErrorKind::Corrupt, "ignored"),
        Some(OutcomeMsg::Failure {
            kind: ConversionErrorKind::Corrupt,
            text: "This file looks damaged and couldn't be converted.".to_owned(),
        }),
        "a slot-free kind renders verbatim, ignoring arg"
    );
    assert_eq!(
        conversion_failure(ConversionErrorKind::EngineMissing, "x"),
        None,
        "a non-conversion kind is not produced as a per-item OutcomeMsg::Failure"
    );
}

#[test]
fn skipped_message_sources_each_reason_from_the_2_8_2_catalog_via_the_bridge() {
    for (reason, kind) in [
        (SkipReason::Empty, ConversionErrorKind::Empty),
        (SkipReason::Unreadable, ConversionErrorKind::Unreadable),
    ] {
        assert_eq!(
            skip_text(&skipped_message(reason, None)).as_deref(),
            conversion_message_template(kind),
            "{reason:?} bridges to its kind row verbatim (skip text from the one catalog)"
        );
    }
    assert_eq!(
        skip_text(&skipped_message(SkipReason::Uncertain, None)).as_deref(),
        conversion_message_template(ConversionErrorKind::Unrecognized),
        "a guessless Uncertain bridges to the Unrecognized row"
    );
    let unsupported = skip_text(&skipped_message(
        SkipReason::UnsupportedType,
        Some("a ZIP archive"),
    ))
    .expect("skipped_message yields OutcomeMsg::Skipped");
    assert!(
        unsupported.contains("a ZIP archive"),
        "/the retained detected name fills the {{detected}} slot "
    );
    assert!(
        !unsupported.contains("{detected}"),
        "the {{detected}} slot is substituted, never left literal"
    );
    let guessed = skip_text(&skipped_message(
        SkipReason::Uncertain,
        Some("a spreadsheet"),
    ))
    .expect("skipped_message yields OutcomeMsg::Skipped");
    assert!(
        guessed.contains("a spreadsheet"),
        "the named best-guess appears "
    );
    assert!(
        guessed.contains("isn't sure"),
        "the guess case is the skip-specific 'isn't sure … it might be {{guess}}' line"
    );
    assert!(
        matches!(
            skipped_message(SkipReason::UnsupportedType, Some("X")),
            OutcomeMsg::Skipped {
                reason: SkipReason::UnsupportedType,
                ..
            }
        ),
        "a skip rides OutcomeMsg::Skipped (never OutcomeMsg::Failure) — must not be conflated"
    );
}

#[test]
fn batch_summary_strings_are_canonical() {
    assert_eq!(
        BatchSummary::AllSucceeded { n: 5 }.text(),
        "All 5 files converted."
    );
    assert_eq!(
        BatchSummary::Partial {
            ok: 3,
            n: 5,
            fail: 2
        }
        .text(),
        "3 of 5 files converted. 2 couldn't be converted — see details."
    );
    assert_eq!(
        BatchSummary::AllFailed { n: 4 }.text(),
        "None of the 4 files could be converted."
    );
    assert_eq!(
        BatchSummary::Cancelled { ok: 2 }.text(),
        "Stopped. 2 files were already converted and kept; the rest were not started."
    );
    assert_eq!(
        WITH_RESIDUE_TAIL,
        "Some temporary files may remain — see details."
    );
}

#[test]
fn every_lossy_kind_has_a_non_empty_catalog_row() {
    for kind in ALL_LOSSY_KINDS {
        let note = lossy_note_template(kind);
        assert!(
            !note.trim().is_empty(),
            "{kind:?} has no canonical-English note row"
        );
    }
}

#[test]
fn lossy_catalog_rows_match_the_exact_canonical_english() {
    let expected: [(LossyKind, &str); 27] = [
        (
            LossyKind::ImageLossyCodec,
            "Saved with compression — fine details may be slightly reduced.",
        ),
        (
            LossyKind::ImagePalette,
            "Reduced to 256 colours — some colour detail is lost.",
        ),
        (
            LossyKind::ImageDownscale,
            "Resized to multiple icon sizes — detail may be lost at smaller sizes.",
        ),
        (
            LossyKind::ImageAlphaFlatten,
            "Transparency isn't supported here and will be filled with a background colour.",
        ),
        (
            LossyKind::ImageAnimationFlatten,
            "Animated — only the first frame is converted.",
        ),
        (
            LossyKind::ImageSvgRaster,
            "Vector image converted to a fixed-size picture ({w}×{h}) — it won't scale up cleanly afterward.",
        ),
        (
            LossyKind::DocPdfReflow,
            "Layout may shift slightly when converted to PDF.",
        ),
        (
            LossyKind::DocPdfToText,
            "Text only — layout, tables and images are dropped.",
        ),
        (
            LossyKind::DocHtmlRender,
            "The result may look different from a web browser.",
        ),
        (
            LossyKind::DocToText,
            "Text only — formatting and images are dropped.",
        ),
        (LossyKind::DocSimplified, "Some formatting may be simplified."),
        (
            LossyKind::SheetToDelimited,
            "Only one sheet and its values are exported — formatting, formulas and other sheets are dropped.",
        ),
        (
            LossyKind::XlsLegacyLimits,
            "Saved in the old Excel format — rows/columns beyond the legacy limit and newer features are dropped.",
        ),
        (
            LossyKind::TextEncodingNarrowed,
            "Some characters can't be saved in the chosen encoding and would be lost.",
        ),
        (
            LossyKind::SlidesToPdfFlatten,
            "Animations, transitions and embedded media are flattened or dropped, and editing is no longer possible.",
        ),
        (
            LossyKind::OfficeRoundtripApprox,
            "Some effects and layout may shift when converting between PowerPoint and OpenDocument.",
        ),
        (
            LossyKind::PptxToPptLegacy,
            "Saved in the old PowerPoint format — SmartArt, modern charts, and newer transitions (e.g. Morph) can't be stored and are simplified or dropped.",
        ),
        (
            LossyKind::AudioLossyTarget,
            "Saved in a compressed audio format — some quality is reduced.",
        ),
        (
            LossyKind::AudioTranscode,
            "Re-compressing already-compressed audio — quality drops a little more.",
        ),
        (
            LossyKind::AudioLossyOrigin,
            "This won't improve quality — the original is already compressed, so the result is just larger.",
        ),
        (
            LossyKind::AudioBitdepth,
            "Saved at 16-bit — the source's extra audio precision is reduced.",
        ),
        (
            LossyKind::AudioTagsDropped,
            "This format can't store song info, so title/artist tags are dropped.",
        ),
        (
            LossyKind::VideoReencode,
            "Re-encoded to play widely — some video quality is reduced.",
        ),
        (
            LossyKind::VideoAlphaLost,
            "Transparency isn't supported in this format and will be removed.",
        ),
        (
            LossyKind::VideoSubsDropped,
            "Embedded subtitles couldn't be kept and were dropped.",
        ),
        (
            LossyKind::VideoToGif,
            "GIFs reduce colours, smoothness and remove sound — best for short clips.",
        ),
        (
            LossyKind::AudioDownmix,
            "Surround sound is mixed down to stereo for this format.",
        ),
    ];
    for (kind, canonical) in expected {
        assert_eq!(
            lossy_note_template(kind),
            canonical,
            "the {kind:?} note drifted from its canonical English"
        );
    }
}

#[test]
fn image_svg_raster_is_the_only_templated_row_and_substitutes_its_dimensions() {
    let templated: Vec<LossyKind> = ALL_LOSSY_KINDS
        .into_iter()
        .filter(|kind| lossy_note_template(*kind).contains("{w}"))
        .collect();
    assert_eq!(
        templated,
        vec![LossyKind::ImageSvgRaster],
        "homes exactly one substituting note ({{w}}×{{h}}, the SVG→raster row)"
    );

    let rendered = lossy_note(LossyKind::ImageSvgRaster, Some((1024, 768)))
        .expect("the SVG raster note renders when dimensions are supplied");
    assert_eq!(
        rendered,
        OutcomeMsg::Lossy {
            kind: LossyKind::ImageSvgRaster,
            text: "Vector image converted to a fixed-size picture (1024×768) — it won't scale up cleanly afterward."
                .to_owned(),
        },
        "both dimension slots are filled from the supplied size"
    );
}

#[test]
fn no_rendered_lossy_note_leaks_an_unsubstituted_slot() {
    for kind in ALL_LOSSY_KINDS {
        let text = lossy_note_template(kind)
            .replace("{w}", "320")
            .replace("{h}", "240");
        assert!(
            !text.contains('{') && !text.contains('}'),
            "the rendered {kind:?} note still carries a slot: {text}"
        );
        assert_eq!(
            lossy_note(kind, Some((320, 240))),
            Some(OutcomeMsg::Lossy { kind, text }),
            "the {kind:?} producer must surface its catalog row verbatim"
        );
    }
}

#[test]
fn the_svg_raster_note_declines_without_dimensions_and_others_ignore_them() {
    assert_eq!(
        lossy_note(LossyKind::ImageSvgRaster, None),
        None,
        "the templated row must not surface an unsubstituted slot"
    );
    for kind in ALL_LOSSY_KINDS
        .into_iter()
        .filter(|kind| *kind != LossyKind::ImageSvgRaster)
    {
        assert!(
            lossy_note(kind, None).is_some(),
            "{kind:?} carries no slot, so it renders without dimensions"
        );
    }
}
