//! The conversion-outcome taxonomy and its message catalogs: the failure kinds, the surfaced
//! per-item outcome line, the one-way skip and read-failure projections, the canonical English
//! failure, skip, residue and batch-summary strings, and the predictable-loss notes.
use crate::domain::{detection_skip, DetectionOutcome, LossyKind, ReadFailure, SkipReason};
use crate::text::{
    all_digits, contains_seq, decimal, decimal_string, digits_value, free_of, lemma_decimal_digits,
    lemma_free_no_occurrence, lemma_replace_single, occurs_at, replace_all, replace_all_str,
    str_contains,
};
use vstd::prelude::*;
use vstd::string::*;

verus! {

/// The conversion-outcome taxonomy: every engine, file-system or detection failure maps to
/// exactly one kind. The first 22 are item-level, then come three app-level faults and the
/// mixed-drop pre-flight refusal.
#[derive(Debug, Clone, Copy, PartialEq, Eq, Structural)]
pub enum ConversionErrorKind {
    Corrupt,
    Empty,
    Unrecognized,
    UnsupportedType,
    UnsupportedPair,
    Unreadable,
    Gone,
    PasswordProtected,
    NoAudioTrack,
    TooBig,
    OutOfDisk,
    WriteFailed,
    PathTooLong,
    TooManyCollisions,
    UnopenableOutputName,
    EngineCrash,
    EngineHang,
    EngineError,
    PlatformUnavailable,
    QuarantinedByOs,
    CleanupResidue,
    InternalError,
    EngineMissing,
    WebviewFault,
    BundleDamaged,
    MixedDrop,
}

/// The wire name of the taxonomy: the same type.
pub type ErrorKind = ConversionErrorKind;

/// The one error shape every command error and every failed item carries: a taxonomy kind, a
/// plain-English message, and display-only forms of the path concerned and of any residue.
#[derive(Debug, Clone, PartialEq, Eq)]
pub struct IpcError {
    pub kind: ConversionErrorKind,
    pub message: String,
    pub path_display: Option<String>,
    pub residue_display: Option<String>,
}

/// The payload of an app-level fault: the whole app cannot work (an engine is missing, the web
/// view failed, the bundle is damaged), as opposed to one item failing.
#[derive(Debug, Clone, PartialEq, Eq)]
pub struct AppFault {
    pub kind: ConversionErrorKind,
    pub message: String,
}

/// The resolved, ready-to-show outcome line of one item: a failure, a predictable-loss note, a
/// skip, or the residue annotation on an item that succeeded.
#[derive(Debug, Clone, PartialEq, Eq)]
pub enum OutcomeMsg {
    Failure { kind: ConversionErrorKind, text: String },
    Lossy { kind: LossyKind, text: String },
    Skipped { reason: SkipReason, text: String },
    Residue { text: String },
}

/// An outcome line with its text as a character sequence.
pub enum OutcomeNote {
    Failure { kind: ConversionErrorKind, text: Seq<char> },
    Lossy { kind: LossyKind, text: Seq<char> },
    Skipped { reason: SkipReason, text: Seq<char> },
    Residue { text: Seq<char> },
}

impl View for OutcomeMsg {
    type V = OutcomeNote;

    open spec fn view(&self) -> OutcomeNote {
        match self {
            OutcomeMsg::Failure { kind, text } => OutcomeNote::Failure { kind: *kind, text: text@ },
            OutcomeMsg::Lossy { kind, text } => OutcomeNote::Lossy { kind: *kind, text: text@ },
            OutcomeMsg::Skipped { reason, text } => OutcomeNote::Skipped {
                reason: *reason,
                text: text@,
            },
            OutcomeMsg::Residue { text } => OutcomeNote::Residue { text: text@ },
        }
    }
}

/// An optional outcome line, viewed.
pub open spec fn note_of(m: Option<OutcomeMsg>) -> Option<OutcomeNote> {
    match m {
        Some(msg) => Some(msg@),
        None => None,
    }
}

/// The forward projection of an intake skip onto the failure taxonomy. `Uncertain` maps to
/// `Unrecognized` (there is no reverse map); the re-run skip has no honest kind and is never
/// rendered through this projection.
pub open spec fn skip_error_kind(reason: SkipReason) -> ConversionErrorKind {
    match reason {
        SkipReason::UnsupportedType => ConversionErrorKind::UnsupportedType,
        SkipReason::Uncertain => ConversionErrorKind::Unrecognized,
        SkipReason::Empty => ConversionErrorKind::Empty,
        SkipReason::Unreadable => ConversionErrorKind::Unreadable,
        SkipReason::AlreadyConverted => ConversionErrorKind::InternalError,
    }
}

/// The failure kind of a file that was readable when the drop was frozen but cannot be read
/// when its turn comes: missing means `Gone`, anything else `Unreadable`.
pub open spec fn read_failure_kind(failure: ReadFailure) -> ConversionErrorKind {
    match failure {
        ReadFailure::NotFound => ConversionErrorKind::Gone,
        _ => ConversionErrorKind::Unreadable,
    }
}

/// Projects an intake skip onto its failure kind, for a skip that must also show a kind-shaped
/// line. A skip stays a skip: this never turns one into a failure.
pub fn skip_reason_to_error_kind(reason: SkipReason) -> (k: ConversionErrorKind)
    ensures
        k == skip_error_kind(reason),
{
    match reason {
        SkipReason::UnsupportedType => ConversionErrorKind::UnsupportedType,
        SkipReason::Uncertain => ConversionErrorKind::Unrecognized,
        SkipReason::Empty => ConversionErrorKind::Empty,
        SkipReason::Unreadable => ConversionErrorKind::Unreadable,
        SkipReason::AlreadyConverted => ConversionErrorKind::InternalError,
    }
}

/// Classifies a read failure met when an item's turn comes (a per-item failure, never `Empty`).
pub fn read_failure_to_error_kind(failure: ReadFailure) -> (k: ConversionErrorKind)
    ensures
        k == read_failure_kind(failure),
{
    match failure {
        ReadFailure::NotFound => ConversionErrorKind::Gone,
        ReadFailure::PermissionDenied | ReadFailure::Locked | ReadFailure::IoError => {
            ConversionErrorKind::Unreadable
        },
    }
}

/// The canonical English template of each item-level kind, slots still literal; `None` for the
/// three app-level faults and the mixed-drop refusal, whose strings live with the app-fault
/// screen and the pre-flight view.
pub open spec fn conversion_template(kind: ConversionErrorKind) -> Option<Seq<char>> {
    match kind {
        ConversionErrorKind::Corrupt => Some(
            "This file looks damaged and couldn't be converted."@,
        ),
        ConversionErrorKind::Empty => Some("This file is empty — there's nothing to convert."@),
        ConversionErrorKind::Unrecognized => Some(
            "ConvertIA couldn't tell what kind of file this is, so it can't convert it."@,
        ),
        ConversionErrorKind::UnsupportedType => Some(
            "ConvertIA can't convert this type of file — it looks like {detected}."@,
        ),
        ConversionErrorKind::UnsupportedPair => Some("That conversion isn't available."@),
        ConversionErrorKind::Unreadable => Some(
            "ConvertIA couldn't open this file — it may be in use by another program, or you don't have permission to read it."@,
        ),
        ConversionErrorKind::Gone => Some(
            "This file is no longer there — it may have been moved, renamed, or its drive removed."@,
        ),
        ConversionErrorKind::PasswordProtected => Some(
            "This file is password-protected or copy-protected, so ConvertIA can't read it."@,
        ),
        ConversionErrorKind::NoAudioTrack => Some("This file has no audio to extract."@),
        ConversionErrorKind::TooBig => Some(
            "This file is too large for ConvertIA to convert on this computer."@,
        ),
        ConversionErrorKind::OutOfDisk => Some(
            "There isn't enough free disk space to finish this conversion."@,
        ),
        ConversionErrorKind::WriteFailed => Some(
            "ConvertIA couldn't save the converted file to that location."@,
        ),
        ConversionErrorKind::PathTooLong => Some(
            "The output name would be too long for this system, so this file was skipped. Try a shorter folder or file name."@,
        ),
        ConversionErrorKind::TooManyCollisions => Some(
            "There are already too many files with this name in that folder, so this one couldn't be saved. Try a different folder."@,
        ),
        ConversionErrorKind::UnopenableOutputName => Some(
            "The output name \"{name}\" can't be used as a file on Windows, so this file was skipped. Rename the original so its name isn't a reserved word (like CON or NUL) and doesn't end with a dot or space."@,
        ),
        ConversionErrorKind::EngineCrash => Some(
            "Something went wrong while converting this file, so it was skipped."@,
        ),
        ConversionErrorKind::EngineHang => Some(
            "This file took too long to convert and was stopped."@,
        ),
        ConversionErrorKind::EngineError => Some("ConvertIA couldn't convert this file."@),
        ConversionErrorKind::PlatformUnavailable => Some(
            "This conversion isn't available on {platform} because the required format support can't be included here."@,
        ),
        ConversionErrorKind::QuarantinedByOs => Some(
            "macOS is blocking one of ConvertIA's built-in tools with a security check. Open System Settings → Privacy & Security and choose \"Open Anyway\", then try again."@,
        ),
        ConversionErrorKind::CleanupResidue => Some(
            "This file couldn't be converted, and a temporary file may remain at {path}."@,
        ),
        ConversionErrorKind::InternalError => Some(
            "Something unexpected went wrong, so this file was skipped. The rest of your files will continue."@,
        ),
        ConversionErrorKind::EngineMissing
        | ConversionErrorKind::WebviewFault
        | ConversionErrorKind::BundleDamaged
        | ConversionErrorKind::MixedDrop => None,
    }
}

/// The one slot a template carries, looked for in this order: `{detected}`, `{platform}`,
/// `{path}`, `{name}`.
pub open spec fn template_slot(t: Seq<char>) -> Option<Seq<char>> {
    if contains_seq(t, "{detected}"@) {
        Some("{detected}"@)
    } else if contains_seq(t, "{platform}"@) {
        Some("{platform}"@)
    } else if contains_seq(t, "{path}"@) {
        Some("{path}"@)
    } else if contains_seq(t, "{name}"@) {
        Some("{name}"@)
    } else {
        None
    }
}

/// A template with its slot filled from `arg` (the text unchanged when it has no slot).
pub open spec fn render(t: Seq<char>, arg: Seq<char>) -> Seq<char> {
    match template_slot(t) {
        Some(slot) => replace_all(t, slot, arg),
        None => t,
    }
}

/// The rendered message of a kind, `None` where the kind has no item-level template.
pub open spec fn conversion_text(kind: ConversionErrorKind, arg: Seq<char>) -> Option<Seq<char>> {
    match conversion_template(kind) {
        Some(t) => Some(render(t, arg)),
        None => None,
    }
}

/// The item-level kinds: every kind but the three app-level faults and the mixed-drop refusal.
pub open spec fn is_item_level(kind: ConversionErrorKind) -> bool {
    !(kind == ConversionErrorKind::EngineMissing || kind == ConversionErrorKind::WebviewFault
        || kind == ConversionErrorKind::BundleDamaged || kind == ConversionErrorKind::MixedDrop)
}

/// The canonical English template of `kind`, slots still literal.
pub fn conversion_message_template(kind: ConversionErrorKind) -> (r: Option<&'static str>)
    ensures
        r is Some <==> conversion_template(kind) is Some,
        r is Some ==> r->0@ == conversion_template(kind)->0,
        r is Some <==> is_item_level(kind),
{
    let text = match kind {
        ConversionErrorKind::Corrupt => "This file looks damaged and couldn't be converted.",
        ConversionErrorKind::Empty => "This file is empty — there's nothing to convert.",
        ConversionErrorKind::Unrecognized => {
            "ConvertIA couldn't tell what kind of file this is, so it can't convert it."
        },
        ConversionErrorKind::UnsupportedType => {
            "ConvertIA can't convert this type of file — it looks like {detected}."
        },
        ConversionErrorKind::UnsupportedPair => "That conversion isn't available.",
        ConversionErrorKind::Unreadable => {
            "ConvertIA couldn't open this file — it may be in use by another program, or you don't have permission to read it."
        },
        ConversionErrorKind::Gone => {
            "This file is no longer there — it may have been moved, renamed, or its drive removed."
        },
        ConversionErrorKind::PasswordProtected => {
            "This file is password-protected or copy-protected, so ConvertIA can't read it."
        },
        ConversionErrorKind::NoAudioTrack => "This file has no audio to extract.",
        ConversionErrorKind::TooBig => {
            "This file is too large for ConvertIA to convert on this computer."
        },
        ConversionErrorKind::OutOfDisk => {
            "There isn't enough free disk space to finish this conversion."
        },
        ConversionErrorKind::WriteFailed => {
            "ConvertIA couldn't save the converted file to that location."
        },
        ConversionErrorKind::PathTooLong => {
            "The output name would be too long for this system, so this file was skipped. Try a shorter folder or file name."
        },
        ConversionErrorKind::TooManyCollisions => {
            "There are already too many files with this name in that folder, so this one couldn't be saved. Try a different folder."
        },
        ConversionErrorKind::UnopenableOutputName => {
            "The output name \"{name}\" can't be used as a file on Windows, so this file was skipped. Rename the original so its name isn't a reserved word (like CON or NUL) and doesn't end with a dot or space."
        },
        ConversionErrorKind::EngineCrash => {
            "Something went wrong while converting this file, so it was skipped."
        },
        ConversionErrorKind::EngineHang => "This file took too long to convert and was stopped.",
        ConversionErrorKind::EngineError => "ConvertIA couldn't convert this file.",
        ConversionErrorKind::PlatformUnavailable => {
            "This conversion isn't available on {platform} because the required format support can't be included here."
        },
        ConversionErrorKind::QuarantinedByOs => {
            "macOS is blocking one of ConvertIA's built-in tools with a security check. Open System Settings → Privacy & Security and choose \"Open Anyway\", then try again."
        },
        ConversionErrorKind::CleanupResidue => {
            "This file couldn't be converted, and a temporary file may remain at {path}."
        },
        ConversionErrorKind::InternalError => {
            "Something unexpected went wrong, so this file was skipped. The rest of your files will continue."
        },
        ConversionErrorKind::EngineMissing
        | ConversionErrorKind::WebviewFault
        | ConversionErrorKind::BundleDamaged
        | ConversionErrorKind::MixedDrop => {
            return None;
        },
    };
    Some(text)
}

/// The template of `t` rendered with `arg` in its slot.
fn render_template(template: &str, arg: &str) -> (r: String)
    ensures
        r@ == render(template@, arg@),
{
    proof {
        reveal_strlit("{detected}");
        reveal_strlit("{platform}");
        reveal_strlit("{path}");
        reveal_strlit("{name}");
    }
    if str_contains(template, "{detected}") {
        replace_all_str(template, "{detected}", arg)
    } else if str_contains(template, "{platform}") {
        replace_all_str(template, "{platform}", arg)
    } else if str_contains(template, "{path}") {
        replace_all_str(template, "{path}", arg)
    } else if str_contains(template, "{name}") {
        replace_all_str(template, "{name}", arg)
    } else {
        String::from_str(template)
    }
}

/// The rendered message of `kind` with its slot filled from `arg`, `None` where the kind has no
/// item-level template. Shared by the failure and the skip lines, so both read one catalog.
fn render_conversion_template(kind: ConversionErrorKind, arg: &str) -> (r: Option<String>)
    ensures
        r is Some <==> conversion_text(kind, arg@) is Some,
        r is Some ==> r->0@ == conversion_text(kind, arg@)->0,
{
    match conversion_message_template(kind) {
        Some(template) => Some(render_template(template, arg)),
        None => None,
    }
}

/// The failure line for `kind`, its one slot (the detected type, the platform, the residue path
/// or the offending output name) filled from `arg`; `arg` is ignored by kinds without a slot and
/// never scanned for further slots. `None` for a kind without an item-level template.
pub fn conversion_failure(kind: ConversionErrorKind, arg: &str) -> (r: Option<OutcomeMsg>)
    ensures
        r is Some <==> is_item_level(kind),
        note_of(r) == match conversion_text(kind, arg@) {
            Some(text) => Some(OutcomeNote::Failure { kind, text }),
            None => None,
        },
{
    match render_conversion_template(kind, arg) {
        Some(text) => Some(OutcomeMsg::Failure { kind, text }),
        None => None,
    }
}

/// The text of the residue annotation, with `{path}` still literal.
pub open spec fn residue_template() -> Seq<char> {
    "Converted — a temporary file may remain at {path}."@
}

/// The case-one residue template: the output was published but its temporary file could not be
/// removed.
pub const RESIDUE_ANNOTATION_TEMPLATE: &'static str = "Converted — a temporary file may remain at {path}.";

/// The annotation on an item that succeeded but whose temporary file may remain at
/// `residue_display`. It carries no failure kind: the item's success stands.
pub fn residue_annotation(residue_display: &str) -> (r: OutcomeMsg)
    ensures
        r@ == (OutcomeNote::Residue {
            text: replace_all(residue_template(), "{path}"@, residue_display@),
        }),
{
    proof {
        reveal_strlit("{path}");
    }
    let template = RESIDUE_ANNOTATION_TEMPLATE;
    assert(template@ == residue_template());
    OutcomeMsg::Residue { text: replace_all_str(template, "{path}", residue_display) }
}

/// The re-run skip line.
pub open spec fn already_converted_text() -> Seq<char> {
    "This file was already converted in this session, so it was skipped."@
}

/// The skip line of an uncertain detection that still names its best guess.
pub open spec fn uncertain_guess_text(guess: Seq<char>) -> Seq<char> {
    "ConvertIA isn't sure what kind of file this is — it might be "@ + guess
        + " — so it can't convert it."@
}

/// The text of the skip line for `reason` given the detected type's display name, if detection
/// named one: the re-run line, the uncertain-with-a-guess line, or otherwise the failure catalog
/// row of the skip's projected kind with the detected name in its slot.
pub open spec fn skipped_text(reason: SkipReason, detected: Option<Seq<char>>) -> Seq<char> {
    if reason == SkipReason::AlreadyConverted {
        already_converted_text()
    } else if reason == SkipReason::Uncertain && detected is Some {
        uncertain_guess_text(detected->0)
    } else {
        conversion_text(
            skip_error_kind(reason),
            match detected {
                Some(d) => d,
                None => Seq::empty(),
            },
        )->0
    }
}

/// The skip line for `reason`. It is always a skip, never a failure, and carries the reason.
pub fn skipped_message(reason: SkipReason, detected_display: Option<&str>) -> (r: OutcomeMsg)
    ensures
        r@ == (OutcomeNote::Skipped {
            reason,
            text: skipped_text(
                reason,
                match detected_display {
                    Some(d) => Some(d@),
                    None => None,
                },
            ),
        }),
{
    let text = match (reason, detected_display) {
        (SkipReason::AlreadyConverted, _) => {
            String::from_str("This file was already converted in this session, so it was skipped.")
        },
        (SkipReason::Uncertain, Some(guess)) => {
            let mut t = String::from_str(
                "ConvertIA isn't sure what kind of file this is — it might be ",
            );
            t.append(guess);
            t.append(" — so it can't convert it.");
            t
        },
        (reason, detected) => {
            let kind = skip_reason_to_error_kind(reason);
            let arg = match detected {
                Some(d) => d,
                None => "",
            };
            proof {
                reveal_strlit("");
            }
            assert(arg@ == match detected {
                Some(d) => d@,
                None => Seq::<char>::empty(),
            });
            match render_conversion_template(kind, arg) {
                Some(t) => t,
                None => String::from_str("This file couldn't be converted."),
            }
        },
    };
    OutcomeMsg::Skipped { reason, text }
}

/// The batch-level summary situations assembled from a run's totals.
#[derive(Debug, Clone, Copy, PartialEq, Eq)]
pub enum BatchSummary {
    /// "All {n} files converted."
    AllSucceeded { n: usize },
    /// "{ok} of {n} files converted. {fail} couldn't be converted — see details."
    Partial { ok: usize, n: usize, fail: usize },
    /// "None of the {n} files could be converted."
    AllFailed { n: usize },
    /// "Stopped. {ok} files were already converted and kept; the rest were not started."
    Cancelled { ok: usize },
}

/// The summary line of a batch situation, its counts in decimal.
pub open spec fn batch_text(s: BatchSummary) -> Seq<char> {
    match s {
        BatchSummary::AllSucceeded { n } => "All "@ + decimal(n as nat) + " files converted."@,
        BatchSummary::Partial { ok, n, fail } => decimal(ok as nat) + " of "@ + decimal(n as nat)
            + " files converted. "@ + decimal(fail as nat)
            + " couldn't be converted — see details."@,
        BatchSummary::AllFailed { n } => "None of the "@ + decimal(n as nat)
            + " files could be converted."@,
        BatchSummary::Cancelled { ok } => "Stopped. "@ + decimal(ok as nat)
            + " files were already converted and kept; the rest were not started."@,
    }
}

impl BatchSummary {
    /// The canonical English summary line for this situation, counts substituted.
    pub fn text(&self) -> (r: String)
        ensures
            r@ == batch_text(*self),
    {
        match *self {
            BatchSummary::AllSucceeded { n } => {
                let mut t = String::from_str("All ");
                t.append(decimal_string(n as u64).as_str());
                t.append(" files converted.");
                t
            },
            BatchSummary::Partial { ok, n, fail } => {
                let mut t = decimal_string(ok as u64);
                t.append(" of ");
                t.append(decimal_string(n as u64).as_str());
                t.append(" files converted. ");
                t.append(decimal_string(fail as u64).as_str());
                t.append(" couldn't be converted — see details.");
                t
            },
            BatchSummary::AllFailed { n } => {
                let mut t = String::from_str("None of the ");
                t.append(decimal_string(n as u64).as_str());
                t.append(" files could be converted.");
                t
            },
            BatchSummary::Cancelled { ok } => {
                let mut t = String::from_str("Stopped. ");
                t.append(decimal_string(ok as u64).as_str());
                t.append(" files were already converted and kept; the rest were not started.");
                t
            },
        }
    }
}

/// A run of decimal digits that reads back as `n`.
pub open spec fn reads_as(d: Seq<char>, n: nat) -> bool {
    d.len() > 0 && all_digits(d) && digits_value(d) == n
}

/// Every summary line shows its counts in full: each count stands in its place as a run of
/// digits that reads back as that very count, around the line's fixed words.
pub proof fn a_summary_line_shows_its_counts_in_full(ok: usize, n: usize, fail: usize)
    ensures
        exists|d: Seq<char>|
            #[trigger] reads_as(d, n as nat) && batch_text(BatchSummary::AllSucceeded { n })
                == "All "@ + d + " files converted."@,
        exists|a: Seq<char>, b: Seq<char>, c: Seq<char>|
            #![trigger reads_as(a, ok as nat), reads_as(b, n as nat), reads_as(c, fail as nat)]
            reads_as(a, ok as nat) && reads_as(b, n as nat) && reads_as(c, fail as nat)
                && batch_text(BatchSummary::Partial { ok, n, fail }) == a + " of "@ + b
                + " files converted. "@ + c + " couldn't be converted — see details."@,
        exists|d: Seq<char>|
            #[trigger] reads_as(d, n as nat) && batch_text(BatchSummary::AllFailed { n })
                == "None of the "@ + d + " files could be converted."@,
        exists|d: Seq<char>|
            #[trigger] reads_as(d, ok as nat) && batch_text(BatchSummary::Cancelled { ok })
                == "Stopped. "@ + d
                + " files were already converted and kept; the rest were not started."@,
{
    lemma_decimal_digits(ok as nat);
    lemma_decimal_digits(n as nat);
    lemma_decimal_digits(fail as nat);
    let a = decimal(ok as nat);
    let b = decimal(n as nat);
    let c = decimal(fail as nat);
    assert(reads_as(a, ok as nat));
    assert(reads_as(b, n as nat));
    assert(reads_as(c, fail as nat));
    assert(batch_text(BatchSummary::Partial { ok, n, fail }) == a + " of "@ + b
        + " files converted. "@ + c + " couldn't be converted — see details."@);
}

/// The tail appended (after a space) to a summary line when temporary files may remain.
pub const WITH_RESIDUE_TAIL: &'static str = "Some temporary files may remain — see details.";

/// The note of each predictable-loss kind; only the vector-to-raster note has slots, `{w}` and
/// `{h}`.
pub open spec fn lossy_template(kind: LossyKind) -> Seq<char> {
    match kind {
        LossyKind::ImageLossyCodec => "Saved with compression — fine details may be slightly reduced."@,
        LossyKind::ImagePalette => "Reduced to 256 colours — some colour detail is lost."@,
        LossyKind::ImageDownscale => "Resized to multiple icon sizes — detail may be lost at smaller sizes."@,
        LossyKind::ImageAlphaFlatten => "Transparency isn't supported here and will be filled with a background colour."@,
        LossyKind::ImageAnimationFlatten => "Animated — only the first frame is converted."@,
        LossyKind::ImageSvgRaster => "Vector image converted to a fixed-size picture ({w}×{h}) — it won't scale up cleanly afterward."@,
        LossyKind::DocPdfReflow => "Layout may shift slightly when converted to PDF."@,
        LossyKind::DocPdfToText => "Text only — layout, tables and images are dropped."@,
        LossyKind::DocHtmlRender => "The result may look different from a web browser."@,
        LossyKind::DocToText => "Text only — formatting and images are dropped."@,
        LossyKind::DocSimplified => "Some formatting may be simplified."@,
        LossyKind::SheetToDelimited => "Only one sheet and its values are exported — formatting, formulas and other sheets are dropped."@,
        LossyKind::XlsLegacyLimits => "Saved in the old Excel format — rows/columns beyond the legacy limit and newer features are dropped."@,
        LossyKind::TextEncodingNarrowed => "Some characters can't be saved in the chosen encoding and would be lost."@,
        LossyKind::SlidesToPdfFlatten => "Animations, transitions and embedded media are flattened or dropped, and editing is no longer possible."@,
        LossyKind::OfficeRoundtripApprox => "Some effects and layout may shift when converting between PowerPoint and OpenDocument."@,
        LossyKind::PptxToPptLegacy => "Saved in the old PowerPoint format — SmartArt, modern charts, and newer transitions (e.g. Morph) can't be stored and are simplified or dropped."@,
        LossyKind::AudioLossyTarget => "Saved in a compressed audio format — some quality is reduced."@,
        LossyKind::AudioTranscode => "Re-compressing already-compressed audio — quality drops a little more."@,
        LossyKind::AudioLossyOrigin => "This won't improve quality — the original is already compressed, so the result is just larger."@,
        LossyKind::AudioBitdepth => "Saved at 16-bit — the source's extra audio precision is reduced."@,
        LossyKind::AudioTagsDropped => "This format can't store song info, so title/artist tags are dropped."@,
        LossyKind::VideoReencode => "Re-encoded to play widely — some video quality is reduced."@,
        LossyKind::VideoAlphaLost => "Transparency isn't supported in this format and will be removed."@,
        LossyKind::VideoSubsDropped => "Embedded subtitles couldn't be kept and were dropped."@,
        LossyKind::VideoToGif => "GIFs reduce colours, smoothness and remove sound — best for short clips."@,
        LossyKind::AudioDownmix => "Surround sound is mixed down to stereo for this format."@,
    }
}

/// The note of `kind` as the catalog stores it.
pub fn lossy_note_template(kind: LossyKind) -> (r: &'static str)
    ensures
        r@ == lossy_template(kind),
{
    match kind {
        LossyKind::ImageLossyCodec => "Saved with compression — fine details may be slightly reduced.",
        LossyKind::ImagePalette => "Reduced to 256 colours — some colour detail is lost.",
        LossyKind::ImageDownscale => "Resized to multiple icon sizes — detail may be lost at smaller sizes.",
        LossyKind::ImageAlphaFlatten => "Transparency isn't supported here and will be filled with a background colour.",
        LossyKind::ImageAnimationFlatten => "Animated — only the first frame is converted.",
        LossyKind::ImageSvgRaster => "Vector image converted to a fixed-size picture ({w}×{h}) — it won't scale up cleanly afterward.",
        LossyKind::DocPdfReflow => "Layout may shift slightly when converted to PDF.",
        LossyKind::DocPdfToText => "Text only — layout, tables and images are dropped.",
        LossyKind::DocHtmlRender => "The result may look different from a web browser.",
        LossyKind::DocToText => "Text only — formatting and images are dropped.",
        LossyKind::DocSimplified => "Some formatting may be simplified.",
        LossyKind::SheetToDelimited => "Only one sheet and its values are exported — formatting, formulas and other sheets are dropped.",
        LossyKind::XlsLegacyLimits => "Saved in the old Excel format — rows/columns beyond the legacy limit and newer features are dropped.",
        LossyKind::TextEncodingNarrowed => "Some characters can't be saved in the chosen encoding and would be lost.",
        LossyKind::SlidesToPdfFlatten => "Animations, transitions and embedded media are flattened or dropped, and editing is no longer possible.",
        LossyKind::OfficeRoundtripApprox => "Some effects and layout may shift when converting between PowerPoint and OpenDocument.",
        LossyKind::PptxToPptLegacy => "Saved in the old PowerPoint format — SmartArt, modern charts, and newer transitions (e.g. Morph) can't be stored and are simplified or dropped.",
        LossyKind::AudioLossyTarget => "Saved in a compressed audio format — some quality is reduced.",
        LossyKind::AudioTranscode => "Re-compressing already-compressed audio — quality drops a little more.",
        LossyKind::AudioLossyOrigin => "This won't improve quality — the original is already compressed, so the result is just larger.",
        LossyKind::AudioBitdepth => "Saved at 16-bit — the source's extra audio precision is reduced.",
        LossyKind::AudioTagsDropped => "This format can't store song info, so title/artist tags are dropped.",
        LossyKind::VideoReencode => "Re-encoded to play widely — some video quality is reduced.",
        LossyKind::VideoAlphaLost => "Transparency isn't supported in this format and will be removed.",
        LossyKind::VideoSubsDropped => "Embedded subtitles couldn't be kept and were dropped.",
        LossyKind::VideoToGif => "GIFs reduce colours, smoothness and remove sound — best for short clips.",
        LossyKind::AudioDownmix => "Surround sound is mixed down to stereo for this format.",
    }
}

/// The rendered note of `kind`: a note with a `{w}` slot takes the raster width and height in
/// decimal and has none without them; any other note is shown as stored.
pub open spec fn lossy_text(kind: LossyKind, raster_size: Option<(u32, u32)>) -> Option<Seq<char>> {
    let t = lossy_template(kind);
    if contains_seq(t, "{w}"@) {
        match raster_size {
            Some((w, h)) => Some(
                replace_all(
                    replace_all(t, "{w}"@, decimal(w as nat)),
                    "{h}"@,
                    decimal(h as nat),
                ),
            ),
            None => None,
        }
    } else {
        Some(t)
    }
}

/// The predictable-loss line for `kind`. `None` only when the note needs the raster dimensions
/// and none were given, a caller error rather than "no loss".
pub fn lossy_note(kind: LossyKind, raster_size: Option<(u32, u32)>) -> (r: Option<OutcomeMsg>)
    ensures
        note_of(r) == match lossy_text(kind, raster_size) {
            Some(text) => Some(OutcomeNote::Lossy { kind, text }),
            None => None,
        },
{
    let template = lossy_note_template(kind);
    proof {
        reveal_strlit("{w}");
        reveal_strlit("{h}");
    }
    let text = if str_contains(template, "{w}") {
        match raster_size {
            Some((width, height)) => {
                let w = decimal_string(width as u64);
                let h = decimal_string(height as u64);
                let first = replace_all_str(template, "{w}", w.as_str());
                replace_all_str(first.as_str(), "{h}", h.as_str())
            },
            None => {
                return None;
            },
        }
    } else {
        String::from_str(template)
    };
    Some(OutcomeMsg::Lossy { kind, text })
}

/// Every predictable-loss note but the vector-to-raster one is free of slot braces.
/// `s` opens with an ASCII letter, so it is not blank.
pub open spec fn opens_with_letter(s: Seq<char>) -> bool {
    s.len() > 0 && (('a' <= s[0] && s[0] <= 'z') || ('A' <= s[0] && s[0] <= 'Z'))
}

proof fn lemma_lossy_template_brace_free(kind: LossyKind)
    requires
        kind != LossyKind::ImageSvgRaster,
    ensures
        free_of(lossy_template(kind), '{'),
        free_of(lossy_template(kind), '}'),
        opens_with_letter(lossy_template(kind)),
{
    match kind {
        LossyKind::ImageLossyCodec => {
            reveal_strlit("Saved with compression — fine details may be slightly reduced.");
        },
        LossyKind::ImagePalette => {
            reveal_strlit("Reduced to 256 colours — some colour detail is lost.");
        },
        LossyKind::ImageDownscale => {
            reveal_strlit("Resized to multiple icon sizes — detail may be lost at smaller sizes.");
        },
        LossyKind::ImageAlphaFlatten => {
            reveal_strlit("Transparency isn't supported here and will be filled with a background colour.");
        },
        LossyKind::ImageAnimationFlatten => {
            reveal_strlit("Animated — only the first frame is converted.");
        },
        LossyKind::ImageSvgRaster => {},
        LossyKind::DocPdfReflow => {
            reveal_strlit("Layout may shift slightly when converted to PDF.");
        },
        LossyKind::DocPdfToText => {
            reveal_strlit("Text only — layout, tables and images are dropped.");
        },
        LossyKind::DocHtmlRender => {
            reveal_strlit("The result may look different from a web browser.");
        },
        LossyKind::DocToText => {
            reveal_strlit("Text only — formatting and images are dropped.");
        },
        LossyKind::DocSimplified => {
            reveal_strlit("Some formatting may be simplified.");
        },
        LossyKind::SheetToDelimited => {
            reveal_strlit("Only one sheet and its values are exported — formatting, formulas and other sheets are dropped.");
        },
        LossyKind::XlsLegacyLimits => {
            reveal_strlit("Saved in the old Excel format — rows/columns beyond the legacy limit and newer features are dropped.");
        },
        LossyKind::TextEncodingNarrowed => {
            reveal_strlit("Some characters can't be saved in the chosen encoding and would be lost.");
        },
        LossyKind::SlidesToPdfFlatten => {
            reveal_strlit("Animations, transitions and embedded media are flattened or dropped, and editing is no longer possible.");
        },
        LossyKind::OfficeRoundtripApprox => {
            reveal_strlit("Some effects and layout may shift when converting between PowerPoint and OpenDocument.");
        },
        LossyKind::PptxToPptLegacy => {
            reveal_strlit("Saved in the old PowerPoint format — SmartArt, modern charts, and newer transitions (e.g. Morph) can't be stored and are simplified or dropped.");
        },
        LossyKind::AudioLossyTarget => {
            reveal_strlit("Saved in a compressed audio format — some quality is reduced.");
        },
        LossyKind::AudioTranscode => {
            reveal_strlit("Re-compressing already-compressed audio — quality drops a little more.");
        },
        LossyKind::AudioLossyOrigin => {
            reveal_strlit("This won't improve quality — the original is already compressed, so the result is just larger.");
        },
        LossyKind::AudioBitdepth => {
            reveal_strlit("Saved at 16-bit — the source's extra audio precision is reduced.");
        },
        LossyKind::AudioTagsDropped => {
            reveal_strlit("This format can't store song info, so title/artist tags are dropped.");
        },
        LossyKind::VideoReencode => {
            reveal_strlit("Re-encoded to play widely — some video quality is reduced.");
        },
        LossyKind::VideoAlphaLost => {
            reveal_strlit("Transparency isn't supported in this format and will be removed.");
        },
        LossyKind::VideoSubsDropped => {
            reveal_strlit("Embedded subtitles couldn't be kept and were dropped.");
        },
        LossyKind::VideoToGif => {
            reveal_strlit("GIFs reduce colours, smoothness and remove sound — best for short clips.");
        },
        LossyKind::AudioDownmix => {
            reveal_strlit("Surround sound is mixed down to stereo for this format.");
        },
    }
}

/// The vector-to-raster note around its two slots.
pub open spec fn svg_raster_note(w: Seq<char>, h: Seq<char>) -> Seq<char> {
    "Vector image converted to a fixed-size picture ("@ + w + "×"@ + h
        + ") — it won't scale up cleanly afterward."@
}

/// The vector-to-raster note is the only predictable-loss note with slots: it renders with the
/// raster width and height in decimal in its two slots, and not at all without them; every other
/// note renders as stored, with or without dimensions. Every note opens with a letter, so none is
/// blank, and no rendered note carries a brace.
pub proof fn the_svg_raster_note_is_the_only_templated_note(
    kind: LossyKind,
    size: Option<(u32, u32)>,
)
    ensures
        contains_seq(lossy_template(kind), "{w}"@) <==> kind == LossyKind::ImageSvgRaster,
        lossy_template(LossyKind::ImageSvgRaster) == svg_raster_note("{w}"@, "{h}"@),
        kind != LossyKind::ImageSvgRaster ==> lossy_text(kind, size) == Some(lossy_template(kind)),
        kind == LossyKind::ImageSvgRaster ==> lossy_text(kind, size) == match size {
            Some((w, h)) => Some(svg_raster_note(decimal(w as nat), decimal(h as nat))),
            None => None,
        },
        opens_with_letter(lossy_template(kind)),
        match lossy_text(kind, size) {
            Some(t) => free_of(t, '{') && free_of(t, '}') && opens_with_letter(t),
            None => true,
        },
{
    reveal_strlit("{w}");
    reveal_strlit("{h}");
    reveal_strlit("Vector image converted to a fixed-size picture (");
    reveal_strlit("×");
    reveal_strlit(") — it won't scale up cleanly afterward.");
    reveal_strlit("Vector image converted to a fixed-size picture ({w}×{h}) — it won't scale up cleanly afterward.");
    let head = "Vector image converted to a fixed-size picture ("@;
    let tail = ") — it won't scale up cleanly afterward."@;
    let mid = "×"@;
    assert(lossy_template(LossyKind::ImageSvgRaster) =~= svg_raster_note("{w}"@, "{h}"@));
    assert(free_of(head, '{'));
    assert(free_of(tail, '{'));
    assert(free_of(mid, '{'));
    assert(free_of(head, '}'));
    assert(free_of(tail, '}'));
    assert(free_of(mid, '}'));
    assert(opens_with_letter(lossy_template(LossyKind::ImageSvgRaster)));
    if kind != LossyKind::ImageSvgRaster {
        lemma_lossy_template_brace_free(kind);
        lemma_free_no_occurrence(lossy_template(kind), "{w}"@);
    } else {
        let t = lossy_template(kind);
        let rest = mid + "{h}"@ + tail;
        assert(t =~= head + "{w}"@ + rest);
        assert forall|i: int| !#[trigger] occurs_at(rest, "{w}"@, i) by {
            if occurs_at(rest, "{w}"@, i) {
                assert(rest.subrange(i, i + 3)[0] == rest[i]);
                assert(rest.subrange(i, i + 3)[1] == rest[i + 1]);
            }
        }
        lemma_replace_single(head, "{w}"@, rest, Seq::empty());
        assert(t == head + "{w}"@ + rest);
        assert(contains_seq(t, "{w}"@));
        match size {
            Some((w, h)) => {
                let dw = decimal(w as nat);
                let dh = decimal(h as nat);
                lemma_decimal_digits(w as nat);
                lemma_decimal_digits(h as nat);
                assert(free_of(dw, '{')) by {
                    assert forall|i: int| 0 <= i < dw.len() implies dw[i] != '{' by {
                        assert('0' <= dw[i] <= '9');
                    }
                }
                assert(free_of(dh, '{')) by {
                    assert forall|i: int| 0 <= i < dh.len() implies dh[i] != '{' by {
                        assert('0' <= dh[i] <= '9');
                    }
                }
                assert(free_of(dw, '}')) by {
                    assert forall|i: int| 0 <= i < dw.len() implies dw[i] != '}' by {
                        assert('0' <= dw[i] <= '9');
                    }
                }
                assert(free_of(dh, '}')) by {
                    assert forall|i: int| 0 <= i < dh.len() implies dh[i] != '}' by {
                        assert('0' <= dh[i] <= '9');
                    }
                }
                lemma_replace_single(head, "{w}"@, rest, dw);
                let first = head + dw + rest;
                let p2 = head + dw + mid;
                assert(first =~= p2 + "{h}"@ + tail);
                assert(free_of(p2, '{'));
                lemma_free_no_occurrence(tail, "{h}"@);
                lemma_replace_single(p2, "{h}"@, tail, dh);
                assert(p2 + dh + tail =~= svg_raster_note(dw, dh));
                let note = svg_raster_note(dw, dh);
                assert(free_of(note, '{') && free_of(note, '}')) by {
                    assert forall|i: int| 0 <= i < note.len() implies note[i] != '{' && note[i]
                        != '}' by {
                        let a = head.len() as int;
                        let b = a + dw.len();
                        let c = b + mid.len();
                        let d = c + dh.len();
                        if i < a {
                            assert(note[i] == head[i]);
                        } else if i < b {
                            assert(note[i] == dw[i - a]);
                        } else if i < c {
                            assert(note[i] == mid[i - b]);
                        } else if i < d {
                            assert(note[i] == dh[i - c]);
                        } else {
                            assert(note[i] == tail[i - d]);
                        }
                    }
                }
                assert(note[0] == head[0]);
            },
            None => {},
        }
    }
}

/// The catalog row of a kind with a slot, split around it: the text before the slot, the slot,
/// and the text after it.
pub open spec fn slotted_row(kind: ConversionErrorKind) -> Option<(Seq<char>, Seq<char>, Seq<char>)> {
    match kind {
        ConversionErrorKind::UnsupportedType => Some(
            (
                "ConvertIA can't convert this type of file — it looks like "@,
                "{detected}"@,
                "."@,
            ),
        ),
        ConversionErrorKind::UnopenableOutputName => Some(
            (
                "The output name \""@,
                "{name}"@,
                "\" can't be used as a file on Windows, so this file was skipped. Rename the original so its name isn't a reserved word (like CON or NUL) and doesn't end with a dot or space."@,
            ),
        ),
        ConversionErrorKind::PlatformUnavailable => Some(
            (
                "This conversion isn't available on "@,
                "{platform}"@,
                " because the required format support can't be included here."@,
            ),
        ),
        ConversionErrorKind::CleanupResidue => Some(
            (
                "This file couldn't be converted, and a temporary file may remain at "@,
                "{path}"@,
                "."@,
            ),
        ),
        _ => None,
    }
}


/// Every row of a kind without a slot is free of slot braces.
proof fn lemma_plain_row_brace_free(kind: ConversionErrorKind)
    requires
        is_item_level(kind),
        slotted_row(kind) is None,
    ensures
        free_of(conversion_template(kind)->0, '{'),
        free_of(conversion_template(kind)->0, '}'),
        conversion_template(kind)->0.len() > 0,
{
    match kind {
        ConversionErrorKind::Corrupt => {
            reveal_strlit("This file looks damaged and couldn't be converted.");
        },
        ConversionErrorKind::Empty => {
            reveal_strlit("This file is empty — there's nothing to convert.");
        },
        ConversionErrorKind::Unrecognized => {
            reveal_strlit("ConvertIA couldn't tell what kind of file this is, so it can't convert it.");
        },
        ConversionErrorKind::UnsupportedPair => {
            reveal_strlit("That conversion isn't available.");
        },
        ConversionErrorKind::Unreadable => {
            reveal_strlit("ConvertIA couldn't open this file — it may be in use by another program, or you don't have permission to read it.");
        },
        ConversionErrorKind::Gone => {
            reveal_strlit("This file is no longer there — it may have been moved, renamed, or its drive removed.");
        },
        ConversionErrorKind::PasswordProtected => {
            reveal_strlit("This file is password-protected or copy-protected, so ConvertIA can't read it.");
        },
        ConversionErrorKind::NoAudioTrack => {
            reveal_strlit("This file has no audio to extract.");
        },
        ConversionErrorKind::TooBig => {
            reveal_strlit("This file is too large for ConvertIA to convert on this computer.");
        },
        ConversionErrorKind::OutOfDisk => {
            reveal_strlit("There isn't enough free disk space to finish this conversion.");
        },
        ConversionErrorKind::WriteFailed => {
            reveal_strlit("ConvertIA couldn't save the converted file to that location.");
        },
        ConversionErrorKind::PathTooLong => {
            reveal_strlit("The output name would be too long for this system, so this file was skipped. Try a shorter folder or file name.");
        },
        ConversionErrorKind::TooManyCollisions => {
            reveal_strlit("There are already too many files with this name in that folder, so this one couldn't be saved. Try a different folder.");
        },
        ConversionErrorKind::EngineCrash => {
            reveal_strlit("Something went wrong while converting this file, so it was skipped.");
        },
        ConversionErrorKind::EngineHang => {
            reveal_strlit("This file took too long to convert and was stopped.");
        },
        ConversionErrorKind::EngineError => {
            reveal_strlit("ConvertIA couldn't convert this file.");
        },
        ConversionErrorKind::QuarantinedByOs => {
            reveal_strlit("macOS is blocking one of ConvertIA's built-in tools with a security check. Open System Settings → Privacy & Security and choose \"Open Anyway\", then try again.");
        },
        ConversionErrorKind::InternalError => {
            reveal_strlit("Something unexpected went wrong, so this file was skipped. The rest of your files will continue.");
        },
        _ => {},
    }
}


/// A slot is `{`, a name free of braces, and `}`.
pub open spec fn is_slot(slot: Seq<char>) -> bool {
    &&& slot.len() >= 2
    &&& slot[0] == '{'
    &&& slot[slot.len() - 1] == '}'
    &&& free_of(slot.subrange(1, slot.len() - 1), '{')
    &&& free_of(slot.subrange(1, slot.len() - 1), '}')
}

/// Brace-free text around one slot: its only braces are the slot's own, and the slot occurs
/// exactly once, right after the text before it.
proof fn lemma_one_slot(before: Seq<char>, slot: Seq<char>, after: Seq<char>)
    requires
        free_of(before, '{'),
        free_of(before, '}'),
        free_of(after, '{'),
        free_of(after, '}'),
        is_slot(slot),
    ensures
        forall|i: int|
            0 <= i < (before + slot + after).len() ==> ((#[trigger] (before + slot + after)[i] == '{')
                <==> i == before.len()),
        forall|i: int|
            0 <= i < (before + slot + after).len() ==> (((before + slot + after)[i] == '}')
                <==> i == before.len() + slot.len() - 1),
        forall|i: int|
            #[trigger] occurs_at(before + slot + after, slot, i) <==> i == before.len(),
{
    let t = before + slot + after;
    let b = before.len() as int;
    let m = slot.subrange(1, slot.len() - 1);
    assert forall|i: int| 0 <= i < t.len() implies ((#[trigger] t[i] == '{') <==> i == b) && ((t[i]
        == '}') <==> i == b + slot.len() - 1) by {
        if i < b {
            assert(t[i] == before[i]);
        } else if i < b + slot.len() {
            assert(t[i] == slot[i - b]);
            if b < i < b + slot.len() - 1 {
                assert(slot[i - b] == m[i - b - 1]);
            }
        } else {
            assert(t[i] == after[i - b - slot.len()]);
        }
    }
    assert(t.subrange(b, b + slot.len()) =~= slot);
    assert forall|i: int| #[trigger] occurs_at(t, slot, i) implies i == b by {
        assert(t.subrange(i, i + slot.len())[0] == t[i]);
    }
}

/// A row with exactly one brace, opening its slot, holds no other slot whose text parts from its
/// own at index `k`.
proof fn lemma_other_slot_absent(
    before: Seq<char>,
    slot: Seq<char>,
    after: Seq<char>,
    other: Seq<char>,
    k: int,
)
    requires
        free_of(before, '{'),
        free_of(after, '{'),
        slot.len() > 0,
        slot[0] == '{',
        free_of(slot.skip(1), '{'),
        0 < k < slot.len(),
        k < other.len(),
        other[0] == '{',
        slot[k] != other[k],
    ensures
        !contains_seq(before + slot + after, other),
{
    let t = before + slot + after;
    let b = before.len() as int;
    assert forall|i: int| !#[trigger] occurs_at(t, other, i) by {
        if occurs_at(t, other, i) {
            assert(t.subrange(i, i + other.len())[0] == t[i]);
            if i < b {
                assert(t[i] == before[i]);
            } else if i < b + slot.len() {
                if i > b {
                    assert(t[i] == slot.skip(1)[i - b - 1]);
                } else {
                    assert(t.subrange(i, i + other.len())[k] == t[i + k]);
                    assert(t[i + k] == slot[k]);
                }
            } else {
                assert(t[i] == after[i - b - slot.len()]);
            }
        }
    }
}


/// Every item-level failure line is its catalog row with the row's one slot, if it has one,
/// filled by the argument: once, in place, with the row's own text before and after it, and the
/// argument never scanned for further slots. A slotted row holds its slot exactly once and no
/// brace but the slot's two; a row without a slot holds no brace and renders as stored. Only the
/// detected-type, output-name, platform and residue-path rows have a slot.
pub proof fn a_failure_line_fills_its_one_slot(kind: ConversionErrorKind, arg: Seq<char>)
    ensures
        !is_item_level(kind) ==> conversion_text(kind, arg) is None,
        is_item_level(kind) ==> match slotted_row(kind) {
            Some((before, slot, after)) => {
                &&& conversion_template(kind) == Some(before + slot + after)
                &&& template_slot(before + slot + after) == Some(slot)
                &&& is_slot(slot)
                &&& free_of(before, '{')
                &&& free_of(after, '{')
                &&& free_of(before, '}')
                &&& free_of(after, '}')
                &&& (forall|i: int|
                    #[trigger] occurs_at(before + slot + after, slot, i) <==> i == before.len())
                &&& (forall|i: int|
                    0 <= i < (before + slot + after).len() ==> ((#[trigger] (before + slot
                        + after)[i] == '{') <==> i == before.len()))
                &&& (forall|i: int|
                    0 <= i < (before + slot + after).len() ==> ((#[trigger] (before + slot
                        + after)[i] == '}') <==> i == before.len() + slot.len() - 1))
                &&& conversion_text(kind, arg) == Some(before + arg + after)
            },
            None => {
                &&& template_slot(conversion_template(kind)->0) is None
                &&& free_of(conversion_template(kind)->0, '{')
                &&& free_of(conversion_template(kind)->0, '}')
                &&& conversion_text(kind, arg) == Some(conversion_template(kind)->0)
            },
        },
{
    reveal_strlit("{detected}");
    reveal_strlit("{platform}");
    reveal_strlit("{path}");
    reveal_strlit("{name}");
    if is_item_level(kind) {
        match slotted_row(kind) {
            None => {
                lemma_plain_row_brace_free(kind);
                let t = conversion_template(kind)->0;
                lemma_free_no_occurrence(t, "{detected}"@);
                lemma_free_no_occurrence(t, "{platform}"@);
                lemma_free_no_occurrence(t, "{path}"@);
                lemma_free_no_occurrence(t, "{name}"@);
            },
            Some((before, slot, after)) => {
                lemma_slotted_row(kind, arg);
                lemma_one_slot(before, slot, after);
            },
        }
    }
}


proof fn lemma_slotted_row(kind: ConversionErrorKind, arg: Seq<char>)
    requires
        slotted_row(kind) is Some,
    ensures
        match slotted_row(kind) {
            Some((before, slot, after)) => {
                &&& conversion_template(kind) == Some(before + slot + after)
                &&& template_slot(before + slot + after) == Some(slot)
                &&& free_of(before, '{')
                &&& free_of(after, '{')
                &&& free_of(before, '}')
                &&& free_of(after, '}')
                &&& before.len() > 0
                &&& is_slot(slot)
                &&& conversion_text(kind, arg) == Some(before + arg + after)
            },
            None => true,
        },
{
    reveal_strlit("{detected}");
    reveal_strlit("{platform}");
    reveal_strlit("{path}");
    reveal_strlit("{name}");
    let (before, slot, after) = slotted_row(kind)->0;
    match kind {
        ConversionErrorKind::UnsupportedType => {
            reveal_strlit("ConvertIA can't convert this type of file — it looks like ");
            reveal_strlit(".");
            reveal_strlit("ConvertIA can't convert this type of file — it looks like {detected}.");
        },
        ConversionErrorKind::UnopenableOutputName => {
            reveal_strlit("The output name \"");
            reveal_strlit("\" can't be used as a file on Windows, so this file was skipped. Rename the original so its name isn't a reserved word (like CON or NUL) and doesn't end with a dot or space.");
            reveal_strlit("The output name \"{name}\" can't be used as a file on Windows, so this file was skipped. Rename the original so its name isn't a reserved word (like CON or NUL) and doesn't end with a dot or space.");
        },
        ConversionErrorKind::PlatformUnavailable => {
            reveal_strlit("This conversion isn't available on ");
            reveal_strlit(" because the required format support can't be included here.");
            reveal_strlit("This conversion isn't available on {platform} because the required format support can't be included here.");
        },
        ConversionErrorKind::CleanupResidue => {
            reveal_strlit("This file couldn't be converted, and a temporary file may remain at ");
            reveal_strlit(".");
            reveal_strlit("This file couldn't be converted, and a temporary file may remain at {path}.");
        },
        _ => {},
    }
    let t = before + slot + after;
    assert(conversion_template(kind)->0 =~= t);
    assert(free_of(before, '{'));
    assert(free_of(after, '{'));
    assert(free_of(slot.skip(1), '{'));
    assert(free_of(before, '}'));
    assert(free_of(after, '}'));
    assert(is_slot(slot));
    lemma_free_no_occurrence(after, slot);
    lemma_replace_single(before, slot, after, arg);
    if slot != "{detected}"@ {
        lemma_other_slot_absent(before, slot, after, "{detected}"@, 1);
    }
    if slot == "{path}"@ {
        lemma_other_slot_absent(before, slot, after, "{platform}"@, 2);
    }
    if slot == "{name}"@ {
        lemma_other_slot_absent(before, slot, after, "{platform}"@, 1);
        lemma_other_slot_absent(before, slot, after, "{path}"@, 1);
    }
}

/// A skip line is never empty, and it holds no brace when the detected type's name holds none:
/// whatever the reason, no slot is ever left literal in it.
pub proof fn a_skip_line_leaves_no_slot(reason: SkipReason, detected: Option<Seq<char>>)
    requires
        match detected {
            Some(d) => free_of(d, '{') && free_of(d, '}'),
            None => true,
        },
    ensures
        skipped_text(reason, detected).len() > 0,
        free_of(skipped_text(reason, detected), '{'),
        free_of(skipped_text(reason, detected), '}'),
{
    let t = skipped_text(reason, detected);
    if reason == SkipReason::AlreadyConverted {
        reveal_strlit("This file was already converted in this session, so it was skipped.");
    } else if reason == SkipReason::Uncertain && detected is Some {
        reveal_strlit("ConvertIA isn't sure what kind of file this is — it might be ");
        reveal_strlit(" — so it can't convert it.");
        let head = "ConvertIA isn't sure what kind of file this is — it might be "@;
        let tail = " — so it can't convert it."@;
        let g = detected->0;
        assert(t == head + g + tail);
        assert forall|i: int| 0 <= i < t.len() implies t[i] != '{' && t[i] != '}' by {
            if i < head.len() {
                assert(t[i] == head[i]);
            } else if i < head.len() + g.len() {
                assert(t[i] == g[i - head.len()]);
            } else {
                assert(t[i] == tail[i - head.len() - g.len()]);
            }
        }
    } else {
        let kind = skip_error_kind(reason);
        let arg = match detected {
            Some(d) => d,
            None => Seq::<char>::empty(),
        };
        assert(free_of(arg, '{') && free_of(arg, '}'));
        assert(is_item_level(kind));
        a_failure_line_fills_its_one_slot(kind, arg);
        match slotted_row(kind) {
            Some((before, slot, after)) => {
                lemma_slotted_row(kind, arg);
                assert(t == before + arg + after);
                assert forall|i: int| 0 <= i < t.len() implies t[i] != '{' && t[i] != '}' by {
                    if i < before.len() {
                        assert(t[i] == before[i]);
                    } else if i < before.len() + arg.len() {
                        assert(t[i] == arg[i - before.len()]);
                    } else {
                        assert(t[i] == after[i - before.len() - arg.len()]);
                    }
                }
            },
            None => {
                lemma_plain_row_brace_free(kind);
            },
        }
    }
}

/// The residue annotation is the canonical row with the residue path in its one slot, once.
pub proof fn the_residue_annotation_fills_its_one_slot(path: Seq<char>)
    ensures
        replace_all(residue_template(), "{path}"@, path) == "Converted — a temporary file may remain at "@
            + path + "."@,
{
    reveal_strlit("{path}");
    reveal_strlit("Converted — a temporary file may remain at ");
    reveal_strlit(".");
    reveal_strlit("Converted — a temporary file may remain at {path}.");
    let before = "Converted — a temporary file may remain at "@;
    let after = "."@;
    assert(residue_template() =~= before + "{path}"@ + after);
    assert(free_of(before, '{'));
    assert(free_of(after, '{'));
    lemma_free_no_occurrence(after, "{path}"@);
    lemma_replace_single(before, "{path}"@, after, path);
}

/// One read failure, two answers that are never confused: met at intake it is the `Unreadable`
/// skip, met when the item's turn comes it is the `Gone` failure (the file went missing) or the
/// `Unreadable` failure, never `Empty`, which is an intake-only skip.
pub proof fn a_read_failure_is_a_skip_at_intake_and_a_failure_at_its_turn(failure: ReadFailure)
    ensures
        detection_skip(DetectionOutcome::Unreadable { reason: failure }) == Some(
            SkipReason::Unreadable,
        ),
        read_failure_kind(failure) == ConversionErrorKind::Gone || read_failure_kind(failure)
            == ConversionErrorKind::Unreadable,
        (read_failure_kind(failure) == ConversionErrorKind::Gone) <==> failure
            == ReadFailure::NotFound,
        read_failure_kind(failure) != ConversionErrorKind::Empty,
{
}

} // verus!
