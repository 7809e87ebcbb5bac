//! The small domain vocabulary the outcome catalogs and the open-target resolution speak of:
//! why an item was skipped at intake, why a read failed, which predictable loss a target carries,
//! what detection concluded, and the ids of items and open targets.
use vstd::prelude::*;

verus! {

/// Why an item was skipped rather than converted. Four are detection ineligibilities found at
/// intake; `AlreadyConverted` is the re-run skip of an item converted earlier in the session.
#[derive(Debug, Clone, Copy, PartialEq, Eq, Structural)]
pub enum SkipReason {
    UnsupportedType,
    Uncertain,
    Empty,
    Unreadable,
    AlreadyConverted,
}

/// How reading a source file failed.
#[derive(Debug, Clone, Copy, PartialEq, Eq, Structural)]
pub enum ReadFailure {
    NotFound,
    PermissionDenied,
    Locked,
    IoError,
}

/// The predictable-loss kinds a conversion target can carry; each has one note in the lossy
/// catalog.
#[derive(Debug, Clone, Copy, PartialEq, Eq, Structural)]
pub enum LossyKind {
    ImageLossyCodec,
    ImagePalette,
    ImageDownscale,
    ImageAlphaFlatten,
    ImageAnimationFlatten,
    ImageSvgRaster,
    DocPdfReflow,
    DocPdfToText,
    DocHtmlRender,
    DocToText,
    DocSimplified,
    SheetToDelimited,
    XlsLegacyLimits,
    TextEncodingNarrowed,
    SlidesToPdfFlatten,
    OfficeRoundtripApprox,
    PptxToPptLegacy,
    AudioLossyTarget,
    AudioTranscode,
    AudioLossyOrigin,
    AudioBitdepth,
    AudioTagsDropped,
    VideoReencode,
    VideoAlphaLost,
    VideoSubsDropped,
    VideoToGif,
    AudioDownmix,
}

/// What intake detection concluded about one dropped file.
#[derive(Debug, Clone, Copy, PartialEq, Eq, Structural)]
pub enum DetectionOutcome {
    /// An in-scope source format was recognised.
    Recognized,
    /// Recognised, but not a format this app converts.
    UnsupportedType,
    /// Detection could not classify the file confidently.
    Uncertain,
    /// The file has no content.
    Empty,
    /// The file could not be read at intake.
    Unreadable { reason: ReadFailure },
}

/// The intake skip a detection outcome projects to: every outcome but a recognised source is a
/// skip.
pub open spec fn detection_skip(d: DetectionOutcome) -> Option<SkipReason> {
    match d {
        DetectionOutcome::Recognized => None,
        DetectionOutcome::UnsupportedType => Some(SkipReason::UnsupportedType),
        DetectionOutcome::Uncertain => Some(SkipReason::Uncertain),
        DetectionOutcome::Empty => Some(SkipReason::Empty),
        DetectionOutcome::Unreadable { .. } => Some(SkipReason::Unreadable),
    }
}

impl DetectionOutcome {
    /// The pre-flight skip this outcome causes, `None` for a recognised source.
    pub fn skip_reason(&self) -> (r: Option<SkipReason>)
        ensures
            r == detection_skip(*self),
    {
        match self {
            DetectionOutcome::Recognized => None,
            DetectionOutcome::UnsupportedType => Some(SkipReason::UnsupportedType),
            DetectionOutcome::Uncertain => Some(SkipReason::Uncertain),
            DetectionOutcome::Empty => Some(SkipReason::Empty),
            DetectionOutcome::Unreadable { .. } => Some(SkipReason::Unreadable),
        }
    }
}

/// The id of one item of a run: its index in the frozen drop.
#[derive(Debug, Clone, Copy, PartialEq, Eq, Hash, Structural)]
pub struct ItemId {
    pub index: u32,
}

impl ItemId {
    /// The item at position `index` of the run.
    pub fn from_index(index: u32) -> (r: ItemId)
        ensures
            r.index == index,
    {
        ItemId { index }
    }

    /// The item's position in the run.
    pub fn as_u32(&self) -> (r: u32)
        ensures
            r == self.index,
    {
        self.index
    }
}

/// What the user asked to open after a run: a run root folder, an item's output file, or the
/// location of an item's cleanup residue. The user interface names only these ids, never a path.
#[derive(Debug, Clone, Copy, PartialEq, Eq, Structural)]
pub enum OpenTarget {
    CommonRoot,
    DivertRoot,
    Item(ItemId),
    Residue(ItemId),
}

} // verus!
