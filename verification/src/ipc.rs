//! The open-folder / open-file command's resolution: the user interface names an `OpenTarget`
//! id, never a path, and the id resolves only against the paths the current run recorded itself.
//! Also the one fixed web origin the app may open.
use crate::domain::{ItemId, OpenTarget};
use crate::outcome::{ConversionErrorKind, IpcError};
use std::collections::HashMap;
use vstd::prelude::*;
use vstd::string::*;

verus! {

broadcast use vstd::std_specs::hash::group_hash_axioms;

/// The canonical project Releases page, the one network origin the user can open from the app.
pub const PROJECT_PAGE_URL: &'static str = "https://github.com/Ne-IA/convertia/releases";

/// The shell operation a resolved target maps to, carrying the run's own recorded path.
#[derive(Debug, PartialEq, Eq)]
pub enum OpenerOp {
    /// Open the file manager with the path selected.
    RevealItemInDir(String),
    /// Open the path: a file in its default app, a folder in the file manager.
    OpenPath(String),
}

/// An opener operation with its path as a character sequence.
pub enum OpenerNote {
    Reveal(Seq<char>),
    Open(Seq<char>),
}

impl View for OpenerOp {
    type V = OpenerNote;

    open spec fn view(&self) -> OpenerNote {
        match self {
            OpenerOp::RevealItemInDir(p) => OpenerNote::Reveal(p@),
            OpenerOp::OpenPath(p) => OpenerNote::Open(p@),
        }
    }
}

/// The paths one run recorded, kept off the wire: the common output root, the divert root of a
/// run whose outputs were split, and per item its output file and its cleanup residue.
pub struct RunResultPaths {
    pub common_root: String,
    pub divert_root: Option<String>,
    pub item_outputs: HashMap<u32, String>,
    pub item_residues: HashMap<u32, String>,
}

/// The recorded paths as character sequences, the per-item tables keyed by item index.
pub struct PathsView {
    pub common_root: Seq<char>,
    pub divert_root: Option<Seq<char>>,
    pub outputs: Map<u32, Seq<char>>,
    pub residues: Map<u32, Seq<char>>,
}

impl View for RunResultPaths {
    type V = PathsView;

    open spec fn view(&self) -> PathsView {
        PathsView {
            common_root: self.common_root@,
            divert_root: match self.divert_root {
                Some(d) => Some(d@),
                None => None,
            },
            outputs: self.item_outputs@.map_values(|p: String| p@),
            residues: self.item_residues@.map_values(|p: String| p@),
        }
    }
}

impl RunResultPaths {
    /// The record of a run with the given roots and no per-item paths yet.
    pub fn new(common_root: String, divert_root: Option<String>) -> (r: Self)
        ensures
            r@.common_root == common_root@,
            r@.divert_root == match divert_root {
                Some(d) => Some(d@),
                None => None,
            },
            r@.outputs == Map::<u32, Seq<char>>::empty(),
            r@.residues == Map::<u32, Seq<char>>::empty(),
    {
        let r = RunResultPaths {
            common_root,
            divert_root,
            item_outputs: HashMap::new(),
            item_residues: HashMap::new(),
        };
        assert(r@.outputs =~= Map::<u32, Seq<char>>::empty());
        assert(r@.residues =~= Map::<u32, Seq<char>>::empty());
        r
    }

    /// Records `path` as the output file of `item`.
    pub fn record_output(&mut self, item: ItemId, path: String)
        ensures
            final(self)@.common_root == old(self)@.common_root,
            final(self)@.divert_root == old(self)@.divert_root,
            final(self)@.outputs == old(self)@.outputs.insert(item.index, path@),
            final(self)@.residues == old(self)@.residues,
    {
        self.item_outputs.insert(item.index, path);
        assert(self@.outputs =~= old(self)@.outputs.insert(item.index, path@));
    }

    /// Records `path` as the cleanup-residue location of `item`.
    pub fn record_residue(&mut self, item: ItemId, path: String)
        ensures
            final(self)@.common_root == old(self)@.common_root,
            final(self)@.divert_root == old(self)@.divert_root,
            final(self)@.outputs == old(self)@.outputs,
            final(self)@.residues == old(self)@.residues.insert(item.index, path@),
    {
        self.item_residues.insert(item.index, path);
        assert(self@.residues =~= old(self)@.residues.insert(item.index, path@));
    }
}

/// What a target resolves to: a run root opens as a folder (the divert root only on a split
/// run), an item opens its recorded output file, a residue is revealed, never launched; anything
/// the run did not record does not resolve.
pub open spec fn resolution(target: OpenTarget, paths: PathsView) -> Option<OpenerNote> {
    match target {
        OpenTarget::CommonRoot => Some(OpenerNote::Open(paths.common_root)),
        OpenTarget::DivertRoot => match paths.divert_root {
            Some(d) => Some(OpenerNote::Open(d)),
            None => None,
        },
        OpenTarget::Item(id) => if paths.outputs.contains_key(id.index) {
            Some(OpenerNote::Open(paths.outputs[id.index]))
        } else {
            None
        },
        OpenTarget::Residue(id) => if paths.residues.contains_key(id.index) {
            Some(OpenerNote::Reveal(paths.residues[id.index]))
        } else {
            None
        },
    }
}

/// An optional opener operation, viewed.
pub open spec fn op_note(r: Option<OpenerOp>) -> Option<OpenerNote> {
    match r {
        Some(op) => Some(op@),
        None => None,
    }
}

/// Resolves an open request against the run's recorded paths; `None` is the refusal.
pub fn resolve_open_target(target: &OpenTarget, paths: &RunResultPaths) -> (r: Option<OpenerOp>)
    ensures
        op_note(r) == resolution(*target, paths@),
{
    match target {
        OpenTarget::CommonRoot => Some(OpenerOp::OpenPath(paths.common_root.clone())),
        OpenTarget::DivertRoot => match &paths.divert_root {
            Some(d) => Some(OpenerOp::OpenPath(d.clone())),
            None => None,
        },
        OpenTarget::Item(id) => match paths.item_outputs.get(&id.index) {
            Some(p) => Some(OpenerOp::OpenPath(p.clone())),
            None => None,
        },
        OpenTarget::Residue(id) => match paths.item_residues.get(&id.index) {
            Some(p) => Some(OpenerOp::RevealItemInDir(p.clone())),
            None => None,
        },
    }
}

/// The open-folder / open-file command while no run's recorded paths are at hand to resolve
/// against: every target is refused, with the internal-error kind and no path shown. A refusal is
/// an error, never a success that opened nothing.
pub fn open_path(target: OpenTarget) -> (r: Result<(), IpcError>)
    ensures
        r matches Err(e) && e.kind == ConversionErrorKind::InternalError && e.message@
            == "Could not open the requested location."@ && e.path_display is None
            && e.residue_display is None,
{
    Err(
        IpcError {
            kind: ConversionErrorKind::InternalError,
            message: String::from_str("Could not open the requested location."),
            path_display: None,
            residue_display: None,
        },
    )
}

/// The error the project-page command answers when the shell could not open the page.
pub fn project_page_open_failure() -> (r: IpcError)
    ensures
        r.kind == ConversionErrorKind::InternalError,
        r.message@ == "Could not open the project page."@,
        r.path_display is None,
        r.residue_display is None,
{
    IpcError {
        kind: ConversionErrorKind::InternalError,
        message: String::from_str("Could not open the project page."),
        path_display: None,
        residue_display: None,
    }
}

/// A location the run records is what its target then resolves to: an item's output opens it, an
/// item's residue reveals it, and recording one never changes what any other target resolves to.
pub proof fn a_recorded_location_resolves_to_itself(
    paths: PathsView,
    item: ItemId,
    path: Seq<char>,
    other: OpenTarget,
)
    ensures
        resolution(
            OpenTarget::Item(item),
            PathsView { outputs: paths.outputs.insert(item.index, path), ..paths },
        ) == Some(OpenerNote::Open(path)),
        resolution(
            OpenTarget::Residue(item),
            PathsView { residues: paths.residues.insert(item.index, path), ..paths },
        ) == Some(OpenerNote::Reveal(path)),
        other != OpenTarget::Item(item) ==> resolution(
            other,
            PathsView { outputs: paths.outputs.insert(item.index, path), ..paths },
        ) == resolution(other, paths),
        other != OpenTarget::Residue(item) ==> resolution(
            other,
            PathsView { residues: paths.residues.insert(item.index, path), ..paths },
        ) == resolution(other, paths),
{
}

} // verus!
