//! Whether an output directory lies in a temp location the OS may purge: the per-platform
//! ephemeral roots, and the component-wise "at or under" test on resolved paths, so `/tmpfoo`
//! is not under `/tmp`.
use crate::platform::Platform;
use vstd::prelude::*;

verus! {

/// Whether byte `c` separates path components: `/` everywhere, `\` too on Windows.
pub open spec fn is_sep(c: u8, windows: bool) -> bool {
    c == 47 || (windows && c == 92)
}

/// The index of the first separator of `p` at or after `i`, or `p.len()` when there is none.
pub open spec fn next_sep(p: Seq<u8>, i: int, windows: bool) -> int
    decreases p.len() - i,
{
    if i >= p.len() {
        p.len() as int
    } else if is_sep(p[i], windows) {
        i
    } else {
        next_sep(p, i + 1, windows)
    }
}

/// The text of `p` from `i` on, split at every separator, empty pieces included.
pub open spec fn pieces_from(p: Seq<u8>, i: int, windows: bool) -> Seq<Seq<u8>>
    decreases p.len() - i,
{
    if i > p.len() || i < 0 {
        Seq::empty()
    } else {
        let j = next_sep(p, i, windows);
        if j >= p.len() {
            seq![p.subrange(i, p.len() as int)]
        } else {
            proof {
                lemma_next_sep_bounds(p, i, windows);
            }
            seq![p.subrange(i, j)] + pieces_from(p, j + 1, windows)
        }
    }
}

pub proof fn lemma_next_sep_bounds(p: Seq<u8>, i: int, windows: bool)
    requires
        0 <= i <= p.len(),
    ensures
        i <= next_sep(p, i, windows) <= p.len(),
        next_sep(p, i, windows) < p.len() ==> is_sep(p[next_sep(p, i, windows)], windows),
        forall|k: int| i <= k < next_sep(p, i, windows) ==> !is_sep(p[k], windows),
    decreases p.len() - i,
{
    if i < p.len() && !is_sep(p[i], windows) {
        lemma_next_sep_bounds(p, i + 1, windows);
    }
}

/// The named components of a run of pieces: empty pieces (doubled or trailing separators) and
/// `.` pieces are not components.
pub open spec fn named(pieces: Seq<Seq<u8>>) -> Seq<Seq<u8>>
    decreases pieces.len(),
{
    if pieces.len() == 0 {
        pieces
    } else if pieces.last().len() == 0 || pieces.last() == seq![46u8] {
        named(pieces.drop_last())
    } else {
        named(pieces.drop_last()).push(pieces.last())
    }
}

/// The components of a path, as a path library reads them: a leading separator is the root
/// (written `/`), a leading `.` piece is the current directory (written `.`), and then the named
/// components in order.
pub open spec fn components(p: Seq<u8>, windows: bool) -> Seq<Seq<u8>> {
    let pieces = pieces_from(p, 0, windows);
    let head = if p.len() > 0 && is_sep(p[0], windows) {
        seq![seq![47u8]]
    } else if pieces.len() > 0 && pieces[0] == seq![46u8] {
        seq![seq![46u8]]
    } else {
        Seq::empty()
    };
    head + named(pieces)
}

/// Whether `target` is `base` or lies under it, component by component.
pub open spec fn at_or_under(target: Seq<u8>, base: Seq<u8>, windows: bool) -> bool {
    let t = components(target, windows);
    let b = components(base, windows);
    b.len() <= t.len() && t.take(b.len() as int) == b
}

proof fn lemma_next_sep_is(p: Seq<u8>, i: int, j: int, windows: bool)
    requires
        0 <= i <= j <= p.len(),
        forall|k: int| i <= k < j ==> !is_sep(p[k], windows),
        j < p.len() ==> is_sep(p[j], windows),
    ensures
        next_sep(p, i, windows) == j,
    decreases j - i,
{
    if i < j {
        lemma_next_sep_is(p, i + 1, j, windows);
    }
}

/// A byte sequence as a vector of its own.
fn copy_range(p: &[u8], a: usize, b: usize) -> (r: Vec<u8>)
    requires
        a <= b <= p@.len(),
    ensures
        r@ == p@.subrange(a as int, b as int),
{
    let mut out: Vec<u8> = Vec::new();
    let mut k = a;
    while k < b
        invariant
            a <= k <= b,
            b <= p@.len(),
            out@ == p@.subrange(a as int, k as int),
        decreases b - k,
    {
        out.push(p[k]);
        assert(p@.subrange(a as int, k + 1) =~= p@.subrange(a as int, k as int).push(p@[k as int]));
        k = k + 1;
    }
    out
}

/// Vectors of bytes as byte sequences.
pub open spec fn seqs_of(v: Seq<Vec<u8>>) -> Seq<Seq<u8>> {
    v.map_values(|x: Vec<u8>| x@)
}

/// The pieces of `p` split at every separator.
fn path_pieces(p: &[u8], windows: bool) -> (r: Vec<Vec<u8>>)
    ensures
        seqs_of(r@) == pieces_from(p@, 0, windows),
{
    let n = p.len();
    let mut out: Vec<Vec<u8>> = Vec::new();
    let mut start: usize = 0;
    let mut j: usize = 0;
    assert(seqs_of(out@) =~= Seq::<Seq<u8>>::empty());
    while j < n
        invariant
            n == p@.len(),
            start <= j <= n,
            forall|k: int| start <= k < j ==> !is_sep(p@[k], windows),
            seqs_of(out@) + pieces_from(p@, start as int, windows) == pieces_from(p@, 0, windows),
        decreases n - j,
    {
        let c = p[j];
        if c == 47u8 || (windows && c == 92u8) {
            proof {
                lemma_next_sep_is(p@, start as int, j as int, windows);
            }
            let piece = copy_range(p, start, j);
            let ghost before = seqs_of(out@);
            out.push(piece);
            assert(seqs_of(out@) =~= before.push(p@.subrange(start as int, j as int)));
            assert(pieces_from(p@, start as int, windows) == seq![p@.subrange(start as int, j as int)]
                + pieces_from(p@, j + 1, windows));
            assert(seqs_of(out@) + pieces_from(p@, j + 1, windows) =~= before + pieces_from(
                p@,
                start as int,
                windows,
            ));
            start = j + 1;
        }
        j = j + 1;
    }
    proof {
        lemma_next_sep_is(p@, start as int, n as int, windows);
    }
    let last = copy_range(p, start, n);
    let ghost before = seqs_of(out@);
    out.push(last);
    assert(seqs_of(out@) =~= before.push(p@.subrange(start as int, n as int)));
    assert(seqs_of(out@) =~= before + pieces_from(p@, start as int, windows));
    out
}

/// Whether a piece is `.` or empty, so it names no component.
fn unnamed(piece: &Vec<u8>) -> (r: bool)
    ensures
        r == (piece@.len() == 0 || piece@ == seq![46u8]),
{
    if piece.len() == 0 {
        return true;
    }
    if piece.len() == 1 && piece[0] == 46u8 {
        assert(piece@ =~= seq![46u8]);
        return true;
    }
    if piece.len() == 1 {
        assert(piece@[0] != seq![46u8][0]);
    }
    false
}

/// The components of `p`, as `components` says.
pub fn path_components(p: &[u8], windows: bool) -> (r: Vec<Vec<u8>>)
    ensures
        seqs_of(r@) == components(p@, windows),
{
    let pieces = path_pieces(p, windows);
    let ghost ps = seqs_of(pieces@);
    let mut out: Vec<Vec<u8>> = Vec::new();
    let ghost head: Seq<Seq<u8>>;
    if p.len() > 0 && (p[0] == 47u8 || (windows && p[0] == 92u8)) {
        let mut root: Vec<u8> = Vec::new();
        root.push(47u8);
        assert(root@ =~= seq![47u8]);
        out.push(root);
        proof {
            head = seq![seq![47u8]];
        }
    } else if pieces.len() > 0 && pieces[0].len() == 1 && pieces[0][0] == 46u8 {
        assert(ps[0] =~= seq![46u8]);
        let mut cur: Vec<u8> = Vec::new();
        cur.push(46u8);
        assert(cur@ =~= seq![46u8]);
        out.push(cur);
        proof {
            head = seq![seq![46u8]];
        }
    } else {
        proof {
            if ps.len() > 0 && ps[0].len() == 1 {
                assert(ps[0][0] != seq![46u8][0]);
            }
            head = Seq::empty();
        }
    }
    assert(seqs_of(out@) =~= head);
    let n = pieces.len();
    let mut i: usize = 0;
    while i < n
        invariant
            n == pieces@.len(),
            ps == seqs_of(pieces@),
            i <= n,
            seqs_of(out@) == head + named(ps.take(i as int)),
        decreases n - i,
    {
        let ghost t = ps.take(i + 1);
        assert(t.drop_last() =~= ps.take(i as int));
        assert(t.last() == pieces@[i as int]@);
        if !unnamed(&pieces[i]) {
            let piece = copy_range(pieces[i].as_slice(), 0, pieces[i].len());
            assert(piece@ =~= pieces@[i as int]@);
            let ghost before = seqs_of(out@);
            out.push(piece);
            assert(seqs_of(out@) =~= before.push(t.last()));
        }
        i = i + 1;
    }
    assert(ps.take(n as int) =~= ps);
    out
}

/// Whether two byte sequences are equal.
fn bytes_equal(a: &Vec<u8>, b: &Vec<u8>) -> (r: bool)
    ensures
        r == (a@ == b@),
{
    if a.len() != b.len() {
        return false;
    }
    let mut i: usize = 0;
    while i < a.len()
        invariant
            a@.len() == b@.len(),
            i <= a@.len(),
            forall|k: int| 0 <= k < i ==> a@[k] == b@[k],
        decreases a@.len() - i,
    {
        if a[i] != b[i] {
            return false;
        }
        i = i + 1;
    }
    assert(a@ =~= b@);
    true
}

/// Whether `target` is `base` or lies under it, component by component.
pub fn is_at_or_under(target: &[u8], base: &[u8], windows: bool) -> (r: bool)
    ensures
        r == at_or_under(target@, base@, windows),
{
    let t = path_components(target, windows);
    let b = path_components(base, windows);
    let ghost ts = seqs_of(t@);
    let ghost bs = seqs_of(b@);
    assert(ts.len() == t@.len() && bs.len() == b@.len());
    if b.len() > t.len() {
        return false;
    }
    let mut i: usize = 0;
    while i < b.len()
        invariant
            b@.len() <= t@.len(),
            ts == seqs_of(t@),
            bs == seqs_of(b@),
            ts == components(target@, windows),
            bs == components(base@, windows),
            ts.len() == t@.len(),
            bs.len() == b@.len(),
            i <= b@.len(),
            forall|k: int| 0 <= k < i ==> ts[k] == bs[k],
        decreases b@.len() - i,
    {
        assert(ts[i as int] == t@[i as int]@);
        assert(bs[i as int] == b@[i as int]@);
        if !bytes_equal(&t[i], &b[i]) {
            assert(ts.take(bs.len() as int)[i as int] != bs[i as int]);
            return false;
        }
        i = i + 1;
    }
    assert(ts.take(bs.len() as int) =~= bs);
    true
}

/// Whether a resolved output directory is at or under any of the resolved ephemeral roots.
pub fn is_ephemeral_output_dir(target: &[u8], roots: &Vec<Vec<u8>>, windows: bool) -> (r: bool)
    ensures
        r == exists|i: int| 0 <= i < roots@.len() && at_or_under(target@, #[trigger] roots@[i]@, windows),
{
    let mut i: usize = 0;
    while i < roots.len()
        invariant
            i <= roots@.len(),
            forall|k: int| 0 <= k < i ==> !at_or_under(target@, #[trigger] roots@[k]@, windows),
        decreases roots@.len() - i,
    {
        if is_at_or_under(target, roots[i].as_slice(), windows) {
            return true;
        }
        i = i + 1;
    }
    false
}

/// Where one ephemeral root comes from: the OS primary temp directory, an environment variable
/// (skipped when unset), or a fixed well-known path.
#[derive(Debug, Clone, Copy, PartialEq, Eq)]
pub enum RootSource {
    TempDir,
    EnvVar(&'static str),
    Fixed(&'static str),
}

/// A root source with its text as a character sequence.
pub enum RootNote {
    TempDir,
    EnvVar(Seq<char>),
    Fixed(Seq<char>),
}

impl View for RootSource {
    type V = RootNote;

    open spec fn view(&self) -> RootNote {
        match self {
            RootSource::TempDir => RootNote::TempDir,
            RootSource::EnvVar(v) => RootNote::EnvVar(v@),
            RootSource::Fixed(p) => RootNote::Fixed(p@),
        }
    }
}

/// The known-ephemeral roots of each platform, in order: always the OS primary temp directory;
/// then `%TEMP%` and `%TMP%` on Windows; `$TMPDIR`, `/tmp` and `/var/folders` on macOS;
/// `$TMPDIR`, `/tmp`, `/var/tmp` and the runtime directories under `/run/user` on Linux.
pub open spec fn root_notes(platform: Platform) -> Seq<RootNote> {
    match platform {
        Platform::Windows => seq![
            RootNote::TempDir,
            RootNote::EnvVar("TEMP"@),
            RootNote::EnvVar("TMP"@),
        ],
        Platform::MacOs => seq![
            RootNote::TempDir,
            RootNote::EnvVar("TMPDIR"@),
            RootNote::Fixed("/tmp"@),
            RootNote::Fixed("/var/folders"@),
        ],
        Platform::Linux => seq![
            RootNote::TempDir,
            RootNote::EnvVar("TMPDIR"@),
            RootNote::Fixed("/tmp"@),
            RootNote::Fixed("/var/tmp"@),
            RootNote::Fixed("/run/user"@),
        ],
    }
}

/// The sources of `platform`'s ephemeral roots, as `root_notes` lists them.
pub fn ephemeral_root_sources(platform: Platform) -> (r: Vec<RootSource>)
    ensures
        r@.map_values(|s: RootSource| s@) == root_notes(platform),
{
    let mut r: Vec<RootSource> = Vec::new();
    r.push(RootSource::TempDir);
    match platform {
        Platform::Windows => {
            r.push(RootSource::EnvVar("TEMP"));
            r.push(RootSource::EnvVar("TMP"));
        },
        Platform::MacOs => {
            r.push(RootSource::EnvVar("TMPDIR"));
            r.push(RootSource::Fixed("/tmp"));
            r.push(RootSource::Fixed("/var/folders"));
        },
        Platform::Linux => {
            r.push(RootSource::EnvVar("TMPDIR"));
            r.push(RootSource::Fixed("/tmp"));
            r.push(RootSource::Fixed("/var/tmp"));
            r.push(RootSource::Fixed("/run/user"));
        },
    }
    assert(r@.map_values(|s: RootSource| s@) =~= root_notes(platform));
    r
}

proof fn lemma_pieces_append(p: Seq<u8>, n: Seq<u8>, i: int, windows: bool)
    requires
        0 <= i <= p.len(),
        forall|k: int| 0 <= k < n.len() ==> !is_sep(n[k], windows),
    ensures
        pieces_from(p + seq![47u8] + n, i, windows) == pieces_from(p, i, windows).push(n),
    decreases p.len() - i,
{
    let q = p + seq![47u8] + n;
    lemma_next_sep_bounds(p, i, windows);
    let j = next_sep(p, i, windows);
    if j < p.len() {
        lemma_next_sep_is(q, i, j, windows);
        lemma_pieces_append(p, n, j + 1, windows);
        assert(q.subrange(i, j) =~= p.subrange(i, j));
        assert(pieces_from(q, i, windows) =~= pieces_from(p, i, windows).push(n));
    } else {
        lemma_next_sep_is(q, i, p.len() as int, windows);
        let m: int = p.len() as int + 1;
        lemma_next_sep_is(q, m, q.len() as int, windows);
        assert(q.subrange(i, p.len() as int) =~= p.subrange(i, p.len() as int));
        assert(q.subrange(m, q.len() as int) =~= n);
        assert(pieces_from(q, m, windows) == seq![n]);
        assert(pieces_from(q, i, windows) =~= pieces_from(p, i, windows).push(n));
    }
}

/// A directory is at or under itself, and a directory made by naming one more component inside
/// a directory at or under a root is still at or under that root: a not-yet-created subtree of a
/// temp root is as ephemeral as the root.
pub proof fn at_or_under_is_kept_by_subdirectories(
    dir: Seq<u8>,
    name: Seq<u8>,
    base: Seq<u8>,
    windows: bool,
)
    requires
        dir.len() > 0,
        name.len() > 0,
        name != seq![46u8],
        forall|k: int| 0 <= k < name.len() ==> !is_sep(name[k], windows),
        at_or_under(dir, base, windows),
    ensures
        at_or_under(dir, dir, windows),
        components(dir + seq![47u8] + name, windows) == components(dir, windows).push(name),
        at_or_under(dir + seq![47u8] + name, base, windows),
{
    let q = dir + seq![47u8] + name;
    lemma_pieces_append(dir, name, 0, windows);
    let ps = pieces_from(dir, 0, windows);
    let qs = pieces_from(q, 0, windows);
    assert(qs == ps.push(name));
    assert(qs.drop_last() =~= ps);
    assert(named(qs) == named(ps).push(name));
    assert(q[0] == dir[0]);
    lemma_next_sep_bounds(dir, 0, windows);
    assert(ps.len() > 0);
    assert(qs[0] == ps[0]);
    let t = components(dir, windows);
    let b = components(base, windows);
    assert(components(q, windows) =~= t.push(name));
    assert(t.push(name).take(b.len() as int) =~= t.take(b.len() as int));
    assert(t.take(t.len() as int) =~= t);
}

} // verus!
