//! The default-level form of a user file path in the local log: its basename only, never the
//! directory, so a logged path can carry no user name, project name or folder structure.
//! Paths are read the way the platform reads them: `/` separates components everywhere, and on
//! Windows `\` does too, a leading drive, UNC, device or verbatim prefix is not a component, and
//! after a verbatim prefix only `\` separates.
use crate::platform::Platform;
use crate::text::free_of;
use vstd::prelude::*;
use vstd::string::*;

verus! {

/// The text shown for a path that has no final component (a root, or a path ending in `..`).
pub const NO_BASENAME_FALLBACK: &'static str = "<no-basename>";

/// Whether `c` separates path components: `/` everywhere, `\` too on Windows; after a verbatim
/// prefix (`\\?\`) only `\` does.
pub open spec fn is_sep_in(c: char, windows: bool, verbatim: bool) -> bool {
    if verbatim {
        c == '\\'
    } else {
        c == '/' || (windows && c == '\\')
    }
}

/// The index of the last separator in `p`, or -1 when there is none.
pub open spec fn last_sep(p: Seq<char>, windows: bool, verbatim: bool) -> int
    decreases p.len(),
{
    if p.len() == 0 {
        -1
    } else if is_sep_in(p.last(), windows, verbatim) {
        p.len() - 1
    } else {
        last_sep(p.drop_last(), windows, verbatim)
    }
}

pub proof fn lemma_last_sep_bounds(p: Seq<char>, windows: bool, verbatim: bool)
    ensures
        -1 <= last_sep(p, windows, verbatim) < p.len(),
        last_sep(p, windows, verbatim) >= 0 ==> is_sep_in(
            p[last_sep(p, windows, verbatim)],
            windows,
            verbatim,
        ),
        forall|k: int|
            last_sep(p, windows, verbatim) < k < p.len() ==> !is_sep_in(p[k], windows, verbatim),
    decreases p.len(),
{
    if p.len() > 0 && !is_sep_in(p.last(), windows, verbatim) {
        let q = p.drop_last();
        lemma_last_sep_bounds(q, windows, verbatim);
        if last_sep(q, windows, verbatim) >= 0 {
            assert(p[last_sep(q, windows, verbatim)] == q[last_sep(q, windows, verbatim)]);
        }
        assert forall|k: int| last_sep(p, windows, verbatim) < k < p.len() implies !is_sep_in(
            p[k],
            windows,
            verbatim,
        ) by {
            if k < p.len() - 1 {
                assert(p[k] == q[k]);
            }
        }
    }
}

proof fn lemma_last_sep_is(p: Seq<char>, windows: bool, verbatim: bool, i: int)
    requires
        -1 <= i < p.len(),
        i >= 0 ==> is_sep_in(p[i], windows, verbatim),
        forall|k: int| i < k < p.len() ==> !is_sep_in(p[k], windows, verbatim),
    ensures
        last_sep(p, windows, verbatim) == i,
    decreases p.len(),
{
    if p.len() > 0 && p.len() - 1 != i {
        assert(!is_sep_in(p.last(), windows, verbatim));
        lemma_last_sep_is(p.drop_last(), windows, verbatim, i);
    }
}

/// The index of the first separator of `p` at or after `i`, or `p.len()` when there is none.
pub open spec fn sep_from(p: Seq<char>, i: int, windows: bool, verbatim: bool) -> int
    decreases p.len() - i,
{
    if i >= p.len() {
        p.len() as int
    } else if is_sep_in(p[i], windows, verbatim) {
        i
    } else {
        sep_from(p, i + 1, windows, verbatim)
    }
}

pub proof fn lemma_sep_from_bounds(p: Seq<char>, i: int, windows: bool, verbatim: bool)
    requires
        0 <= i <= p.len(),
    ensures
        i <= sep_from(p, i, windows, verbatim) <= p.len(),
    decreases p.len() - i,
{
    if i < p.len() && !is_sep_in(p[i], windows, verbatim) {
        lemma_sep_from_bounds(p, i + 1, windows, verbatim);
    }
}

/// An ASCII letter, as a drive letter is.
pub open spec fn is_drive_letter(c: char) -> bool {
    ('a' <= c && c <= 'z') || ('A' <= c && c <= 'Z')
}

/// A Windows path opening with the verbatim prefix `\\?\`.
pub open spec fn is_verbatim(p: Seq<char>, windows: bool) -> bool {
    windows && p.len() >= 4 && p[0] == '\\' && p[1] == '\\' && p[2] == '?' && p[3] == '\\'
}

/// A Windows path opening with the device prefix `\\.\`.
pub open spec fn is_device(p: Seq<char>, windows: bool) -> bool {
    windows && p.len() >= 4 && p[0] == '\\' && p[1] == '\\' && p[2] == '.' && p[3] == '\\'
}

/// A verbatim path whose prefix goes on with `UNC\`.
pub open spec fn is_verbatim_unc(p: Seq<char>) -> bool {
    p.len() >= 8 && p.subrange(4, 8) == seq!['U', 'N', 'C', '\\']
}

/// The length of the prefix a Windows path opens with, which is not a component:
/// - verbatim `\\?\UNC\server\share` (the share only when it is not empty), or `\\?\name`
///   (a drive such as `\\?\C:` among them), reading only `\` as a separator;
/// - device `\\.\name`;
/// - UNC `\\server\share`, when neither the server nor the share is empty;
/// - a drive letter and a colon (`C:`).
/// Elsewhere, and on any other platform, there is none.
pub open spec fn prefix_len(p: Seq<char>, windows: bool) -> int {
    if is_verbatim(p, windows) {
        if is_verbatim_unc(p) {
            let s = sep_from(p, 8, windows, true);
            if s < p.len() {
                let t = sep_from(p, s + 1, windows, true);
                if t > s + 1 {
                    t
                } else {
                    s
                }
            } else {
                s
            }
        } else {
            sep_from(p, 4, windows, true)
        }
    } else if is_device(p, windows) {
        sep_from(p, 4, windows, false)
    } else if windows && p.len() >= 2 && p[0] == '\\' && p[1] == '\\' {
        let a = sep_from(p, 2, windows, false);
        if a > 2 && a < p.len() {
            let b = sep_from(p, a + 1, windows, false);
            if b > a + 1 {
                b
            } else {
                0
            }
        } else {
            0
        }
    } else if windows && p.len() >= 2 && p[1] == ':' && is_drive_letter(p[0]) {
        2
    } else {
        0
    }
}

pub proof fn lemma_prefix_len_bounds(p: Seq<char>, windows: bool)
    ensures
        0 <= prefix_len(p, windows) <= p.len(),
{
    if p.len() >= 8 {
        lemma_sep_from_bounds(p, 8, windows, true);
        let s = sep_from(p, 8, windows, true);
        if s < p.len() {
            lemma_sep_from_bounds(p, s + 1, windows, true);
        }
    }
    if p.len() >= 4 {
        lemma_sep_from_bounds(p, 4, windows, true);
        lemma_sep_from_bounds(p, 4, windows, false);
    }
    if p.len() >= 2 {
        lemma_sep_from_bounds(p, 2, windows, false);
        let a = sep_from(p, 2, windows, false);
        if a < p.len() {
            lemma_sep_from_bounds(p, a + 1, windows, false);
        }
    }
}

/// The final component of the part of a path after its prefix: empty components are skipped,
/// and so are `.` components outside a verbatim path; a final `..`, a final `.` of a verbatim
/// path, or a text with no component has none.
pub open spec fn tail_name(p: Seq<char>, windows: bool, verbatim: bool) -> Option<Seq<char>>
    decreases p.len(),
{
    if p.len() == 0 {
        None
    } else {
        let i = last_sep(p, windows, verbatim);
        proof {
            lemma_last_sep_bounds(p, windows, verbatim);
        }
        let seg = p.subrange(i + 1, p.len() as int);
        if seg.len() == 0 || (seg == seq!['.'] && !verbatim) {
            if i < 0 {
                None
            } else {
                tail_name(p.subrange(0, i), windows, verbatim)
            }
        } else if seg == seq!['.'] || seg == seq!['.', '.'] {
            None
        } else {
            Some(seg)
        }
    }
}

/// The final component of a path, as the platform's path library reads it: Windows' prefix is
/// not a component, and after it as `tail_name` says, with a verbatim path's separators.
pub open spec fn file_name(p: Seq<char>, windows: bool) -> Option<Seq<char>> {
    tail_name(
        p.subrange(prefix_len(p, windows), p.len() as int),
        windows,
        is_verbatim(p, windows),
    )
}

/// What the log shows for a path: its final component, or the fixed fallback.
pub open spec fn redacted(p: Seq<char>, windows: bool) -> Seq<char> {
    match file_name(p, windows) {
        Some(name) => name,
        None => "<no-basename>"@,
    }
}

/// Whether `c` separates path components, as `is_sep_in` says.
fn is_sep_char(c: char, windows: bool, verbatim: bool) -> (r: bool)
    ensures
        r == is_sep_in(c, windows, verbatim),
{
    if verbatim {
        c == '\\'
    } else {
        c == '/' || (windows && c == '\\')
    }
}

/// The first separator of `p` at or after `i`, or the end of `p`.
fn sep_index(p: &str, i: usize, windows: bool, verbatim: bool) -> (r: usize)
    requires
        i <= p@.len(),
    ensures
        r as int == sep_from(p@, i as int, windows, verbatim),
        i <= r <= p@.len(),
{
    let len = p.unicode_len();
    let mut j = i;
    while j < len && !is_sep_char(p.get_char(j), windows, verbatim)
        invariant
            len == p@.len(),
            i <= j <= len,
            sep_from(p@, i as int, windows, verbatim) == sep_from(p@, j as int, windows, verbatim),
        decreases len - j,
    {
        j = j + 1;
    }
    j
}

/// Whether `p` opens with `\\`, then `marker`, then `\`.
fn opens_with_marker(p: &str, windows: bool, marker: char) -> (r: bool)
    ensures
        r == (windows && p@.len() >= 4 && p@[0] == '\\' && p@[1] == '\\' && p@[2] == marker
            && p@[3] == '\\'),
{
    windows && p.unicode_len() >= 4 && p.get_char(0) == '\\' && p.get_char(1) == '\\'
        && p.get_char(2) == marker && p.get_char(3) == '\\'
}

/// Whether the characters of `p` from `a` to `b` are exactly `want`.
fn range_is(p: &str, a: usize, b: usize, want: &str) -> (r: bool)
    requires
        a <= b <= p@.len(),
    ensures
        r == (p@.subrange(a as int, b as int) == want@),
{
    let n = want.unicode_len();
    if b - a != n {
        return false;
    }
    let mut k: usize = 0;
    while k < n
        invariant
            n == want@.len(),
            b - a == n,
            a <= b <= p@.len(),
            k <= n,
            forall|m: int| 0 <= m < k ==> p@[a + m] == want@[m],
        decreases n - k,
    {
        if p.get_char(a + k) != want.get_char(k) {
            assert(p@.subrange(a as int, b as int)[k as int] != want@[k as int]);
            return false;
        }
        k = k + 1;
    }
    assert(p@.subrange(a as int, b as int) =~= want@);
    true
}

/// The length of the prefix of `p`, as `prefix_len` says.
fn prefix_end(p: &str, windows: bool) -> (r: usize)
    ensures
        r as int == prefix_len(p@, windows),
        r <= p@.len(),
{
    proof {
        lemma_prefix_len_bounds(p@, windows);
    }
    let len = p.unicode_len();
    if !windows || len < 2 {
        return 0;
    }
    if opens_with_marker(p, windows, '?') {
        proof {
            reveal_strlit("UNC\\");
            assert("UNC\\"@ =~= seq!['U', 'N', 'C', '\\']);
        }
        if len >= 8 && range_is(p, 4, 8, "UNC\\") {
            let s = sep_index(p, 8, windows, true);
            if s < len {
                let t = sep_index(p, s + 1, windows, true);
                if t > s + 1 {
                    t
                } else {
                    s
                }
            } else {
                s
            }
        } else {
            sep_index(p, 4, windows, true)
        }
    } else if opens_with_marker(p, windows, '.') {
        sep_index(p, 4, windows, false)
    } else if p.get_char(0) == '\\' && p.get_char(1) == '\\' {
        let a = sep_index(p, 2, windows, false);
        if a > 2 && a < len {
            let b = sep_index(p, a + 1, windows, false);
            if b > a + 1 {
                b
            } else {
                0
            }
        } else {
            0
        }
    } else {
        let v = p.get_char(0) as u32;
        let letter = (97 <= v && v <= 122) || (65 <= v && v <= 90);
        if p.get_char(1) == ':' && letter {
            2
        } else {
            0
        }
    }
}

/// The start and end of the final component of `p`, if it has one.
pub(crate) fn file_name_range(p: &str, windows: bool) -> (r: Option<(usize, usize)>)
    ensures
        match r {
            Some((start, end)) => start <= end <= p@.len() && file_name(p@, windows) == Some(
                p@.subrange(start as int, end as int),
            ),
            None => file_name(p@, windows) is None,
        },
{
    let len = p.unicode_len();
    let lo = prefix_end(p, windows);
    let verbatim = opens_with_marker(p, windows, '?');
    let mut end = len;
    assert(p@.subrange(lo as int, end as int) =~= p@.subrange(lo as int, p@.len() as int));
    loop
        invariant
            len == p@.len(),
            lo <= end <= len,
            verbatim == is_verbatim(p@, windows),
            tail_name(p@.subrange(lo as int, end as int), windows, verbatim) == file_name(
                p@,
                windows,
            ),
        decreases end,
    {
        let ghost q = p@.subrange(lo as int, end as int);
        if end == lo {
            assert(q.len() == 0);
            return None;
        }
        let mut i = end;
        while i > lo && !is_sep_char(p.get_char(i - 1), windows, verbatim)
            invariant
                len == p@.len(),
                lo <= i <= end <= len,
                forall|k: int| i <= k < end ==> !is_sep_in(p@[k], windows, verbatim),
            decreases i,
        {
            i = i - 1;
        }
        // `i` is one past the last separator after the prefix, or `lo` when there is none.
        let has_sep = i > lo;
        proof {
            assert forall|k: int| (i - lo) < k < q.len() implies !is_sep_in(
                q[k],
                windows,
                verbatim,
            ) by {
                assert(q[k] == p@[lo + k]);
            }
            if has_sep {
                assert(q[i - 1 - lo] == p@[i - 1]);
                lemma_last_sep_is(q, windows, verbatim, i - 1 - lo);
            } else {
                lemma_last_sep_is(q, windows, verbatim, -1);
            }
            lemma_last_sep_bounds(q, windows, verbatim);
        }
        let seg_len = end - i;
        assert(q.subrange(last_sep(q, windows, verbatim) + 1, q.len() as int) =~= p@.subrange(
            i as int,
            end as int,
        ));
        let is_dot = seg_len == 1 && p.get_char(i) == '.';
        let is_dotdot = seg_len == 2 && p.get_char(i) == '.' && p.get_char(i + 1) == '.';
        proof {
            let seg = p@.subrange(i as int, end as int);
            if seg_len >= 1 {
                assert(seg[0] == p@[i as int]);
            }
            if seg_len >= 2 {
                assert(seg[1] == p@[i + 1]);
            }
            if is_dot {
                assert(seg =~= seq!['.']);
            } else if seg_len == 1 {
                assert(seg != seq!['.']) by {
                    assert(seq!['.'][0] == '.');
                }
            } else {
                assert(seg.len() != seq!['.'].len());
            }
            if is_dotdot {
                assert(seg =~= seq!['.', '.']);
            } else if seg_len == 2 {
                assert(seg != seq!['.', '.']) by {
                    assert(seq!['.', '.'][0] == '.');
                    assert(seq!['.', '.'][1] == '.');
                }
            } else {
                assert(seg.len() != seq!['.', '.'].len());
            }
        }
        if seg_len == 0 || (is_dot && !verbatim) {
            if !has_sep {
                return None;
            }
            assert(q.subrange(0, i - 1 - lo) =~= p@.subrange(lo as int, i - 1));
            end = i - 1;
        } else if is_dot || is_dotdot {
            return None;
        } else {
            return Some((i, end));
        }
    }
}

/// std's `std::path::is_separator`: whether `c` separates path components on the platform this
/// runs on. Its documentation shows `/` is one; whether `\` is depends on the platform, so
/// nothing more is stated.
#[verifier::external_body]
fn is_host_separator(c: char) -> (r: bool)
    ensures
        c == '/' ==> r,
{
    std::path::is_separator(c)
}

/// A user file path wrapped for default-level logging: the only thing it renders is the
/// basename, read with the separators of the platform it was made for.
#[derive(Clone, Copy)]
pub struct RedactedPath<'a> {
    path: &'a str,
    windows: bool,
}

impl<'a> RedactedPath<'a> {
    /// The path this value was made from.
    pub closed spec fn path(&self) -> Seq<char> {
        self.path@
    }

    /// Whether the path is read with Windows' separators and prefixes.
    pub closed spec fn windows(&self) -> bool {
        self.windows
    }

    /// Wraps a user file path for logging, read as the platform this runs on reads paths.
    pub fn new(path: &'a str) -> (r: Self)
        ensures
            r.path() == path@,
    {
        RedactedPath { path, windows: is_host_separator('\\') }
    }

    /// Wraps a user file path for logging, read as `platform` reads paths.
    pub fn for_platform(path: &'a str, platform: Platform) -> (r: Self)
        ensures
            r.path() == path@,
            r.windows() == (platform == Platform::Windows),
    {
        RedactedPath { path, windows: platform == Platform::Windows }
    }

    /// The loggable form: the final component of the path, or the fixed fallback when it has
    /// none.
    pub fn write_basename(&self) -> (r: String)
        ensures
            r@ == redacted(self.path(), self.windows()),
    {
        match file_name_range(self.path, self.windows) {
            Some((start, end)) => String::from_str(self.path.substring_char(start, end)),
            None => {
                proof {
                    reveal_strlit("<no-basename>");
                }
                String::from_str(NO_BASENAME_FALLBACK)
            },
        }
    }

    /// The same basename-only rendering, under the name callers format with.
    pub fn to_string(&self) -> (r: String)
        ensures
            r@ == redacted(self.path(), self.windows()),
    {
        self.write_basename()
    }
}

/// The final component after the prefix is a non-empty run of that text with no separator,
/// starting at the index returned.
proof fn lemma_tail_name_is_a_component(p: Seq<char>, windows: bool, verbatim: bool) -> (a: int)
    ensures
        tail_name(p, windows, verbatim) is Some ==> tail_name(p, windows, verbatim)->0.len() > 0,
        tail_name(p, windows, verbatim) is Some ==> forall|k: int|
            0 <= k < tail_name(p, windows, verbatim)->0.len() ==> !is_sep_in(
                #[trigger] tail_name(p, windows, verbatim)->0[k],
                windows,
                verbatim,
            ),
        tail_name(p, windows, verbatim) is Some ==> 0 <= a && a + tail_name(
            p,
            windows,
            verbatim,
        )->0.len() <= p.len() && p.subrange(a, a + tail_name(p, windows, verbatim)->0.len())
            == tail_name(p, windows, verbatim)->0,
    decreases p.len(),
{
    if p.len() > 0 {
        let i = last_sep(p, windows, verbatim);
        lemma_last_sep_bounds(p, windows, verbatim);
        let seg = p.subrange(i + 1, p.len() as int);
        if seg.len() == 0 || (seg == seq!['.'] && !verbatim) {
            if i >= 0 {
                let q = p.subrange(0, i);
                let a = lemma_tail_name_is_a_component(q, windows, verbatim);
                assert(tail_name(p, windows, verbatim) == tail_name(q, windows, verbatim));
                if let Some(n) = tail_name(q, windows, verbatim) {
                    assert(p.subrange(a, a + n.len()) =~= q.subrange(a, a + n.len()));
                }
                a
            } else {
                0
            }
        } else if seg != seq!['.'] && seg != seq!['.', '.'] {
            assert forall|k: int| 0 <= k < seg.len() implies !is_sep_in(
                #[trigger] seg[k],
                windows,
                verbatim,
            ) by {
                assert(seg[k] == p[i + 1 + k]);
            }
            assert(p.subrange(i + 1, i + 1 + seg.len()) == seg);
            assert(tail_name(p, windows, verbatim) == Some(seg));
            i + 1
        } else {
            0
        }
    } else {
        0
    }
}

/// What the log shows of a path never holds a separator of the reading its platform gives the
/// path, so it can name no directory: it is the path's final component, a contiguous run of the
/// path's own text, or the fixed fallback. Outside a verbatim Windows path it holds no `/`, and
/// on Windows never a `\`.
pub proof fn the_logged_form_names_no_directory(p: Seq<char>, windows: bool)
    ensures
        forall|k: int|
            0 <= k < redacted(p, windows).len() ==> !is_sep_in(
                #[trigger] redacted(p, windows)[k],
                windows,
                is_verbatim(p, windows),
            ),
        !is_verbatim(p, windows) ==> free_of(redacted(p, windows), '/'),
        windows ==> free_of(redacted(p, windows), '\\'),
        match file_name(p, windows) {
            Some(n) => redacted(p, windows) == n && exists|a: int|
                0 <= a && a + n.len() <= p.len() && #[trigger] p.subrange(a, a + n.len()) == n,
            None => redacted(p, windows) == "<no-basename>"@,
        },
{
    reveal_strlit("<no-basename>");
    lemma_prefix_len_bounds(p, windows);
    let v = is_verbatim(p, windows);
    let lo = prefix_len(p, windows);
    let q = p.subrange(lo, p.len() as int);
    let a = lemma_tail_name_is_a_component(q, windows, v);
    if let Some(n) = file_name(p, windows) {
        assert(p.subrange(lo + a, lo + a + n.len()) =~= q.subrange(a, a + n.len()));
    }
    let r = redacted(p, windows);
    assert forall|k: int| 0 <= k < r.len() implies !is_sep_in(#[trigger] r[k], windows, v) by {
        if file_name(p, windows) is None {
            assert(r[k] == "<no-basename>"@[k]);
        }
    }
    if !v {
        assert(free_of(r, '/')) by {
            assert forall|k: int| 0 <= k < r.len() implies r[k] != '/' by {
                assert(!is_sep_in(r[k], windows, v));
            }
        }
    }
    if windows {
        assert(free_of(r, '\\')) by {
            assert forall|k: int| 0 <= k < r.len() implies r[k] != '\\' by {
                assert(!is_sep_in(r[k], windows, v));
            }
        }
    }
}

} // verus!
