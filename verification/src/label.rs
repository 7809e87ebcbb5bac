//! The mandatory-integrity labels of the Windows confinement leg: the label ACE texts the
//! write sinks are stamped with, reading the level and the rights back out of a descriptor's
//! SDDL, and what a read-back says about a strip or a token lowering.
use crate::platform::{DegradeReason, LegOutcome};
use crate::text::{
    contains_seq, decimal, decimal_string, find_from, find_str_from, lemma_decimal_digits,
    lemma_find_from_found, lemma_parse_u32_decimal, occurs_at, parse_u32, parse_u32_str,
    str_contains, str_eq, str_starts_with,
};
use vstd::prelude::*;
use vstd::string::*;

verus! {

/// The private integrity level a confined engine runs at: strictly between Low (`0x1000`) and
/// Medium (`0x2000`), so a Low co-tenant cannot write up to what the engine writes, and the
/// engine cannot write the user's Medium files.
pub const CONFINED_INTEGRITY_RID: u32 = 0x1800;

/// The empty system ACL a strip writes: it removes the label rather than stamping another one.
pub const LABEL_SDDL_NONE: &'static str = "S:";

/// The SDDL fragment that opens a mandatory-label ACE.
pub const LABEL_ACE_MARKER: &'static str = "(ML;";

/// The prefix of every mandatory-integrity SID; the level follows it in decimal.
pub const INTEGRITY_SID_PREFIX: &'static str = "S-1-16-";

/// The mandatory-integrity SID of level `rid`.
pub open spec fn integrity_sid_text(rid: u32) -> Seq<char> {
    "S-1-16-"@ + decimal(rid as nat)
}

/// The label ACE one file is stamped with at level `rid`: no-write-up, not inherited.
pub open spec fn file_ace_text(rid: u32) -> Seq<char> {
    "S:(ML;;NW;;;"@ + integrity_sid_text(rid) + ")"@
}

/// The label ACE a directory is stamped with at level `rid`: no-write-up, inherited by the
/// objects and containers created inside it.
pub open spec fn dir_ace_text(rid: u32) -> Seq<char> {
    "S:(ML;OICI;NW;;;"@ + integrity_sid_text(rid) + ")"@
}

/// The one-character separator of ACE fields.
pub open spec fn semicolon() -> Seq<char> {
    seq![';']
}

/// Where the `k`-th `;`-separated field of the text starting at `p` begins, if there are that
/// many fields.
pub open spec fn field_start(s: Seq<char>, p: int, k: nat) -> Option<int>
    decreases k,
{
    if k == 0 {
        Some(p)
    } else {
        match find_from(s, semicolon(), p) {
            None => None,
            Some(j) => field_start(s, j + 1, (k - 1) as nat),
        }
    }
}

/// Where the field beginning at `a` ends: at the next `;`, or at the end of the text.
pub open spec fn field_end(s: Seq<char>, a: int) -> int {
    match find_from(s, semicolon(), a) {
        Some(j) => j,
        None => s.len() as int,
    }
}

/// The `k`-th `;`-separated field of the text starting at `p`.
pub open spec fn nth_field(s: Seq<char>, p: int, k: nat) -> Option<Seq<char>> {
    match field_start(s, p, k) {
        None => None,
        Some(a) => Some(s.subrange(a, field_end(s, a))),
    }
}

/// `s` without its trailing run of `)` and NUL characters.
pub open spec fn trim_close(s: Seq<char>) -> Seq<char>
    decreases s.len(),
{
    if s.len() > 0 && (s.last() == ')' || s.last() == '\0') {
        trim_close(s.drop_last())
    } else {
        s
    }
}

/// The rights and the SID of the first mandatory-label ACE of `sddl`. An ACE reads
/// `(type;flags;rights;guid;inherit_guid;sid)`; after the marker, which takes the type, the rights
/// are field 1 and the SID is field 4, without its closing bracket.
pub open spec fn ace_fields(sddl: Seq<char>) -> Option<(Seq<char>, Seq<char>)> {
    match find_from(sddl, "(ML;"@, 0) {
        None => None,
        Some(m) => match (nth_field(sddl, m + 4, 1), nth_field(sddl, m + 4, 4)) {
            (Some(rights), Some(sid)) => Some((rights, trim_close(sid))),
            _ => None,
        },
    }
}

/// The level a label SID names: the numeric `S-1-16-<rid>` form, or one of the two-letter
/// aliases Windows writes for the well-known levels; anything else names no level this knows.
pub open spec fn sid_rid(sid: Seq<char>) -> Option<u32> {
    if occurs_at(sid, "S-1-16-"@, 0) {
        parse_u32(sid.skip("S-1-16-"@.len() as int))
    } else if sid == "LW"@ {
        Some(0x1000)
    } else if sid == "ME"@ {
        Some(0x2000)
    } else if sid == "MP"@ {
        Some(0x2100)
    } else if sid == "HI"@ {
        Some(0x3000)
    } else if sid == "SI"@ {
        Some(0x4000)
    } else {
        None
    }
}

/// The level of the first mandatory-label ACE of `sddl`.
pub open spec fn ace_rid(sddl: Seq<char>) -> Option<u32> {
    match ace_fields(sddl) {
        None => None,
        Some((_, sid)) => sid_rid(sid),
    }
}

/// Whether a label read back from a file would keep an engine confined at `rid` from reading or
/// executing it: an ACE at or above `rid` with no-read-up or no-execute-up. A label that could
/// not be read, or whose level names nothing known, counts as blocking.
pub open spec fn blocks_lowered_access(sddl: Option<Seq<char>>, rid: u32) -> bool {
    match sddl {
        None => true,
        Some(s) => match ace_fields(s) {
            None => false,
            Some((rights, _)) => if !(contains_seq(rights, "NR"@) || contains_seq(rights, "NX"@)) {
                false
            } else {
                match ace_rid(s) {
                    None => true,
                    Some(a) => a >= rid,
                }
            },
        },
    }
}

/// Whether a descriptor's SDDL carries a mandatory-label ACE.
pub open spec fn has_label_ace(sddl: Seq<char>) -> bool {
    contains_seq(sddl, "(ML;"@)
}

/// The mandatory-integrity SID of level `rid`, `S-1-16-<rid>`.
pub fn integrity_sid(rid: u32) -> (r: String)
    ensures
        r@ == integrity_sid_text(rid),
{
    let mut s = String::from_str(INTEGRITY_SID_PREFIX);
    let d = decimal_string(rid as u64);
    s.append(d.as_str());
    s
}

/// The label ACE for one file at level `rid`.
pub fn label_sddl_file(rid: u32) -> (r: String)
    ensures
        r@ == file_ace_text(rid),
{
    let mut s = String::from_str("S:(ML;;NW;;;");
    let sid = integrity_sid(rid);
    s.append(sid.as_str());
    s.append(")");
    s
}

/// The label ACE for a directory at level `rid`, inherited by everything created inside it.
pub fn label_sddl_dir(rid: u32) -> (r: String)
    ensures
        r@ == dir_ace_text(rid),
{
    let mut s = String::from_str("S:(ML;OICI;NW;;;");
    let sid = integrity_sid(rid);
    s.append(sid.as_str());
    s.append(")");
    s
}

/// `s` without its trailing run of `)` and NUL characters.
fn trim_close_str<'a>(s: &'a str) -> (r: &'a str)
    ensures
        r@ == trim_close(s@),
{
    let mut n = s.unicode_len();
    assert(s@.take(n as int) =~= s@);
    while n > 0 && (s.get_char(n - 1) == ')' || s.get_char(n - 1) == '\0')
        invariant
            n <= s@.len(),
            trim_close(s@) == trim_close(s@.take(n as int)),
        decreases n,
    {
        assert(s@.take(n as int).drop_last() =~= s@.take(n - 1));
        n = n - 1;
    }
    let r = s.substring_char(0, n);
    assert(r@ =~= s@.take(n as int));
    r
}

/// The next `;` at or after `from` in `s`.
fn next_semicolon(s: &str, from: usize) -> (r: Option<usize>)
    ensures
        match r {
            Some(j) => find_from(s@, semicolon(), from as int) == Some(j as int) && from <= j
                < s@.len(),
            None => find_from(s@, semicolon(), from as int) is None,
        },
{
    proof {
        reveal_strlit(";");
        assert(";"@ =~= semicolon());
        lemma_find_from_found(s@, semicolon(), from as int);
    }
    find_str_from(s, ";", from)
}

/// The rights and the SID of the first mandatory-label ACE of `sddl`, or `None` when it carries
/// no label ACE or the ACE has too few fields.
pub fn label_ace_fields<'a>(sddl: &'a str) -> (r: Option<(&'a str, &'a str)>)
    ensures
        match r {
            None => ace_fields(sddl@) is None,
            Some((rights, sid)) => ace_fields(sddl@) == Some((rights@, sid@)),
        },
{
    proof {
        reveal_strlit("(ML;");
    }
    let ghost s = sddl@;
    let n = sddl.unicode_len();
    let m = match find_str_from(sddl, LABEL_ACE_MARKER, 0) {
        None => return None,
        Some(m) => m,
    };
    proof {
        lemma_find_from_found(s, "(ML;"@, 0);
    }
    assert(m + 4 <= s.len());
    let start = m + 4;
    let j0 = match next_semicolon(sddl, start) {
        None => {
            assert(field_start(s, start as int, 1) is None);
            return None;
        },
        Some(j) => j,
    };
    assert(field_start(s, j0 + 1, 0) == Some(j0 + 1));
    assert(field_start(s, start as int, 1) == Some(j0 + 1));
    let j1 = match next_semicolon(sddl, j0 + 1) {
        None => {
            assert(field_start(s, j0 + 1, 1) is None);
            assert(field_start(s, j0 + 1, 3) is None);
            assert(field_start(s, start as int, 4) is None);
            return None;
        },
        Some(j) => j,
    };
    assert(field_end(s, j0 + 1) == j1);
    let j2 = match next_semicolon(sddl, j1 + 1) {
        None => {
            assert(field_start(s, j1 + 1, 1) is None);
            assert(field_start(s, j1 + 1, 2) is None);
            assert(field_start(s, j0 + 1, 3) is None);
            assert(field_start(s, start as int, 4) is None);
            return None;
        },
        Some(j) => j,
    };
    let j3 = match next_semicolon(sddl, j2 + 1) {
        None => {
            assert(field_start(s, j2 + 1, 1) is None);
            assert(field_start(s, j1 + 1, 2) is None);
            assert(field_start(s, j0 + 1, 3) is None);
            assert(field_start(s, start as int, 4) is None);
            return None;
        },
        Some(j) => j,
    };
    assert(field_start(s, j3 + 1, 0) == Some(j3 + 1));
    assert(field_start(s, j2 + 1, 1) == Some(j3 + 1));
    assert(field_start(s, j1 + 1, 2) == Some(j3 + 1));
    assert(field_start(s, j0 + 1, 3) == Some(j3 + 1));
    assert(field_start(s, start as int, 4) == Some(j3 + 1));
    let end = match next_semicolon(sddl, j3 + 1) {
        Some(j) => j,
        None => n,
    };
    assert(field_end(s, j3 + 1) == end);
    let rights = sddl.substring_char(j0 + 1, j1);
    let sid = trim_close_str(sddl.substring_char(j3 + 1, end));
    Some((rights, sid))
}

/// The level a label SID names, as `sid_rid` says.
fn label_sid_rid(sid: &str) -> (r: Option<u32>)
    ensures
        r == sid_rid(sid@),
{
    proof {
        reveal_strlit("S-1-16-");
    }
    if str_starts_with(sid, INTEGRITY_SID_PREFIX) {
        let digits = sid.substring_char(7, sid.unicode_len());
        assert(digits@ =~= sid@.skip(7));
        parse_u32_str(digits)
    } else if str_eq(sid, "LW") {
        Some(0x1000)
    } else if str_eq(sid, "ME") {
        Some(0x2000)
    } else if str_eq(sid, "MP") {
        Some(0x2100)
    } else if str_eq(sid, "HI") {
        Some(0x3000)
    } else if str_eq(sid, "SI") {
        Some(0x4000)
    } else {
        None
    }
}

/// The level of the first mandatory-label ACE of `sddl`, or `None` when there is none or it
/// names no level this knows.
pub fn label_ace_rid(sddl: &str) -> (r: Option<u32>)
    ensures
        r == ace_rid(sddl@),
{
    match label_ace_fields(sddl) {
        None => None,
        Some((_rights, sid)) => label_sid_rid(sid),
    }
}

/// Whether the label read back from an engine binary (`None`: it could not be read) keeps an
/// engine confined at `rid` from reading or executing it, so the spawn must keep the floor.
pub fn label_blocks_lowered_access(sddl: Option<&str>, rid: u32) -> (r: bool)
    ensures
        r == blocks_lowered_access(
            match sddl {
                Some(s) => Some(s@),
                None => None,
            },
            rid,
        ),
{
    let sddl = match sddl {
        None => return true,
        Some(s) => s,
    };
    let rights = match label_ace_fields(sddl) {
        None => return false,
        Some((rights, _sid)) => rights,
    };
    if !(str_contains(rights, "NR") || str_contains(rights, "NX")) {
        return false;
    }
    match label_ace_rid(sddl) {
        None => true,
        Some(ace_rid) => ace_rid >= rid,
    }
}

/// What a strip of a publish temp's label achieved.
#[derive(Debug, Clone, Copy, PartialEq, Eq, Structural)]
pub enum LabelStrip {
    /// There was no label to remove.
    Absent,
    /// The label was removed, and the removal was read back.
    Stripped,
    /// The label is still there, or its state could not be read: the caller republishes through
    /// a fresh unlabelled sibling.
    Failed,
}

/// The first step of a strip, from the label read before it (`None`: unreadable): the verdict
/// when nothing is to be written, or `None` when the empty system ACL must be written.
pub fn label_strip_needed(before: Option<&str>) -> (r: Option<LabelStrip>)
    ensures
        r == match before {
            None => Some(LabelStrip::Failed),
            Some(b) => if has_label_ace(b@) {
                None
            } else {
                Some(LabelStrip::Absent)
            },
        },
{
    match before {
        None => Some(LabelStrip::Failed),
        Some(b) => if str_contains(b, LABEL_ACE_MARKER) {
            None
        } else {
            Some(LabelStrip::Absent)
        },
    }
}

/// The verdict of a strip that wrote the empty system ACL (`written`: the write succeeded),
/// from the label read back after it: stripped only when the read-back shows no label ACE.
pub fn label_strip_verdict(written: bool, after: Option<&str>) -> (r: LabelStrip)
    ensures
        r == (if written && after is Some && !has_label_ace(after->0@) {
            LabelStrip::Stripped
        } else {
            LabelStrip::Failed
        }),
{
    if !written {
        return LabelStrip::Failed;
    }
    match after {
        Some(a) => if str_contains(a, LABEL_ACE_MARKER) {
            LabelStrip::Failed
        } else {
            LabelStrip::Stripped
        },
        None => LabelStrip::Failed,
    }
}

/// What lowering a child's token to `rid` achieved: applied only when the write succeeded and
/// the level read back is `rid`; a write that succeeded but reads back another level did not
/// enforce; no write, or no read-back, was never in force.
pub fn lowering_outcome(written: bool, read_back: Option<u32>, rid: u32) -> (r: LegOutcome)
    ensures
        r == (if !written {
            LegOutcome::Degraded(DegradeReason::Unavailable)
        } else {
            match read_back {
                Some(level) => if level == rid {
                    LegOutcome::Applied
                } else {
                    LegOutcome::Degraded(DegradeReason::NotApplied)
                },
                None => LegOutcome::Degraded(DegradeReason::Unavailable),
            }
        }),
{
    if !written {
        return LegOutcome::Degraded(DegradeReason::Unavailable);
    }
    match read_back {
        Some(level) if level == rid => LegOutcome::Applied,
        Some(_) => LegOutcome::Degraded(DegradeReason::NotApplied),
        None => LegOutcome::Degraded(DegradeReason::Unavailable),
    }
}

proof fn lemma_semicolon_found(s: Seq<char>, i: int, j: int)
    requires
        0 <= i <= j < s.len(),
        s[j] == ';',
        forall|k: int| i <= k < j ==> s[k] != ';',
    ensures
        find_from(s, semicolon(), i) == Some(j),
    decreases j - i,
{
    if i < j {
        assert(s.subrange(i, i + 1)[0] == s[i]);
        assert(!occurs_at(s, semicolon(), i));
        lemma_semicolon_found(s, i + 1, j);
    } else {
        assert(s.subrange(j, j + 1) =~= semicolon());
    }
}

proof fn lemma_no_semicolon(s: Seq<char>, i: int)
    requires
        0 <= i <= s.len(),
        forall|k: int| i <= k < s.len() ==> s[k] != ';',
    ensures
        find_from(s, semicolon(), i) is None,
    decreases s.len() - i,
{
    if i < s.len() {
        assert(s.subrange(i, i + 1)[0] == s[i]);
        assert(!occurs_at(s, semicolon(), i));
        lemma_no_semicolon(s, i + 1);
    }
}

/// The SID field closing a label ACE `p + sid + ")"`, which starts where `p` ends, runs to the
/// end of the text and reads back, without its bracket, as the level's SID.
proof fn lemma_sid_field(p: Seq<char>, rid: u32)
    ensures
        find_from(p + integrity_sid_text(rid) + ")"@, semicolon(), p.len() as int) is None,
        trim_close(
            (p + integrity_sid_text(rid) + ")"@).subrange(
                p.len() as int,
                (p + integrity_sid_text(rid) + ")"@).len() as int,
            ),
        ) == integrity_sid_text(rid),
        sid_rid(integrity_sid_text(rid)) == Some(rid),
{
    reveal_strlit("S-1-16-");
    reveal_strlit(")");
    let dec = decimal(rid as nat);
    lemma_decimal_digits(rid as nat);
    lemma_parse_u32_decimal(rid);
    let sid = integrity_sid_text(rid);
    let t = p + sid + ")"@;
    let l = p.len() as int;
    assert forall|k: int| l <= k < t.len() implies t[k] != ';' by {
        if k < l + 7 {
            assert(t[k] == "S-1-16-"@[k - l]);
        } else if k < t.len() - 1 {
            assert(t[k] == dec[k - l - 7]);
            assert('0' <= dec[k - l - 7] <= '9');
        } else {
            assert(t[k] == ')');
        }
    }
    lemma_no_semicolon(t, l);
    let tail = t.subrange(l, t.len() as int);
    assert(tail =~= sid + ")"@);
    assert(tail.drop_last() =~= sid);
    assert(sid.last() == dec.last());
    assert('0' <= dec[dec.len() - 1] <= '9');
    assert(trim_close(sid) == sid);
    assert(sid.subrange(0, 7) =~= "S-1-16-"@);
    assert(sid.skip(7) =~= dec);
}

/// The no-write-up rights of this app's label ACEs carry neither no-read-up nor no-execute-up.
proof fn lemma_nw_rights_do_not_block()
    ensures
        !contains_seq("NW"@, "NR"@),
        !contains_seq("NW"@, "NX"@),
{
    reveal_strlit("NW");
    reveal_strlit("NR");
    reveal_strlit("NX");
    assert forall|i: int| !occurs_at("NW"@, "NR"@, i) by {
        if occurs_at("NW"@, "NR"@, i) {
            assert("NW"@.subrange(i, i + 2)[1] == "NR"@[1]);
        }
    }
    assert forall|i: int| !occurs_at("NW"@, "NX"@, i) by {
        if occurs_at("NW"@, "NX"@, i) {
            assert("NW"@.subrange(i, i + 2)[1] == "NX"@[1]);
        }
    }
}

/// The label ACEs this app stamps read back as the level they were written at, with the
/// no-write-up right alone: they are recognised as labels, and they never keep an engine at any
/// level from reading or executing what carries them.
pub proof fn label_aces_read_back_their_level(rid: u32, level: u32)
    ensures
        ace_fields(file_ace_text(rid)) == Some(("NW"@, integrity_sid_text(rid))),
        ace_fields(dir_ace_text(rid)) == Some(("NW"@, integrity_sid_text(rid))),
        ace_rid(file_ace_text(rid)) == Some(rid),
        ace_rid(dir_ace_text(rid)) == Some(rid),
        has_label_ace(file_ace_text(rid)),
        has_label_ace(dir_ace_text(rid)),
        !blocks_lowered_access(Some(file_ace_text(rid)), level),
        !blocks_lowered_access(Some(dir_ace_text(rid)), level),
{
    reveal_strlit("S:(ML;;NW;;;");
    reveal_strlit("S:(ML;OICI;NW;;;");
    reveal_strlit("(ML;");
    reveal_strlit("NW");
    lemma_nw_rights_do_not_block();
    let marker = "(ML;"@;
    let sid = integrity_sid_text(rid);
    // The file ACE: the marker at 2, then fields `` `NW` `` `` `` and the SID from 12.
    let p = "S:(ML;;NW;;;"@;
    let t = p + sid + ")"@;
    lemma_sid_field(p, rid);
    assert(t.subrange(0, 4)[0] != marker[0]);
    assert(t.subrange(1, 5)[0] != marker[0]);
    assert(t.subrange(2, 6) =~= marker);
    assert(find_from(t, marker, 2) == Some(2int));
    assert(find_from(t, marker, 1) == Some(2int));
    assert(find_from(t, marker, 0) == Some(2int));
    assert(has_label_ace(t));
    lemma_semicolon_found(t, 6, 6);
    lemma_semicolon_found(t, 7, 9);
    lemma_semicolon_found(t, 10, 10);
    lemma_semicolon_found(t, 11, 11);
    assert(field_start(t, 12, 0) == Some(12int));
    assert(field_start(t, 11, 1) == Some(12int));
    assert(field_start(t, 10, 2) == Some(12int));
    assert(field_start(t, 7, 3) == Some(12int));
    assert(field_start(t, 6, 4) == Some(12int));
    assert(field_start(t, 7, 0) == Some(7int));
    assert(field_start(t, 6, 1) == Some(7int));
    assert(t.subrange(7, 9) =~= "NW"@);
    assert(ace_fields(t) == Some(("NW"@, sid)));
    // The directory ACE: the marker at 2, then fields `OICI` `NW` `` `` and the SID from 16.
    let q = "S:(ML;OICI;NW;;;"@;
    let u = q + sid + ")"@;
    lemma_sid_field(q, rid);
    assert(u.subrange(0, 4)[0] != marker[0]);
    assert(u.subrange(1, 5)[0] != marker[0]);
    assert(u.subrange(2, 6) =~= marker);
    assert(find_from(u, marker, 2) == Some(2int));
    assert(find_from(u, marker, 1) == Some(2int));
    assert(find_from(u, marker, 0) == Some(2int));
    assert(has_label_ace(u));
    lemma_semicolon_found(u, 6, 10);
    lemma_semicolon_found(u, 11, 13);
    lemma_semicolon_found(u, 14, 14);
    lemma_semicolon_found(u, 15, 15);
    assert(field_start(u, 16, 0) == Some(16int));
    assert(field_start(u, 15, 1) == Some(16int));
    assert(field_start(u, 14, 2) == Some(16int));
    assert(field_start(u, 11, 3) == Some(16int));
    assert(field_start(u, 6, 4) == Some(16int));
    assert(field_start(u, 11, 0) == Some(11int));
    assert(field_start(u, 6, 1) == Some(11int));
    assert(u.subrange(11, 13) =~= "NW"@);
    assert(ace_fields(u) == Some(("NW"@, sid)));
}

/// The strip's empty system ACL carries no label ACE: read back after a strip, it shows the
/// label gone rather than replaced.
pub proof fn the_strip_writes_no_label()
    ensures
        !has_label_ace(LABEL_SDDL_NONE@),
{
    reveal_strlit("S:");
    reveal_strlit("(ML;");
    assert forall|i: int| !occurs_at("S:"@, "(ML;"@, i) by {}
}

/// The level a confined spawn's token is lowered to, given the label-then-lower grant: only when
/// the engine binary carries no blocking label and every write sink (the scratch, and the publish
/// temp when the invocation writes one) was labelled on a volume that keeps labels. Otherwise
/// `None`: the spawn keeps the floor, and the sinks after the first refusal are never labelled.
pub fn confinement_lower_to(
    program_blocked: bool,
    scratch_labelled: bool,
    out_tmp_labelled: Option<bool>,
) -> (r: Option<u32>)
    ensures
        r == if !program_blocked && scratch_labelled && match out_tmp_labelled {
            Some(ok) => ok,
            None => true,
        } {
            Some(CONFINED_INTEGRITY_RID)
        } else {
            None
        },
{
    if program_blocked || !scratch_labelled {
        return None;
    }
    match out_tmp_labelled {
        Some(false) => None,
        Some(true) | None => Some(CONFINED_INTEGRITY_RID),
    }
}

} // verus!
