//! The seccomp leg's deny filter: the deny-list in a fixed order, so the compiled program is
//! byte-stable across runs, and the allow-by-default program that answers each listed syscall
//! with an errno, compiled by seccompiler for a named architecture.
use std::collections::BTreeMap;
use vstd::prelude::*;
use vstd::string::*;

verus! {

broadcast use vstd::seq_lib::group_to_multiset_ensures;

/// seccompiler's target architecture, carried through unopened.
#[verifier::external_type_specification]
#[verifier::external_body]
pub struct ExTargetArch(seccompiler::TargetArch);

/// seccompiler's uncompiled filter, carried through unopened.
#[verifier::external_type_specification]
#[verifier::external_body]
pub struct ExSeccompFilter(seccompiler::SeccompFilter);

/// The errno a denied syscall fails with: `EPERM`, so a denied call surfaces as an engine error
/// rather than a kill.
pub const DENIED_SYSCALL_ERRNO: u32 = 1;

/// One classic-BPF instruction of a compiled filter.
#[derive(Debug, Clone, Copy, PartialEq, Eq, Structural)]
pub struct BpfInstruction {
    pub code: u16,
    pub jt: u8,
    pub jf: u8,
    pub k: u32,
}

/// The syscalls a short-lived decoder never legitimately issues, each of them an exploit
/// primitive there: debugger attach, cross-process memory access, mounts, kexec, perf events,
/// BPF loading, key management and namespace joins. The engine's own launch (`execve`,
/// `execveat`), the namespace leg (`unshare`) and the process-group leader (`setpgid`) are not
/// among them, so they stay allowed.
#[derive(Debug, Clone, Copy, PartialEq, Eq, Structural)]
pub enum DeniedSyscall {
    Ptrace,
    ProcessVmReadv,
    ProcessVmWritev,
    Mount,
    Umount2,
    PivotRoot,
    KexecLoad,
    KexecFileLoad,
    PerfEventOpen,
    Bpf,
    AddKey,
    Keyctl,
    RequestKey,
    Setns,
}

/// The deny-list, each syscall once.
pub open spec fn deny_list() -> Seq<DeniedSyscall> {
    seq![
        DeniedSyscall::Ptrace,
        DeniedSyscall::ProcessVmReadv,
        DeniedSyscall::ProcessVmWritev,
        DeniedSyscall::Mount,
        DeniedSyscall::Umount2,
        DeniedSyscall::PivotRoot,
        DeniedSyscall::KexecLoad,
        DeniedSyscall::KexecFileLoad,
        DeniedSyscall::PerfEventOpen,
        DeniedSyscall::Bpf,
        DeniedSyscall::AddKey,
        DeniedSyscall::Keyctl,
        DeniedSyscall::RequestKey,
        DeniedSyscall::Setns,
    ]
}

/// The syscalls the seccomp leg denies, as `deny_list` says: every syscall of the deny-list,
/// each once. Their numbers depend on the architecture and are looked up where the filter is
/// built.
pub fn seccomp_deny_list() -> (r: Vec<DeniedSyscall>)
    ensures
        r@ == deny_list(),
        r@.no_duplicates(),
        forall|s: DeniedSyscall| r@.contains(s),
{
    let r = vec![
        DeniedSyscall::Ptrace,
        DeniedSyscall::ProcessVmReadv,
        DeniedSyscall::ProcessVmWritev,
        DeniedSyscall::Mount,
        DeniedSyscall::Umount2,
        DeniedSyscall::PivotRoot,
        DeniedSyscall::KexecLoad,
        DeniedSyscall::KexecFileLoad,
        DeniedSyscall::PerfEventOpen,
        DeniedSyscall::Bpf,
        DeniedSyscall::AddKey,
        DeniedSyscall::Keyctl,
        DeniedSyscall::RequestKey,
        DeniedSyscall::Setns,
    ];
    assert(r@ =~= deny_list());
    assert forall|s: DeniedSyscall| r@.contains(s) by {
        match s {
            DeniedSyscall::Ptrace => assert(r@[0] == s),
            DeniedSyscall::ProcessVmReadv => assert(r@[1] == s),
            DeniedSyscall::ProcessVmWritev => assert(r@[2] == s),
            DeniedSyscall::Mount => assert(r@[3] == s),
            DeniedSyscall::Umount2 => assert(r@[4] == s),
            DeniedSyscall::PivotRoot => assert(r@[5] == s),
            DeniedSyscall::KexecLoad => assert(r@[6] == s),
            DeniedSyscall::KexecFileLoad => assert(r@[7] == s),
            DeniedSyscall::PerfEventOpen => assert(r@[8] == s),
            DeniedSyscall::Bpf => assert(r@[9] == s),
            DeniedSyscall::AddKey => assert(r@[10] == s),
            DeniedSyscall::Keyctl => assert(r@[11] == s),
            DeniedSyscall::RequestKey => assert(r@[12] == s),
            DeniedSyscall::Setns => assert(r@[13] == s),
        }
    }
    r
}

/// The kernel's name of a denied syscall.
pub open spec fn syscall_name(s: DeniedSyscall) -> Seq<char> {
    match s {
        DeniedSyscall::Ptrace => "ptrace"@,
        DeniedSyscall::ProcessVmReadv => "process_vm_readv"@,
        DeniedSyscall::ProcessVmWritev => "process_vm_writev"@,
        DeniedSyscall::Mount => "mount"@,
        DeniedSyscall::Umount2 => "umount2"@,
        DeniedSyscall::PivotRoot => "pivot_root"@,
        DeniedSyscall::KexecLoad => "kexec_load"@,
        DeniedSyscall::KexecFileLoad => "kexec_file_load"@,
        DeniedSyscall::PerfEventOpen => "perf_event_open"@,
        DeniedSyscall::Bpf => "bpf"@,
        DeniedSyscall::AddKey => "add_key"@,
        DeniedSyscall::Keyctl => "keyctl"@,
        DeniedSyscall::RequestKey => "request_key"@,
        DeniedSyscall::Setns => "setns"@,
    }
}

impl DeniedSyscall {
    /// The kernel's name of this syscall.
    pub fn name(&self) -> (r: &'static str)
        ensures
            r@ == syscall_name(*self),
    {
        match self {
            DeniedSyscall::Ptrace => "ptrace",
            DeniedSyscall::ProcessVmReadv => "process_vm_readv",
            DeniedSyscall::ProcessVmWritev => "process_vm_writev",
            DeniedSyscall::Mount => "mount",
            DeniedSyscall::Umount2 => "umount2",
            DeniedSyscall::PivotRoot => "pivot_root",
            DeniedSyscall::KexecLoad => "kexec_load",
            DeniedSyscall::KexecFileLoad => "kexec_file_load",
            DeniedSyscall::PerfEventOpen => "perf_event_open",
            DeniedSyscall::Bpf => "bpf",
            DeniedSyscall::AddKey => "add_key",
            DeniedSyscall::Keyctl => "keyctl",
            DeniedSyscall::RequestKey => "request_key",
            DeniedSyscall::Setns => "setns",
        }
    }
}

/// The engine's own launch (`execve`, `execveat`), the namespace leg's `unshare` and the
/// process-group leader's `setpgid` are never denied: no syscall of the deny-list carries one of
/// their names.
pub proof fn the_launch_syscalls_stay_allowed(s: DeniedSyscall)
    ensures
        syscall_name(s) != "execve"@,
        syscall_name(s) != "execveat"@,
        syscall_name(s) != "unshare"@,
        syscall_name(s) != "setpgid"@,
        deny_list().contains(s),
{
    reveal_strlit("ptrace");
    reveal_strlit("process_vm_readv");
    reveal_strlit("process_vm_writev");
    reveal_strlit("mount");
    reveal_strlit("umount2");
    reveal_strlit("pivot_root");
    reveal_strlit("kexec_load");
    reveal_strlit("kexec_file_load");
    reveal_strlit("perf_event_open");
    reveal_strlit("bpf");
    reveal_strlit("add_key");
    reveal_strlit("keyctl");
    reveal_strlit("request_key");
    reveal_strlit("setns");
    reveal_strlit("execve");
    reveal_strlit("execveat");
    reveal_strlit("unshare");
    reveal_strlit("setpgid");
    let n = syscall_name(s);
    assert(n != "execve"@ && n != "execveat"@ && n != "unshare"@ && n != "setpgid"@) by {
        if n.len() == "execve"@.len() || n.len() == "execveat"@.len() || n.len() == "unshare"@.len()
            || n.len() == "setpgid"@.len() {
            assert(n[0] != "execve"@[0] || n[1] != "execve"@[1]);
            assert(n[0] != "unshare"@[0] || n[1] != "unshare"@[1]);
            assert(n[0] != "setpgid"@[0] || n[1] != "setpgid"@[1]);
        }
    }
    match s {
        DeniedSyscall::Ptrace => assert(deny_list()[0] == s),
        DeniedSyscall::ProcessVmReadv => assert(deny_list()[1] == s),
        DeniedSyscall::ProcessVmWritev => assert(deny_list()[2] == s),
        DeniedSyscall::Mount => assert(deny_list()[3] == s),
        DeniedSyscall::Umount2 => assert(deny_list()[4] == s),
        DeniedSyscall::PivotRoot => assert(deny_list()[5] == s),
        DeniedSyscall::KexecLoad => assert(deny_list()[6] == s),
        DeniedSyscall::KexecFileLoad => assert(deny_list()[7] == s),
        DeniedSyscall::PerfEventOpen => assert(deny_list()[8] == s),
        DeniedSyscall::Bpf => assert(deny_list()[9] == s),
        DeniedSyscall::AddKey => assert(deny_list()[10] == s),
        DeniedSyscall::Keyctl => assert(deny_list()[11] == s),
        DeniedSyscall::RequestKey => assert(deny_list()[12] == s),
        DeniedSyscall::Setns => assert(deny_list()[13] == s),
    }
}

/// `s` is in ascending order.
pub open spec fn ascending(s: Seq<i64>) -> bool {
    forall|i: int, j: int| 0 <= i <= j < s.len() ==> s[i] <= s[j]
}

/// The deny-list in ascending order: the same syscall numbers, each as often as in `table`.
pub fn seccomp_denied_syscalls(table: &[i64]) -> (r: Vec<i64>)
    ensures
        ascending(r@),
        r@.to_multiset() == table@.to_multiset(),
{
    let mut out: Vec<i64> = Vec::new();
    let n = table.len();
    let mut i: usize = 0;
    while i < n
        invariant
            n == table@.len(),
            i <= n,
            ascending(out@),
            out@.to_multiset() == table@.take(i as int).to_multiset(),
        decreases n - i,
    {
        let x = table[i];
        let mut pos: usize = 0;
        while pos < out.len() && out[pos] <= x
            invariant
                pos <= out@.len(),
                forall|k: int| 0 <= k < pos ==> out@[k] <= x,
            decreases out@.len() - pos,
        {
            pos = pos + 1;
        }
        let ghost before = out@;
        out.insert(pos, x);
        proof {
            assert(out@ == before.insert(pos as int, x));
            assert forall|a: int, b: int| 0 <= a <= b < out@.len() implies out@[a] <= out@[b] by {
                if a < pos as int && b < pos as int {
                    assert(out@[a] == before[a] && out@[b] == before[b]);
                } else if a < pos as int && b == pos as int {
                    assert(out@[a] == before[a]);
                } else if a < pos as int {
                    assert(out@[a] == before[a] && out@[b] == before[b - 1]);
                } else if a == pos as int && b > a {
                    assert(out@[b] == before[b - 1]);
                    assert(!(before[pos as int] <= x));
                } else if a > pos as int {
                    assert(out@[a] == before[a - 1] && out@[b] == before[b - 1]);
                }
            }
            assert(table@.take(i + 1) =~= table@.take(i as int).push(x));
        }
        i = i + 1;
    }
    assert(table@.take(n as int) =~= table@);
    out
}

/// The architectures seccompiler compiles for.
#[derive(Clone, Copy, PartialEq, Eq, Structural)]
enum SeccompArch {
    X86_64,
    Aarch64,
    Riscv64,
}

/// An architecture seccompiler compiles for, with the name it was asked for by.
struct NamedArch {
    arch: seccompiler::TargetArch,
    kind: SeccompArch,
    name: String,
}

impl View for NamedArch {
    type V = (Seq<char>, SeccompArch);

    closed spec fn view(&self) -> (Seq<char>, SeccompArch) {
        (self.name@, self.kind)
    }
}

/// What a filter does with a syscall: let it through, or fail it with an errno.
#[derive(Debug, Clone, Copy, PartialEq, Eq, Structural)]
pub enum FilterAction {
    Allow,
    Errno(u32),
}

/// A deny filter together with what it was built from: the syscall numbers, the action on any
/// other syscall, the action on a listed one, and the architecture.
struct DenyFilter {
    filter: seccompiler::SeccompFilter,
    denied: Vec<i64>,
    on_other: FilterAction,
    on_listed: FilterAction,
    kind: SeccompArch,
}

impl View for DenyFilter {
    type V = (Seq<i64>, FilterAction, FilterAction, SeccompArch);

    closed spec fn view(&self) -> (Seq<i64>, FilterAction, FilterAction, SeccompArch) {
        (self.denied@, self.on_other, self.on_listed, self.kind)
    }
}

/// The instructions of a program as plain tuples.
pub open spec fn bpf_tuples(p: Seq<BpfInstruction>) -> Seq<(u16, u8, u8, u32)> {
    p.map_values(|i: BpfInstruction| (i.code, i.jt, i.jf, i.k))
}

/// `s` is strictly ascending, so no number occurs twice.
pub open spec fn strictly_ascending(s: Seq<i64>) -> bool {
    forall|i: int, j: int| 0 <= i < j < s.len() ==> s[i] < s[j]
}

/// The distinct numbers of `s` in ascending order, the order a `BTreeMap` keyed by them walks.
pub open spec fn distinct_ascending(s: Seq<i64>) -> Seq<i64> {
    choose|t: Seq<i64>| strictly_ascending(t) && t.to_set() == s.to_set()
}

/// The audit value the kernel reports for an architecture, by its lower-case name.
pub open spec fn arch_audit(name: Seq<char>) -> u32 {
    if name == "x86_64"@ {
        0xC000_003Eu32
    } else if name == "aarch64"@ {
        0xC000_00B7u32
    } else {
        0xC000_00F3u32
    }
}

/// One of the three audit values.
pub open spec fn known_audit(audit: u32) -> bool {
    audit == 0xC000_003Eu32 || audit == 0xC000_00B7u32 || audit == 0xC000_00F3u32
}

/// The audit value of an architecture.
spec fn audit_of(kind: SeccompArch) -> u32 {
    match kind {
        SeccompArch::X86_64 => 0xC000_003Eu32,
        SeccompArch::Aarch64 => 0xC000_00B7u32,
        SeccompArch::Riscv64 => 0xC000_00F3u32,
    }
}

/// The return value that fails a syscall with `errno`.
pub open spec fn errno_return(errno: u32) -> u32 {
    0x0005_0000u32 | (errno & 0xFFFFu32)
}

/// The return value that lets a syscall through.
pub open spec fn allow_return() -> u32 {
    0x7FFF_0000u32
}

/// The return value of an action.
pub open spec fn action_return(a: FilterAction) -> u32 {
    match a {
        FilterAction::Allow => allow_return(),
        FilterAction::Errno(e) => errno_return(e),
    }
}

/// The five instructions of one listed syscall: compare the number, on a match jump to the
/// listed action's return, else over it to the other action's return.
pub open spec fn syscall_block(nr: i64, on_other: FilterAction, on_listed: FilterAction) -> Seq<
    (u16, u8, u8, u32),
> {
    seq![
        (0x15u16, 0u8, 1u8, nr as u32),
        (0x05u16, 0u8, 0u8, 1u32),
        (0x05u16, 0u8, 0u8, 2u32),
        (0x06u16, 0u8, 0u8, action_return(on_listed)),
        (0x06u16, 0u8, 0u8, action_return(on_other)),
    ]
}

/// The blocks of `nrs`, in order.
pub open spec fn syscall_blocks(nrs: Seq<i64>, on_other: FilterAction, on_listed: FilterAction) -> Seq<
    (u16, u8, u8, u32),
>
    decreases nrs.len(),
{
    if nrs.len() == 0 {
        Seq::empty()
    } else {
        syscall_blocks(nrs.drop_last(), on_other, on_listed) + syscall_block(
            nrs.last(),
            on_other,
            on_listed,
        )
    }
}

/// The classic-BPF program of a filter that answers each of `denied` with `on_listed` and every
/// other syscall with `on_other`, on the architecture with audit value `audit`: load the
/// architecture and kill the process on any other, load the syscall number, one block per
/// distinct number in ascending order, and `on_other`.
pub open spec fn deny_program(
    denied: Seq<i64>,
    on_other: FilterAction,
    on_listed: FilterAction,
    audit: u32,
) -> Seq<(u16, u8, u8, u32)> {
    seq![
        (0x20u16, 0u8, 0u8, 4u32),
        (0x15u16, 1u8, 0u8, audit),
        (0x06u16, 0u8, 0u8, 0x8000_0000u32),
        (0x20u16, 0u8, 0u8, 0u32),
    ] + syscall_blocks(distinct_ascending(denied), on_other, on_listed) + seq![
        (0x06u16, 0u8, 0u8, action_return(on_other)),
    ]
}

/// `s` holds ASCII characters only.
pub open spec fn is_ascii(s: Seq<char>) -> bool {
    forall|i: int| 0 <= i < s.len() ==> (#[trigger] s[i] as u32) < 128
}

/// `s` with each ASCII capital letter replaced by its small letter.
pub open spec fn ascii_lowercase(s: Seq<char>) -> Seq<char> {
    s.map_values(
        |c: char|
            if 65 <= (c as u32) && (c as u32) <= 90 {
                ((c as u32) + 32) as char
            } else {
                c
            },
    )
}

/// The architecture names seccompiler compiles for, in lower case.
pub open spec fn known_arch(name: Seq<char>) -> bool {
    name == "x86_64"@ || name == "aarch64"@ || name == "riscv64"@
}

/// seccompiler's `TargetArch::try_from(&str)`, kept with the name it was given and the audit
/// value `get_audit_value` gives the architecture: it lower-cases the name (`str::to_lowercase`)
/// and knows `x86_64`, `aarch64` and `riscv64`. Stated here: each of the three names gives an
/// architecture, and an ASCII name gives one exactly when its lower-case form is one of them, with
/// that name's audit value. Which non-ASCII names lower-case to one of them, and so which of the
/// three audit values such a name gets, is left unsaid.
#[verifier::external_body]
fn target_arch(name: &str) -> (r: Option<NamedArch>)
    ensures
        r matches Some(a) ==> a@.0 == name@,
        known_arch(name@) ==> r is Some,
        is_ascii(name@) ==> (r is Some <==> known_arch(ascii_lowercase(name@))),
        is_ascii(name@) && r is Some ==> audit_of(r->0@.1) == arch_audit(ascii_lowercase(name@)),
{
    seccompiler::TargetArch::try_from(name).ok().map(
        |arch| NamedArch {
            arch,
            kind: match arch {
                seccompiler::TargetArch::x86_64 => SeccompArch::X86_64,
                seccompiler::TargetArch::aarch64 => SeccompArch::Aarch64,
                seccompiler::TargetArch::riscv64 => SeccompArch::Riscv64,
            },
            name: name.to_string(),
        },
    )
}

/// seccompiler's `SeccompFilter::new`, with one empty rule chain per number of `denied` (so each
/// matches unconditionally), `on_other` as the mismatch action and `on_listed` as the match
/// action, each action converted variant for variant, kept with the values it was built from.
/// Its only check is that the two actions differ.
#[verifier::external_body]
fn seccomp_deny_filter(
    denied: &[i64],
    on_other: FilterAction,
    on_listed: FilterAction,
    arch: NamedArch,
) -> (r: Option<DenyFilter>)
    ensures
        r is Some <==> on_other != on_listed,
        r matches Some(f) ==> f@ == (denied@, on_other, on_listed, arch@.1),
{
    let act = |a: FilterAction| match a {
        FilterAction::Allow => seccompiler::SeccompAction::Allow,
        FilterAction::Errno(e) => seccompiler::SeccompAction::Errno(e),
    };
    let rules: BTreeMap<i64, Vec<seccompiler::SeccompRule>> = denied.iter().map(
        |n| (*n, Vec::new()),
    ).collect();
    seccompiler::SeccompFilter::new(rules, act(on_other), act(on_listed), arch.arch).ok().map(
        |filter| DenyFilter { filter, denied: denied.to_vec(), on_other, on_listed, kind: arch.kind },
    )
}

/// seccompiler's `BpfProgram::try_from(SeccompFilter)`, each instruction copied field by field.
/// For a filter of `n` distinct syscalls with empty rule chains its source emits `deny_program`:
/// the three-instruction architecture check, the number load, five instructions per syscall in
/// the ascending key order of its `BTreeMap`, and the closing allow, `5 * n + 5` in all. It
/// refuses a program of 4096 instructions or more, and converts each number to `u32`, panicking on
/// one that does not fit, which `requires` leaves out.
#[verifier::external_body]
fn compile_deny_filter(filter: DenyFilter) -> (r: Option<Vec<BpfInstruction>>)
    requires
        filter@.0.len() > 0,
        forall|i: int| 0 <= i < filter@.0.len() ==> 0 <= #[trigger] filter@.0[i] <= u32::MAX,
    ensures
        r is Some <==> 5 * filter@.0.to_set().len() + 5 < 4096,
        r matches Some(p) ==> p@.len() == 5 * filter@.0.to_set().len() + 5 && bpf_tuples(p@)
            == deny_program(filter@.0, filter@.1, filter@.2, audit_of(filter@.3)),
{
    let program: Result<seccompiler::BpfProgram, seccompiler::BackendError> = filter.filter.try_into();
    program.ok().map(
        |p: seccompiler::BpfProgram|
            p.into_iter().map(
                |f| BpfInstruction { code: f.code, jt: f.jt, jf: f.jf, k: f.k },
            ).collect(),
    )
}

/// The seccomp program denying `denied` with `EPERM` on the architecture named `arch`, allowing
/// everything else; `None` for an empty deny-list (no no-op filter is installed), an architecture
/// seccompiler does not know, or a program too large to load.
pub fn build_seccomp_program_for(denied: &[i64], arch: &str) -> (r: Option<Vec<BpfInstruction>>)
    requires
        forall|i: int| 0 <= i < denied@.len() ==> 0 <= #[trigger] denied@[i] <= u32::MAX,
    ensures
        denied@.len() == 0 ==> r is None,
        5 * denied@.to_set().len() + 5 >= 4096 ==> r is None,
        r matches Some(p) ==> p@.len() == 5 * denied@.to_set().len() + 5 && exists|audit: u32|
            known_audit(audit) && bpf_tuples(p@) == deny_program(
                denied@,
                FilterAction::Allow,
                FilterAction::Errno(DENIED_SYSCALL_ERRNO),
                audit,
            ),
        is_ascii(arch@) ==> (r matches Some(p) ==> bpf_tuples(p@) == deny_program(
            denied@,
            FilterAction::Allow,
            FilterAction::Errno(DENIED_SYSCALL_ERRNO),
            arch_audit(ascii_lowercase(arch@)),
        )),
        (denied@.len() > 0 && known_arch(arch@) && 5 * denied@.to_set().len() + 5 < 4096) ==> r is Some,
        is_ascii(arch@) ==> (r is Some <==> (denied@.len() > 0 && known_arch(ascii_lowercase(arch@))
            && 5 * denied@.to_set().len() + 5 < 4096)),
{
    if denied.len() == 0 {
        return None;
    }
    let target = match target_arch(arch) {
        Some(t) => t,
        None => return None,
    };
    let ghost kind = target@.1;
    match seccomp_deny_filter(
        denied,
        FilterAction::Allow,
        FilterAction::Errno(DENIED_SYSCALL_ERRNO),
        target,
    ) {
        Some(filter) => {
            let r = compile_deny_filter(filter);
            assert(known_audit(audit_of(kind)));
            r
        },
        None => None,
    }
}

/// The deny-list's order depends on its numbers alone: two tables holding the same numbers, each
/// as often, in any order, give the same list, so the compiled program is the same bytes.
pub proof fn the_deny_list_order_is_stable(a: Seq<i64>, b: Seq<i64>)
    requires
        ascending(a),
        ascending(b),
        a.to_multiset() == b.to_multiset(),
    ensures
        a == b,
{
    let leq = |x: i64, y: i64| x <= y;
    assert(vstd::relations::sorted_by(a, leq));
    assert(vstd::relations::sorted_by(b, leq));
    assert(vstd::relations::total_ordering(leq));
    vstd::seq_lib::lemma_sorted_unique(a, b, leq);
}

} // verus!
