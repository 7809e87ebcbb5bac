//! The decisions around one confined engine run: whether a spawn plan may be spawned at all and
//! how its stdout is read, the engine environment with the dynamic-loader injection variables
//! stripped, what a completed wait, a failed reap or a cancel means for the result and for the
//! whole-group kill, the per-spawn tier records, and the name a staged source copy gets.
use crate::log_redact::{file_name, file_name_range};
use crate::outcome::ConversionErrorKind;
use crate::platform::{
    DegradeReason, LegOutcome, Platform, SpawnTier, LEG_INTEGRITY, LEG_JOB, LEG_LANDLOCK,
    LEG_NETNS, LEG_SECCOMP,
};
use crate::text::{decimal, decimal_string, lemma_decimal_digits, str_eq};
use vstd::prelude::*;
use vstd::string::*;

verus! {

/// How an engine reports progress on stdout.
#[derive(Debug, Clone, Copy, PartialEq, Eq, Structural)]
pub enum ProgressModel {
    /// FFmpeg's `-progress` key=value lines.
    FfmpegKeyValue,
    /// libvips' progress lines.
    VipsStdout,
    /// One blob on stdout, read whole when the engine is done.
    CoarseSpawnDone,
    /// The in-process engine's own progress channel; never a subprocess.
    InProcessFraction,
}

/// What the engine's stdin is fed.
#[derive(Debug, Clone, Copy, PartialEq, Eq, Structural)]
pub enum StdinPlan {
    /// Null stdin.
    Null,
    /// A byte feed; no engine that takes one is wired to a confined spawn.
    PipeBytes,
}

/// How a confined child's stdout is drained.
#[derive(Debug, Clone, Copy, PartialEq, Eq, Structural)]
pub enum StdoutMode {
    /// Line by line, each line a progress reading.
    LineRead,
    /// Whole, returned to the caller when the engine is done.
    Buffered,
}

/// Whether a plan may be spawned, and how its stdout is read: a spawn needs a scratch working
/// directory, null stdin and a subprocess progress model; anything else is a mis-built plan.
pub open spec fn spawn_mode(has_cwd: bool, stdin: StdinPlan, progress: ProgressModel) -> Result<
    StdoutMode,
    ConversionErrorKind,
> {
    if !has_cwd || stdin == StdinPlan::PipeBytes || progress == ProgressModel::InProcessFraction {
        Err(ConversionErrorKind::InternalError)
    } else if progress == ProgressModel::CoarseSpawnDone {
        Ok(StdoutMode::Buffered)
    } else {
        Ok(StdoutMode::LineRead)
    }
}

/// Checks a spawn plan before anything is spawned, as `spawn_mode` says.
pub fn confined_spawn_mode(cwd: Option<&str>, stdin: StdinPlan, progress: ProgressModel) -> (r:
    Result<StdoutMode, ConversionErrorKind>)
    ensures
        r == spawn_mode(cwd is Some, stdin, progress),
{
    if cwd.is_none() {
        return Err(ConversionErrorKind::InternalError);
    }
    match stdin {
        StdinPlan::Null => {},
        StdinPlan::PipeBytes => return Err(ConversionErrorKind::InternalError),
    }
    match progress {
        ProgressModel::FfmpegKeyValue | ProgressModel::VipsStdout => Ok(StdoutMode::LineRead),
        ProgressModel::CoarseSpawnDone => Ok(StdoutMode::Buffered),
        ProgressModel::InProcessFraction => Err(ConversionErrorKind::InternalError),
    }
}

/// The dynamic-loader variables that preload a shared object or prepend a library search path:
/// glibc's and dyld's, matched exactly and case-sensitively.
pub open spec fn loader_var(name: Seq<char>) -> bool {
    ||| name == "LD_PRELOAD"@
    ||| name == "LD_LIBRARY_PATH"@
    ||| name == "DYLD_INSERT_LIBRARIES"@
    ||| name == "DYLD_LIBRARY_PATH"@
}

/// Whether `name` is one of the four dynamic-loader injection variables.
pub fn is_loader_injection_var(name: &str) -> (r: bool)
    ensures
        r == loader_var(name@),
{
    str_eq(name, "LD_PRELOAD") || str_eq(name, "LD_LIBRARY_PATH") || str_eq(
        name,
        "DYLD_INSERT_LIBRARIES",
    ) || str_eq(name, "DYLD_LIBRARY_PATH")
}

/// An environment as name/value character sequences.
pub open spec fn env_view(env: Seq<(String, String)>) -> Seq<(Seq<char>, Seq<char>)> {
    env.map_values(|p: (String, String)| (p.0@, p.1@))
}

/// `env` with every loader injection variable removed, the rest kept in order.
pub open spec fn strip_loader_vars(env: Seq<(Seq<char>, Seq<char>)>) -> Seq<(Seq<char>, Seq<char>)>
    decreases env.len(),
{
    if env.len() == 0 {
        env
    } else if loader_var(env.last().0) {
        strip_loader_vars(env.drop_last())
    } else {
        strip_loader_vars(env.drop_last()).push(env.last())
    }
}

/// The environment a confined engine is started with: the plan's pairs, in order, without the
/// loader injection variables.
pub fn engine_env(env: &Vec<(String, String)>) -> (r: Vec<(String, String)>)
    ensures
        env_view(r@) == strip_loader_vars(env_view(env@)),
{
    let mut out: Vec<(String, String)> = Vec::new();
    let n = env.len();
    let mut i: usize = 0;
    while i < n
        invariant
            n == env@.len(),
            i <= n,
            env_view(out@) == strip_loader_vars(env_view(env@).take(i as int)),
        decreases n - i,
    {
        let ghost before = env_view(env@).take(i as int);
        let ghost after = env_view(env@).take(i + 1);
        assert(after.drop_last() =~= before);
        assert(after.last() == (env@[i as int].0@, env@[i as int].1@));
        let (name, value) = &env[i];
        if !is_loader_injection_var(name.as_str()) {
            let pair = (name.clone(), value.clone());
            out.push(pair);
            assert(env_view(out@) =~= strip_loader_vars(before).push(after.last()));
        }
        i = i + 1;
    }
    assert(env_view(env@).take(n as int) =~= env_view(env@));
    out
}

/// No loader injection variable survives the strip, and every other pair of the plan does.
pub proof fn engine_env_strips_exactly_the_loader_vars(env: Seq<(Seq<char>, Seq<char>)>)
    ensures
        forall|i: int|
            0 <= i < strip_loader_vars(env).len() ==> !loader_var(
                #[trigger] strip_loader_vars(env)[i].0,
            ),
        forall|i: int|
            0 <= i < env.len() && !loader_var(#[trigger] env[i].0) ==> strip_loader_vars(
                env,
            ).contains(env[i]),
        forall|i: int|
            0 <= i < strip_loader_vars(env).len() ==> env.contains(
                #[trigger] strip_loader_vars(env)[i],
            ),
    decreases env.len(),
{
    if env.len() > 0 {
        let init = env.drop_last();
        engine_env_strips_exactly_the_loader_vars(init);
        let s = strip_loader_vars(env);
        let si = strip_loader_vars(init);
        assert forall|i: int| 0 <= i < env.len() && !loader_var(#[trigger] env[i].0) implies s.contains(
            env[i],
        ) by {
            if i < env.len() - 1 {
                assert(env[i] == init[i]);
                let j = choose|j: int| 0 <= j < si.len() && si[j] == init[i];
                if !loader_var(env.last().0) {
                    assert(s[j] == si[j]);
                }
            } else {
                assert(s[s.len() - 1] == env.last());
            }
        }
        assert forall|i: int| 0 <= i < s.len() implies env.contains(#[trigger] s[i]) by {
            if i < si.len() {
                assert(s[i] == si[i]);
                let j = choose|j: int| 0 <= j < init.len() && init[j] == si[i];
                assert(env[j] == init[j]);
            } else {
                assert(s[i] == env[env.len() - 1]);
            }
        }
        assert forall|i: int| 0 <= i < s.len() implies !loader_var(#[trigger] s[i].0) by {
            if i < si.len() {
                assert(s[i] == si[i]);
            }
        }
    }
}

/// How the wait on a confined child ended.
#[derive(Debug, Clone, Copy, PartialEq, Eq, Structural)]
pub enum WaitEnd {
    /// The engine ran to completion; `success` is its exit status' verdict.
    Exited { success: bool },
    /// The reap itself failed.
    ReapFailed,
    /// The run was cancelled; `kill_delivered` says whether the whole-group kill was delivered.
    Cancelled { kill_delivered: bool },
}

/// What one confined invocation came to, before the per-engine refinement of a failure.
#[derive(Debug, Clone, Copy, PartialEq, Eq, Structural)]
pub enum InvocationResult {
    Succeeded,
    Failed(ConversionErrorKind),
    Cancelled,
}

/// How a confined run ends: its result, whether the group-kill guard stands down, whether this
/// was the clean exit on which the kill-on-close job stands down, whether a bounded confirm-wait
/// for the killed group follows, and whether the exit status is handed on for classification.
#[derive(Debug, Clone, Copy, PartialEq, Eq, Structural)]
pub struct RunEnd {
    pub result: InvocationResult,
    pub group_settled: bool,
    pub clean_exit: bool,
    pub confirm_wait: bool,
    pub exit_recorded: bool,
}

/// A clean exit succeeds and stands everything down, since killing a launcher's still-writing
/// worker would truncate valid output; a non-zero exit is the engine-crash floor and leaves the
/// guard armed, so the doomed tree is killed; a failed reap is an internal fault and leaves it
/// armed too; a cancel settles the guard only when its kill was delivered, then waits a bounded
/// time for the group to go.
pub open spec fn run_end(end: WaitEnd) -> RunEnd {
    match end {
        WaitEnd::Exited { success } => RunEnd {
            result: if success {
                InvocationResult::Succeeded
            } else {
                InvocationResult::Failed(ConversionErrorKind::EngineCrash)
            },
            group_settled: success,
            clean_exit: success,
            confirm_wait: false,
            exit_recorded: true,
        },
        WaitEnd::ReapFailed => RunEnd {
            result: InvocationResult::Failed(ConversionErrorKind::InternalError),
            group_settled: false,
            clean_exit: false,
            confirm_wait: false,
            exit_recorded: false,
        },
        WaitEnd::Cancelled { kill_delivered } => RunEnd {
            result: InvocationResult::Cancelled,
            group_settled: kill_delivered,
            clean_exit: false,
            confirm_wait: true,
            exit_recorded: false,
        },
    }
}

/// Decides how a confined run ends, as `run_end` says.
pub fn settle_run(end: WaitEnd) -> (r: RunEnd)
    ensures
        r == run_end(end),
{
    match end {
        WaitEnd::Exited { success } => {
            let result = if success {
                InvocationResult::Succeeded
            } else {
                InvocationResult::Failed(ConversionErrorKind::EngineCrash)
            };
            RunEnd {
                result,
                group_settled: success,
                clean_exit: success,
                confirm_wait: false,
                exit_recorded: true,
            }
        },
        WaitEnd::ReapFailed => RunEnd {
            result: InvocationResult::Failed(ConversionErrorKind::InternalError),
            group_settled: false,
            clean_exit: false,
            confirm_wait: false,
            exit_recorded: false,
        },
        WaitEnd::Cancelled { kill_delivered } => RunEnd {
            result: InvocationResult::Cancelled,
            group_settled: kill_delivered,
            clean_exit: false,
            confirm_wait: true,
            exit_recorded: false,
        },
    }
}

/// What the group-kill guard does when it is dropped.
#[derive(Debug, Clone, Copy, PartialEq, Eq, Structural)]
pub struct GuardDrop {
    /// Kill the whole process group (or job).
    pub group_kill: bool,
    /// Clear the kill-on-close flag of the app's own job before its handle closes.
    pub stand_down_job: bool,
}

/// The guard kills the group unless the run settled it, and stands the kill-on-close job down
/// only on a clean exit; dropped unsettled (an early return, a dropped future) it kills.
pub fn guard_drop(group_settled: bool, clean_exit: bool) -> (r: GuardDrop)
    ensures
        r.group_kill == !group_settled,
        r.stand_down_job == clean_exit,
{
    GuardDrop { group_kill: !group_settled, stand_down_job: clean_exit }
}

/// Only a clean exit stands the kill-on-close job down; every other end of a run leaves it armed.
/// The group is left alive exactly on a clean exit and on a cancel whose kill was delivered;
/// every completed wait hands its exit status on, and only a cancel waits for the group to go.
pub proof fn only_a_clean_exit_stands_down(end: WaitEnd)
    ensures
        run_end(end).clean_exit <==> end == (WaitEnd::Exited { success: true }),
        run_end(end).group_settled <==> (end == (WaitEnd::Exited { success: true }) || end == (
        WaitEnd::Cancelled { kill_delivered: true })),
        (run_end(end).result == InvocationResult::Succeeded) <==> run_end(end).clean_exit,
        run_end(end).exit_recorded <==> end is Exited,
        run_end(end).confirm_wait <==> end is Cancelled,
{
}

/// A cancelled run is reported as cancelled whether or not its group kill was delivered, and
/// nothing else is: a crashed engine is the engine-crash failure and a failed reap the internal
/// fault, each exactly on its own end.
pub proof fn a_cancel_is_reported_as_a_cancel(end: WaitEnd)
    ensures
        (run_end(end).result == InvocationResult::Cancelled) <==> end is Cancelled,
        (run_end(end).result == InvocationResult::Failed(ConversionErrorKind::EngineCrash)) <==> end
            == (WaitEnd::Exited { success: false }),
        (run_end(end).result == InvocationResult::Failed(ConversionErrorKind::InternalError))
            <==> end is ReapFailed,
        (run_end(end).result == InvocationResult::Succeeded) <==> end == (WaitEnd::Exited {
            success: true,
        }),
{
}

/// The per-leg record of a Windows spawn: the integrity leg's read-back verdict (none at all when
/// the label-then-lower grant was never issued, which is the never-in-force class), then whether
/// the app's own job attached.
pub fn windows_spawn_tier(integrity: Option<LegOutcome>, job_attached: bool) -> (r: SpawnTier)
    ensures
        r@ == seq![
            (
                "integrity"@,
                match integrity {
                    Some(o) => o,
                    None => LegOutcome::Degraded(DegradeReason::Unavailable),
                },
            ),
            (
                "job"@,
                if job_attached {
                    LegOutcome::Applied
                } else {
                    LegOutcome::Degraded(DegradeReason::Unavailable)
                },
            ),
        ],
{
    let mut tier = SpawnTier::new();
    let integrity = match integrity {
        Some(o) => o,
        None => LegOutcome::Degraded(DegradeReason::Unavailable),
    };
    tier.record(LEG_INTEGRITY, integrity);
    let job = if job_attached {
        LegOutcome::Applied
    } else {
        LegOutcome::Degraded(DegradeReason::Unavailable)
    };
    tier.record(LEG_JOB, job);
    tier
}

/// The per-leg record of a Linux spawn, in the order the legs apply: the namespace leg read off
/// the child, then the two host readings.
pub fn linux_spawn_tier(netns: LegOutcome, landlock: LegOutcome, seccomp: LegOutcome) -> (r:
    SpawnTier)
    ensures
        r@ == seq![("netns"@, netns), ("landlock"@, landlock), ("seccomp"@, seccomp)],
{
    let mut tier = SpawnTier::new();
    tier.record(LEG_NETNS, netns);
    tier.record(LEG_LANDLOCK, landlock);
    tier.record(LEG_SECCOMP, seccomp);
    tier
}

/// Whether a child got a network namespace of its own, from the namespace links of this process
/// and of the child (`None`: not readable, or no child to read): the same namespace did not
/// apply, an unreadable one was not observed.
pub fn netns_outcome(ours: Option<&[u8]>, theirs: Option<&[u8]>) -> (r: LegOutcome)
    ensures
        r == match (ours, theirs) {
            (Some(a), Some(b)) => if a@ == b@ {
                LegOutcome::Degraded(DegradeReason::NotApplied)
            } else {
                LegOutcome::Applied
            },
            _ => LegOutcome::Degraded(DegradeReason::Unavailable),
        },
{
    match (ours, theirs) {
        (Some(a), Some(b)) => {
            if bytes_eq(a, b) {
                LegOutcome::Degraded(DegradeReason::NotApplied)
            } else {
                LegOutcome::Applied
            }
        },
        _ => LegOutcome::Degraded(DegradeReason::Unavailable),
    }
}

/// Whether two byte strings are equal.
fn bytes_eq(a: &[u8], b: &[u8]) -> (r: bool)
    ensures
        r == (a@ == b@),
{
    if a.len() != b.len() {
        return false;
    }
    let mut i: usize = 0;
    while i < a.len()
        invariant
            a@.len() == b@.len(),
            i <= a@.len(),
            forall|k: int| 0 <= k < i ==> a@[k] == b@[k],
        decreases a@.len() - i,
    {
        if a[i] != b[i] {
            return false;
        }
        i = i + 1;
    }
    assert(a@ =~= b@);
    true
}

/// What the host's Landlock probe says (`None`: it failed outright): a ruleset the kernel did not
/// enforce means no Landlock here; an error means the attempt did not apply.
pub fn landlock_probe_outcome(enforced: Option<bool>) -> (r: LegOutcome)
    ensures
        r == match enforced {
            Some(true) => LegOutcome::Applied,
            Some(false) => LegOutcome::Degraded(DegradeReason::Unavailable),
            None => LegOutcome::Degraded(DegradeReason::NotApplied),
        },
{
    match enforced {
        Some(true) => LegOutcome::Applied,
        Some(false) => LegOutcome::Degraded(DegradeReason::Unavailable),
        None => LegOutcome::Degraded(DegradeReason::NotApplied),
    }
}

/// What the host's seccomp probe says: applied only when the filter was built and installed.
pub fn seccomp_probe_outcome(built: bool, installed: bool) -> (r: LegOutcome)
    ensures
        r == if built && installed {
            LegOutcome::Applied
        } else {
            LegOutcome::Degraded(DegradeReason::Unavailable)
        },
{
    if built && installed {
        LegOutcome::Applied
    } else {
        LegOutcome::Degraded(DegradeReason::Unavailable)
    }
}

/// The index of the last `.` of `n`, or -1 when it has none.
pub open spec fn last_dot(n: Seq<char>) -> int
    decreases n.len(),
{
    if n.len() == 0 {
        -1
    } else if n.last() == '.' {
        n.len() - 1
    } else {
        last_dot(n.drop_last())
    }
}

proof fn lemma_last_dot_is(n: Seq<char>, i: int)
    requires
        -1 <= i < n.len(),
        i >= 0 ==> n[i] == '.',
        forall|k: int| i < k < n.len() ==> n[k] != '.',
    ensures
        last_dot(n) == i,
    decreases n.len(),
{
    if n.len() > 0 && n.len() - 1 != i {
        assert(n.last() != '.');
        lemma_last_dot_is(n.drop_last(), i);
    }
}

/// The extension of a file name as a path library reads it: what follows its last `.`, unless
/// it has no `.` or its only `.` opens it.
pub open spec fn name_extension(n: Seq<char>) -> Option<Seq<char>> {
    let d = last_dot(n);
    if d <= 0 {
        None
    } else {
        Some(n.skip(d + 1))
    }
}

/// The name a source staged into the run's scratch gets: `src-<job>`, then the source's
/// extension when it has a non-empty one. The user's basename is never reused.
pub open spec fn staged_source_name(job: u32, source: Seq<char>) -> Seq<char> {
    "src-"@ + decimal(job as nat) + staged_suffix(source)
}

/// What follows the job number in a staged name: `.` and the source's extension when it has a
/// non-empty one, else nothing.
pub open spec fn staged_suffix(source: Seq<char>) -> Seq<char> {
    let ext = match file_name(source, false) {
        None => None,
        Some(n) => name_extension(n),
    };
    match ext {
        Some(e) => if e.len() > 0 {
            "."@ + e
        } else {
            Seq::<char>::empty()
        },
        None => Seq::<char>::empty(),
    }
}

/// Two different jobs never stage under one name, whatever their sources: the job number is the
/// run of digits after `src-`, and what follows it is empty or opens with `.`.
pub proof fn distinct_jobs_stage_under_distinct_names(j1: u32, j2: u32, a: Seq<char>, b: Seq<char>)
    requires
        j1 != j2,
    ensures
        staged_source_name(j1, a) != staged_source_name(j2, b),
{
    reveal_strlit(".");
    let p = "src-"@;
    let d1 = decimal(j1 as nat);
    let d2 = decimal(j2 as nat);
    let e1 = staged_suffix(a);
    let e2 = staged_suffix(b);
    lemma_decimal_digits(j1 as nat);
    lemma_decimal_digits(j2 as nat);
    assert(e1.len() == 0 || e1[0] == '.');
    assert(e2.len() == 0 || e2[0] == '.');
    let s1 = p + d1 + e1;
    let s2 = p + d2 + e2;
    if s1 == s2 {
        let n: int = p.len() as int;
        if d1.len() < d2.len() {
            let k: int = n + d1.len();
            assert(s2[k] == d2[d1.len() as int]);
            assert('0' <= d2[d1.len() as int] <= '9');
            assert(e1.len() > 0);
            assert(s1[k] == e1[0]);
        } else if d2.len() < d1.len() {
            let k: int = n + d2.len();
            assert(s1[k] == d1[d2.len() as int]);
            assert('0' <= d1[d2.len() as int] <= '9');
            assert(e2.len() > 0);
            assert(s2[k] == e2[0]);
        } else {
            assert(d1 =~= s1.subrange(n, n + d1.len()));
            assert(d2 =~= s2.subrange(n, n + d2.len()));
            assert(d1 == d2);
        }
    }
}

/// The extension of the final component of `source`, as `name_extension` reads it.
fn source_extension<'a>(source: &'a str) -> (r: Option<&'a str>)
    ensures
        match r {
            Some(e) => file_name(source@, false) matches Some(n) && name_extension(n) == Some(e@),
            None => match file_name(source@, false) {
                None => true,
                Some(n) => name_extension(n) is None,
            },
        },
{
    let (start, end) = match file_name_range(source, false) {
        None => return None,
        Some(range) => range,
    };
    let ghost n = source@.subrange(start as int, end as int);
    let mut i = end;
    while i > start && source.get_char(i - 1) != '.'
        invariant
            start <= i <= end,
            end <= source@.len(),
            n == source@.subrange(start as int, end as int),
            forall|k: int| i <= k < end ==> source@[k] != '.',
        decreases i,
    {
        i = i - 1;
    }
    proof {
        if i > start {
            assert(n[i - 1 - start] == source@[i - 1]);
            lemma_last_dot_is(n, i - 1 - start);
        } else {
            lemma_last_dot_is(n, -1);
        }
    }
    if i - start <= 1 {
        return None;
    }
    let e = source.substring_char(i, end);
    assert(e@ =~= n.skip(i - start));
    Some(e)
}

/// The staged copy's name, as `staged_source_name` says.
pub fn staged_source_file_name(job: u32, source: &str) -> (r: String)
    ensures
        r@ == staged_source_name(job, source@),
{
    let mut name = String::from_str("src-");
    let digits = decimal_string(job as u64);
    name.append(digits.as_str());
    match source_extension(source) {
        Some(e) => {
            if e.unicode_len() > 0 {
                name.append(".");
                name.append(e);
            }
        },
        None => {},
    }
    name
}

/// The name an engine's input is staged under, on the platform that stages it: macOS, where the
/// engine must never be the first process to read a protected path. Elsewhere (`None`) the engine
/// reads the source itself and nothing is copied.
pub fn engine_input_staged_name(platform: Platform, job: u32, source: &str) -> (r: Option<String>)
    ensures
        match r {
            Some(name) => platform == Platform::MacOs && name@ == staged_source_name(job, source@),
            None => platform != Platform::MacOs,
        },
{
    match platform {
        Platform::MacOs => Some(staged_source_file_name(job, source)),
        Platform::Linux | Platform::Windows => None,
    }
}

/// What a Landlock grant lets the engine do beneath a path.
#[derive(Debug, Clone, Copy, PartialEq, Eq, Structural)]
pub enum FsGrant {
    /// Everything, creation included: where the engine writes its output.
    Full,
    /// Read existing device files and write to them, never create device nodes.
    Device,
    /// Read, list and execute.
    Read,
}

/// The path a grant is for: the run's scratch, the engine's own bundle directory, or a fixed
/// system path.
#[derive(Debug, Clone, Copy, PartialEq, Eq)]
pub enum GrantPath {
    Scratch,
    ProgramDir,
    Fixed(&'static str),
}

/// A grant with its path as a character sequence.
pub enum GrantNote {
    Scratch,
    ProgramDir,
    Fixed(Seq<char>),
}

impl View for GrantPath {
    type V = GrantNote;

    open spec fn view(&self) -> GrantNote {
        match self {
            GrantPath::Scratch => GrantNote::Scratch,
            GrantPath::ProgramDir => GrantNote::ProgramDir,
            GrantPath::Fixed(p) => GrantNote::Fixed(p@),
        }
    }
}

/// The Landlock grants of a confined engine, in order: the scratch in full, `/dev` for device
/// reads and writes, `/proc` read-only, the engine's bundle directory read-only when it has one,
/// and the system runtime directories read-only. Everything else, the user's files among it, is
/// denied.
pub open spec fn sandbox_grant_notes(has_program_dir: bool) -> Seq<(GrantNote, FsGrant)> {
    seq![
        (GrantNote::Scratch, FsGrant::Full),
        (GrantNote::Fixed("/dev"@), FsGrant::Device),
        (GrantNote::Fixed("/proc"@), FsGrant::Read),
    ] + (if has_program_dir {
        seq![(GrantNote::ProgramDir, FsGrant::Read)]
    } else {
        Seq::empty()
    }) + seq![
        (GrantNote::Fixed("/usr"@), FsGrant::Read),
        (GrantNote::Fixed("/lib"@), FsGrant::Read),
        (GrantNote::Fixed("/lib64"@), FsGrant::Read),
        (GrantNote::Fixed("/bin"@), FsGrant::Read),
        (GrantNote::Fixed("/sbin"@), FsGrant::Read),
        (GrantNote::Fixed("/etc"@), FsGrant::Read),
    ]
}

/// The Landlock grants of a confined engine, as `sandbox_grant_notes` lists them.
pub fn sandbox_grants(has_program_dir: bool) -> (r: Vec<(GrantPath, FsGrant)>)
    ensures
        r@.map_values(|g: (GrantPath, FsGrant)| (g.0@, g.1)) == sandbox_grant_notes(has_program_dir),
{
    let mut r: Vec<(GrantPath, FsGrant)> = Vec::new();
    r.push((GrantPath::Scratch, FsGrant::Full));
    r.push((GrantPath::Fixed("/dev"), FsGrant::Device));
    r.push((GrantPath::Fixed("/proc"), FsGrant::Read));
    if has_program_dir {
        r.push((GrantPath::ProgramDir, FsGrant::Read));
    }
    r.push((GrantPath::Fixed("/usr"), FsGrant::Read));
    r.push((GrantPath::Fixed("/lib"), FsGrant::Read));
    r.push((GrantPath::Fixed("/lib64"), FsGrant::Read));
    r.push((GrantPath::Fixed("/bin"), FsGrant::Read));
    r.push((GrantPath::Fixed("/sbin"), FsGrant::Read));
    r.push((GrantPath::Fixed("/etc"), FsGrant::Read));
    assert(r@.map_values(|g: (GrantPath, FsGrant)| (g.0@, g.1)) =~= sandbox_grant_notes(
        has_program_dir,
    ));
    r
}

/// The engine's own bundle directory is granted, read-only, exactly when it has one: an engine
/// with a bundle directory can read it, and one without gets no bundle grant at all. The scratch
/// is always granted in full.
pub proof fn the_bundle_directory_is_granted_exactly_when_there_is_one(has_program_dir: bool)
    ensures
        has_program_dir ==> sandbox_grant_notes(has_program_dir).contains(
            (GrantNote::ProgramDir, FsGrant::Read),
        ),
        forall|i: int|
            0 <= i < sandbox_grant_notes(has_program_dir).len() && (
            #[trigger] sandbox_grant_notes(has_program_dir)[i]).0 is ProgramDir ==> has_program_dir
                && sandbox_grant_notes(has_program_dir)[i].1 == FsGrant::Read,
        sandbox_grant_notes(has_program_dir).contains((GrantNote::Scratch, FsGrant::Full)),
{
    let g = sandbox_grant_notes(has_program_dir);
    assert(g[0] == (GrantNote::Scratch, FsGrant::Full));
    if has_program_dir {
        assert(g[3] == (GrantNote::ProgramDir, FsGrant::Read));
    }
}

/// The identity user- or group-id map line a new user namespace gets, so the engine keeps its
/// own id inside it: `<id> <id> 1` and a newline.
pub fn identity_id_map(id: u32) -> (r: String)
    ensures
        r@ == decimal(id as nat) + " "@ + decimal(id as nat) + " 1\n"@,
{
    let d = decimal_string(id as u64);
    let mut line = decimal_string(id as u64);
    line.append(" ");
    line.append(d.as_str());
    line.append(" 1\n");
    line
}

} // verus!
