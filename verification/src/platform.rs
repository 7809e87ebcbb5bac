//! The operating-system decisions that need no system call: the FAT/exFAT "no atomic publish"
//! classifiers, the executable-bit fix-up, and the best-effort privilege-drop tier vocabulary
//! with the per-spawn record of which legs applied.
use crate::text::str_eq;
use vstd::prelude::*;
use vstd::string::*;

verus! {

/// The three platforms the app ships on.
#[derive(Debug, Clone, Copy, PartialEq, Eq, Structural)]
pub enum Platform {
    Linux,
    MacOs,
    Windows,
}

/// The Linux superblock magic of the FAT driver (FAT12/16/32, vfat).
pub const MSDOS_SUPER_MAGIC: u64 = 0x4d44;

/// The Linux superblock magic of exFAT.
pub const EXFAT_SUPER_MAGIC: u64 = 0x2011_BAB0;

/// Whether a `statfs` superblock magic names a FAT or exFAT filesystem, which offers neither a
/// no-replace rename nor hard links.
pub fn is_fat_class_magic(f_type: u64) -> (r: bool)
    ensures
        r == (f_type == MSDOS_SUPER_MAGIC || f_type == EXFAT_SUPER_MAGIC),
{
    f_type == MSDOS_SUPER_MAGIC || f_type == EXFAT_SUPER_MAGIC
}

/// Whether a macOS `statfs` file-system type name is FAT (`msdos`) or exFAT (`exfat`); the
/// kernel reports the names in lower case and the comparison is exact.
pub fn is_fat_class_name(fstype: &str) -> (r: bool)
    ensures
        r == (fstype@ == "msdos"@ || fstype@ == "exfat"@),
{
    str_eq(fstype, "msdos") || str_eq(fstype, "exfat")
}

/// Whether a destination on `platform` whose file system was classified as `fat_class` lacks an
/// atomic no-clobber publish. Windows' create-only rename keeps the guarantee on every file
/// system, so a Windows destination never lacks it.
pub fn lacks_atomic_publish_primitive(platform: Platform, fat_class: bool) -> (r: bool)
    ensures
        r == (platform != Platform::Windows && fat_class),
{
    match platform {
        Platform::Windows => false,
        Platform::Linux | Platform::MacOs => fat_class,
    }
}

/// The execute bits of a Unix mode.
pub open spec fn exec_bits(mode: u32) -> u32 {
    mode & 0o111u32
}

/// The mode a bundled engine binary must be given so it can be spawned: a file with no execute
/// bit at all is widened to at least `rwxr-xr-x`; a file with any execute bit is left untouched
/// (`None`: nothing to write).
pub fn executable_mode(mode: u32) -> (r: Option<u32>)
    ensures
        r == if exec_bits(mode) == 0 {
            Some(mode | 0o755u32)
        } else {
            None::<u32>
        },
{
    if mode & 0o111u32 == 0 {
        Some(mode | 0o755u32)
    } else {
        None
    }
}

/// The mode to write on `platform` for an engine binary whose current mode is `mode`: Windows has
/// no execute bit, so there is never anything to write there and no mode is even read; elsewhere
/// as `executable_mode` says.
pub fn executable_mode_on(platform: Platform, mode: u32) -> (r: Option<u32>)
    ensures
        platform == Platform::Windows ==> r is None,
        platform != Platform::Windows ==> r == if exec_bits(mode) == 0 {
            Some(mode | 0o755u32)
        } else {
            None::<u32>
        },
{
    match platform {
        Platform::Windows => None,
        Platform::Linux | Platform::MacOs => executable_mode(mode),
    }
}

/// The executable-bit fix-up is idempotent: the widened mode carries every execute bit, keeps
/// every bit the file had, and a second fix-up has nothing to write.
pub proof fn executable_mode_is_idempotent(mode: u32)
    ensures
        exec_bits(mode) == 0 ==> exec_bits(mode | 0o755u32) == 0o111u32,
        (mode | 0o755u32) & mode == mode,
        exec_bits(mode) == 0 ==> exec_bits(mode | 0o755u32) != 0,
{
    assert(exec_bits(mode) == 0 ==> exec_bits(mode | 0o755u32) == 0o111u32) by (bit_vector);
    assert((mode | 0o755u32) & mode == mode) by (bit_vector);
}

/// The tier name of the floor every platform ships: process boundary, timeout, minimal
/// environment, scratch working directory.
pub const TIER_CHEAP: &'static str = "cheap";

/// The tier name reached when at least one privilege-drop leg applies on top of the floor.
pub const TIER_PRIVILEGE_DROP: &'static str = "privilege-drop";

/// Leg id: the network-namespace egress deny (Linux).
pub const LEG_NETNS: &'static str = "netns";

/// Leg id: the Landlock file-system restriction (Linux).
pub const LEG_LANDLOCK: &'static str = "landlock";

/// Leg id: the seccomp syscall deny (Linux).
pub const LEG_SECCOMP: &'static str = "seccomp";

/// Leg id: the intermediate-integrity write confinement (Windows).
pub const LEG_INTEGRITY: &'static str = "integrity";

/// Leg id: the app's own kill-on-close Job Object (Windows).
pub const LEG_JOB: &'static str = "job";

/// A verdict read off the running child itself.
pub const SOURCE_PER_SPAWN: &'static str = "per-spawn";

/// A verdict that is the kernel's answer for this host, not about one child.
pub const SOURCE_HOST_PROBE: &'static str = "host-probe";

/// The privilege-drop legs each platform attaches, in apply order: three on Linux, two on
/// Windows, none on macOS (which runs the floor by decision).
pub open spec fn legs_of(platform: Platform) -> Seq<Seq<char>> {
    match platform {
        Platform::Linux => seq!["netns"@, "landlock"@, "seccomp"@],
        Platform::Windows => seq!["integrity"@, "job"@],
        Platform::MacOs => Seq::empty(),
    }
}

/// How each attached leg's verdict is observed, paired with its leg id.
pub open spec fn sources_of(platform: Platform) -> Seq<(Seq<char>, Seq<char>)> {
    match platform {
        Platform::Linux => seq![
            ("netns"@, "per-spawn"@),
            ("landlock"@, "host-probe"@),
            ("seccomp"@, "host-probe"@),
        ],
        Platform::Windows => seq![("integrity"@, "per-spawn"@), ("job"@, "per-spawn"@)],
        Platform::MacOs => Seq::empty(),
    }
}

/// A leg's verdict is read per spawn exactly when it is read off the child itself: every Windows
/// leg (the child's own token and its job) and Linux' network namespace; Linux' Landlock and
/// seccomp verdicts are the kernel's answer for the host. No other source is ever named, and
/// each platform names one source per attached leg, in the same order.
pub proof fn a_verdict_is_per_spawn_exactly_when_read_off_the_child(platform: Platform, i: int)
    requires
        0 <= i < sources_of(platform).len(),
    ensures
        sources_of(platform).len() == legs_of(platform).len(),
        sources_of(platform)[i].0 == legs_of(platform)[i],
        (sources_of(platform)[i].1 == "per-spawn"@) <==> (platform == Platform::Windows
            || legs_of(platform)[i] == "netns"@),
        (sources_of(platform)[i].1 == "host-probe"@) <==> !(platform == Platform::Windows
            || legs_of(platform)[i] == "netns"@),
{
    reveal_strlit("per-spawn");
    reveal_strlit("host-probe");
    reveal_strlit("netns");
    reveal_strlit("landlock");
    reveal_strlit("seccomp");
    reveal_strlit("integrity");
    reveal_strlit("job");
    assert("per-spawn"@ != "host-probe"@) by {
        assert("per-spawn"@[0] != "host-probe"@[0]);
    }
    assert("netns"@ != "landlock"@) by {
        assert("netns"@.len() != "landlock"@.len());
    }
    assert("netns"@ != "seccomp"@) by {
        assert("netns"@.len() != "seccomp"@.len());
    }
}

/// The texts of a list of static strings.
pub open spec fn texts(v: Seq<&'static str>) -> Seq<Seq<char>> {
    v.map_values(|s: &'static str| s@)
}

/// The leg ids `platform` attaches, in apply order.
pub fn attached_legs(platform: Platform) -> (r: Vec<&'static str>)
    ensures
        texts(r@) == legs_of(platform),
{
    let mut v = Vec::new();
    match platform {
        Platform::Linux => {
            v.push(LEG_NETNS);
            v.push(LEG_LANDLOCK);
            v.push(LEG_SECCOMP);
        },
        Platform::Windows => {
            v.push(LEG_INTEGRITY);
            v.push(LEG_JOB);
        },
        Platform::MacOs => {},
    }
    assert(texts(v@) =~= legs_of(platform));
    v
}

/// Each attached leg of `platform` with the source its verdict is read from.
pub fn verdict_sources(platform: Platform) -> (r: Vec<(&'static str, &'static str)>)
    ensures
        r@.map_values(|p: (&'static str, &'static str)| (p.0@, p.1@)) == sources_of(platform),
{
    let mut v = Vec::new();
    match platform {
        Platform::Linux => {
            v.push((LEG_NETNS, SOURCE_PER_SPAWN));
            v.push((LEG_LANDLOCK, SOURCE_HOST_PROBE));
            v.push((LEG_SECCOMP, SOURCE_HOST_PROBE));
        },
        Platform::Windows => {
            v.push((LEG_INTEGRITY, SOURCE_PER_SPAWN));
            v.push((LEG_JOB, SOURCE_PER_SPAWN));
        },
        Platform::MacOs => {},
    }
    assert(v@.map_values(|p: (&'static str, &'static str)| (p.0@, p.1@)) =~= sources_of(
        platform,
    ));
    v
}

/// The tier a platform's leg set reaches: privilege-drop where it attaches any leg, else the
/// floor.
pub open spec fn tier_of_legs(legs: Seq<Seq<char>>) -> Seq<char> {
    if legs.len() > 0 {
        "privilege-drop"@
    } else {
        "cheap"@
    }
}

/// The tier `platform`'s build reaches by its attached legs.
pub fn attached_tier(platform: Platform) -> (r: &'static str)
    ensures
        r@ == tier_of_legs(legs_of(platform)),
{
    match platform {
        Platform::Linux | Platform::Windows => TIER_PRIVILEGE_DROP,
        Platform::MacOs => TIER_CHEAP,
    }
}

/// Why a leg fell back to the floor.
#[derive(Debug, Clone, Copy, PartialEq, Eq, Structural)]
pub enum DegradeReason {
    /// The restriction was never in force: the feature is absent, or could not be addressed, or
    /// its grant was never issued for this spawn.
    Unavailable,
    /// The grant returned but did not enforce.
    NotApplied,
}

/// What one privilege-drop leg achieved for one spawn.
#[derive(Debug, Clone, Copy, PartialEq, Eq, Structural)]
pub enum LegOutcome {
    Applied,
    Degraded(DegradeReason),
}

/// One leg's verdict for one spawn.
#[derive(Debug, Clone, Copy, PartialEq, Eq)]
pub struct LegVerdict {
    pub leg: &'static str,
    pub outcome: LegOutcome,
}

impl View for LegVerdict {
    type V = (Seq<char>, LegOutcome);

    open spec fn view(&self) -> (Seq<char>, LegOutcome) {
        (self.leg@, self.outcome)
    }
}

/// The achieved privilege-drop record of one confined spawn: a verdict per leg, in the order
/// recorded, never collapsed into one value.
#[derive(Debug, Clone, PartialEq, Eq)]
pub struct SpawnTier {
    verdicts: Vec<LegVerdict>,
}

/// Whether any verdict of the record reports its leg applied.
pub open spec fn any_applied(v: Seq<(Seq<char>, LegOutcome)>) -> bool {
    exists|i: int| 0 <= i < v.len() && v[i].1 == LegOutcome::Applied
}

/// The outcome of the first verdict recorded for `leg`.
pub open spec fn first_outcome(v: Seq<(Seq<char>, LegOutcome)>, leg: Seq<char>) -> Option<
    LegOutcome,
>
    decreases v.len(),
{
    if v.len() == 0 {
        None
    } else if v[0].0 == leg {
        Some(v[0].1)
    } else {
        first_outcome(v.drop_first(), leg)
    }
}

impl View for SpawnTier {
    type V = Seq<(Seq<char>, LegOutcome)>;

    closed spec fn view(&self) -> Seq<(Seq<char>, LegOutcome)> {
        self.verdicts@.map_values(|v: LegVerdict| v@)
    }
}

impl SpawnTier {
    /// An empty record: no leg recorded, as on a platform that attaches none.
    pub fn new() -> (r: Self)
        ensures
            r@ == Seq::<(Seq<char>, LegOutcome)>::empty(),
    {
        let r = SpawnTier { verdicts: Vec::new() };
        assert(r@ =~= Seq::<(Seq<char>, LegOutcome)>::empty());
        r
    }

    /// Records one leg's verdict after those already recorded.
    pub fn record(&mut self, leg: &'static str, outcome: LegOutcome)
        ensures
            final(self)@ == old(self)@.push((leg@, outcome)),
    {
        self.verdicts.push(LegVerdict { leg, outcome });
        assert(self@ =~= old(self)@.push((leg@, outcome)));
    }

    /// Every recorded verdict, in recording order.
    pub fn verdicts(&self) -> (r: &[LegVerdict])
        ensures
            r@.map_values(|v: LegVerdict| v@) == self@,
    {
        self.verdicts.as_slice()
    }

    /// The verdict recorded for `leg`, `None` when none was recorded for it.
    pub fn outcome_of(&self, leg: &str) -> (r: Option<LegOutcome>)
        ensures
            r == first_outcome(self@, leg@),
    {
        let n = self.verdicts.len();
        let mut i: usize = 0;
        assert(self@.skip(0) =~= self@);
        while i < n
            invariant
                n == self.verdicts@.len(),
                i <= n,
                first_outcome(self@, leg@) == first_outcome(self@.skip(i as int), leg@),
            decreases n - i,
        {
            let v = &self.verdicts[i];
            assert(self@.skip(i as int)[0] == v@);
            assert(self@.skip(i as int).drop_first() =~= self@.skip(i + 1));
            if str_eq(v.leg, leg) {
                return Some(v.outcome);
            }
            i = i + 1;
        }
        assert(self@.skip(i as int) =~= Seq::<(Seq<char>, LegOutcome)>::empty());
        None
    }

    /// The tier this spawn achieved: privilege-drop once any leg applied, else the floor, even
    /// on a build that attaches legs.
    pub fn tier(&self) -> (r: &'static str)
        ensures
            r@ == if any_applied(self@) {
                "privilege-drop"@
            } else {
                "cheap"@
            },
    {
        let n = self.verdicts.len();
        let mut i: usize = 0;
        while i < n
            invariant
                n == self.verdicts@.len(),
                i <= n,
                forall|k: int| 0 <= k < i ==> self@[k].1 != LegOutcome::Applied,
            decreases n - i,
        {
            assert(self@[i as int] == self.verdicts@[i as int]@);
            if let LegOutcome::Applied = self.verdicts[i].outcome {
                return TIER_PRIVILEGE_DROP;
            }
            i = i + 1;
        }
        TIER_CHEAP
    }
}

impl Default for SpawnTier {
    fn default() -> (r: Self)
        ensures
            r@ == Seq::<(Seq<char>, LegOutcome)>::empty(),
    {
        SpawnTier::new()
    }
}

/// A spawn's record reaches the privilege-drop tier exactly when one of its legs applied; a
/// record with every leg degraded, or with none, stays at the floor.
pub proof fn spawn_tier_follows_applied_legs(v: Seq<(Seq<char>, LegOutcome)>)
    ensures
        (forall|i: int| 0 <= i < v.len() ==> v[i].1 != LegOutcome::Applied) ==> !any_applied(v),
        v.len() == 0 ==> !any_applied(v),
{
}

/// Each platform's build reaches the privilege-drop tier exactly when it attaches a leg, and
/// names one verdict source per attached leg, in the same order.
pub proof fn platform_records_are_well_formed(platform: Platform)
    ensures
        tier_of_legs(legs_of(platform)) == "privilege-drop"@ <==> legs_of(platform).len() > 0,
        sources_of(platform).len() == legs_of(platform).len(),
        forall|i: int|
            0 <= i < legs_of(platform).len() ==> #[trigger] sources_of(platform)[i].0 == legs_of(
                platform,
            )[i],
{
    reveal_strlit("privilege-drop");
    reveal_strlit("cheap");
    assert("privilege-drop"@ != "cheap"@) by {
        assert("privilege-drop"@.len() != "cheap"@.len());
    }
}

/// What one create-only Windows publish attempt came to.
#[derive(Debug, Clone, Copy, PartialEq, Eq, Structural)]
pub enum WindowsRenameOutcome {
    /// The no-replace move committed: the leaf now names the completed output.
    Renamed,
    /// The leaf already exists and was not replaced; the caller picks another name.
    TargetExists,
    /// A transient lock (a scanner or indexer holding the temp) blocked the move; nothing was
    /// published and the caller retries, bounded.
    Retryable,
}

/// The NT status of a committed move.
pub const STATUS_SUCCESS: u32 = 0;

/// The NT status of a move refused because the target name exists.
pub const STATUS_OBJECT_NAME_COLLISION: u32 = 0xC000_0035;

/// The NT status of a move refused for access.
pub const STATUS_ACCESS_DENIED: u32 = 0xC000_0022;

/// The NT status of a move refused because another handle shares the file.
pub const STATUS_SHARING_VIOLATION: u32 = 0xC000_0043;

/// The Win32 error of an open refused for access.
pub const ERROR_ACCESS_DENIED: i32 = 5;

/// The Win32 error of an open refused because another handle shares the file.
pub const ERROR_SHARING_VIOLATION: i32 = 32;

/// The outcome an NT status of the move maps to; `None` for any other status, which the caller
/// turns into an I/O error through the status-to-Win32 mapping.
pub fn rename_status_outcome(status: u32) -> (r: Option<WindowsRenameOutcome>)
    ensures
        r == if status == STATUS_SUCCESS {
            Some(WindowsRenameOutcome::Renamed)
        } else if status == STATUS_OBJECT_NAME_COLLISION {
            Some(WindowsRenameOutcome::TargetExists)
        } else if status == STATUS_ACCESS_DENIED || status == STATUS_SHARING_VIOLATION {
            Some(WindowsRenameOutcome::Retryable)
        } else {
            None
        },
{
    if status == STATUS_SUCCESS {
        Some(WindowsRenameOutcome::Renamed)
    } else if status == STATUS_OBJECT_NAME_COLLISION {
        Some(WindowsRenameOutcome::TargetExists)
    } else if status == STATUS_ACCESS_DENIED || status == STATUS_SHARING_VIOLATION {
        Some(WindowsRenameOutcome::Retryable)
    } else {
        None
    }
}

/// Whether a failed open of the temp, with this OS error code, is the transient lock the caller
/// retries; any other failure is returned as the error it is.
pub fn rename_open_error_outcome(os_error: Option<i32>) -> (r: Option<WindowsRenameOutcome>)
    ensures
        r == match os_error {
            Some(c) => if c == ERROR_ACCESS_DENIED || c == ERROR_SHARING_VIOLATION {
                Some(WindowsRenameOutcome::Retryable)
            } else {
                None
            },
            None => None,
        },
{
    match os_error {
        Some(c) => if c == ERROR_ACCESS_DENIED || c == ERROR_SHARING_VIOLATION {
            Some(WindowsRenameOutcome::Retryable)
        } else {
            None
        },
        None => None,
    }
}

/// The sizes of the rename information block for a leaf of `name_units` UTF-16 units: the name's
/// byte count, the length the kernel reads (the header up to the name, then the name), and the
/// number of 8-byte words backing the whole block.
#[derive(Debug, Clone, Copy, PartialEq, Eq, Structural)]
pub struct RenameInfoLayout {
    pub name_bytes: u32,
    pub length: u32,
    pub words: usize,
}

/// Lays out the rename information block, or `None` when a size does not fit (the leaf name is
/// too long): `name_offset` is where the name starts in the block, `info_size` the block's fixed
/// size.
pub fn rename_info_layout(name_units: usize, name_offset: usize, info_size: usize) -> (r: Option<
    RenameInfoLayout,
>)
    ensures
        r is Some <==> (2 * name_units <= usize::MAX && 2 * name_units <= u32::MAX && name_offset + 2
            * name_units <= usize::MAX && name_offset + 2 * name_units <= u32::MAX && info_size + 2
            * name_units <= usize::MAX),
        r matches Some(l) ==> {
            &&& l.name_bytes == 2 * name_units
            &&& l.length == name_offset + 2 * name_units
            &&& l.words * 8 >= info_size + 2 * name_units
            &&& l.words * 8 < info_size + 2 * name_units + 8
        },
{
    let name_bytes = match name_units.checked_mul(2) {
        Some(b) => b,
        None => return None,
    };
    if name_bytes > u32::MAX as usize {
        return None;
    }
    let size = match name_offset.checked_add(name_bytes) {
        Some(s) => s,
        None => return None,
    };
    if size > u32::MAX as usize {
        return None;
    }
    let alloc = match info_size.checked_add(name_bytes) {
        Some(a) => a,
        None => return None,
    };
    let words = alloc / 8 + if alloc % 8 != 0 {
        1
    } else {
        0
    };
    Some(RenameInfoLayout { name_bytes: name_bytes as u32, length: size as u32, words })
}

/// The bytes an unprivileged user may still write on a volume: the available blocks times the
/// fragment size, saturating at the largest count, which reads as "fits".
pub fn usable_free_bytes(blocks_available: u64, fragment_size: u64) -> (r: u64)
    ensures
        r == if blocks_available * fragment_size <= u64::MAX {
            blocks_available * fragment_size
        } else {
            u64::MAX as int
        },
{
    match blocks_available.checked_mul(fragment_size) {
        Some(product) => product,
        None => u64::MAX,
    }
}

/// The memory cap of the app's own job around an engine: 16 GiB.
pub const JOB_MEMORY_CAP_BYTES: u64 = 0x4_0000_0000;

/// The cap on live processes in the app's own job.
pub const JOB_ACTIVE_PROCESS_CAP: u32 = 64;

/// The job memory cap as the platform can express it: a cap wider than the address space becomes
/// the widest one, still a runaway guard.
pub fn job_memory_limit(bytes: u64) -> (r: usize)
    ensures
        r == if bytes <= usize::MAX {
            bytes as int
        } else {
            usize::MAX as int
        },
{
    if bytes <= usize::MAX as u64 {
        bytes as usize
    } else {
        usize::MAX
    }
}

/// What a non-blocking exclusive lock attempt on a run's lock file says about the run that owns
/// it (`failure`: the OS error code of a refused attempt; `busy`: this platform's "held by
/// another" code): free means the owner is dead and its scratch may be reclaimed, busy means a
/// live owner holds it, and any other failure is passed on, so nothing is ever deleted on a
/// guess.
pub fn lock_probe_outcome(failure: Option<i32>, busy: i32) -> (r: Result<bool, i32>)
    ensures
        r == match failure {
            None => Ok(true),
            Some(code) => if code == busy {
                Ok(false)
            } else {
                Err(code)
            },
        },
{
    match failure {
        None => Ok(true),
        Some(code) => if code == busy {
            Ok(false)
        } else {
            Err(code)
        },
    }
}

/// A text widened to the NUL-terminated UTF-16 a Win32 string argument takes, or `None` when it
/// already holds a NUL, which would silently truncate the argument.
pub fn wide_nul(units: &[u16]) -> (r: Option<Vec<u16>>)
    ensures
        match r {
            Some(w) => !units@.contains(0u16) && w@ == units@.push(0u16),
            None => units@.contains(0u16),
        },
{
    let mut out: Vec<u16> = Vec::new();
    let mut i: usize = 0;
    while i < units.len()
        invariant
            i <= units@.len(),
            out@ == units@.take(i as int),
            forall|k: int| 0 <= k < i ==> units@[k] != 0u16,
        decreases units@.len() - i,
    {
        if units[i] == 0u16 {
            assert(units@[i as int] == 0u16);
            return None;
        }
        out.push(units[i]);
        assert(units@.take(i + 1) =~= units@.take(i as int).push(units@[i as int]));
        i = i + 1;
    }
    assert(units@.take(units@.len() as int) =~= units@);
    out.push(0u16);
    Some(out)
}

/// The drive type of a network volume.
pub const DRIVE_REMOTE: u32 = 4;

/// The volume flag of a file system that stores ACLs.
pub const FILE_PERSISTENT_ACLS: u32 = 0x8;

/// Whether a volume can hold a mandatory label, from its drive type and its flags (`None`: they
/// could not be read): never a network volume, whatever it reports, and otherwise only one that
/// persists ACLs.
pub fn volume_persists_acls_verdict(drive_type: u32, flags: Option<u32>) -> (r: bool)
    ensures
        r == (drive_type != DRIVE_REMOTE && match flags {
            Some(f) => f & FILE_PERSISTENT_ACLS != 0,
            None => false,
        }),
{
    if drive_type == DRIVE_REMOTE {
        return false;
    }
    match flags {
        Some(f) => f & FILE_PERSISTENT_ACLS != 0,
        None => false,
    }
}

/// A record answers for a leg with the first verdict recorded for it: recording a verdict keeps
/// every earlier answer, and gives a leg that had none the new one.
pub proof fn recording_keeps_the_first_verdict_of_each_leg(
    v: Seq<(Seq<char>, LegOutcome)>,
    leg: Seq<char>,
    outcome: LegOutcome,
    asked: Seq<char>,
)
    ensures
        first_outcome(v.push((leg, outcome)), asked) == match first_outcome(v, asked) {
            Some(o) => Some(o),
            None => if asked == leg {
                Some(outcome)
            } else {
                None
            },
        },
        any_applied(v.push((leg, outcome))) == (any_applied(v) || outcome == LegOutcome::Applied),
    decreases v.len(),
{
    let w = v.push((leg, outcome));
    if v.len() == 0 {
        assert(w[0] == (leg, outcome));
        assert(w.drop_first() =~= Seq::<(Seq<char>, LegOutcome)>::empty());
        assert(first_outcome(w.drop_first(), asked) is None);
    } else {
        assert(w[0] == v[0]);
        assert(w.drop_first() =~= v.drop_first().push((leg, outcome)));
        recording_keeps_the_first_verdict_of_each_leg(v.drop_first(), leg, outcome, asked);
    }
    if any_applied(v) {
        let i = choose|i: int| 0 <= i < v.len() && v[i].1 == LegOutcome::Applied;
        assert(w[i] == v[i]);
    }
    if outcome == LegOutcome::Applied {
        assert(w[v.len() as int].1 == LegOutcome::Applied);
    }
    if any_applied(w) {
        let i = choose|i: int| 0 <= i < w.len() && w[i].1 == LegOutcome::Applied;
        if i < v.len() {
            assert(v[i] == w[i]);
        }
    }
}

} // verus!
