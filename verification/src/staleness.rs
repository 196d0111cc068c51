//! Whether an earlier build is still good.
//!
//! A build leaves a completion marker behind. The build is fresh while the
//! marker is newer than the script and newer than every file under the
//! recipe's extra source paths; a build mode other than the default makes it
//! stale whatever the times say.
//!
//! Times are plain integers (nanoseconds since the epoch, say); only their
//! order matters. A time that could not be read is `None`.

use vstd::prelude::*;
use crate::cfg::BuildSpec;
use crate::opt::BuildMode;
use crate::paths::{is_absolute_path, joined_path, parent_of};
use crate::text::views;

verus! {

/// A modification time.
pub type Timestamp = i128;

/// How many files a scan may look at.
pub const SCAN_LIMIT: u64 = 500000;

/// More files were found under the extra source paths than a scan may look
/// at.
#[derive(Debug, Clone, Copy, PartialEq, Eq)]
pub struct TooManyFiles;

/// `a` is later than `b`, where a missing time is earlier than every time.
pub open spec fn newer(a: Option<Timestamp>, b: Option<Timestamp>) -> bool {
    match (a, b) {
        (Some(x), Some(y)) => x > y,
        (Some(_), None) => true,
        (None, _) => false,
    }
}

/// Whether `a` is later than `b`, where a missing time is earlier than every
/// time.
pub fn is_newer(a: Option<Timestamp>, b: Option<Timestamp>) -> (r: bool)
    ensures
        r == newer(a, b),
{
    match (a, b) {
        (Some(x), Some(y)) => x > y,
        (Some(_), None) => true,
        (None, _) => false,
    }
}

/// A file with this modification time is not older than the marker.
pub open spec fn outdates(marker: Timestamp, modified: Option<Timestamp>) -> bool {
    modified matches Some(m) && marker <= m
}

/// No file among the stamps outdates the marker.
pub open spec fn all_older(marker: Timestamp, stamps: Seq<Option<Timestamp>>) -> bool {
    forall|i: int| 0 <= i < stamps.len() ==> !outdates(marker, #[trigger] stamps[i])
}

/// A scan runs into its limit: there are more files than the limit, and
/// none of the first `limit` outdates the marker.
pub open spec fn exceeds(marker: Timestamp, stamps: Seq<Option<Timestamp>>, limit: int) -> bool {
    stamps.len() > limit && forall|i: int|
        0 <= i < limit ==> !outdates(marker, #[trigger] stamps[i])
}

/// What is known in the middle of a scan of the extra source paths.
#[derive(Debug, Clone, Copy, PartialEq, Eq)]
pub struct Scan {
    /// The latest modification time seen so far.
    pub newest: Option<Timestamp>,
    /// How many files were looked at.
    pub scanned: u64,
}

/// What a scan does after one more file.
#[derive(Debug, Clone, Copy, PartialEq, Eq)]
pub enum ScanStep {
    /// Nothing seen yet outdates the marker: go on.
    Continue(Scan),
    /// This file outdates the marker: the build is stale, stop looking.
    Stale(Scan),
    /// The file is one more than a scan may look at.
    TooManyFiles,
}

impl Scan {
    /// The scan after one more file with the given modification time.
    pub open spec fn observe_spec(self, marker: Timestamp, modified: Option<Timestamp>) -> ScanStep {
        if self.scanned >= SCAN_LIMIT {
            ScanStep::TooManyFiles
        } else {
            let scanned = (self.scanned + 1) as u64;
            match modified {
                Some(m) if newer(modified, self.newest) => {
                    let next = Scan { newest: modified, scanned };
                    if marker <= m {
                        ScanStep::Stale(next)
                    } else {
                        ScanStep::Continue(next)
                    }
                },
                _ => ScanStep::Continue(Scan { newest: self.newest, scanned }),
            }
        }
    }

    /// The scan over a list of files, from this state on.
    pub open spec fn run_spec(self, marker: Timestamp, stamps: Seq<Option<Timestamp>>) -> Result<
        Scan,
        TooManyFiles,
    >
        decreases stamps.len(),
    {
        if stamps.len() == 0 {
            Ok(self)
        } else {
            match self.observe_spec(marker, stamps[0]) {
                ScanStep::Continue(next) => next.run_spec(marker, stamps.drop_first()),
                ScanStep::Stale(next) => Ok(next),
                ScanStep::TooManyFiles => Err(TooManyFiles),
            }
        }
    }

    /// Nothing seen so far outdates the marker.
    pub open spec fn fresh(self, marker: Timestamp) -> bool {
        self.scanned <= SCAN_LIMIT && !outdates(marker, self.newest)
    }

    /// A scan that has seen nothing.
    pub fn new() -> (scan: Scan)
        ensures
            scan == (Scan { newest: None, scanned: 0 }),
    {
        Scan { newest: None, scanned: 0 }
    }

    /// Takes one more file into the scan.
    pub fn observe(self, marker: Timestamp, modified: Option<Timestamp>) -> (step: ScanStep)
        ensures
            step == self.observe_spec(marker, modified),
    {
        if self.scanned >= SCAN_LIMIT {
            return ScanStep::TooManyFiles;
        }
        let scanned: u64 = self.scanned + 1;
        match modified {
            Some(m) => {
                if is_newer(modified, self.newest) {
                    let next = Scan { newest: modified, scanned };
                    if marker <= m {
                        ScanStep::Stale(next)
                    } else {
                        ScanStep::Continue(next)
                    }
                } else {
                    ScanStep::Continue(Scan { newest: self.newest, scanned })
                }
            },
            None => ScanStep::Continue(Scan { newest: self.newest, scanned }),
        }
    }

    /// Scans a list of files in order, stopping at the first that outdates
    /// the marker.
    pub fn run(self, marker: Timestamp, stamps: &Vec<Option<Timestamp>>) -> (r: Result<
        Scan,
        TooManyFiles,
    >)
        ensures
            r == self.run_spec(marker, stamps@),
    {
        let mut scan = self;
        let mut i: usize = 0;
        assert(stamps@.skip(0) =~= stamps@);
        while i < stamps.len()
            invariant
                i <= stamps.len(),
                self.run_spec(marker, stamps@) == scan.run_spec(marker, stamps@.skip(i as int)),
            decreases stamps.len() - i,
        {
            assert(stamps@.skip(i as int)[0] == stamps@[i as int]);
            assert(stamps@.skip(i as int).drop_first() =~= stamps@.skip(i + 1));
            match scan.observe(marker, stamps[i]) {
                ScanStep::Continue(next) => {
                    scan = next;
                },
                ScanStep::Stale(next) => {
                    return Ok(next);
                },
                ScanStep::TooManyFiles => {
                    return Err(TooManyFiles);
                },
            }
            i += 1;
        }
        assert(stamps@.skip(i as int).len() == 0);
        Ok(scan)
    }
}

/// What a scan comes to, said without reference to its steps: it fails
/// exactly when it runs into its limit, and otherwise the newest time it
/// reports is older than the marker exactly when every file is.
pub proof fn lemma_run(scan: Scan, marker: Timestamp, stamps: Seq<Option<Timestamp>>)
    requires
        scan.fresh(marker),
    ensures
        scan.run_spec(marker, stamps) is Err <==> exceeds(marker, stamps, SCAN_LIMIT - scan.scanned),
        scan.run_spec(marker, stamps) matches Ok(end) ==> (!outdates(marker, end.newest) <==> all_older(
            marker,
            stamps,
        )),
    decreases stamps.len(),
{
    let limit = SCAN_LIMIT - scan.scanned;
    if stamps.len() == 0 {
    } else {
        let rest = stamps.drop_first();
        match scan.observe_spec(marker, stamps[0]) {
            ScanStep::Continue(next) => {
                lemma_run(next, marker, rest);
                assert(!outdates(marker, stamps[0]));
                assert forall|i: int| 0 <= i < rest.len() implies rest[i] == stamps[i + 1] by {}
                if exceeds(marker, rest, limit - 1) {
                    assert forall|i: int| 0 <= i < limit implies !outdates(
                        marker,
                        #[trigger] stamps[i],
                    ) by {
                        if i > 0 {
                            assert(stamps[i] == rest[i - 1]);
                        }
                    }
                }
                if exceeds(marker, stamps, limit) {
                    assert forall|i: int| 0 <= i < limit - 1 implies !outdates(
                        marker,
                        #[trigger] rest[i],
                    ) by {
                        assert(rest[i] == stamps[i + 1]);
                    }
                }
                if all_older(marker, rest) {
                    assert forall|i: int| 0 <= i < stamps.len() implies !outdates(
                        marker,
                        #[trigger] stamps[i],
                    ) by {
                        if i > 0 {
                            assert(stamps[i] == rest[i - 1]);
                        }
                    }
                }
                if all_older(marker, stamps) {
                    assert forall|i: int| 0 <= i < rest.len() implies !outdates(
                        marker,
                        #[trigger] rest[i],
                    ) by {
                        assert(rest[i] == stamps[i + 1]);
                    }
                }
            },
            ScanStep::Stale(next) => {
                assert(outdates(marker, stamps[0]));
            },
            ScanStep::TooManyFiles => {},
        }
    }
}

/// The outcome of the staleness check.
#[derive(Debug, Clone, Copy, PartialEq, Eq)]
pub struct Decision {
    /// There is no completion marker: nothing was ever built.
    pub first_run: bool,
    /// The earlier build is good and nothing needs to run.
    pub skip_rebuild: bool,
}

/// Whether the extra source paths have to be scanned at all: only when the
/// marker is newer than the script.
pub open spec fn needs_scan(marker: Option<Timestamp>, script: Option<Timestamp>) -> bool {
    newer(marker, script)
}

/// The decision, given the newest time found under the extra source paths.
pub open spec fn decide_spec(
    marker: Option<Timestamp>,
    script: Option<Timestamp>,
    newest_extra: Option<Timestamp>,
    mode: BuildMode,
) -> Decision {
    Decision {
        first_run: marker is None,
        skip_rebuild: newer(marker, script) && newer(marker, newest_extra) && mode is Default,
    }
}

/// The decision over a snapshot of the file system: the times of the marker
/// and of the script, and those of the files under the extra source paths in
/// the order in which a scan meets them.
pub open spec fn detect_spec(
    marker: Option<Timestamp>,
    script: Option<Timestamp>,
    stamps: Seq<Option<Timestamp>>,
    mode: BuildMode,
) -> Result<Decision, TooManyFiles> {
    if newer(marker, script) && exceeds(marker->0, stamps, SCAN_LIMIT as int) {
        Err(TooManyFiles)
    } else {
        Ok(
            Decision {
                first_run: marker is None,
                skip_rebuild: mode is Default && newer(marker, script) && all_older(
                    marker->0,
                    stamps,
                ),
            },
        )
    }
}

/// Whether the extra source paths have to be scanned.
pub fn scan_needed(marker: Option<Timestamp>, script: Option<Timestamp>) -> (r: bool)
    ensures
        r == needs_scan(marker, script),
{
    is_newer(marker, script)
}

/// Decides from the three times whether this is a first run and whether the
/// rebuild can be skipped.
pub fn decide(
    marker: Option<Timestamp>,
    script: Option<Timestamp>,
    newest_extra: Option<Timestamp>,
    mode: BuildMode,
) -> (d: Decision)
    ensures
        d == decide_spec(marker, script, newest_extra, mode),
{
    Decision {
        first_run: marker.is_none(),
        skip_rebuild: is_newer(marker, script) && is_newer(marker, newest_extra)
            && mode.is_default(),
    }
}

/// The whole staleness check over a snapshot of the file system.
pub fn detect(
    marker: Option<Timestamp>,
    script: Option<Timestamp>,
    stamps: &Vec<Option<Timestamp>>,
    mode: BuildMode,
) -> (r: Result<Decision, TooManyFiles>)
    ensures
        r == detect_spec(marker, script, stamps@, mode),
{
    let mut newest_extra: Option<Timestamp> = None;
    if is_newer(marker, script) {
        let m = marker.unwrap();
        proof {
            lemma_run(Scan { newest: None, scanned: 0 }, m, stamps@);
        }
        match Scan::new().run(m, stamps) {
            Ok(end) => {
                newest_extra = end.newest;
            },
            Err(e) => {
                return Err(e);
            },
        }
    }
    Ok(decide(marker, script, newest_extra, mode))
}

/// The decision depends on the snapshot alone: two checks that see the same
/// times in the same mode decide the same.
pub proof fn lemma_same_snapshot_same_decision(
    marker: Option<Timestamp>,
    script: Option<Timestamp>,
    stamps: Seq<Option<Timestamp>>,
    again: Seq<Option<Timestamp>>,
    mode: BuildMode,
)
    requires
        stamps.len() == again.len(),
        forall|i: int| 0 <= i < stamps.len() ==> stamps[i] == again[i],
    ensures
        detect_spec(marker, script, stamps, mode) == detect_spec(marker, script, again, mode),
{
    assert(stamps =~= again);
}

/// A build mode other than the default never skips the rebuild.
pub proof fn lemma_forcing_modes_rebuild(
    marker: Option<Timestamp>,
    script: Option<Timestamp>,
    stamps: Seq<Option<Timestamp>>,
    mode: BuildMode,
)
    requires
        !(mode is Default),
    ensures
        detect_spec(marker, script, stamps, mode) matches Ok(d) ==> !d.skip_rebuild,
        forall|newest: Option<Timestamp>|
            !(#[trigger] decide_spec(marker, script, newest, mode)).skip_rebuild,
{
}

/// A file under the extra source paths that was touched at or after the
/// marker makes the build stale, even where the marker is newer than the
/// script.
pub proof fn lemma_touched_after_marker(
    marker: Timestamp,
    script: Option<Timestamp>,
    stamps: Seq<Option<Timestamp>>,
    mode: BuildMode,
    i: int,
)
    requires
        newer(Some(marker), script),
        0 <= i < stamps.len(),
        stamps[i] matches Some(touched) && marker <= touched,
    ensures
        detect_spec(Some(marker), script, stamps, mode) matches Ok(d) ==> !d.skip_rebuild,
{
    assert(outdates(marker, stamps[i]));
}

/// With the marker newer than the script and every file under the extra
/// source paths touched before the marker, the default mode skips the
/// rebuild, as long as the files are no more than a scan may look at.
pub proof fn lemma_touched_before_marker(
    marker: Timestamp,
    script: Option<Timestamp>,
    stamps: Seq<Option<Timestamp>>,
)
    requires
        newer(Some(marker), script),
        stamps.len() <= SCAN_LIMIT,
        forall|i: int|
            0 <= i < stamps.len() ==> (#[trigger] stamps[i] matches Some(touched) ==> touched
                < marker),
    ensures
        detect_spec(Some(marker), script, stamps, BuildMode::Default) == Ok::<Decision, TooManyFiles>(
            Decision { first_run: false, skip_rebuild: true },
        ),
{
}

/// Where an extra source path leads: where it says if it is absolute, and
/// else there from the script's directory.
pub open spec fn extra_root(script_dir: Seq<char>, extra: Seq<char>) -> Seq<char> {
    if is_absolute_path(extra) {
        extra
    } else {
        joined_path(script_dir, extra)
    }
}

/// The places to scan for the extra source paths, in the recipe's order.
pub open spec fn extra_roots(script_dir: Seq<char>, extras: Seq<Seq<char>>) -> Seq<Seq<char>> {
    Seq::new(extras.len(), |i: int| extra_root(script_dir, extras[i]))
}

/// The places to scan for the recipe's extra source paths, given the
/// canonical path of the script; none if the script has no directory.
pub fn extra_src_roots(cfg: &BuildSpec, full_script_path: &str) -> (r: Option<Vec<String>>)
    ensures
        match parent_of(full_script_path@) {
            Some(script_dir) => r matches Some(roots) && views(roots@) == extra_roots(
                script_dir,
                cfg@.extra_src_paths,
            ),
            None => r is None,
        },
{
    let script_dir = match crate::paths::parent(full_script_path) {
        Some(script_dir) => script_dir,
        None => {
            return None;
        },
    };
    let ghost want = extra_roots(script_dir@, cfg@.extra_src_paths);
    let mut roots: Vec<String> = Vec::new();
    let mut i: usize = 0;
    while i < cfg.extra_src_paths.len()
        invariant
            i <= cfg.extra_src_paths.len(),
            want == extra_roots(script_dir@, cfg@.extra_src_paths),
            views(roots@) == want.take(i as int),
        decreases cfg.extra_src_paths.len() - i,
    {
        let extra = &cfg.extra_src_paths[i];
        assert(cfg@.extra_src_paths[i as int] == extra@);
        let root = if crate::paths::is_absolute(extra.as_str()) {
            extra.clone()
        } else {
            crate::paths::join(script_dir.as_str(), extra.as_str())
        };
        let ghost before = views(roots@);
        roots.push(root);
        assert(views(roots@) =~= before.push(root@));
        assert(want.take(i + 1) =~= want.take(i as int).push(root@));
        i += 1;
    }
    assert(want.take(i as int) =~= want);
    Some(roots)
}

} // verus!
