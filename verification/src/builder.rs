//! The steps of a build: which files are written and which commands run, in
//! which order, on the host or through the container engine.
//!
//! Nothing here touches the file system or starts a process. A build is
//! planned as a list of steps; the caller carries them out one by one and
//! stops at the first that fails.

use vstd::prelude::*;
use crate::cfg::{BuildSpec, BuildSpecView, DockerBuild, DockerBuildView, FileView};
use crate::opt::BuildMode;
use crate::staleness::{detect, detect_spec, Decision, Timestamp, TooManyFiles};
use crate::paths::{escapes, file_name_of, joined_path, lemma_joined_inside, parent_of};
use crate::text::{appended, decimal, decimal_string, views};

verus! {

/// The name of the completion marker inside the cache directory.
pub const METADATA_FILE: &'static str = "scriptisto.metadata";

/// The name under which the Dockerfile is written into the cache directory.
pub const DOCKERFILE_NAME: &'static str = "Dockerfile.scriptisto";

/// The variable that tells a local build where the cache directory is.
pub const SCRIPTISTO_CACHE_DIR_VAR: &'static str = "SCRIPTISTO_CACHE_DIR";

/// The variable that tells a local build where the script's directory is.
pub const SCRIPTISTO_SOURCE_DIR_VAR: &'static str = "SCRIPTISTO_SOURCE_DIR";

/// The variable that tells a build the absolute path of the script.
pub const SCRIPTISTO_SOURCE_VAR: &'static str = "SCRIPTISTO_SOURCE";

/// Why a build could not be planned to its end.
#[derive(Debug, Clone, Copy, PartialEq, Eq)]
pub enum BuildError {
    /// The cache path has no final component to name the image after.
    InvalidCachePath,
    /// A file to write is named by an absolute path or by one with a
    /// component `..`, and so might be written outside the cache directory.
    OutsideCacheDirectory,
    /// A file to write has no directory above it.
    NoParentDirectory,
    /// The script's path has no directory above it.
    NoScriptDirectory,
}

/// One variable in the environment of a command.
#[derive(Debug, PartialEq, Eq)]
pub struct EnvVar {
    pub name: String,
    pub value: String,
}

/// The mathematical value of an [`EnvVar`].
pub struct EnvVarView {
    pub name: Seq<char>,
    pub value: Seq<char>,
}

impl View for EnvVar {
    type V = EnvVarView;

    open spec fn view(&self) -> EnvVarView {
        EnvVarView { name: self.name@, value: self.value@ }
    }
}

/// The views of a sequence of variables, element by element.
pub open spec fn env_views(envs: Seq<EnvVar>) -> Seq<EnvVarView> {
    Seq::new(envs.len(), |i: int| envs[i]@)
}

/// A command to run to completion, with its standard output captured.
#[derive(Debug, PartialEq, Eq)]
pub struct Invocation {
    /// The program to start.
    pub program: String,
    /// Its arguments, in order.
    pub args: Vec<String>,
    /// Variables added to its environment.
    pub envs: Vec<EnvVar>,
    /// Its working directory.
    pub current_dir: String,
}

/// The mathematical value of an [`Invocation`].
pub struct InvocationView {
    pub program: Seq<char>,
    pub args: Seq<Seq<char>>,
    pub envs: Seq<EnvVarView>,
    pub current_dir: Seq<char>,
}

impl View for Invocation {
    type V = InvocationView;

    open spec fn view(&self) -> InvocationView {
        InvocationView {
            program: self.program@,
            args: views(self.args@),
            envs: env_views(self.envs@),
            current_dir: self.current_dir@,
        }
    }
}

/// One step of a build.
#[derive(Debug, PartialEq, Eq)]
pub enum BuildStep {
    /// Create the directory `parent` with everything above it, then write
    /// `content` to the file `path`, replacing what was there.
    Write { path: String, parent: String, content: String },
    /// Run a command; a non-zero exit or a signal fails the build.
    Run(Invocation),
}

/// The mathematical value of a [`BuildStep`].
pub enum BuildStepView {
    Write { path: Seq<char>, parent: Seq<char>, content: Seq<char> },
    Run(InvocationView),
}

impl View for BuildStep {
    type V = BuildStepView;

    open spec fn view(&self) -> BuildStepView {
        match *self {
            BuildStep::Write { path, parent, content } => BuildStepView::Write {
                path: path@,
                parent: parent@,
                content: content@,
            },
            BuildStep::Run(invocation) => BuildStepView::Run(invocation@),
        }
    }
}

/// The views of a sequence of steps, element by element.
pub open spec fn step_views(steps: Seq<BuildStep>) -> Seq<BuildStepView> {
    Seq::new(steps.len(), |i: int| steps[i]@)
}

/// A step as the plan was drawn up: either the step, or the reason why it,
/// and with it the rest of the build, cannot be done.
pub type Attempt = Result<BuildStep, BuildError>;

/// The mathematical value of an [`Attempt`].
pub type AttemptView = Result<BuildStepView, BuildError>;

/// The view of one attempt.
pub open spec fn attempt_view(attempt: Attempt) -> AttemptView {
    match attempt {
        Ok(step) => Ok(step@),
        Err(e) => Err(e),
    }
}

/// The views of a sequence of attempts, element by element.
pub open spec fn attempt_views(attempts: Seq<Attempt>) -> Seq<AttemptView> {
    Seq::new(attempts.len(), |i: int| attempt_view(attempts[i]))
}

/// A planned build: the steps to carry out in order, and the error to report
/// once they are done, if the build cannot go further than that.
#[derive(Debug, PartialEq, Eq)]
pub struct BuildPlan {
    pub steps: Vec<BuildStep>,
    pub failure: Option<BuildError>,
}

/// The mathematical value of a [`BuildPlan`].
pub struct BuildPlanView {
    pub steps: Seq<BuildStepView>,
    pub failure: Option<BuildError>,
}

impl View for BuildPlan {
    type V = BuildPlanView;

    open spec fn view(&self) -> BuildPlanView {
        BuildPlanView { steps: step_views(self.steps@), failure: self.failure }
    }
}

/// What `md5::compute` answers for a sequence of bytes: its sixteen-byte
/// MD5 digest.
pub uninterp spec fn md5_of(data: Seq<u8>) -> Seq<u8>;

/// The character for one hexadecimal digit, in lower case.
pub open spec fn hex_digit(d: int) -> char {
    if d == 0 {
        '0'
    } else if d == 1 {
        '1'
    } else if d == 2 {
        '2'
    } else if d == 3 {
        '3'
    } else if d == 4 {
        '4'
    } else if d == 5 {
        '5'
    } else if d == 6 {
        '6'
    } else if d == 7 {
        '7'
    } else if d == 8 {
        '8'
    } else if d == 9 {
        '9'
    } else if d == 10 {
        'a'
    } else if d == 11 {
        'b'
    } else if d == 12 {
        'c'
    } else if d == 13 {
        'd'
    } else if d == 14 {
        'e'
    } else {
        'f'
    }
}

/// The bytes written as two lower-case hexadecimal digits each.
pub open spec fn lower_hex(bytes: Seq<u8>) -> Seq<char>
    decreases bytes.len(),
{
    if bytes.len() == 0 {
        Seq::empty()
    } else {
        lower_hex(bytes.drop_last()) + seq![
            hex_digit(bytes.last() as int / 16),
            hex_digit(bytes.last() as int % 16),
        ]
    }
}

/// `md5::compute` on the bytes, as the digest's sixteen bytes. Trusted to
/// equal `md5_of`.
#[verifier::external_body]
fn md5_digest(data: &[u8]) -> (digest: [u8; 16])
    ensures
        digest@ == md5_of(data@),
{
    md5::compute(data).0
}

/// The `{:x}` rendering of an `md5::Digest`: by the crate's source, each of
/// the sixteen bytes in order as two lower-case hexadecimal digits.
#[verifier::external_body]
fn digest_hex(digest: [u8; 16]) -> (hex: String)
    ensures
        hex@ == lower_hex(digest@),
{
    format!("{:x}", md5::Digest(digest))
}

/// `users::get_current_uid`: the user id of the running process. Nothing
/// is claimed of it.
#[verifier::external_body]
fn current_uid() -> u32 {
    users::get_current_uid()
}

/// The common beginning of a script's image and volume names: a fixed
/// prefix, the cache directory's last component, and the MD5 of the whole
/// cache path in hexadecimal. None if the cache path has no last component.
pub open spec fn docker_prefix_of(cache: Seq<char>) -> Option<Seq<char>> {
    match file_name_of(cache) {
        Some(name) => Some(
            "scriptisto-"@ + name + "-"@ + lower_hex(md5_of(vstd::utf8::encode_utf8(cache))),
        ),
        None => None,
    }
}

/// The name of the image that a script with this cache directory is built in.
pub open spec fn docker_image_name_of(cache: Seq<char>) -> Option<Seq<char>> {
    docker_prefix_of(cache)
}

/// The name of the volume that holds the sources of a script with this
/// cache directory.
pub open spec fn docker_volume_name_of(cache: Seq<char>) -> Option<Seq<char>> {
    match docker_prefix_of(cache) {
        Some(prefix) => Some(prefix + "-src"@),
        None => None,
    }
}

/// The names of a script's image and volume follow from its cache path
/// alone, so that the same cache path has the same names on every call; and
/// the volume is named like the image, with `-src` after it.
pub proof fn lemma_names_follow_cache_path(cache: Seq<char>, again: Seq<char>)
    requires
        cache.len() == again.len(),
        forall|i: int| 0 <= i < cache.len() ==> cache[i] == again[i],
    ensures
        docker_image_name_of(cache) == docker_image_name_of(again),
        docker_volume_name_of(cache) == docker_volume_name_of(again),
        docker_volume_name_of(cache) == (match docker_image_name_of(cache) {
            Some(image) => Some(image + "-src"@),
            None => None,
        }),
{
    assert(cache =~= again);
}

/// The view of an optional name, or of the error in its place.
pub open spec fn name_view(r: Result<String, BuildError>) -> Option<Seq<char>> {
    match r {
        Ok(name) => Some(name@),
        Err(_) => None,
    }
}

/// The common beginning of a script's image and volume names.
pub fn docker_prefix(script_cache_path: &str) -> (r: Result<String, BuildError>)
    ensures
        name_view(r) == docker_prefix_of(script_cache_path@),
        r is Err ==> r == Err::<String, BuildError>(BuildError::InvalidCachePath),
{
    match crate::paths::file_name(script_cache_path) {
        None => Err(BuildError::InvalidCachePath),
        Some(name) => {
            let digest = md5_digest(script_cache_path.as_bytes());
            let hex = digest_hex(digest);
            let mut out = String::from_str("scriptisto-");
            out.append(name.as_str());
            out.append("-");
            out.append(hex.as_str());
            Ok(out)
        },
    }
}

/// The name of the image that the script is built in.
pub fn docker_image_name(script_cache_path: &str) -> (r: Result<String, BuildError>)
    ensures
        name_view(r) == docker_image_name_of(script_cache_path@),
        r is Err ==> r == Err::<String, BuildError>(BuildError::InvalidCachePath),
{
    docker_prefix(script_cache_path)
}

/// The name of the volume that holds the script's sources.
pub fn docker_volume_name(script_cache_path: &str) -> (r: Result<String, BuildError>)
    ensures
        name_view(r) == docker_volume_name_of(script_cache_path@),
        r is Err ==> r == Err::<String, BuildError>(BuildError::InvalidCachePath),
{
    match docker_prefix(script_cache_path) {
        Ok(prefix) => Ok(appended(prefix.as_str(), "-src")),
        Err(e) => Err(e),
    }
}

/// Writing `content` to `rel` under `dir`: the step, or the reason why the
/// file cannot be placed. A path that might lead out of `dir` is refused.
pub open spec fn write_attempt(dir: Seq<char>, rel: Seq<char>, content: Seq<char>) -> AttemptView {
    let path = joined_path(dir, rel);
    if escapes(rel) {
        Err(BuildError::OutsideCacheDirectory)
    } else {
        match parent_of(path) {
            Some(parent) => Ok(BuildStepView::Write { path, parent, content }),
            None => Err(BuildError::NoParentDirectory),
        }
    }
}

/// The path is that of a file under `dir`: the text of `dir`, and after it
/// a relative path without a component `..`.
pub open spec fn inside(dir: Seq<char>, path: Seq<char>) -> bool {
    exists|rel: Seq<char>| !escapes(rel) && #[trigger] joined_path(dir, rel) == path
}

/// The step writes no file outside `dir`.
pub open spec fn writes_inside(dir: Seq<char>, step: BuildStepView) -> bool {
    step matches BuildStepView::Write { path, parent, content } ==> inside(dir, path)
        && dir.is_prefix_of(path)
}

/// A write is planned only for a path that does not leave the directory:
/// an absolute path and a path with a component `..` are refused, and every
/// other path is written under the directory's own text.
pub proof fn lemma_write_stays_inside(dir: Seq<char>, rel: Seq<char>, content: Seq<char>)
    ensures
        escapes(rel) <==> write_attempt(dir, rel, content) == Err::<BuildStepView, BuildError>(
            BuildError::OutsideCacheDirectory,
        ),
        write_attempt(dir, rel, content) matches Ok(step) ==> writes_inside(dir, step),
{
    if !escapes(rel) {
        lemma_joined_inside(dir, rel);
        assert(joined_path(dir, rel) == joined_path(dir, rel));
    }
}

/// Running `cmd` through the shell in `dir`.
pub open spec fn shell_command(cmd: Seq<char>, envs: Seq<EnvVarView>, dir: Seq<char>) -> InvocationView {
    InvocationView { program: "/bin/sh"@, args: seq!["-c"@, cmd], envs, current_dir: dir }
}

/// Whether the one-time command is due: on the first build and on every
/// full rebuild.
pub open spec fn once_due(first_run: bool, mode: BuildMode) -> bool {
    first_run || mode is Full
}

/// The one-time command, where the recipe has one and it is due.
pub open spec fn once_attempts(
    cfg: BuildSpecView,
    cache: Seq<char>,
    first_run: bool,
    mode: BuildMode,
) -> Seq<AttemptView> {
    match cfg.build_once_cmd {
        Some(cmd) if once_due(first_run, mode) => seq![
            Ok(BuildStepView::Run(shell_command(cmd, Seq::empty(), cache))),
        ],
        _ => Seq::empty(),
    }
}

/// Creating the source volume.
pub open spec fn volume_create_command(volume: Seq<char>, cache: Seq<char>) -> InvocationView {
    InvocationView {
        program: "docker"@,
        args: seq!["volume"@, "create"@, volume],
        envs: Seq::empty(),
        current_dir: cache,
    }
}

/// Running a shell command in a throw-away helper container that sees the
/// source volume at `/vol` and the cache directory at `/src`, as the given
/// user if there is one.
pub open spec fn volume_command(
    volume: Seq<char>,
    cache: Seq<char>,
    uid: Option<nat>,
    cmd: Seq<char>,
) -> InvocationView {
    InvocationView {
        program: "docker"@,
        args: seq!["run"@, "-t"@, "--rm"@] + (match uid {
            Some(uid) => seq!["-u"@, decimal(uid)],
            None => Seq::empty(),
        }) + seq![
            "-v"@,
            volume + ":/vol"@,
            "-v"@,
            cache + ":/src"@,
            "busybox"@,
            "sh"@,
            "-c"@,
            cmd,
        ],
        envs: Seq::empty(),
        current_dir: cache,
    }
}

/// Building the image from the Dockerfile in the cache directory, labelled
/// with the cache path; without the engine's layer cache on a full rebuild.
pub open spec fn image_build_command(image: Seq<char>, cache: Seq<char>, mode: BuildMode) -> InvocationView {
    InvocationView {
        program: "docker"@,
        args: seq!["build"@] + (if mode is Full {
            seq!["--no-cache"@]
        } else {
            Seq::empty()
        }) + seq![
            "-t"@,
            image,
            "--label"@,
            "scriptisto-cache-path="@ + cache,
            "-f"@,
            DOCKERFILE_NAME@,
            "."@,
        ],
        envs: Seq::empty(),
        current_dir: cache,
    }
}

/// Running the build command in a container of the image, with the source
/// volume mounted where the recipe says and the recipe's further arguments
/// passed on as they are.
pub open spec fn container_build_command(
    docker: DockerBuildView,
    volume: Seq<char>,
    image: Seq<char>,
    script_path: Seq<char>,
    build_cmd: Seq<char>,
    cache: Seq<char>,
) -> InvocationView {
    InvocationView {
        program: "docker"@,
        args: seq!["run"@, "-t"@, "--rm"@, "--env"@, SCRIPTISTO_SOURCE_VAR@ + "="@ + script_path]
            + (match docker.src_mount_dir {
            Some(dir) => seq!["-v"@, volume + ":"@ + dir],
            None => Seq::empty(),
        }) + docker.extra_args + seq![image, "sh"@, "-c"@, build_cmd],
        envs: Seq::empty(),
        current_dir: cache,
    }
}

/// The shell text that copies the built target out of the volume into the
/// cache directory, creating the directory it goes to.
pub open spec fn extract_text(target_bin: Seq<char>) -> Seq<char> {
    let src_path = joined_path("/src"@, target_bin);
    let vol_path = joined_path("/vol"@, target_bin);
    "mkdir -p $(dirname "@ + src_path + ") && cp -rf "@ + vol_path + " "@ + src_path
}

/// The steps of a containerized build.
pub open spec fn docker_attempts(
    cfg: BuildSpecView,
    docker: DockerBuildView,
    dockerfile: Seq<char>,
    build_cmd: Seq<char>,
    script_path: Seq<char>,
    cache: Seq<char>,
    mode: BuildMode,
    uid: nat,
) -> Seq<AttemptView> {
    let written = write_attempt(cache, DOCKERFILE_NAME@, dockerfile);
    match (docker_volume_name_of(cache), docker_image_name_of(cache)) {
        (Some(volume), Some(image)) => seq![
            written,
            Ok(BuildStepView::Run(volume_create_command(volume, cache))),
            Ok(BuildStepView::Run(volume_command(volume, cache, None, "cp -rf /src/* /vol/"@))),
            Ok(BuildStepView::Run(image_build_command(image, cache, mode))),
            Ok(
                BuildStepView::Run(
                    container_build_command(docker, volume, image, script_path, build_cmd, cache),
                ),
            ),
            Ok(
                BuildStepView::Run(
                    volume_command(volume, cache, Some(uid), extract_text(cfg.target_bin)),
                ),
            ),
        ],
        _ => seq![written, Err(BuildError::InvalidCachePath)],
    }
}

/// The variables that a build on the host sees.
pub open spec fn local_envs(cache: Seq<char>, script_dir: Seq<char>, script_path: Seq<char>) -> Seq<
    EnvVarView,
> {
    seq![
        EnvVarView { name: SCRIPTISTO_CACHE_DIR_VAR@, value: cache },
        EnvVarView { name: SCRIPTISTO_SOURCE_DIR_VAR@, value: script_dir },
        EnvVarView { name: SCRIPTISTO_SOURCE_VAR@, value: script_path },
    ]
}

/// The step of a build on the host.
pub open spec fn local_attempts(
    cfg: BuildSpecView,
    build_cmd: Seq<char>,
    script_path: Seq<char>,
    cache: Seq<char>,
) -> Seq<AttemptView> {
    match parent_of(script_path) {
        Some(script_dir) => seq![
            Ok(
                BuildStepView::Run(
                    shell_command(
                        build_cmd,
                        local_envs(cache, script_dir, script_path),
                        if cfg.build_in_script_dir {
                            script_dir
                        } else {
                            cache
                        },
                    ),
                ),
            ),
        ],
        None => seq![Err(BuildError::NoScriptDirectory)],
    }
}

/// The steps that run the build command, in a container if the recipe has a
/// Dockerfile and on the host if not; none if there is no build command.
pub open spec fn compile_attempts(
    cfg: BuildSpecView,
    script_path: Seq<char>,
    cache: Seq<char>,
    mode: BuildMode,
    uid: nat,
) -> Seq<AttemptView> {
    match cfg.build_cmd {
        None => Seq::empty(),
        Some(build_cmd) => match cfg.docker_build {
            Some(docker) if docker.dockerfile is Some => docker_attempts(
                cfg,
                docker,
                docker.dockerfile->0,
                build_cmd,
                script_path,
                cache,
                mode,
                uid,
            ),
            _ => local_attempts(cfg, build_cmd, script_path, cache),
        },
    }
}

/// Everything a build attempts, in order: the one-time command where due,
/// the build command, and last the empty completion marker.
pub open spec fn build_attempts(
    cfg: BuildSpecView,
    script_path: Seq<char>,
    cache: Seq<char>,
    first_run: bool,
    mode: BuildMode,
    uid: nat,
) -> Seq<AttemptView> {
    once_attempts(cfg, cache, first_run, mode) + compile_attempts(cfg, script_path, cache, mode, uid)
        + seq![write_attempt(cache, METADATA_FILE@, Seq::empty())]
}

/// The index of the first attempt that is an error, or the number of
/// attempts if none is.
pub open spec fn first_failure(attempts: Seq<AttemptView>) -> int
    decreases attempts.len(),
{
    if attempts.len() == 0 {
        0
    } else if attempts[0] is Err {
        0
    } else {
        1 + first_failure(attempts.drop_first())
    }
}

/// The plan that a list of attempts settles to: the steps before the first
/// error, and that error.
pub open spec fn settle(attempts: Seq<AttemptView>) -> BuildPlanView {
    let n = first_failure(attempts);
    BuildPlanView {
        steps: Seq::new(n as nat, |i: int| attempts[i]->Ok_0),
        failure: if n < attempts.len() {
            Some(attempts[n]->Err_0)
        } else {
            None
        },
    }
}

/// `first_failure` is the least index of an error among the attempts.
pub proof fn lemma_first_failure(attempts: Seq<AttemptView>)
    ensures
        0 <= first_failure(attempts) <= attempts.len(),
        forall|i: int| 0 <= i < first_failure(attempts) ==> attempts[i] is Ok,
        first_failure(attempts) < attempts.len() ==> attempts[first_failure(attempts)] is Err,
    decreases attempts.len(),
{
    if attempts.len() == 0 {
    } else if attempts[0] is Err {
    } else {
        let rest = attempts.drop_first();
        lemma_first_failure(rest);
        assert forall|i: int| 0 <= i < first_failure(attempts) implies attempts[i] is Ok by {
            if i > 0 {
                assert(attempts[i] == rest[i - 1]);
            }
        }
    }
}

/// Adding one attempt at the end: nothing changes once an error is
/// recorded; before that a step is added to the steps and an error becomes
/// the failure.
pub proof fn lemma_settle_push(attempts: Seq<AttemptView>, next: AttemptView)
    ensures
        settle(attempts.push(next)) == (if settle(attempts).failure is Some {
            settle(attempts)
        } else {
            match next {
                Ok(step) => BuildPlanView { steps: settle(attempts).steps.push(step), failure: None },
                Err(e) => BuildPlanView { steps: settle(attempts).steps, failure: Some(e) },
            }
        }),
{
    lemma_first_failure_push(attempts, next);
    lemma_first_failure(attempts);
    let longer = attempts.push(next);
    let want = if settle(attempts).failure is Some {
        settle(attempts)
    } else {
        match next {
            Ok(step) => BuildPlanView { steps: settle(attempts).steps.push(step), failure: None },
            Err(e) => BuildPlanView { steps: settle(attempts).steps, failure: Some(e) },
        }
    };
    assert(settle(longer).steps =~= want.steps);
}

/// How `first_failure` moves when one attempt is added at the end.
pub proof fn lemma_first_failure_push(attempts: Seq<AttemptView>, next: AttemptView)
    ensures
        first_failure(attempts.push(next)) == (if first_failure(attempts) < attempts.len() {
            first_failure(attempts)
        } else if next is Err {
            attempts.len() as int
        } else {
            attempts.len() as int + 1
        }),
    decreases attempts.len(),
{
    let longer = attempts.push(next);
    if attempts.len() == 0 {
        assert(longer.drop_first() =~= Seq::<AttemptView>::empty());
        assert(first_failure(longer.drop_first()) == 0);
    } else if attempts[0] is Err {
    } else {
        lemma_first_failure_push(attempts.drop_first(), next);
        assert(longer.drop_first() =~= attempts.drop_first().push(next));
    }
}

fn push_str(v: &mut Vec<String>, s: &str)
    ensures
        views(final(v)@) == views(old(v)@).push(s@),
{
    v.push(String::from_str(s));
    assert(views(v@) =~= views(old(v)@).push(s@));
}

fn push_string(v: &mut Vec<String>, s: String)
    ensures
        views(final(v)@) == views(old(v)@).push(s@),
{
    v.push(s);
    assert(views(v@) =~= views(old(v)@).push(s@));
}

fn push_env(v: &mut Vec<EnvVar>, name: &str, value: &str)
    ensures
        env_views(final(v)@) == env_views(old(v)@).push(EnvVarView { name: name@, value: value@ }),
{
    v.push(EnvVar { name: String::from_str(name), value: String::from_str(value) });
    assert(env_views(v@) =~= env_views(old(v)@).push(EnvVarView { name: name@, value: value@ }));
}

impl BuildPlan {
    /// The plan with nothing to do.
    pub fn new() -> (plan: BuildPlan)
        ensures
            plan@ == settle(Seq::empty()),
    {
        let plan = BuildPlan { steps: Vec::new(), failure: None };
        assert(plan@.steps =~= settle(Seq::empty()).steps);
        plan
    }

    /// Adds one attempt at the end of the plan.
    fn attempt(&mut self, next: Attempt, Ghost(before): Ghost<Seq<AttemptView>>)
        requires
            old(self)@ == settle(before),
        ensures
            final(self)@ == settle(before.push(attempt_view(next))),
    {
        proof {
            lemma_settle_push(before, attempt_view(next));
        }
        if self.failure.is_none() {
            match next {
                Ok(step) => {
                    self.steps.push(step);
                    assert(step_views(self.steps@) =~= step_views(old(self).steps@).push(step@));
                },
                Err(e) => {
                    self.failure = Some(e);
                },
            }
        }
    }
}

/// Where a file goes that is written to `rel_path` under `cache_path`, and
/// the directory to create for it; the step that writes `content` there.
pub fn write_bytes(cache_path: &str, rel_path: &str, content: &str) -> (r: Attempt)
    ensures
        attempt_view(r) == write_attempt(cache_path@, rel_path@, content@),
{
    if crate::paths::may_escape(rel_path) {
        return Err(BuildError::OutsideCacheDirectory);
    }
    let path = crate::paths::join(cache_path, rel_path);
    match crate::paths::parent(path.as_str()) {
        Some(parent) => Ok(BuildStep::Write { path, parent, content: String::from_str(content) }),
        None => Err(BuildError::NoParentDirectory),
    }
}

fn shell(cmd: &str, envs: Vec<EnvVar>, dir: &str) -> (r: Invocation)
    ensures
        r@ == shell_command(cmd@, env_views(envs@), dir@),
{
    let mut args: Vec<String> = Vec::new();
    push_str(&mut args, "-c");
    push_str(&mut args, cmd);
    assert(views(args@) =~= seq!["-c"@, cmd@]);
    Invocation { program: String::from_str("/bin/sh"), args, envs, current_dir: String::from_str(dir) }
}

/// The command that creates the source volume.
pub fn docker_create_volume(volume_name: &str, script_cache_path: &str) -> (r: Invocation)
    ensures
        r@ == volume_create_command(volume_name@, script_cache_path@),
{
    let mut args: Vec<String> = Vec::new();
    push_str(&mut args, "volume");
    push_str(&mut args, "create");
    push_str(&mut args, volume_name);
    assert(views(args@) =~= seq!["volume"@, "create"@, volume_name@]);
    let envs: Vec<EnvVar> = Vec::new();
    assert(env_views(envs@) =~= Seq::<EnvVarView>::empty());
    Invocation {
        program: String::from_str("docker"),
        args,
        envs,
        current_dir: String::from_str(script_cache_path),
    }
}

/// The view of an optional user id.
pub open spec fn uid_view(uid: Option<u32>) -> Option<nat> {
    match uid {
        Some(uid) => Some(uid as nat),
        None => None,
    }
}

/// The command that runs `cmd` in a helper container over the source volume
/// and the cache directory, as the user `uid` if one is given.
pub fn docker_volume_cmd(
    volume_name: &str,
    script_cache_path: &str,
    uid: Option<u32>,
    cmd: &str,
) -> (r: Invocation)
    ensures
        r@ == volume_command(volume_name@, script_cache_path@, uid_view(uid), cmd@),
{
    let mut args: Vec<String> = Vec::new();
    push_str(&mut args, "run");
    push_str(&mut args, "-t");
    push_str(&mut args, "--rm");
    match uid {
        Some(uid) => {
            push_str(&mut args, "-u");
            push_string(&mut args, decimal_string(uid));
        },
        None => {},
    }
    push_str(&mut args, "-v");
    push_string(&mut args, appended(volume_name, ":/vol"));
    push_str(&mut args, "-v");
    push_string(&mut args, appended(script_cache_path, ":/src"));
    push_str(&mut args, "busybox");
    push_str(&mut args, "sh");
    push_str(&mut args, "-c");
    push_str(&mut args, cmd);
    assert(views(args@) =~= volume_command(
        volume_name@,
        script_cache_path@,
        uid_view(uid),
        cmd@,
    ).args);
    let envs: Vec<EnvVar> = Vec::new();
    assert(env_views(envs@) =~= Seq::<EnvVarView>::empty());
    Invocation {
        program: String::from_str("docker"),
        args,
        envs,
        current_dir: String::from_str(script_cache_path),
    }
}

fn docker_build_image(image: &str, script_cache_path: &str, mode: BuildMode) -> (r: Invocation)
    ensures
        r@ == image_build_command(image@, script_cache_path@, mode),
{
    let mut args: Vec<String> = Vec::new();
    push_str(&mut args, "build");
    if mode.is_full() {
        push_str(&mut args, "--no-cache");
    }
    push_str(&mut args, "-t");
    push_str(&mut args, image);
    push_str(&mut args, "--label");
    push_string(&mut args, appended("scriptisto-cache-path=", script_cache_path));
    push_str(&mut args, "-f");
    push_str(&mut args, DOCKERFILE_NAME);
    push_str(&mut args, ".");
    assert(views(args@) =~= image_build_command(image@, script_cache_path@, mode).args);
    let envs: Vec<EnvVar> = Vec::new();
    assert(env_views(envs@) =~= Seq::<EnvVarView>::empty());
    Invocation {
        program: String::from_str("docker"),
        args,
        envs,
        current_dir: String::from_str(script_cache_path),
    }
}

fn docker_run_build(
    docker: &DockerBuild,
    volume: &str,
    image: &str,
    script_path: &str,
    build_cmd: &str,
    script_cache_path: &str,
) -> (r: Invocation)
    ensures
        r@ == container_build_command(
            docker@,
            volume@,
            image@,
            script_path@,
            build_cmd@,
            script_cache_path@,
        ),
{
    let mut args: Vec<String> = Vec::new();
    push_str(&mut args, "run");
    push_str(&mut args, "-t");
    push_str(&mut args, "--rm");
    push_str(&mut args, "--env");
    let mut source = String::from_str(SCRIPTISTO_SOURCE_VAR);
    source.append("=");
    source.append(script_path);
    push_string(&mut args, source);
    match &docker.src_mount_dir {
        Some(dir) => {
            let mut mount = String::from_str(volume);
            mount.append(":");
            mount.append(dir.as_str());
            push_str(&mut args, "-v");
            push_string(&mut args, mount);
        },
        None => {},
    }
    let ghost head = views(args@);
    let mut i: usize = 0;
    while i < docker.extra_args.len()
        invariant
            i <= docker.extra_args.len(),
            views(args@) == head + views(docker.extra_args@).take(i as int),
        decreases docker.extra_args.len() - i,
    {
        push_string(&mut args, docker.extra_args[i].clone());
        assert(views(docker.extra_args@).take(i + 1) =~= views(docker.extra_args@).take(
            i as int,
        ).push(docker.extra_args[i as int]@));
        i += 1;
    }
    assert(views(docker.extra_args@).take(i as int) =~= views(docker.extra_args@));
    push_str(&mut args, image);
    push_str(&mut args, "sh");
    push_str(&mut args, "-c");
    push_str(&mut args, build_cmd);
    assert(views(args@) =~= container_build_command(
        docker@,
        volume@,
        image@,
        script_path@,
        build_cmd@,
        script_cache_path@,
    ).args);
    let envs: Vec<EnvVar> = Vec::new();
    assert(env_views(envs@) =~= Seq::<EnvVarView>::empty());
    Invocation {
        program: String::from_str("docker"),
        args,
        envs,
        current_dir: String::from_str(script_cache_path),
    }
}

fn extract_command_text(target_bin: &str) -> (r: String)
    ensures
        r@ == extract_text(target_bin@),
{
    let src_path = crate::paths::join("/src", target_bin);
    let vol_path = crate::paths::join("/vol", target_bin);
    let mut text = String::from_str("mkdir -p $(dirname ");
    text.append(src_path.as_str());
    text.append(") && cp -rf ");
    text.append(vol_path.as_str());
    text.append(" ");
    text.append(src_path.as_str());
    text
}

fn add_once(
    plan: &mut BuildPlan,
    Ghost(before): Ghost<Seq<AttemptView>>,
    cfg: &BuildSpec,
    script_cache_path: &str,
    first_run: bool,
    build_mode: BuildMode,
)
    requires
        old(plan)@ == settle(before),
    ensures
        final(plan)@ == settle(before + once_attempts(cfg@, script_cache_path@, first_run, build_mode)),
{
    let ghost added = once_attempts(cfg@, script_cache_path@, first_run, build_mode);
    if first_run || build_mode.is_full() {
        match &cfg.build_once_cmd {
            Some(cmd) => {
                let envs: Vec<EnvVar> = Vec::new();
                assert(env_views(envs@) =~= Seq::<EnvVarView>::empty());
                let run = shell(cmd.as_str(), envs, script_cache_path);
                plan.attempt(Ok(BuildStep::Run(run)), Ghost(before));
                assert(before + added =~= before.push(added[0]));
            },
            None => {
                assert(before + added =~= before);
            },
        }
    } else {
        assert(before + added =~= before);
    }
}

fn add_docker(
    plan: &mut BuildPlan,
    Ghost(before): Ghost<Seq<AttemptView>>,
    cfg: &BuildSpec,
    docker: &DockerBuild,
    dockerfile: &str,
    build_cmd: &str,
    script_path: &str,
    script_cache_path: &str,
    build_mode: BuildMode,
    uid: u32,
)
    requires
        old(plan)@ == settle(before),
    ensures
        final(plan)@ == settle(
            before + docker_attempts(
                cfg@,
                docker@,
                dockerfile@,
                build_cmd@,
                script_path@,
                script_cache_path@,
                build_mode,
                uid as nat,
            ),
        ),
{
    let ghost added = docker_attempts(
        cfg@,
        docker@,
        dockerfile@,
        build_cmd@,
        script_path@,
        script_cache_path@,
        build_mode,
        uid as nat,
    );
    let ghost mut done = before;
    plan.attempt(write_bytes(script_cache_path, DOCKERFILE_NAME, dockerfile), Ghost(done));
    proof {
        done = done.push(added[0]);
    }
    match docker_volume_name(script_cache_path) {
        Err(e) => {
            plan.attempt(Err(e), Ghost(done));
            assert(before + added =~= done.push(added[1]));
        },
        Ok(volume) => {
            let create = docker_create_volume(volume.as_str(), script_cache_path);
            plan.attempt(Ok(BuildStep::Run(create)), Ghost(done));
            proof {
                done = done.push(added[1]);
            }
            let fill = docker_volume_cmd(
                volume.as_str(),
                script_cache_path,
                None,
                "cp -rf /src/* /vol/",
            );
            plan.attempt(Ok(BuildStep::Run(fill)), Ghost(done));
            proof {
                done = done.push(added[2]);
            }
            match docker_image_name(script_cache_path) {
                Err(e) => {
                    plan.attempt(Err(e), Ghost(done));
                },
                Ok(image) => {
                    let build = docker_build_image(image.as_str(), script_cache_path, build_mode);
                    plan.attempt(Ok(BuildStep::Run(build)), Ghost(done));
                    proof {
                        done = done.push(added[3]);
                    }
                    let run = docker_run_build(
                        docker,
                        volume.as_str(),
                        image.as_str(),
                        script_path,
                        build_cmd,
                        script_cache_path,
                    );
                    plan.attempt(Ok(BuildStep::Run(run)), Ghost(done));
                    proof {
                        done = done.push(added[4]);
                    }
                    let text = extract_command_text(cfg.target_bin.as_str());
                    let extract = docker_volume_cmd(
                        volume.as_str(),
                        script_cache_path,
                        Some(uid),
                        text.as_str(),
                    );
                    plan.attempt(Ok(BuildStep::Run(extract)), Ghost(done));
                    assert(before + added =~= done.push(added[5]));
                },
            }
        },
    }
}

fn add_local(
    plan: &mut BuildPlan,
    Ghost(before): Ghost<Seq<AttemptView>>,
    cfg: &BuildSpec,
    build_cmd: &str,
    script_path: &str,
    script_cache_path: &str,
)
    requires
        old(plan)@ == settle(before),
    ensures
        final(plan)@ == settle(
            before + local_attempts(cfg@, build_cmd@, script_path@, script_cache_path@),
        ),
{
    let ghost added = local_attempts(cfg@, build_cmd@, script_path@, script_cache_path@);
    match crate::paths::parent(script_path) {
        None => {
            plan.attempt(Err(BuildError::NoScriptDirectory), Ghost(before));
        },
        Some(script_dir) => {
            let mut envs: Vec<EnvVar> = Vec::new();
            assert(env_views(envs@) =~= Seq::<EnvVarView>::empty());
            push_env(&mut envs, SCRIPTISTO_CACHE_DIR_VAR, script_cache_path);
            push_env(&mut envs, SCRIPTISTO_SOURCE_DIR_VAR, script_dir.as_str());
            push_env(&mut envs, SCRIPTISTO_SOURCE_VAR, script_path);
            assert(env_views(envs@) =~= local_envs(script_cache_path@, script_dir@, script_path@));
            let run = if cfg.build_in_script_dir {
                shell(build_cmd, envs, script_dir.as_str())
            } else {
                shell(build_cmd, envs, script_cache_path)
            };
            plan.attempt(Ok(BuildStep::Run(run)), Ghost(before));
        },
    }
    assert(before + added =~= before.push(added[0]));
}

fn add_compile(
    plan: &mut BuildPlan,
    Ghost(before): Ghost<Seq<AttemptView>>,
    cfg: &BuildSpec,
    script_path: &str,
    script_cache_path: &str,
    build_mode: BuildMode,
    uid: u32,
)
    requires
        old(plan)@ == settle(before),
    ensures
        final(plan)@ == settle(
            before + compile_attempts(cfg@, script_path@, script_cache_path@, build_mode, uid as nat),
        ),
{
    match &cfg.build_cmd {
        None => {
            assert(before + Seq::<AttemptView>::empty() =~= before);
        },
        Some(build_cmd) => {
            match &cfg.docker_build {
                Some(docker) => {
                    match &docker.dockerfile {
                        Some(dockerfile) => {
                            add_docker(
                                plan,
                                Ghost(before),
                                cfg,
                                docker,
                                dockerfile.as_str(),
                                build_cmd.as_str(),
                                script_path,
                                script_cache_path,
                                build_mode,
                                uid,
                            );
                        },
                        None => {
                            add_local(
                                plan,
                                Ghost(before),
                                cfg,
                                build_cmd.as_str(),
                                script_path,
                                script_cache_path,
                            );
                        },
                    }
                },
                None => {
                    add_local(
                        plan,
                        Ghost(before),
                        cfg,
                        build_cmd.as_str(),
                        script_path,
                        script_cache_path,
                    );
                },
            }
        },
    }
}

fn add_build(
    plan: &mut BuildPlan,
    Ghost(before): Ghost<Seq<AttemptView>>,
    cfg: &BuildSpec,
    script_path: &str,
    script_cache_path: &str,
    first_run: bool,
    build_mode: BuildMode,
    uid: u32,
)
    requires
        old(plan)@ == settle(before),
    ensures
        final(plan)@ == settle(
            before + build_attempts(
                cfg@,
                script_path@,
                script_cache_path@,
                first_run,
                build_mode,
                uid as nat,
            ),
        ),
{
    let ghost once = once_attempts(cfg@, script_cache_path@, first_run, build_mode);
    let ghost compile = compile_attempts(
        cfg@,
        script_path@,
        script_cache_path@,
        build_mode,
        uid as nat,
    );
    add_once(plan, Ghost(before), cfg, script_cache_path, first_run, build_mode);
    add_compile(plan, Ghost(before + once), cfg, script_path, script_cache_path, build_mode, uid);
    proof {
        reveal_strlit("");
        assert(""@ =~= Seq::<char>::empty());
    }
    plan.attempt(write_bytes(script_cache_path, METADATA_FILE, ""), Ghost(before + once + compile));
    assert(before + build_attempts(
        cfg@,
        script_path@,
        script_cache_path@,
        first_run,
        build_mode,
        uid as nat,
    ) =~= (before + once + compile).push(
        write_attempt(script_cache_path@, METADATA_FILE@, Seq::empty()),
    ));
}

/// Plans the build of a script for the user `uid`: the one-time command
/// where it is due, the build command on the host or in a container, and
/// the completion marker as the last step.
pub fn plan_build(
    cfg: &BuildSpec,
    script_path: &str,
    script_cache_path: &str,
    first_run: bool,
    build_mode: BuildMode,
    uid: u32,
) -> (plan: BuildPlan)
    ensures
        plan@ == settle(
            build_attempts(
                cfg@,
                script_path@,
                script_cache_path@,
                first_run,
                build_mode,
                uid as nat,
            ),
        ),
{
    let mut plan = BuildPlan::new();
    let ghost nothing = Seq::<AttemptView>::empty();
    add_build(
        &mut plan,
        Ghost(nothing),
        cfg,
        script_path,
        script_cache_path,
        first_run,
        build_mode,
        uid,
    );
    assert(nothing + build_attempts(
        cfg@,
        script_path@,
        script_cache_path@,
        first_run,
        build_mode,
        uid as nat,
    ) =~= build_attempts(cfg@, script_path@, script_cache_path@, first_run, build_mode, uid as nat));
    plan
}

/// Plans the build of a script for the user that runs this process. The
/// plan is that of `plan_build` for some user id.
pub fn run_build_command(
    cfg: &BuildSpec,
    script_path: &str,
    script_cache_path: &str,
    first_run: bool,
    build_mode: BuildMode,
) -> (plan: BuildPlan)
    ensures
        exists|uid: u32|
            plan@ == settle(
                #[trigger] build_attempts(
                    cfg@,
                    script_path@,
                    script_cache_path@,
                    first_run,
                    build_mode,
                    uid as nat,
                ),
            ),
{
    let uid = current_uid();
    plan_build(cfg, script_path, script_cache_path, first_run, build_mode, uid)
}

/// Writing each of the recipe's files into the cache directory, in order.
pub open spec fn file_attempts(files: Seq<FileView>, cache: Seq<char>) -> Seq<AttemptView> {
    Seq::new(files.len(), |i: int| write_attempt(cache, files[i].path, files[i].content))
}

/// Everything a run attempts after the staleness check: nothing if the
/// rebuild is skipped; otherwise the recipe's files, then the build.
pub open spec fn perform_attempts(
    cfg: BuildSpecView,
    script_path: Seq<char>,
    cache: Seq<char>,
    decision: Decision,
    mode: BuildMode,
    uid: nat,
) -> Seq<AttemptView> {
    if decision.skip_rebuild {
        Seq::empty()
    } else {
        file_attempts(cfg.files, cache) + build_attempts(
            cfg,
            script_path,
            cache,
            decision.first_run,
            mode,
            uid,
        )
    }
}

/// Plans what a run does after the staleness check, for the user `uid`.
pub fn plan_rebuild(
    cfg: &BuildSpec,
    script_path: &str,
    script_cache_path: &str,
    decision: Decision,
    build_mode: BuildMode,
    uid: u32,
) -> (plan: BuildPlan)
    ensures
        plan@ == settle(
            perform_attempts(
                cfg@,
                script_path@,
                script_cache_path@,
                decision,
                build_mode,
                uid as nat,
            ),
        ),
{
    let mut plan = BuildPlan::new();
    if decision.skip_rebuild {
        return plan;
    }
    let ghost files = file_attempts(cfg@.files, script_cache_path@);
    let mut i: usize = 0;
    assert(files.take(0) =~= Seq::<AttemptView>::empty());
    while i < cfg.files.len()
        invariant
            i <= cfg.files.len(),
            files == file_attempts(cfg@.files, script_cache_path@),
            plan@ == settle(files.take(i as int)),
        decreases cfg.files.len() - i,
    {
        let file = &cfg.files[i];
        assert(cfg@.files[i as int] == file@);
        let written = write_bytes(script_cache_path, file.path.as_str(), file.content.as_str());
        plan.attempt(written, Ghost(files.take(i as int)));
        assert(files.take(i + 1) =~= files.take(i as int).push(attempt_view(written)));
        i += 1;
    }
    assert(files.take(i as int) =~= files);
    add_build(
        &mut plan,
        Ghost(files),
        cfg,
        script_path,
        script_cache_path,
        decision.first_run,
        build_mode,
        uid,
    );
    plan
}

/// One run over a snapshot of the file system: the staleness check, and the
/// plan of what to do after it for the user that runs this process.
///
/// `marker` and `script_modified` are the modification times of the
/// completion marker and of the script; `stamps` are those of the files
/// under the recipe's extra source paths, in the order in which a scan
/// meets them.
pub fn perform(
    build_mode: BuildMode,
    cfg: &BuildSpec,
    script_path: &str,
    script_cache_path: &str,
    marker: Option<Timestamp>,
    script_modified: Option<Timestamp>,
    stamps: &Vec<Option<Timestamp>>,
) -> (r: Result<(Decision, BuildPlan), TooManyFiles>)
    ensures
        match detect_spec(marker, script_modified, stamps@, build_mode) {
            Ok(decision) => r matches Ok(done) && done.0 == decision && exists|uid: u32|
                done.1@ == settle(
                    #[trigger] perform_attempts(
                        cfg@,
                        script_path@,
                        script_cache_path@,
                        decision,
                        build_mode,
                        uid as nat,
                    ),
                ),
            Err(_) => r is Err,
        },
{
    let decision = match detect(marker, script_modified, stamps, build_mode) {
        Ok(decision) => decision,
        Err(e) => {
            return Err(e);
        },
    };
    let uid = current_uid();
    let plan = plan_rebuild(cfg, script_path, script_cache_path, decision, build_mode, uid);
    Ok((decision, plan))
}

/// Where there is a build command, exactly one of the two ways to build is
/// taken, and the Dockerfile alone decides which: with one the build runs in
/// a container, without one on the host.
pub proof fn lemma_dockerfile_selects_the_build(
    cfg: BuildSpecView,
    script_path: Seq<char>,
    cache: Seq<char>,
    mode: BuildMode,
    uid: nat,
)
    requires
        cfg.build_cmd is Some,
    ensures
        cfg.containerized() ==> compile_attempts(cfg, script_path, cache, mode, uid)
            == docker_attempts(
            cfg,
            cfg.docker_build->0,
            cfg.dockerfile()->0,
            cfg.build_cmd->0,
            script_path,
            cache,
            mode,
            uid,
        ),
        !cfg.containerized() ==> compile_attempts(cfg, script_path, cache, mode, uid)
            == local_attempts(cfg, cfg.build_cmd->0, script_path, cache),
{
}

/// None of the attempts that succeed writes a file outside `dir`.
pub open spec fn all_inside(dir: Seq<char>, attempts: Seq<AttemptView>) -> bool {
    forall|k: int|
        0 <= k < attempts.len() ==> ((#[trigger] attempts[k]) matches Ok(step) ==> writes_inside(
            dir,
            step,
        ))
}

/// Attempts that write inside a directory, put one after the other, write
/// inside it.
pub proof fn lemma_all_inside_concat(dir: Seq<char>, a: Seq<AttemptView>, b: Seq<AttemptView>)
    requires
        all_inside(dir, a),
        all_inside(dir, b),
    ensures
        all_inside(dir, a + b),
{
    assert forall|k: int| 0 <= k < (a + b).len() implies ((#[trigger] (a + b)[k]) matches Ok(
        step,
    ) ==> writes_inside(dir, step)) by {
        if k < a.len() {
            assert((a + b)[k] == a[k]);
        } else {
            assert((a + b)[k] == b[k - a.len()]);
        }
    }
}

/// A run writes no file outside the cache directory: every file that the
/// plan writes, whether it is one of the recipe's files, the Dockerfile or
/// the completion marker, stands under the cache directory, and a recipe
/// file whose path is absolute or holds a component `..` ends the plan with
/// an error before it is written.
pub proof fn lemma_plan_stays_in_cache(
    cfg: BuildSpecView,
    script_path: Seq<char>,
    cache: Seq<char>,
    decision: Decision,
    mode: BuildMode,
    uid: nat,
)
    ensures
        all_inside(cache, perform_attempts(cfg, script_path, cache, decision, mode, uid)),
        forall|i: int|
            0 <= i < settle(
                perform_attempts(cfg, script_path, cache, decision, mode, uid),
            ).steps.len() ==> writes_inside(
                cache,
                #[trigger] settle(
                    perform_attempts(cfg, script_path, cache, decision, mode, uid),
                ).steps[i],
            ),
{
    let attempts = perform_attempts(cfg, script_path, cache, decision, mode, uid);
    if !decision.skip_rebuild {
        let files = file_attempts(cfg.files, cache);
        let once = once_attempts(cfg, cache, decision.first_run, mode);
        let compile = compile_attempts(cfg, script_path, cache, mode, uid);
        let marker = seq![write_attempt(cache, METADATA_FILE@, Seq::empty())];
        assert forall|k: int| 0 <= k < files.len() implies ((#[trigger] files[k]) matches Ok(
            step,
        ) ==> writes_inside(cache, step)) by {
            lemma_write_stays_inside(cache, cfg.files[k].path, cfg.files[k].content);
        }
        lemma_write_stays_inside(cache, METADATA_FILE@, Seq::empty());
        assert(all_inside(cache, marker));
        assert(all_inside(cache, once));
        assert(all_inside(cache, compile)) by {
            if cfg.build_cmd is Some && cfg.containerized() {
                lemma_write_stays_inside(cache, DOCKERFILE_NAME@, cfg.dockerfile()->0);
            }
        }
        lemma_all_inside_concat(cache, once, compile);
        lemma_all_inside_concat(cache, once + compile, marker);
        lemma_all_inside_concat(cache, files, once + compile + marker);
        assert(attempts == files + (once + compile + marker));
    }
    lemma_first_failure(attempts);
    let plan = settle(attempts);
    assert forall|i: int| 0 <= i < plan.steps.len() implies writes_inside(
        cache,
        #[trigger] plan.steps[i],
    ) by {
        assert(attempts[i] is Ok);
        assert(plan.steps[i] == attempts[i]->Ok_0);
    }
}

/// A skipped rebuild does nothing at all.
pub proof fn lemma_skip_does_nothing(
    cfg: BuildSpecView,
    script_path: Seq<char>,
    cache: Seq<char>,
    decision: Decision,
    mode: BuildMode,
    uid: nat,
)
    requires
        decision.skip_rebuild,
    ensures
        settle(perform_attempts(cfg, script_path, cache, decision, mode, uid)) == (BuildPlanView {
            steps: Seq::empty(),
            failure: None,
        }),
{
    assert(settle(Seq::empty()).steps =~= Seq::<BuildStepView>::empty());
}

/// Where a recipe has a one-time command, a build begins with it on the
/// first run and in the full mode, whether or not it is the first run; in
/// every other case the build does not hold it.
pub proof fn lemma_once_command(
    cfg: BuildSpecView,
    script_path: Seq<char>,
    cache: Seq<char>,
    first_run: bool,
    mode: BuildMode,
    uid: nat,
)
    requires
        cfg.build_once_cmd is Some,
    ensures
        first_run || mode is Full ==> settle(
            build_attempts(cfg, script_path, cache, first_run, mode, uid),
        ).steps.len() > 0 && settle(
            build_attempts(cfg, script_path, cache, first_run, mode, uid),
        ).steps[0] == BuildStepView::Run(
            shell_command(cfg.build_once_cmd->0, Seq::empty(), cache),
        ),
        !first_run && !(mode is Full) ==> build_attempts(
            cfg,
            script_path,
            cache,
            first_run,
            mode,
            uid,
        ) == compile_attempts(cfg, script_path, cache, mode, uid) + seq![
            write_attempt(cache, METADATA_FILE@, Seq::empty()),
        ],
{
    let attempts = build_attempts(cfg, script_path, cache, first_run, mode, uid);
    if first_run || mode is Full {
        assert(attempts[0] is Ok);
        lemma_first_failure(attempts);
        assert(first_failure(attempts) > 0) by {
            if first_failure(attempts) == 0 {
                assert(attempts[first_failure(attempts)] is Err);
            }
        }
    } else {
        assert(once_attempts(cfg, cache, first_run, mode) =~= Seq::<AttemptView>::empty());
        assert(attempts =~= compile_attempts(cfg, script_path, cache, mode, uid) + seq![
            write_attempt(cache, METADATA_FILE@, Seq::empty()),
        ]);
    }
}

/// A plan never holds a step that comes after a failed attempt, and its
/// last step, where nothing failed, is the last attempt: a build that fails
/// on the way does not write the completion marker.
pub proof fn lemma_marker_comes_last(
    cfg: BuildSpecView,
    script_path: Seq<char>,
    cache: Seq<char>,
    first_run: bool,
    mode: BuildMode,
    uid: nat,
)
    ensures
        ({
            let attempts = build_attempts(cfg, script_path, cache, first_run, mode, uid);
            let plan = settle(attempts);
            &&& attempts.len() > 0
            &&& attempts.last() == write_attempt(cache, METADATA_FILE@, Seq::empty())
            &&& plan.steps.len() <= attempts.len()
            &&& forall|i: int|
                0 <= i < plan.steps.len() ==> attempts[i] == Ok::<BuildStepView, BuildError>(
                    plan.steps[i],
                )
            &&& plan.failure is None <==> plan.steps.len() == attempts.len()
        }),
{
    let attempts = build_attempts(cfg, script_path, cache, first_run, mode, uid);
    lemma_first_failure(attempts);
}

} // verus!
