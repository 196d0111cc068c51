//! The build recipe that a script carries, and how it is read out of the
//! script's text.

use vstd::prelude::*;
use vstd::utf8::{decode_utf8, valid_utf8};
use crate::text::{
    chars_of, char_views, copy_range, find, first_occurrence, has_prefix, join, join_lines,
    join_strings, opt_view, str_from_utf8, string_of, views,
};

verus! {

/// A file to be written into the cache directory before the build.
#[derive(Debug, PartialEq, Eq)]
pub struct File {
    /// Where to write it, relative to the cache directory.
    pub path: String,
    /// What to write.
    pub content: String,
}

/// The mathematical value of a [`File`].
pub struct FileView {
    pub path: Seq<char>,
    pub content: Seq<char>,
}

impl View for File {
    type V = FileView;

    open spec fn view(&self) -> FileView {
        FileView { path: self.path@, content: self.content@ }
    }
}

/// The views of a sequence of files, element by element.
pub open spec fn file_views(files: Seq<File>) -> Seq<FileView> {
    Seq::new(files.len(), |i: int| files[i]@)
}

/// How to build inside a container.
#[derive(Debug, PartialEq, Eq)]
pub struct DockerBuild {
    /// The text of the Dockerfile. Only with one is the build containerized.
    pub dockerfile: Option<String>,
    /// Where the sources are mounted inside the container.
    pub src_mount_dir: Option<String>,
    /// Further arguments for `docker run`, passed on as they are.
    pub extra_args: Vec<String>,
}

/// The mathematical value of a [`DockerBuild`].
pub struct DockerBuildView {
    pub dockerfile: Option<Seq<char>>,
    pub src_mount_dir: Option<Seq<char>>,
    pub extra_args: Seq<Seq<char>>,
}

impl View for DockerBuild {
    type V = DockerBuildView;

    open spec fn view(&self) -> DockerBuildView {
        DockerBuildView {
            dockerfile: opt_view(self.dockerfile),
            src_mount_dir: opt_view(self.src_mount_dir),
            extra_args: views(self.extra_args@),
        }
    }
}

/// The view of an optional container recipe.
pub open spec fn docker_view(docker: Option<DockerBuild>) -> Option<DockerBuildView> {
    match docker {
        Some(d) => Some(d@),
        None => None,
    }
}

/// The build recipe of one script.
#[derive(Debug, PartialEq, Eq)]
pub struct BuildSpec {
    /// Where, inside the cache directory, the script's own text is written.
    pub script_src: String,
    /// The shell command that compiles the script, if it needs compiling.
    pub build_cmd: Option<String>,
    /// A shell command that runs only on the first build and on full rebuilds.
    pub build_once_cmd: Option<String>,
    /// The executable that the build produces, relative to the cache directory.
    pub target_bin: String,
    /// An interpreter to run the target with, instead of running it directly.
    pub target_interpreter: Option<String>,
    /// What replaces the first line of the script in the written copy.
    pub replace_shebang_with: String,
    /// The files to write before the build; the script's own text comes last.
    pub files: Vec<File>,
    /// The container recipe, if the build is containerized.
    pub docker_build: Option<DockerBuild>,
    /// Further files and directories whose changes make the build stale.
    pub extra_src_paths: Vec<String>,
    /// Whether the build command runs in the script's directory rather than
    /// in the cache directory.
    pub build_in_script_dir: bool,
}

/// The mathematical value of a [`BuildSpec`].
pub struct BuildSpecView {
    pub script_src: Seq<char>,
    pub build_cmd: Option<Seq<char>>,
    pub build_once_cmd: Option<Seq<char>>,
    pub target_bin: Seq<char>,
    pub target_interpreter: Option<Seq<char>>,
    pub replace_shebang_with: Seq<char>,
    pub files: Seq<FileView>,
    pub docker_build: Option<DockerBuildView>,
    pub extra_src_paths: Seq<Seq<char>>,
    pub build_in_script_dir: bool,
}

impl View for BuildSpec {
    type V = BuildSpecView;

    open spec fn view(&self) -> BuildSpecView {
        BuildSpecView {
            script_src: self.script_src@,
            build_cmd: opt_view(self.build_cmd),
            build_once_cmd: opt_view(self.build_once_cmd),
            target_bin: self.target_bin@,
            target_interpreter: opt_view(self.target_interpreter),
            replace_shebang_with: self.replace_shebang_with@,
            files: file_views(self.files@),
            docker_build: docker_view(self.docker_build),
            extra_src_paths: views(self.extra_src_paths@),
            build_in_script_dir: self.build_in_script_dir,
        }
    }
}

impl BuildSpecView {
    /// The Dockerfile text, if the recipe asks for a containerized build.
    pub open spec fn dockerfile(self) -> Option<Seq<char>> {
        match self.docker_build {
            Some(d) => d.dockerfile,
            None => None,
        }
    }

    /// Whether the build runs in a container; otherwise it runs on the host.
    pub open spec fn containerized(self) -> bool {
        self.dockerfile() is Some
    }
}

impl BuildSpec {
    /// Whether the build runs in a container rather than on the host. This is
    /// decided by the presence of a Dockerfile alone.
    pub fn containerized(&self) -> (r: bool)
        ensures
            r == self@.containerized(),
    {
        match &self.docker_build {
            Some(d) => d.dockerfile.is_some(),
            None => false,
        }
    }
}

/// The token that opens the recipe block, anywhere in a line.
pub const BEGIN_MARKER: &'static str = "scriptisto-begin";

/// The token that closes the recipe block, at the start of a line once the
/// comment prefix is taken off.
pub const END_MARKER: &'static str = "scriptisto-end";

/// The lines of `body` from a scan that stands at `pos` with the current
/// line beginning at `start`. A line ends at a line feed; a carriage return
/// just before the line feed is dropped with it. What follows the last line
/// feed is a line too, unless it is empty.
pub open spec fn lines_from(body: Seq<u8>, start: int, pos: int) -> Seq<Seq<u8>>
    decreases body.len() - pos,
{
    if pos < 0 || pos >= body.len() {
        if 0 <= start < body.len() {
            seq![body.subrange(start, body.len() as int)]
        } else {
            Seq::empty()
        }
    } else if body[pos] == 10u8 {
        seq![without_cr(body.subrange(start, pos))] + lines_from(body, pos + 1, pos + 1)
    } else {
        lines_from(body, start, pos + 1)
    }
}

/// The line without a carriage return at its end.
pub open spec fn without_cr(line: Seq<u8>) -> Seq<u8> {
    if line.len() > 0 && line.last() == 13u8 {
        line.drop_last()
    } else {
        line
    }
}

/// The lines of a script, as bytes.
pub open spec fn split_lines(body: Seq<u8>) -> Seq<Seq<u8>> {
    lines_from(body, 0, 0)
}

/// The views of a sequence of byte vectors, element by element.
pub open spec fn byte_views(lines: Seq<Vec<u8>>) -> Seq<Seq<u8>> {
    Seq::new(lines.len(), |i: int| lines[i]@)
}

/// The lines decoded from UTF-8, one by one.
pub open spec fn decoded(lines: Seq<Seq<u8>>) -> Seq<Seq<char>> {
    Seq::new(lines.len(), |i: int| decode_utf8(lines[i]))
}

/// Where the reader of a script stands: in the script proper, or inside the
/// recipe block.
#[derive(Debug, Clone, Copy, PartialEq, Eq)]
pub enum ParserState {
    /// Outside the recipe block.
    ScriptSource,
    /// Inside the recipe block, whose lines all begin with a comment prefix
    /// of `prefix_len` characters.
    ConfigSource { prefix_len: usize },
}

/// The mathematical value of a [`ParserState`].
pub enum ParserStateView {
    ScriptSource,
    ConfigSource { prefix_len: nat },
}

impl View for ParserState {
    type V = ParserStateView;

    open spec fn view(&self) -> ParserStateView {
        match *self {
            ParserState::ScriptSource => ParserStateView::ScriptSource,
            ParserState::ConfigSource { prefix_len } => ParserStateView::ConfigSource {
                prefix_len: prefix_len as nat,
            },
        }
    }
}

/// The line without its first `prefix_len` characters, or without all of
/// them if it has fewer.
pub open spec fn strip_prefix(line: Seq<char>, prefix_len: nat) -> Seq<char> {
    if prefix_len <= line.len() {
        line.skip(prefix_len as int)
    } else {
        Seq::empty()
    }
}

impl ParserStateView {
    /// The state after one more line, and the recipe line that the line
    /// gives, if it gives one.
    ///
    /// Outside the block, a line that holds the opening token enters the
    /// block; the token's offset is the width of the comment prefix. Inside
    /// it, a line that begins with the closing token after the prefix is
    /// taken off leaves the block; every other line, prefix taken off, is a
    /// line of the recipe.
    pub open spec fn advance(self, line: Seq<char>) -> (ParserStateView, Option<Seq<char>>) {
        match self {
            ParserStateView::ScriptSource => match first_occurrence(line, BEGIN_MARKER@) {
                Some(pos) => (ParserStateView::ConfigSource { prefix_len: pos as nat }, None),
                None => (ParserStateView::ScriptSource, None),
            },
            ParserStateView::ConfigSource { prefix_len } => {
                let stripped = strip_prefix(line, prefix_len);
                if END_MARKER@.is_prefix_of(stripped) {
                    (ParserStateView::ScriptSource, None)
                } else {
                    (self, Some(stripped))
                }
            },
        }
    }
}

/// The state after all the lines, read from the start of a script, and the
/// recipe lines that they give.
pub open spec fn parse_lines(lines: Seq<Seq<char>>) -> (ParserStateView, Seq<Seq<char>>)
    decreases lines.len(),
{
    if lines.len() == 0 {
        (ParserStateView::ScriptSource, Seq::empty())
    } else {
        let (state, config) = parse_lines(lines.drop_last());
        let (next, found) = state.advance(lines.last());
        (
            next,
            match found {
                Some(line) => config.push(line),
                None => config,
            },
        )
    }
}

/// The recipe text that the lines of a script hold.
pub open spec fn config_text(lines: Seq<Seq<char>>) -> Seq<char> {
    join_lines(parse_lines(lines).1)
}

/// A script split into what its recipe says and what its own text is.
#[derive(Debug, PartialEq, Eq)]
pub struct ScriptParts {
    /// The recipe block, comment prefix taken off, as one text.
    pub cfg_src: String,
    /// All lines of the script, those of the recipe block included.
    pub script_lines: Vec<String>,
}

/// A line of the script is not UTF-8.
#[derive(Debug, Clone, Copy, PartialEq, Eq)]
pub struct InvalidLine {
    /// The number of the line, counted from zero.
    pub line: usize,
}

fn copy_line(body: &[u8], start: usize, end: usize, strip_cr: bool) -> (line: Vec<u8>)
    requires
        start <= end <= body.len(),
    ensures
        line@ == (if strip_cr {
            without_cr(body@.subrange(start as int, end as int))
        } else {
            body@.subrange(start as int, end as int)
        }),
{
    let ghost whole = body@.subrange(start as int, end as int);
    if strip_cr && start < end && body[end - 1] == 13u8 {
        assert(whole.last() == body@[end - 1]);
        assert(whole.drop_last() =~= body@.subrange(start as int, end - 1));
        copy_range(body, start, end - 1)
    } else {
        proof {
            if start < end {
                assert(whole.last() == body@[end - 1]);
            }
        }
        copy_range(body, start, end)
    }
}

/// Splits a script into its lines.
pub fn lines_of(body: &[u8]) -> (lines: Vec<Vec<u8>>)
    ensures
        byte_views(lines@) == split_lines(body@),
{
    let mut lines: Vec<Vec<u8>> = Vec::new();
    let mut start: usize = 0;
    let mut pos: usize = 0;
    assert(byte_views(lines@) =~= Seq::<Seq<u8>>::empty());
    while pos < body.len()
        invariant
            start <= pos <= body.len(),
            split_lines(body@) == byte_views(lines@) + lines_from(body@, start as int, pos as int),
        decreases body.len() - pos,
    {
        if body[pos] == 10u8 {
            let ghost before = byte_views(lines@);
            let line = copy_line(body, start, pos, true);
            lines.push(line);
            assert(byte_views(lines@) =~= before.push(line@));
            assert(before + (seq![line@] + lines_from(body@, pos + 1, pos + 1)) =~= before.push(
                line@,
            ) + lines_from(body@, pos + 1, pos + 1));
            start = pos + 1;
        }
        pos += 1;
    }
    if start < body.len() {
        let ghost before = byte_views(lines@);
        let line = copy_line(body, start, body.len(), false);
        lines.push(line);
        assert(byte_views(lines@) =~= before.push(line@));
        assert(before + seq![line@] =~= before.push(line@));
    } else {
        assert(byte_views(lines@) + Seq::<Seq<u8>>::empty() =~= byte_views(lines@));
    }
    lines
}

impl ParserState {
    /// Reads one more line.
    pub fn advance(self, line: &str) -> (r: (ParserState, Option<String>))
        ensures
            (r.0@, opt_view(r.1)) == self@.advance(line@),
    {
        let chars = chars_of(line);
        let begin = chars_of(BEGIN_MARKER);
        let end = chars_of(END_MARKER);
        let (next, found) = self.advance_chars(&chars, &begin, &end);
        match found {
            Some(stripped) => (next, Some(string_of(stripped.as_slice()))),
            None => (next, None),
        }
    }

    fn advance_chars(self, line: &Vec<char>, begin: &Vec<char>, end: &Vec<char>) -> (r: (
        ParserState,
        Option<Vec<char>>,
    ))
        requires
            begin@ == BEGIN_MARKER@,
            end@ == END_MARKER@,
        ensures
            r.0@ == self@.advance(line@).0,
            match r.1 {
                Some(stripped) => self@.advance(line@).1 == Some(stripped@),
                None => self@.advance(line@).1 is None,
            },
    {
        match self {
            ParserState::ScriptSource => {
                match find(line.as_slice(), begin.as_slice()) {
                    Some(pos) => (ParserState::ConfigSource { prefix_len: pos }, None),
                    None => (ParserState::ScriptSource, None),
                }
            },
            ParserState::ConfigSource { prefix_len } => {
                let stripped = if prefix_len <= line.len() {
                    let rest = copy_range(line.as_slice(), prefix_len, line.len());
                    assert(rest@ =~= line@.skip(prefix_len as int));
                    rest
                } else {
                    Vec::new()
                };
                assert(stripped@ =~= strip_prefix(line@, prefix_len as nat));
                if has_prefix(stripped.as_slice(), end.as_slice()) {
                    (ParserState::ScriptSource, None)
                } else {
                    (self, Some(stripped))
                }
            },
        }
    }
}

/// Reads a script: splits it into lines, and collects the lines of the
/// recipe block with their comment prefix taken off.
///
/// Fails on the first line that is not UTF-8. Otherwise the script's lines
/// come back decoded, and the recipe text is what the reader finds in them.
pub fn extract(script_body: &[u8]) -> (r: Result<ScriptParts, InvalidLine>)
    ensures
        match r {
            Ok(parts) => {
                &&& forall|i: int|
                    0 <= i < split_lines(script_body@).len() ==> valid_utf8(
                        #[trigger] split_lines(script_body@)[i],
                    )
                &&& views(parts.script_lines@) == decoded(split_lines(script_body@))
                &&& parts.cfg_src@ == config_text(decoded(split_lines(script_body@)))
            },
            Err(e) => {
                &&& e.line < split_lines(script_body@).len()
                &&& !valid_utf8(split_lines(script_body@)[e.line as int])
                &&& forall|i: int| 0 <= i < e.line ==> valid_utf8(#[trigger] split_lines(script_body@)[i])
            },
        },
{
    let lines = lines_of(script_body);
    let ghost all = decoded(split_lines(script_body@));
    let mut script_lines: Vec<String> = Vec::new();
    let mut config: Vec<Vec<char>> = Vec::new();
    let mut state = ParserState::ScriptSource;
    let begin = chars_of(BEGIN_MARKER);
    let end = chars_of(END_MARKER);
    let mut i: usize = 0;
    assert(all.take(0) =~= Seq::<Seq<char>>::empty());
    assert(views(script_lines@) =~= all.take(0));
    assert(char_views(config@) =~= Seq::<Seq<char>>::empty());
    while i < lines.len()
        invariant
            i <= lines.len(),
            begin@ == BEGIN_MARKER@,
            end@ == END_MARKER@,
            byte_views(lines@) == split_lines(script_body@),
            all == decoded(split_lines(script_body@)),
            forall|j: int| 0 <= j < i ==> valid_utf8(#[trigger] split_lines(script_body@)[j]),
            views(script_lines@) == all.take(i as int),
            (state@, char_views(config@)) == parse_lines(all.take(i as int)),
        decreases lines.len() - i,
    {
        assert(lines[i as int]@ == byte_views(lines@)[i as int]);
        let text = match str_from_utf8(lines[i].as_slice()) {
            Some(text) => text,
            None => {
                return Err(InvalidLine { line: i });
            },
        };
        let chars = chars_of(text);
        let ghost before_lines = views(script_lines@);
        let ghost before_config = char_views(config@);
        script_lines.push(String::from_str(text));
        let (next, found) = state.advance_chars(&chars, &begin, &end);
        match found {
            Some(stripped) => {
                config.push(stripped);
                assert(char_views(config@) =~= before_config.push(stripped@));
            },
            None => {},
        }
        state = next;
        proof {
            assert(all[i as int] == text@);
            assert(views(script_lines@) =~= before_lines.push(text@));
            assert(all.take(i + 1) =~= all.take(i as int).push(text@));
            assert(all.take(i + 1).drop_last() =~= all.take(i as int));
        }
        i += 1;
    }
    assert(all.take(i as int) =~= all);
    let joined = join(&config);
    Ok(ScriptParts { cfg_src: string_of(joined.as_slice()), script_lines })
}

/// A recipe as it was decoded from the recipe text, before the rules on
/// required fields and defaults are applied: what the text leaves out is
/// `None`, or empty, or `false`.
#[derive(Debug, PartialEq, Eq)]
pub struct RawBuildSpec {
    pub script_src: Option<String>,
    pub build_cmd: Option<String>,
    pub build_once_cmd: Option<String>,
    pub target_bin: Option<String>,
    pub target_interpreter: Option<String>,
    pub replace_shebang_with: Option<String>,
    pub files: Vec<File>,
    pub docker_build: Option<DockerBuild>,
    pub extra_src_paths: Vec<String>,
    pub build_in_script_dir: bool,
}

/// The mathematical value of a [`RawBuildSpec`].
pub struct RawBuildSpecView {
    pub script_src: Option<Seq<char>>,
    pub build_cmd: Option<Seq<char>>,
    pub build_once_cmd: Option<Seq<char>>,
    pub target_bin: Option<Seq<char>>,
    pub target_interpreter: Option<Seq<char>>,
    pub replace_shebang_with: Option<Seq<char>>,
    pub files: Seq<FileView>,
    pub docker_build: Option<DockerBuildView>,
    pub extra_src_paths: Seq<Seq<char>>,
    pub build_in_script_dir: bool,
}

impl View for RawBuildSpec {
    type V = RawBuildSpecView;

    open spec fn view(&self) -> RawBuildSpecView {
        RawBuildSpecView {
            script_src: opt_view(self.script_src),
            build_cmd: opt_view(self.build_cmd),
            build_once_cmd: opt_view(self.build_once_cmd),
            target_bin: opt_view(self.target_bin),
            target_interpreter: opt_view(self.target_interpreter),
            replace_shebang_with: opt_view(self.replace_shebang_with),
            files: file_views(self.files@),
            docker_build: docker_view(self.docker_build),
            extra_src_paths: views(self.extra_src_paths@),
            build_in_script_dir: self.build_in_script_dir,
        }
    }
}

/// Why a decoded recipe is no recipe.
#[derive(Debug, Clone, Copy, PartialEq, Eq)]
pub enum SpecError {
    /// The recipe does not say where the script's text is to be written.
    MissingScriptSrc,
    /// The recipe names the empty path as the place of the script's text.
    EmptyScriptSrc,
}

/// What is wrong with a decoded recipe, if anything is: `script_src` has to
/// be there and must not be empty.
pub open spec fn spec_problem(raw: RawBuildSpecView) -> Option<SpecError> {
    match raw.script_src {
        None => Some(SpecError::MissingScriptSrc),
        Some(script_src) => if script_src.len() == 0 {
            Some(SpecError::EmptyScriptSrc)
        } else {
            None
        },
    }
}

/// The target of a recipe that names none.
pub open spec fn default_target() -> Seq<char> {
    "./script"@
}

/// The script's lines with the first one replaced, if there is a first one.
pub open spec fn with_first_line(lines: Seq<Seq<char>>, first: Seq<char>) -> Seq<Seq<char>> {
    if lines.len() > 0 {
        lines.update(0, first)
    } else {
        lines
    }
}

/// The file that holds the script's own text: its lines, the first one
/// replaced, joined by line feeds.
pub open spec fn script_file(
    script_src: Seq<char>,
    replace_shebang_with: Seq<char>,
    lines: Seq<Seq<char>>,
) -> FileView {
    FileView { path: script_src, content: join_lines(with_first_line(lines, replace_shebang_with)) }
}

/// The recipe that a decoded recipe and the script's lines make, if the
/// decoded recipe says where the script's text goes, and that is not the
/// empty path. The target defaults to `./script` and the replacement of the
/// first line to the empty line; the file with the script's text is added
/// after the recipe's own files.
pub open spec fn build_spec_of(raw: RawBuildSpecView, lines: Seq<Seq<char>>) -> Option<BuildSpecView> {
    match raw.script_src {
        None => None,
        Some(script_src) if script_src.len() == 0 => None,
        Some(script_src) => {
            let replace_shebang_with = match raw.replace_shebang_with {
                Some(line) => line,
                None => Seq::empty(),
            };
            Some(
                BuildSpecView {
                    script_src,
                    build_cmd: raw.build_cmd,
                    build_once_cmd: raw.build_once_cmd,
                    target_bin: match raw.target_bin {
                        Some(target) => target,
                        None => default_target(),
                    },
                    target_interpreter: raw.target_interpreter,
                    replace_shebang_with,
                    files: raw.files.push(script_file(script_src, replace_shebang_with, lines)),
                    docker_build: raw.docker_build,
                    extra_src_paths: raw.extra_src_paths,
                    build_in_script_dir: raw.build_in_script_dir,
                },
            )
        },
    }
}

impl BuildSpecView {
    /// The place of the script's text is not the empty path, and the file
    /// list ends with the file that holds the script's text.
    pub open spec fn well_formed(self) -> bool {
        self.script_src.len() > 0 && self.files.len() > 0 && self.files.last().path
            == self.script_src
    }
}

/// A recipe names a place for the script's text that is not the empty
/// path; it has the decoded recipe's files in their order, and after them
/// exactly one more, the file with the script's text at that place.
pub proof fn lemma_recipe_files(raw: RawBuildSpecView, lines: Seq<Seq<char>>)
    ensures
        build_spec_of(raw, lines) is Some <==> spec_problem(raw) is None,
        build_spec_of(raw, lines) matches Some(spec) ==> {
            &&& spec.well_formed()
            &&& spec.files.len() == raw.files.len() + 1
            &&& spec.files.drop_last() == raw.files
            &&& spec.files.last() == script_file(spec.script_src, spec.replace_shebang_with, lines)
        },
{
    match build_spec_of(raw, lines) {
        Some(spec) => {
            assert(spec.files.drop_last() =~= raw.files);
        },
        None => {},
    }
}

/// The target of a recipe that names none.
pub fn default_target_bin() -> (target: String)
    ensures
        target@ == default_target(),
{
    String::from_str("./script")
}

impl BuildSpec {
    /// Makes the recipe of a script from its decoded recipe text and its
    /// lines.
    ///
    /// Fails if the decoded recipe does not say where the script's text is
    /// to be written, or names the empty path for it.
    pub fn new(raw: RawBuildSpec, script_lines: Vec<String>) -> (r: Result<BuildSpec, SpecError>)
        ensures
            match spec_problem(raw@) {
                Some(e) => r == Err::<BuildSpec, SpecError>(e) && build_spec_of(
                    raw@,
                    views(script_lines@),
                ) is None,
                None => r matches Ok(built) && Some(built@) == build_spec_of(
                    raw@,
                    views(script_lines@),
                ) && built@.well_formed(),
            },
    {
        let RawBuildSpec {
            script_src,
            build_cmd,
            build_once_cmd,
            target_bin,
            target_interpreter,
            replace_shebang_with,
            files,
            docker_build,
            extra_src_paths,
            build_in_script_dir,
        } = raw;
        let script_src = match script_src {
            Some(script_src) => script_src,
            None => {
                return Err(SpecError::MissingScriptSrc);
            },
        };
        if script_src.as_str().unicode_len() == 0 {
            return Err(SpecError::EmptyScriptSrc);
        }
        let replace_shebang_with = match replace_shebang_with {
            Some(line) => line,
            None => String::new(),
        };
        let target_bin = match target_bin {
            Some(target) => target,
            None => default_target_bin(),
        };
        let mut script_lines = script_lines;
        let ghost lines = views(script_lines@);
        if script_lines.len() > 0 {
            script_lines.set(0, replace_shebang_with.clone());
            assert(views(script_lines@) =~= lines.update(0, replace_shebang_with@));
        }
        let content = join_strings(&script_lines);
        let mut files = files;
        let ghost before = file_views(files@);
        let script = File { path: script_src.clone(), content };
        files.push(script);
        assert(file_views(files@) =~= before.push(script@));
        Ok(
            BuildSpec {
                script_src,
                build_cmd,
                build_once_cmd,
                target_bin,
                target_interpreter,
                replace_shebang_with,
                files,
                docker_build,
                extra_src_paths,
                build_in_script_dir,
            },
        )
    }
}

/// Reading one more line after some lines is one step of the reader.
pub proof fn lemma_parse_push(lines: Seq<Seq<char>>, line: Seq<char>)
    ensures
        parse_lines(lines.push(line)) == ({
            let (state, config) = parse_lines(lines);
            let (next, found) = state.advance(line);
            (
                next,
                match found {
                    Some(l) => config.push(l),
                    None => config,
                },
            )
        }),
{
    assert(lines.push(line).drop_last() =~= lines);
}

/// Lines without the opening token, read outside the block, change
/// nothing.
pub proof fn lemma_parse_outside(before: Seq<Seq<char>>, more: Seq<Seq<char>>)
    requires
        parse_lines(before).0 is ScriptSource,
        forall|i: int| 0 <= i < more.len() ==> first_occurrence(#[trigger] more[i], BEGIN_MARKER@) is None,
    ensures
        parse_lines(before + more) == parse_lines(before),
    decreases more.len(),
{
    if more.len() == 0 {
        assert(before + more =~= before);
    } else {
        lemma_parse_outside(before, more.drop_last());
        assert(before + more =~= (before + more.drop_last()).push(more.last()));
        lemma_parse_push(before + more.drop_last(), more.last());
    }
}

/// Lines read inside the block, none of which closes it, are all taken
/// into the recipe with their prefix off.
pub proof fn lemma_parse_inside(
    before: Seq<Seq<char>>,
    more: Seq<Seq<char>>,
    config: Seq<Seq<char>>,
    prefix_len: nat,
)
    requires
        parse_lines(before).0 == (ParserStateView::ConfigSource { prefix_len }),
        more.len() == config.len(),
        forall|i: int|
            0 <= i < more.len() ==> strip_prefix(#[trigger] more[i], prefix_len) == config[i]
                && !END_MARKER@.is_prefix_of(config[i]),
    ensures
        parse_lines(before + more) == (
            ParserStateView::ConfigSource { prefix_len },
            parse_lines(before).1 + config,
        ),
    decreases more.len(),
{
    if more.len() == 0 {
        assert(before + more =~= before);
        assert(parse_lines(before).1 + config =~= parse_lines(before).1);
    } else {
        lemma_parse_inside(before, more.drop_last(), config.drop_last(), prefix_len);
        assert(before + more =~= (before + more.drop_last()).push(more.last()));
        lemma_parse_push(before + more.drop_last(), more.last());
        assert(strip_prefix(more[more.len() - 1], prefix_len) == config[more.len() - 1]);
        assert(parse_lines(before).1 + config =~= (parse_lines(before).1 + config.drop_last()).push(
            config.last(),
        ));
    }
}

/// A recipe written into a script comes back out of it. Take a script
/// whose lines are: lines without the opening token; a line where the
/// opening token stands after a prefix of some width; the lines of a recipe,
/// each behind some prefix of that width, none of them beginning with the
/// closing token; a line that begins with the closing token once the
/// prefix is off; and again lines without the opening token. What the
/// reader finds in it is the recipe, line by line.
pub proof fn lemma_recipe_round_trip(
    head: Seq<Seq<char>>,
    opening: Seq<char>,
    written: Seq<Seq<char>>,
    closing: Seq<char>,
    tail: Seq<Seq<char>>,
    prefix_len: nat,
    config: Seq<Seq<char>>,
)
    requires
        forall|i: int| 0 <= i < head.len() ==> first_occurrence(#[trigger] head[i], BEGIN_MARKER@) is None,
        first_occurrence(opening, BEGIN_MARKER@) == Some(prefix_len as int),
        written.len() == config.len(),
        forall|i: int|
            0 <= i < written.len() ==> strip_prefix(#[trigger] written[i], prefix_len) == config[i]
                && !END_MARKER@.is_prefix_of(config[i]),
        END_MARKER@.is_prefix_of(strip_prefix(closing, prefix_len)),
        forall|i: int| 0 <= i < tail.len() ==> first_occurrence(#[trigger] tail[i], BEGIN_MARKER@) is None,
    ensures
        parse_lines(head + seq![opening] + written + seq![closing] + tail) == (
            ParserStateView::ScriptSource,
            config,
        ),
        config_text(head + seq![opening] + written + seq![closing] + tail) == join_lines(config),
{
    let none = Seq::<Seq<char>>::empty();
    lemma_parse_outside(none, head);
    assert(none + head =~= head);
    lemma_parse_push(head, opening);
    let opened = head.push(opening);
    assert(opened =~= head + seq![opening]);
    lemma_parse_inside(opened, written, config, prefix_len);
    assert(parse_lines(opened).1 + config =~= config);
    let inside = opened + written;
    lemma_parse_push(inside, closing);
    let closed = inside.push(closing);
    assert(closed =~= head + seq![opening] + written + seq![closing]);
    lemma_parse_outside(closed, tail);
}

/// The lines written out one after the other, each with a line feed after
/// it.
pub open spec fn with_line_feeds(lines: Seq<Seq<u8>>) -> Seq<u8>
    decreases lines.len(),
{
    if lines.len() == 0 {
        Seq::empty()
    } else {
        lines[0] + seq![10u8] + with_line_feeds(lines.drop_first())
    }
}

/// A scan inside a line runs to the line feed that ends the line.
pub proof fn lemma_line_ends(body: Seq<u8>, start: int, pos: int, end: int)
    requires
        0 <= start <= pos <= end < body.len(),
        body[end] == 10u8,
        forall|k: int| pos <= k < end ==> body[k] != 10u8,
    ensures
        lines_from(body, start, pos) == seq![without_cr(body.subrange(start, end))] + lines_from(
            body,
            end + 1,
            end + 1,
        ),
    decreases end - pos,
{
    if pos < end {
        lemma_line_ends(body, start, pos + 1, end);
    }
}

/// What stands before the line where a scan begins does not matter to it.
pub proof fn lemma_lines_shift(before: Seq<u8>, body: Seq<u8>, start: int, pos: int)
    requires
        0 <= start <= pos <= body.len(),
    ensures
        lines_from(before + body, before.len() + start, before.len() + pos) == lines_from(
            body,
            start,
            pos,
        ),
    decreases body.len() - pos,
{
    let whole = before + body;
    let n = before.len() as int;
    if pos >= body.len() {
        if start < body.len() {
            assert(whole.subrange(n + start, whole.len() as int) =~= body.subrange(
                start,
                body.len() as int,
            ));
        }
    } else {
        assert(whole[n + pos] == body[pos]);
        if body[pos] == 10u8 {
            assert(whole.subrange(n + start, n + pos) =~= body.subrange(start, pos));
            lemma_lines_shift(before, body, pos + 1, pos + 1);
        } else {
            lemma_lines_shift(before, body, start, pos + 1);
        }
    }
}

/// Splitting undoes writing out: lines that hold no line feed and do not
/// end in a carriage return, written out with a line feed after each, are
/// the lines that the text is split into.
pub proof fn lemma_split_written_lines(lines: Seq<Seq<u8>>)
    requires
        forall|i: int, k: int|
            0 <= i < lines.len() && 0 <= k < lines[i].len() ==> #[trigger] lines[i][k] != 10u8,
        forall|i: int|
            0 <= i < lines.len() ==> (#[trigger] lines[i]).len() == 0 || lines[i].last() != 13u8,
    ensures
        split_lines(with_line_feeds(lines)) == lines,
    decreases lines.len(),
{
    if lines.len() == 0 {
        assert(split_lines(with_line_feeds(lines)) =~= lines);
    } else {
        let first = lines[0];
        let rest = lines.drop_first();
        let head = first + seq![10u8];
        let body = with_line_feeds(lines);
        let end = first.len() as int;
        assert(body =~= head + with_line_feeds(rest));
        assert forall|i: int, k: int|
            0 <= i < rest.len() && 0 <= k < rest[i].len() implies #[trigger] rest[i][k]
            != 10u8 by {
            assert(rest[i] == lines[i + 1]);
            assert(lines[i + 1][k] != 10u8);
        }
        assert forall|i: int| 0 <= i < rest.len() implies (#[trigger] rest[i]).len() == 0
            || rest[i].last() != 13u8 by {
            assert(rest[i] == lines[i + 1]);
        }
        lemma_split_written_lines(rest);
        assert(body[end] == 10u8);
        assert forall|k: int| 0 <= k < end implies body[k] != 10u8 by {
            assert(body[k] == lines[0][k]);
        }
        lemma_line_ends(body, 0, 0, end);
        assert(body.subrange(0, end) =~= first);
        lemma_lines_shift(head, with_line_feeds(rest), 0, 0);
        assert(lines =~= seq![first] + rest);
    }
}

} // verus!
