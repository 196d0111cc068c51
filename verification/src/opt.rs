//! The commands and modes a caller can ask for.

use vstd::prelude::*;
use crate::text::{opt_view, str_eq, views};

verus! {

/// How much of an earlier build may be reused.
#[derive(Debug, Clone, Copy, PartialEq, Eq)]
pub enum BuildMode {
    /// Rebuild only when an input is newer than the last build.
    Default,
    /// Always rebuild from the sources.
    Source,
    /// Always rebuild, run the one-time command again, and let the container
    /// engine reuse nothing.
    Full,
}

/// A build mode was written in a way that names none of the modes.
#[derive(Debug, Clone, Copy, PartialEq, Eq)]
pub struct BuildModeError;

impl BuildModeError {
    /// The message for the user.
    pub fn message(&self) -> (s: String)
        ensures
            s@ == "Incorrect build mode value. Available values: <unset>, source, full."@,
    {
        "Incorrect build mode value. Available values: <unset>, source, full.".to_owned()
    }
}

/// The mode that a piece of text names: the empty text is `Default`,
/// `source` is `Source`, `full` is `Full`, and nothing else is a mode.
pub open spec fn build_mode_named(s: Seq<char>) -> Option<BuildMode> {
    if s.len() == 0 {
        Some(BuildMode::Default)
    } else if s == "source"@ {
        Some(BuildMode::Source)
    } else if s == "full"@ {
        Some(BuildMode::Full)
    } else {
        None
    }
}

impl BuildMode {
    /// Reads a build mode from its name.
    pub fn from_str(s: &str) -> (r: Result<BuildMode, BuildModeError>)
        ensures
            match build_mode_named(s@) {
                Some(mode) => r == Ok::<BuildMode, BuildModeError>(mode),
                None => r is Err,
            },
    {
        proof {
            reveal_strlit("");
            reveal_strlit("source");
            reveal_strlit("full");
            if s@.len() == 0 {
                assert(s@ =~= ""@);
            }
        }
        if str_eq(s, "") {
            Ok(BuildMode::Default)
        } else if str_eq(s, "source") {
            Ok(BuildMode::Source)
        } else if str_eq(s, "full") {
            Ok(BuildMode::Full)
        } else {
            Err(BuildModeError)
        }
    }

    /// Whether this is the `Default` mode.
    pub fn is_default(&self) -> (r: bool)
        ensures
            r == (*self is Default),
    {
        match self {
            BuildMode::Default => true,
            _ => false,
        }
    }

    /// Whether this is the `Full` mode.
    pub fn is_full(&self) -> (r: bool)
        ensures
            r == (*self is Full),
    {
        match self {
            BuildMode::Full => true,
            _ => false,
        }
    }
}

impl Default for BuildMode {
    fn default() -> (r: BuildMode)
        ensures
            r is Default,
    {
        BuildMode::Default
    }
}

/// What to do with the build cache of a script.
#[derive(Debug, PartialEq, Eq)]
pub enum CacheCommand {
    /// Show what is known of the script's cache directory.
    Info { file: String },
    /// Remove the script's cache directory, and its image and volume if it
    /// has them.
    Clean { file: String },
    /// Show one item of `Info` by its name.
    Get { name: String, file: String },
}

/// The mathematical value of a [`CacheCommand`].
pub enum CacheCommandView {
    Info { file: Seq<char> },
    Clean { file: Seq<char> },
    Get { name: Seq<char>, file: Seq<char> },
}

impl View for CacheCommand {
    type V = CacheCommandView;

    open spec fn view(&self) -> CacheCommandView {
        match *self {
            CacheCommand::Info { file } => CacheCommandView::Info { file: file@ },
            CacheCommand::Clean { file } => CacheCommandView::Clean { file: file@ },
            CacheCommand::Get { name, file } => CacheCommandView::Get { name: name@, file: file@ },
        }
    }
}

impl CacheCommand {
    /// The script that the command is about.
    pub fn file(&self) -> (file: &String)
        ensures
            file@ == (match self@ {
                CacheCommandView::Info { file } => file,
                CacheCommandView::Clean { file } => file,
                CacheCommandView::Get { name, file } => file,
            }),
    {
        match self {
            CacheCommand::Info { file } => file,
            CacheCommand::Clean { file } => file,
            CacheCommand::Get { name: _, file } => file,
        }
    }
}

/// What to do with the script templates.
#[derive(Debug, PartialEq, Eq)]
pub enum TemplatesCommand {
    /// Take a file in as a template, named after the file without its
    /// extension.
    Import { file: String },
    /// Open an editor on a template.
    Edit { template_name: String },
    /// Remove a custom template, which brings a built-in one of the same
    /// name back.
    Remove { template_name: String },
    /// List all templates.
    List {},
}

/// The mathematical value of a [`TemplatesCommand`].
pub enum TemplatesCommandView {
    Import { file: Seq<char> },
    Edit { template_name: Seq<char> },
    Remove { template_name: Seq<char> },
    List,
}

impl View for TemplatesCommand {
    type V = TemplatesCommandView;

    open spec fn view(&self) -> TemplatesCommandView {
        match *self {
            TemplatesCommand::Import { file } => TemplatesCommandView::Import { file: file@ },
            TemplatesCommand::Edit { template_name } => TemplatesCommandView::Edit {
                template_name: template_name@,
            },
            TemplatesCommand::Remove { template_name } => TemplatesCommandView::Remove {
                template_name: template_name@,
            },
            TemplatesCommand::List {  } => TemplatesCommandView::List,
        }
    }
}

/// A subcommand.
#[derive(Debug, PartialEq, Eq)]
pub enum Command {
    /// Work on the build cache.
    Cache { cmd: CacheCommand },
    /// Print a template, or list the templates if none is named.
    New { template_name: Option<String> },
    /// Work on the templates.
    Template { cmd: TemplatesCommand },
    /// Build a script without running it.
    Build { script_src: String, build_mode: Option<BuildMode> },
}

/// The mathematical value of a [`Command`].
pub enum CommandView {
    Cache { cmd: CacheCommandView },
    New { template_name: Option<Seq<char>> },
    Template { cmd: TemplatesCommandView },
    Build { script_src: Seq<char>, build_mode: Option<BuildMode> },
}

impl View for Command {
    type V = CommandView;

    open spec fn view(&self) -> CommandView {
        match *self {
            Command::Cache { cmd } => CommandView::Cache { cmd: cmd@ },
            Command::New { template_name } => CommandView::New {
                template_name: opt_view(template_name),
            },
            Command::Template { cmd } => CommandView::Template { cmd: cmd@ },
            Command::Build { script_src, build_mode } => CommandView::Build {
                script_src: script_src@,
                build_mode,
            },
        }
    }
}

/// The command line, taken apart.
#[derive(Debug, PartialEq, Eq)]
pub struct Opt {
    /// The script to run, and after it the arguments for the script.
    pub command: Vec<String>,
    /// The subcommand, if there is one in place of a script.
    pub cmd: Option<Command>,
}

/// What a command line asks for.
#[derive(Debug, PartialEq, Eq)]
pub enum Request {
    /// Build the script if it is stale, and run it with the arguments.
    Run { script_src: String, args: Vec<String> },
    /// Carry out a subcommand.
    Sub(Command),
}

/// The mathematical value of a [`Request`].
pub enum RequestView {
    Run { script_src: Seq<char>, args: Seq<Seq<char>> },
    Sub(CommandView),
}

impl View for Request {
    type V = RequestView;

    open spec fn view(&self) -> RequestView {
        match *self {
            Request::Run { script_src, args } => RequestView::Run {
                script_src: script_src@,
                args: views(args@),
            },
            Request::Sub(cmd) => RequestView::Sub(cmd@),
        }
    }
}

/// A command line names neither a subcommand nor a script.
#[derive(Debug, Clone, Copy, PartialEq, Eq)]
pub struct MissingScript;

impl Opt {
    /// What the command line asks for: its subcommand if it has one, else
    /// to run the script that comes first with the arguments after it.
    pub fn request(self) -> (r: Result<Request, MissingScript>)
        ensures
            match self.cmd {
                Some(cmd) => r matches Ok(request) && request@ == RequestView::Sub(cmd@),
                None => if self.command@.len() > 0 {
                    r matches Ok(request) && request@ == (RequestView::Run {
                        script_src: self.command@[0]@,
                        args: views(self.command@).skip(1),
                    })
                } else {
                    r is Err
                },
            },
    {
        let Opt { command, cmd } = self;
        match cmd {
            Some(cmd) => Ok(Request::Sub(cmd)),
            None => {
                if command.len() == 0 {
                    return Err(MissingScript);
                }
                let script_src = command[0].clone();
                let mut args: Vec<String> = Vec::new();
                let mut i: usize = 1;
                while i < command.len()
                    invariant
                        1 <= i <= command.len(),
                        views(args@) == views(command@).subrange(1, i as int),
                    decreases command.len() - i,
                {
                    let ghost before = views(args@);
                    args.push(command[i].clone());
                    assert(views(args@) =~= before.push(command@[i as int]@));
                    assert(views(command@).subrange(1, i + 1) =~= views(command@).subrange(
                        1,
                        i as int,
                    ).push(command@[i as int]@));
                    i += 1;
                }
                assert(views(command@).subrange(1, i as int) =~= views(command@).skip(1));
                Ok(Request::Run { script_src, args })
            },
        }
    }
}

} // verus!
