use vstd::prelude::*;

use crate::registry::{bound_path, SessionRegistry};

verus! {

/// Why a command failed. Each failure is local to the command that hit it.
pub enum CommandError {
    /// The file dialog was closed without a choice.
    NoFileSelected,
    /// Reading or writing a file failed, with the system's message.
    Io(String),
    /// Creating, retitling or closing a window failed, with its message.
    Window(String),
}

/// The text a command reports for an error.
pub open spec fn error_text(e: CommandError) -> Seq<char> {
    match e {
        CommandError::NoFileSelected => "No file selected"@,
        CommandError::Io(m) => m@,
        CommandError::Window(m) => m@,
    }
}

impl CommandError {
    /// The message handed back to the window that issued the command.
    pub fn message(&self) -> (r: String)
        ensures
            r@ == error_text(*self),
    {
        match self {
            CommandError::NoFileSelected => String::from_str("No file selected"),
            CommandError::Io(m) => m.clone(),
            CommandError::Window(m) => m.clone(),
        }
    }
}

/// What a save does first.
pub enum SaveStep {
    /// Write `content` straight to the bound file `path`, without asking.
    Write { path: String, content: String },
    /// Ask for a file with a save dialog that suggests `default_filename`.
    Prompt { content: String, default_filename: String },
}

/// First step of "save": a window bound to a file writes to it; any other
/// window asks for a file.
pub fn plan_save_file(
    registry: &SessionRegistry,
    id: &String,
    content: String,
    default_filename: String,
) -> (r: SaveStep)
    requires
        registry.wf(),
    ensures
        match r {
            SaveStep::Write { path, content: c } => bound_path(registry@, id@) == Some(path@)
                && c@ == content@,
            SaveStep::Prompt { content: c, default_filename: d } => bound_path(
                registry@,
                id@,
            ) is None && c@ == content@ && d@ == default_filename@,
        },
{
    match registry.get_path(id) {
        Some(path) => SaveStep::Write { path, content },
        None => SaveStep::Prompt { content, default_filename },
    }
}

/// First step of "save as": always asks for a file, bound or not.
pub fn plan_save_file_as(content: String, default_filename: String) -> (r: SaveStep)
    ensures
        match r {
            SaveStep::Write { .. } => false,
            SaveStep::Prompt { content: c, default_filename: d } => c@ == content@ && d@
                == default_filename@,
        },
{
    SaveStep::Prompt { content, default_filename }
}

/// The path a file dialog returned, or the cancellation as an error.
pub fn selected_path(selection: Option<String>) -> (r: Result<String, CommandError>)
    ensures
        match selection {
            Some(p) => r == Ok::<String, CommandError>(p),
            None => r == Err::<String, CommandError>(CommandError::NoFileSelected),
        },
{
    match selection {
        Some(p) => Ok(p),
        None => Err(CommandError::NoFileSelected),
    }
}

/// Last step of a save, once the content was written to `path` or the write
/// failed: on success window `id` is bound to `path`, which is returned; on
/// failure the registry is left as it was.
pub fn finish_save(
    registry: &mut SessionRegistry,
    id: String,
    path: String,
    written: Result<(), String>,
) -> (r: Result<String, CommandError>)
    requires
        old(registry).wf(),
    ensures
        final(registry).wf(),
        match written {
            Ok(_) => {
                &&& r is Ok
                &&& r->Ok_0@ == path@
                &&& final(registry)@ == old(registry)@.insert(id@, Some(path@))
            },
            Err(e) => {
                &&& r == Err::<String, CommandError>(CommandError::Io(e))
                &&& final(registry)@ == old(registry)@
            },
        },
{
    match written {
        Ok(_) => {
            registry.set_path(id, path.clone());
            Ok(path)
        },
        Err(e) => Err(CommandError::Io(e)),
    }
}

/// Two windows bound to different files save without disturbing each other:
/// whichever save completes first, the other window is still bound to its own
/// file, so each writes its own content to its own path.
pub proof fn lemma_independent_saves(
    m: Map<Seq<char>, Option<Seq<char>>>,
    a: Seq<char>,
    b: Seq<char>,
    pa: Seq<char>,
    pb: Seq<char>,
)
    requires
        a != b,
        pa != pb,
        bound_path(m, a) == Some(pa),
        bound_path(m, b) == Some(pb),
    ensures
        bound_path(m.insert(a, Some(pa)), b) == Some(pb),
        bound_path(m.insert(b, Some(pb)), a) == Some(pa),
        m.insert(a, Some(pa)).insert(b, Some(pb)) == m.insert(b, Some(pb)).insert(a, Some(pa)),
        bound_path(m.insert(a, Some(pa)).insert(b, Some(pb)), a) == Some(pa),
        bound_path(m.insert(a, Some(pa)).insert(b, Some(pb)), b) == Some(pb),
{
    assert(m.insert(a, Some(pa)).insert(b, Some(pb)) =~= m.insert(b, Some(pb)).insert(
        a,
        Some(pa),
    ));
}

} // verus!
