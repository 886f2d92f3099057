//! The decisions of the JSON-over-stdin daemon: which command does what,
//! given whether an image is loaded. The caller parses each input line,
//! performs the action that comes back (decoding, rendering, writing a
//! sidecar) and reports a loaded image back to the session.

use vstd::prelude::*;
use crate::text::str_eq;

verus! {

/// One parsed daemon command, reduced to what the decisions read.
pub struct DaemonCommand {
    /// The `cmd` field, such as `"load"` or `"adjust"`.
    pub cmd: String,
    /// The optional `path` field.
    pub path: Option<String>,
    /// Whether the command carried a `recipe` object.
    pub has_recipe: bool,
}

/// What the daemon does in answer to one command.
pub enum DaemonAction {
    /// Answer at once. `text` is the data of a success or the error message of a failure.
    Reply { success: bool, action: String, text: String },
    /// Open and decode the image at `path`; on success report it with `DaemonSession::loaded`.
    LoadImage { path: String },
    /// Render the cached image of `path` with the command's recipe.
    Render { path: String },
    /// Write the command's recipe as the sidecar of `path`.
    SaveSidecar { path: String },
    /// Answer that the daemon is exiting, then stop reading commands.
    Exit,
}

/// The daemon's memory between commands: the image currently decoded, if any.
pub struct DaemonSession {
    loaded_path: Option<String>,
}

impl View for DaemonSession {
    type V = Option<Seq<char>>;

    closed spec fn view(&self) -> Option<Seq<char>> {
        match &self.loaded_path {
            Some(p) => Some(p@),
            None => None,
        }
    }
}

/// Error text of an `adjust` or `save_recipe` that comes before any image was loaded.
pub open spec fn no_image_text() -> Seq<char> {
    "No RAW image currently loaded in daemon cache"@
}

/// `a` is an immediate reply with the given success flag, action and text.
pub open spec fn is_reply(a: DaemonAction, success: bool, action: Seq<char>, text: Seq<char>) -> bool {
    a matches DaemonAction::Reply { success: s, action: act, text: t } && s == success && act@
        == action && t@ == text
}

/// The daemon's answer to a command, as a function of the loaded image and the command.
pub open spec fn daemon_reaction(
    loaded: Option<Seq<char>>,
    cmd: Seq<char>,
    path: Option<Seq<char>>,
    has_recipe: bool,
    a: DaemonAction,
) -> bool {
    if cmd == "ping"@ {
        is_reply(a, true, "ping"@, "pong"@)
    } else if cmd == "load"@ {
        match path {
            None => is_reply(a, false, "load"@, "Missing path in load command"@),
            Some(p) => a matches DaemonAction::LoadImage { path: q } && q@ == p,
        }
    } else if cmd == "adjust"@ {
        match loaded {
            None => is_reply(a, false, "adjust"@, no_image_text()),
            Some(p) => a matches DaemonAction::Render { path: q } && q@ == p,
        }
    } else if cmd == "save_recipe"@ {
        match loaded {
            Some(p) => if has_recipe {
                a matches DaemonAction::SaveSidecar { path: q } && q@ == p
            } else {
                is_reply(a, false, "save_recipe"@, "No image loaded or recipe missing"@)
            },
            None => is_reply(a, false, "save_recipe"@, "No image loaded or recipe missing"@),
        }
    } else if cmd == "exit"@ {
        a is Exit
    } else {
        is_reply(a, false, cmd, "Unknown daemon command"@)
    }
}

fn reply(success: bool, action: &str, text: &str) -> (r: DaemonAction)
    ensures
        is_reply(r, success, action@, text@),
{
    DaemonAction::Reply { success, action: String::from_str(action), text: String::from_str(text) }
}

impl DaemonSession {
    /// A daemon that has not loaded any image.
    pub fn new() -> (r: Self)
        ensures
            r@ is None,
    {
        DaemonSession { loaded_path: None }
    }

    /// Records that the image at `path` was decoded and cached.
    pub fn loaded(&mut self, path: String)
        ensures
            final(self)@ == Some(path@),
    {
        self.loaded_path = Some(path);
    }

    /// The action answering `command`.
    pub fn step(&self, command: &DaemonCommand) -> (r: DaemonAction)
        ensures
            daemon_reaction(
                self@,
                command.cmd@,
                match &command.path {
                    Some(p) => Some(p@),
                    None => None,
                },
                command.has_recipe,
                r,
            ),
    {
        let cmd = command.cmd.as_str();
        if str_eq(cmd, "ping") {
            reply(true, "ping", "pong")
        } else if str_eq(cmd, "load") {
            match &command.path {
                None => reply(false, "load", "Missing path in load command"),
                Some(p) => DaemonAction::LoadImage { path: p.clone() },
            }
        } else if str_eq(cmd, "adjust") {
            match &self.loaded_path {
                None => reply(false, "adjust", "No RAW image currently loaded in daemon cache"),
                Some(p) => DaemonAction::Render { path: p.clone() },
            }
        } else if str_eq(cmd, "save_recipe") {
            match &self.loaded_path {
                Some(p) => if command.has_recipe {
                    DaemonAction::SaveSidecar { path: p.clone() }
                } else {
                    reply(false, "save_recipe", "No image loaded or recipe missing")
                },
                None => reply(false, "save_recipe", "No image loaded or recipe missing"),
            }
        } else if str_eq(cmd, "exit") {
            DaemonAction::Exit
        } else {
            reply(false, cmd, "Unknown daemon command")
        }
    }
}

/// Before any image is loaded, `adjust` is refused with the no-image error,
/// whatever else the command holds.
pub proof fn adjust_before_load_is_refused(
    cmd_path: Option<Seq<char>>,
    has_recipe: bool,
    a: DaemonAction,
)
    requires
        daemon_reaction(None, "adjust"@, cmd_path, has_recipe, a),
    ensures
        is_reply(a, false, "adjust"@, no_image_text()),
{
    reveal_strlit("adjust");
    reveal_strlit("ping");
    reveal_strlit("load");
    assert("adjust"@.len() != "ping"@.len());
    assert("adjust"@.len() != "load"@.len());
}

/// `ping` is answered with `pong` in every state.
pub proof fn ping_answers_pong(
    loaded: Option<Seq<char>>,
    cmd_path: Option<Seq<char>>,
    has_recipe: bool,
    a: DaemonAction,
)
    requires
        daemon_reaction(loaded, "ping"@, cmd_path, has_recipe, a),
    ensures
        is_reply(a, true, "ping"@, "pong"@),
{
}

/// `load` with a path asks to decode exactly that path, whatever image is
/// loaded already; without a path it is refused.
pub proof fn load_opens_the_requested_path(
    loaded: Option<Seq<char>>,
    cmd_path: Option<Seq<char>>,
    has_recipe: bool,
    a: DaemonAction,
)
    requires
        daemon_reaction(loaded, "load"@, cmd_path, has_recipe, a),
    ensures
        cmd_path matches Some(p) ==> (a matches DaemonAction::LoadImage { path } && path@ == p),
        cmd_path is None ==> is_reply(a, false, "load"@, "Missing path in load command"@),
{
    reveal_strlit("load");
    reveal_strlit("ping");
    assert("load"@[0] != "ping"@[0]);
}

/// Once an image is loaded, `adjust` renders that image.
pub proof fn adjust_after_load_renders(
    loaded: Seq<char>,
    cmd_path: Option<Seq<char>>,
    has_recipe: bool,
    a: DaemonAction,
)
    requires
        daemon_reaction(Some(loaded), "adjust"@, cmd_path, has_recipe, a),
    ensures
        a matches DaemonAction::Render { path } && path@ == loaded,
{
    reveal_strlit("adjust");
    reveal_strlit("ping");
    reveal_strlit("load");
    assert("adjust"@.len() != "ping"@.len());
    assert("adjust"@.len() != "load"@.len());
}

/// Once an image is loaded, `save_recipe` with a recipe writes the sidecar
/// of that image, and without one it is refused.
pub proof fn save_after_load_writes_sidecar(
    loaded: Seq<char>,
    cmd_path: Option<Seq<char>>,
    has_recipe: bool,
    a: DaemonAction,
)
    requires
        daemon_reaction(Some(loaded), "save_recipe"@, cmd_path, has_recipe, a),
    ensures
        has_recipe ==> (a matches DaemonAction::SaveSidecar { path } && path@ == loaded),
        !has_recipe ==> is_reply(a, false, "save_recipe"@, "No image loaded or recipe missing"@),
{
    reveal_strlit("save_recipe");
    reveal_strlit("ping");
    reveal_strlit("load");
    reveal_strlit("adjust");
    assert("save_recipe"@.len() != "ping"@.len());
    assert("save_recipe"@.len() != "load"@.len());
    assert("save_recipe"@.len() != "adjust"@.len());
}

/// `exit` stops the daemon in every state.
pub proof fn exit_always_stops(
    loaded: Option<Seq<char>>,
    cmd_path: Option<Seq<char>>,
    has_recipe: bool,
    a: DaemonAction,
)
    requires
        daemon_reaction(loaded, "exit"@, cmd_path, has_recipe, a),
    ensures
        a is Exit,
{
    reveal_strlit("exit");
    reveal_strlit("ping");
    reveal_strlit("load");
    reveal_strlit("adjust");
    reveal_strlit("save_recipe");
    assert("exit"@[0] != "ping"@[0]);
    assert("exit"@[0] != "load"@[0]);
    assert("exit"@.len() != "adjust"@.len());
    assert("exit"@.len() != "save_recipe"@.len());
}

} // verus!
