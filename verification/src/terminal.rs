//! Web terminal sessions: the login shell a session runs, and what the
//! session does with what the browser sends and with its own messages.
use vstd::prelude::*;

use crate::auth::utf8_text;
use crate::error::AppError;
use crate::text::{chars_to_string, join3, str_chars};

verus! {

/// Messages sent to a terminal session.
#[derive(Debug)]
pub enum TerminalMessage {
    /// User input (keystrokes) to write to the terminal.
    Input(String),
    /// Resize the terminal to the client's dimensions.
    Resize { rows: u16, cols: u16 },
    /// Terminate the session.
    Shutdown,
}

/// The rows of a new terminal.
pub const INITIAL_ROWS: u16 = 24;

/// The columns of a new terminal.
pub const INITIAL_COLS: u16 = 80;

/// A command with its arguments and its environment.
pub struct ShellCommand {
    pub program: String,
    pub args: Vec<String>,
    pub env: Vec<(String, String)>,
}

/// The command a session runs for `username`: a login shell through
/// `su -`, with a 256-color terminal and a UTF-8 locale.
pub fn login_shell(username: &str) -> (r: ShellCommand)
    ensures
        r.program@ == "/usr/bin/su"@,
        r.args@.len() == 2,
        r.args@[0]@ == "-"@,
        r.args@[1]@ == username@,
        r.env@.len() == 2,
        r.env@[0].0@ == "TERM"@ && r.env@[0].1@ == "xterm-256color"@,
        r.env@[1].0@ == "LANG"@ && r.env@[1].1@ == "en_US.UTF-8"@,
{
    let mut args: Vec<String> = Vec::new();
    args.push(chars_to_string(str_chars("-").as_slice()));
    args.push(chars_to_string(str_chars(username).as_slice()));
    let mut env: Vec<(String, String)> = Vec::new();
    env.push(
        (
            chars_to_string(str_chars("TERM").as_slice()),
            chars_to_string(str_chars("xterm-256color").as_slice()),
        ),
    );
    env.push(
        (
            chars_to_string(str_chars("LANG").as_slice()),
            chars_to_string(str_chars("en_US.UTF-8").as_slice()),
        ),
    );
    ShellCommand { program: chars_to_string(str_chars("/usr/bin/su").as_slice()), args, env }
}

/// The error of a shell that could not be started for `username`.
pub fn spawn_failure(username: &str, reason: &str) -> (r: AppError)
    ensures
        r matches AppError::InternalServerError(m) && m@ == "Failed to spawn shell for user '"@
            + username@ + "': "@ + reason@,
{
    let head = join3("Failed to spawn shell for user '", username, "': ");
    AppError::InternalServerError(crate::text::join2(head.as_str(), reason))
}

/// What a session does with one of its messages.
pub enum TerminalAction {
    /// Write these bytes of input to the terminal.
    Write(String),
    /// Resize the terminal.
    Resize { rows: u16, cols: u16 },
    /// End the session.
    Stop,
}

/// The action a session takes for a message.
pub fn terminal_step(msg: TerminalMessage) -> (r: TerminalAction)
    ensures
        match msg {
            TerminalMessage::Input(d) => r matches TerminalAction::Write(w) && w@ == d@,
            TerminalMessage::Resize { rows, cols } => r matches TerminalAction::Resize {
                rows: r2,
                cols: c2,
            } && r2 == rows && c2 == cols,
            TerminalMessage::Shutdown => r is Stop,
        },
{
    match msg {
        TerminalMessage::Input(d) => TerminalAction::Write(d),
        TerminalMessage::Resize { rows, cols } => TerminalAction::Resize { rows, cols },
        TerminalMessage::Shutdown => TerminalAction::Stop,
    }
}

// ---------------------------------------------------------------------------
// The browser side
// ---------------------------------------------------------------------------

/// A command the browser sends as JSON text.
pub enum ClientMessage {
    Input { data: String },
    Resize { rows: u16, cols: u16 },
}

/// What came from the browser's socket.
pub enum ClientFrame {
    /// A text frame that held a command.
    Command(ClientMessage),
    /// A text frame that held no command.
    Unreadable,
    /// A binary frame.
    Binary(Vec<u8>),
    /// The browser closed the socket.
    Close,
    /// Any other frame.
    Other,
    /// The socket failed.
    Failed,
}

/// What the socket handler does with a frame.
pub enum FrameAction {
    /// Hand this message to the session; when `end_on_failure`, a session
    /// that cannot take it ends the connection.
    Forward { msg: TerminalMessage, end_on_failure: bool },
    /// Nothing.
    Ignore,
    /// End the connection (and shut the session down).
    End,
}

/// The action for a frame from the browser: commands go to the session
/// (a failure to deliver them ends the connection), binary frames holding
/// UTF-8 text are typed as input (a failure is ignored), and a closed or
/// failed socket ends the connection.
pub fn frame_action(frame: ClientFrame) -> (r: FrameAction)
    ensures
        match frame {
            ClientFrame::Command(ClientMessage::Input { data }) => r matches FrameAction::Forward {
                msg: TerminalMessage::Input(d),
                end_on_failure: true,
            } && d@ == data@,
            ClientFrame::Command(ClientMessage::Resize { rows, cols }) => r matches FrameAction::Forward {
                msg: TerminalMessage::Resize { rows: r2, cols: c2 },
                end_on_failure: true,
            } && r2 == rows && c2 == cols,
            ClientFrame::Binary(b) => match crate::auth::utf8_decoded(b@) {
                Some(t) => r matches FrameAction::Forward {
                    msg: TerminalMessage::Input(d),
                    end_on_failure: false,
                } && d@ == t,
                None => r is Ignore,
            },
            ClientFrame::Close | ClientFrame::Failed => r is End,
            ClientFrame::Unreadable | ClientFrame::Other => r is Ignore,
        },
{
    match frame {
        ClientFrame::Command(ClientMessage::Input { data }) => FrameAction::Forward {
            msg: TerminalMessage::Input(data),
            end_on_failure: true,
        },
        ClientFrame::Command(ClientMessage::Resize { rows, cols }) => FrameAction::Forward {
            msg: TerminalMessage::Resize { rows, cols },
            end_on_failure: true,
        },
        ClientFrame::Binary(b) => match utf8_text(b) {
            Some(t) => FrameAction::Forward { msg: TerminalMessage::Input(t), end_on_failure: false },
            None => FrameAction::Ignore,
        },
        ClientFrame::Close | ClientFrame::Failed => FrameAction::End,
        ClientFrame::Unreadable | ClientFrame::Other => FrameAction::Ignore,
    }
}

/// The user a terminal is opened for: the user of the session; without
/// one, the request is refused.
pub fn terminal_user(session_user: Option<String>) -> (r: Result<String, AppError>)
    ensures
        match session_user {
            Some(u) => r == Ok::<String, AppError>(u),
            None => r matches Err(AppError::Unauthorized(m)) && m@ == "Not logged in"@,
        },
{
    match session_user {
        Some(u) => Ok(u),
        None => Err(AppError::Unauthorized(chars_to_string(str_chars("Not logged in").as_slice()))),
    }
}

} // verus!
