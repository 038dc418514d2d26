//! The records that the front end sends and receives, and the record of one
//! live connection.

use crate::text::string_views;
use vstd::prelude::*;

verus! {

/// The view of an optional string.
pub open spec fn option_view(o: Option<String>) -> Option<Seq<char>> {
    match o {
        Some(s) => Some(s@),
        None => None,
    }
}

/// One live connection. The session, the liveness timestamp and the handle of
/// the monitor task belong to the caller, which picks their types; the
/// registry only keeps them together under the server id.
pub struct SshConnection<S, L, T> {
    pub server_id: String,
    pub host: String,
    pub port: u16,
    pub username: String,
    /// The authenticated session.
    pub session: S,
    /// When the session last proved to be alive.
    pub last_heartbeat: L,
    /// The running monitor task, kept to cancel it.
    pub heartbeat_task: T,
}

/// What is needed to connect to a server.
#[derive(Debug)]
pub struct ConnectSshParams {
    pub server_id: String,
    pub host: String,
    pub port: u16,
    pub username: String,
    pub password: Option<String>,
    pub key_path: Option<String>,
}

/// The answer to a connect request.
#[derive(Debug)]
pub struct ConnectSshResult {
    pub success: bool,
    pub connection_id: String,
    pub message: Option<String>,
}

/// The answer to a connect or disconnect request, with its message as a
/// sequence of characters.
pub struct AnswerView {
    pub success: bool,
    pub message: Option<Seq<char>>,
}

/// Names the connection to close.
#[derive(Debug)]
pub struct DisconnectSshParams {
    pub server_id: String,
}

/// The answer to a disconnect request.
#[derive(Debug)]
pub struct DisconnectSshResult {
    pub success: bool,
    pub message: Option<String>,
}

impl View for DisconnectSshResult {
    type V = AnswerView;

    open spec fn view(&self) -> AnswerView {
        AnswerView { success: self.success, message: option_view(self.message) }
    }
}

/// A command line to run on a server.
#[derive(Debug)]
pub struct ExecuteSshCommandParams {
    pub server_id: String,
    pub command: String,
    /// The working directory of the terminal; the home directory where absent.
    pub current_dir: Option<String>,
}

/// What running a command line gave.
#[derive(Debug)]
pub struct ExecuteSshCommandResult {
    pub output: String,
    pub exit_code: i32,
    /// Whether the command was turned away as an interactive program.
    pub is_interactive: bool,
    /// The guidance shown in place of output for an interactive program.
    pub interactive_message: Option<String>,
    /// The new working directory, after a successful change of directory.
    pub new_dir: Option<String>,
    /// The output, split into the lines to display.
    pub output_lines: Vec<String>,
}

/// What running a command line gave, with its texts as sequences of
/// characters.
pub struct ExecutionView {
    pub output: Seq<char>,
    pub exit_code: i32,
    pub is_interactive: bool,
    pub interactive_message: Option<Seq<char>>,
    pub new_dir: Option<Seq<char>>,
    pub output_lines: Seq<Seq<char>>,
}

impl View for ExecuteSshCommandResult {
    type V = ExecutionView;

    open spec fn view(&self) -> ExecutionView {
        ExecutionView {
            output: self.output@,
            exit_code: self.exit_code,
            is_interactive: self.is_interactive,
            interactive_message: option_view(self.interactive_message),
            new_dir: option_view(self.new_dir),
            output_lines: string_views(self.output_lines@),
        }
    }
}

/// Names the terminal to reconnect.
#[derive(Debug)]
pub struct ReconnectTerminalParams {
    pub server_id: String,
}

/// The answer to a reconnect request.
#[derive(Debug)]
pub struct ReconnectTerminalResult {
    pub success: bool,
    pub message: Option<String>,
}

/// A partial input line to complete.
#[derive(Debug)]
pub struct CompleteCommandParams {
    pub server_id: String,
    /// The whole input line as typed so far.
    pub input: String,
    pub current_dir: String,
}

/// What completion found.
#[derive(Debug)]
pub struct CompleteCommandResult {
    /// The whole input line with its last word completed, where it can be.
    pub completed_input: Option<String>,
    /// The candidates to show, where the last word cannot be completed.
    pub matches: Vec<String>,
    pub should_show_matches: bool,
}

} // verus!
