//! The steps of a request that need the registry: what is decided before
//! the server is asked, and what is made of its answer.

use crate::assumed::{decode_lossy, utf8_lossy};
use crate::channel::CommandOutput;
use crate::command::{
    cd_target, execution_view, finish_execution, interactive_answer, is_interactive, plan_execution,
    remote_script, working_dir, ExecutionPlan,
};
use crate::completion::{
    complete_from_listing, completion_outcome, completion_query, completion_target, listing_script,
    locate_completion, no_completion, shows, Completion,
};
use crate::error::{ErrorView, Operation, SshError};
use crate::pool::ConnectionPool;
use crate::quoting::shell_invocation;
use crate::records::{
    option_view, AnswerView, CompleteCommandParams, CompleteCommandResult, DisconnectSshParams,
    DisconnectSshResult, ExecuteSshCommandParams, ExecuteSshCommandResult, ExecutionView,
    ReconnectTerminalParams, ReconnectTerminalResult, SshConnection,
};
use crate::text::{chars_of, has_substring, mentions, string_of};
use crate::whitespace::trim;
use vstd::prelude::*;
use vstd::utf8::{encode_utf8, encode_utf8_decode_utf8, encode_utf8_valid_utf8};

verus! {

/// Takes the connection of a server id out of the registry. The caller
/// cancels its monitor and disconnects its session. A second teardown of
/// the same id finds nothing and changes nothing.
pub fn disconnect_ssh_server_internal<S, L, T>(
    pool: &mut ConnectionPool<S, L, T>,
    server_id: &str,
) -> (removed: Option<SshConnection<S, L, T>>)
    ensures
        final(pool)@ == old(pool)@.remove(server_id@),
        match removed {
            Some(connection) => old(pool)@.contains_key(server_id@) && connection == old(
                pool,
            )@[server_id@],
            None => !old(pool)@.contains_key(server_id@),
        },
{
    pool.remove(server_id)
}

/// What a disconnect request is answered with: success in any case, with a
/// message that says whether there was a connection.
pub open spec fn disconnect_answer(was_connected: bool) -> AnswerView {
    AnswerView {
        success: true,
        message: Some(
            if was_connected {
                "断开连接成功"@
            } else {
                "连接已断开"@
            },
        ),
    }
}

/// Closes the connection of a server id: takes it out of the registry and
/// hands it to the caller, which cancels its monitor and disconnects its
/// session. The answer reports success whether or not there was one.
pub fn disconnect_ssh_server<S, L, T>(
    pool: &mut ConnectionPool<S, L, T>,
    params: &DisconnectSshParams,
) -> (r: (DisconnectSshResult, Option<SshConnection<S, L, T>>))
    ensures
        final(pool)@ == old(pool)@.remove(params.server_id@),
        r.0@ == disconnect_answer(old(pool)@.contains_key(params.server_id@)),
        match r.1 {
            Some(connection) => old(pool)@.contains_key(params.server_id@) && connection == old(
                pool,
            )@[params.server_id@],
            None => !old(pool)@.contains_key(params.server_id@),
        },
{
    let removed = pool.remove(params.server_id.as_str());
    let message = if removed.is_some() {
        "断开连接成功".to_string()
    } else {
        "连接已断开".to_string()
    };
    (DisconnectSshResult { success: true, message: Some(message) }, removed)
}

/// How an execute request begins.
pub enum ExecutionStart {
    /// It is answered at once.
    Answered(ExecutionView),
    /// The shell command is run on the session of the connection.
    Admitted { shell_command: Seq<char>, is_cd: bool },
    /// It is refused.
    Refused(ErrorView),
}

/// How an execute request begins. A command line that starts an interactive
/// program is answered with guidance, connected or not. Any other is
/// refused where the server id has no connection, and else rewritten to a
/// script that `bash` is handed as one single-quoted argument.
pub open spec fn execution_start(
    connected: bool,
    command: Seq<char>,
    current_dir: Option<Seq<char>>,
) -> ExecutionStart {
    if is_interactive(trim(command)) {
        ExecutionStart::Answered(interactive_answer(command))
    } else if !connected {
        ExecutionStart::Refused(ErrorView::NotConnected)
    } else {
        ExecutionStart::Admitted {
            shell_command: shell_invocation(remote_script(command, working_dir(current_dir))),
            is_cd: cd_target(command).is_some(),
        }
    }
}

/// The next step of an execute request.
pub enum ExecutionStep<'a, S, L> {
    /// The request is answered at once.
    Answer(ExecuteSshCommandResult),
    /// The shell command is run on the session. The liveness of the
    /// connection is set to now before the command is sent and after its
    /// output has been read.
    Run { session: &'a S, last_heartbeat: &'a L, shell_command: String, is_cd: bool },
}

/// Opens an execute request.
pub fn begin_execution<'a, S, L, T>(
    pool: &'a ConnectionPool<S, L, T>,
    params: &ExecuteSshCommandParams,
) -> (step: Result<ExecutionStep<'a, S, L>, SshError>)
    ensures
        match step {
            Ok(ExecutionStep::Answer(r)) => execution_start(
                pool@.contains_key(params.server_id@),
                params.command@,
                option_view(params.current_dir),
            ) == ExecutionStart::Answered(r@),
            Ok(ExecutionStep::Run { session, last_heartbeat, shell_command, is_cd }) => {
                &&& execution_start(
                    pool@.contains_key(params.server_id@),
                    params.command@,
                    option_view(params.current_dir),
                ) == (ExecutionStart::Admitted { shell_command: shell_command@, is_cd })
                &&& pool@.contains_key(params.server_id@)
                &&& *session == pool@[params.server_id@].session
                &&& *last_heartbeat == pool@[params.server_id@].last_heartbeat
            },
            Err(e) => execution_start(
                pool@.contains_key(params.server_id@),
                params.command@,
                option_view(params.current_dir),
            ) == ExecutionStart::Refused(e@),
        },
{
    let current_dir = match &params.current_dir {
        Some(dir) => Some(dir.as_str()),
        None => None,
    };
    match plan_execution(params.command.as_str(), current_dir) {
        ExecutionPlan::Answer(r) => Ok(ExecutionStep::Answer(r)),
        ExecutionPlan::Run { shell_command, is_cd } => {
            match pool.lookup(params.server_id.as_str()) {
                Ok(connection) => Ok(
                    ExecutionStep::Run {
                        session: &connection.session,
                        last_heartbeat: &connection.last_heartbeat,
                        shell_command,
                        is_cd,
                    },
                ),
                Err(e) => Err(e),
            }
        },
    }
}

/// What a failure to open a channel is reported as, and whether the
/// connection is torn down. While a command is run, an error text that
/// speaks of a disconnect means that the transport is lost: the connection
/// is torn down. Any other failure leaves it in place.
pub open spec fn channel_failure(operation: Operation, error_text: Seq<char>) -> (ErrorView, bool) {
    if operation == Operation::Command && (has_substring(error_text, "disconnected"@)
        || has_substring(error_text, "断开"@)) {
        (ErrorView::TransportLost { detail: error_text }, true)
    } else {
        (ErrorView::ChannelOpenFailed { operation, detail: error_text }, false)
    }
}

/// Tells what a failure to open a channel is reported as, and whether the
/// connection is to be torn down.
pub fn classify_channel_failure(operation: Operation, error_text: &str) -> (r: (SshError, bool))
    ensures
        (r.0@, r.1) == channel_failure(operation, error_text@),
{
    let text = chars_of(error_text);
    let during_command = match operation {
        Operation::Command => true,
        Operation::Completion => false,
    };
    if during_command && (mentions(text.as_slice(), "disconnected") || mentions(
        text.as_slice(),
        "断开",
    )) {
        (SshError::TransportLost { detail: error_text.to_string() }, true)
    } else {
        (SshError::ChannelOpenFailed { operation, detail: error_text.to_string() }, false)
    }
}

/// The failure reported where the server does not take a command.
pub fn exec_failure(operation: Operation, error_text: &str) -> (e: SshError)
    ensures
        e@ == (ErrorView::ExecFailed { operation, detail: error_text@ }),
{
    SshError::ExecFailed { operation, detail: error_text.to_string() }
}

/// Closes an execute request with what the channel gave. Output that is
/// the UTF-8 encoding of a text is read as that text; in any other output
/// a replacement character stands for what is not UTF-8.
pub fn complete_execution(output: &CommandOutput, is_cd: bool) -> (r: ExecuteSshCommandResult)
    ensures
        r@ == execution_view(utf8_lossy(output.data@), output.exit_status, is_cd),
        forall|text: Seq<char>|
            output.data@ == #[trigger] encode_utf8(text) ==> r@ == execution_view(
                text,
                output.exit_status,
                is_cd,
            ),
{
    finish_execution(output.data.as_slice(), output.exit_status, is_cd)
}

/// How a completion request begins.
pub enum CompletionStart {
    /// It is answered at once: there is nothing to complete.
    Answered,
    /// The listing command is run on the session of the connection.
    Admitted { shell_command: Seq<char> },
    /// It is refused.
    Refused(ErrorView),
}

/// How a completion request begins. A line without a word to complete is
/// answered at once, connected or not. Any other is refused where the
/// server id has no connection, and else leads to the listing of what its
/// last word may be completed to.
pub open spec fn completion_start(
    connected: bool,
    input: Seq<char>,
    current_dir: Seq<char>,
) -> CompletionStart {
    let target = completion_target(input, current_dir);
    if target.2.len() == 0 {
        CompletionStart::Answered
    } else if !connected {
        CompletionStart::Refused(ErrorView::NotConnected)
    } else {
        CompletionStart::Admitted {
            shell_command: shell_invocation(listing_script(target.0, target.1, target.2)),
        }
    }
}

/// The next step of a completion request.
pub enum CompletionStep<'a, S> {
    /// The request is answered at once.
    Answer(CompleteCommandResult),
    /// The listing command is run on the session.
    Query { session: &'a S, shell_command: String },
}

/// Opens a completion request.
pub fn begin_completion<'a, S, L, T>(
    pool: &'a ConnectionPool<S, L, T>,
    params: &CompleteCommandParams,
) -> (step: Result<CompletionStep<'a, S>, SshError>)
    ensures
        match step {
            Ok(CompletionStep::Answer(r)) => completion_start(
                pool@.contains_key(params.server_id@),
                params.input@,
                params.current_dir@,
            ) == CompletionStart::Answered && shows(r, Completion::Nothing),
            Ok(CompletionStep::Query { session, shell_command }) => {
                &&& completion_start(
                    pool@.contains_key(params.server_id@),
                    params.input@,
                    params.current_dir@,
                ) == (CompletionStart::Admitted { shell_command: shell_command@ })
                &&& pool@.contains_key(params.server_id@)
                &&& *session == pool@[params.server_id@].session
            },
            Err(e) => completion_start(
                pool@.contains_key(params.server_id@),
                params.input@,
                params.current_dir@,
            ) == CompletionStart::Refused(e@),
        },
{
    let line = chars_of(params.input.as_str());
    let cwd = chars_of(params.current_dir.as_str());
    let target = locate_completion(line.as_slice(), cwd.as_slice());
    if target.2.len() == 0 {
        return Ok(CompletionStep::Answer(no_completion()));
    }
    match pool.lookup(params.server_id.as_str()) {
        Ok(connection) => {
            let query = completion_query(target.0, target.1.as_slice(), target.2.as_slice());
            Ok(
                CompletionStep::Query {
                    session: &connection.session,
                    shell_command: string_of(query.as_slice()),
                },
            )
        },
        Err(e) => Err(e),
    }
}

/// Closes a completion request with what the channel gave for the listing.
/// A listing that is the UTF-8 encoding of a text is read as that text; in
/// any other listing a replacement character stands for what is not UTF-8.
pub fn complete_completion(params: &CompleteCommandParams, output: &CommandOutput) -> (r:
    CompleteCommandResult)
    ensures
        shows(
            r,
            completion_outcome(
                params.input@,
                params.current_dir@,
                output.exit_status,
                utf8_lossy(output.data@),
            ),
        ),
        forall|listing: Seq<char>|
            output.data@ == #[trigger] encode_utf8(listing) ==> shows(
                r,
                completion_outcome(
                    params.input@,
                    params.current_dir@,
                    output.exit_status,
                    listing,
                ),
            ),
{
    let listing = decode_lossy(output.data.as_slice());
    proof {
        assert forall|text: Seq<char>| output.data@ == #[trigger] encode_utf8(text) implies listing@
            == text by {
            encode_utf8_valid_utf8(text);
            encode_utf8_decode_utf8(text);
        }
    }
    complete_from_listing(
        params.input.as_str(),
        params.current_dir.as_str(),
        output.exit_status,
        listing.as_str(),
    )
}

/// Answers a reconnect request: it always succeeds.
pub fn reconnect_terminal(_params: ReconnectTerminalParams) -> (result: Result<
    ReconnectTerminalResult,
    String,
>)
    ensures
        result matches Ok(r) && r.success && option_view(r.message) == Some("重连成功"@),
{
    Ok(ReconnectTerminalResult { success: true, message: Some("重连成功".to_string()) })
}

} // verus!
