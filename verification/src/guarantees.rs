//! What the parts of this crate guarantee together.

use crate::command::{
    cd_script, cd_target, execution_view, interactive_answer, is_interactive,
    lemma_guidance_not_empty, remote_script,
};
use crate::completion::{
    candidates, common_prefix, completed_word, completion_outcome, completion_target, entry_path,
    is_candidate, lemma_candidates_are_listed, listing_script, lists_candidates, names_entry,
    offered, resolve_dir, shared_len, Completion,
};
use crate::error::ErrorView;
use crate::heartbeat::{monitor_step, reports_death, tears_down, MonitorEvent, MonitorState};
use crate::lines::lines;
use crate::order::lemma_ascending_unique;
use crate::pool::lemma_remove_idempotent;
use crate::quoting::shell_invocation;
use crate::records::SshConnection;
use crate::session::{
    completion_start, disconnect_answer, execution_start, CompletionStart, ExecutionStart,
};
use crate::text::{join, last_position, lemma_last_position};
use crate::whitespace::{
    is_whitespace, is_word, lemma_tokens_are_words, lemma_trim_bounded, lemma_trim_is_bounded,
    lemma_trim_trailing, tokens, trim,
};
use vstd::prelude::*;

verus! {

/// A command line that starts an interactive program is never run: it is
/// answered at once, connected or not, with exit code 0, no output, and
/// guidance that is not empty.
pub proof fn lemma_interactive_short_circuit(
    connected: bool,
    command: Seq<char>,
    current_dir: Option<Seq<char>>,
)
    requires
        is_interactive(trim(command)),
    ensures
        execution_start(connected, command, current_dir) == ExecutionStart::Answered(
            interactive_answer(command),
        ),
        interactive_answer(command).exit_code == 0,
        interactive_answer(command).output.len() == 0,
        interactive_answer(command).is_interactive,
        interactive_answer(command).interactive_message matches Some(message) && message.len() > 0,
{
    lemma_guidance_not_empty(tokens(trim(command))[0]);
}

/// Without a connection a request never reaches a server: a command line
/// is answered with guidance where it starts an interactive program and is
/// else refused as not connected; a completion is answered at once where
/// there is nothing to complete and is else refused as not connected; and a
/// disconnect reports success.
pub proof fn lemma_requests_without_connection(
    command: Seq<char>,
    current_dir: Option<Seq<char>>,
    input: Seq<char>,
    completion_dir: Seq<char>,
)
    ensures
        execution_start(false, command, current_dir) == if is_interactive(trim(command)) {
            ExecutionStart::Answered(interactive_answer(command))
        } else {
            ExecutionStart::Refused(ErrorView::NotConnected)
        },
        completion_start(false, input, completion_dir) == if completion_target(
            input,
            completion_dir,
        ).2.len() == 0 {
            CompletionStart::Answered
        } else {
            CompletionStart::Refused(ErrorView::NotConnected)
        },
        disconnect_answer(false).success,
{
}

/// Disconnecting twice in a row succeeds both times: the first call takes
/// the connection away if there is one, the second finds none and leaves
/// the registry as the first left it.
pub proof fn lemma_disconnect_twice<S, L, T>(
    known: Map<Seq<char>, SshConnection<S, L, T>>,
    id: Seq<char>,
)
    ensures
        disconnect_answer(known.contains_key(id)).success,
        disconnect_answer(known.remove(id).contains_key(id)) == disconnect_answer(false),
        disconnect_answer(false).success,
        known.remove(id).remove(id) == known.remove(id),
{
    lemma_remove_idempotent(known, id);
}

/// A connection that the monitor finds dead is forgotten: the monitor asks
/// for the teardown and ends, and once the teardown has taken the
/// connection out of the registry, a command for its server id is refused
/// as not connected.
pub proof fn lemma_dead_connection_refuses_commands<S, L, T>(
    known: Map<Seq<char>, SshConnection<S, L, T>>,
    id: Seq<char>,
    state: MonitorState,
    event: MonitorEvent,
    command: Seq<char>,
    current_dir: Option<Seq<char>>,
)
    requires
        reports_death(state, event),
        !is_interactive(trim(command)),
    ensures
        tears_down(monitor_step(state, event).1),
        monitor_step(state, event).0 == MonitorState::Terminated,
        execution_start(known.remove(id).contains_key(id), command, current_dir)
            == ExecutionStart::Refused(ErrorView::NotConnected),
{
}

/// Completion is determined by what the listing offers: two listings that
/// offer the same candidates, in whatever order and however often, come to
/// the same completion.
pub proof fn lemma_completion_is_determined(
    input: Seq<char>,
    current_dir: Seq<char>,
    exit_code: u32,
    first: Seq<char>,
    second: Seq<char>,
)
    requires
        forall|m: Seq<char>|
            is_candidate(
                m,
                first,
                completion_target(input, current_dir).0,
                completion_target(input, current_dir).2,
            ) <==> is_candidate(
                m,
                second,
                completion_target(input, current_dir).0,
                completion_target(input, current_dir).2,
            ),
    ensures
        completion_outcome(input, current_dir, exit_code, first) == completion_outcome(
            input,
            current_dir,
            exit_code,
            second,
        ),
{
    let target = completion_target(input, current_dir);
    let a = candidates(first, target.0, target.2);
    let b = candidates(second, target.0, target.2);
    lemma_candidates_are_listed(first, target.0, target.2);
    lemma_candidates_are_listed(second, target.0, target.2);
    assert forall|m: Seq<char>| a.contains(m) <==> b.contains(m) by {}
    lemma_ascending_unique(a, b);
}

/// A listing with one candidate has that candidate for its list, and the
/// candidate for the longest common prefix.
proof fn lemma_single_candidate(
    listing: Seq<char>,
    is_path: bool,
    prefix: Seq<char>,
    name: Seq<char>,
)
    requires
        forall|m: Seq<char>| is_candidate(m, listing, is_path, prefix) <==> m == name,
    ensures
        candidates(listing, is_path, prefix) == seq![name],
        common_prefix(seq![name]) == name,
{
    let one = seq![name];
    assert(lists_candidates(one, listing, is_path, prefix)) by {
        assert forall|m: Seq<char>| #[trigger] one.contains(m) <==> is_candidate(
            m,
            listing,
            is_path,
            prefix,
        ) by {
            if m == name {
                assert(one[0] == m);
            }
        }
    }
    let found = candidates(listing, is_path, prefix);
    lemma_candidates_are_listed(listing, is_path, prefix);
    assert forall|m: Seq<char>| one.contains(m) <==> found.contains(m) by {}
    lemma_ascending_unique(one, found);
    assert(shared_len(one) == name.len());
    assert(name.take(name.len() as int) == name);
}

/// A candidate for a prefix that is not empty begins as the prefix does and
/// does not end with white space.
proof fn lemma_candidate_is_bounded(
    name: Seq<char>,
    listing: Seq<char>,
    is_path: bool,
    prefix: Seq<char>,
)
    requires
        is_candidate(name, listing, is_path, prefix),
        prefix.len() > 0,
    ensures
        name.len() > 0,
        name[0] == prefix[0],
        !is_whitespace(name.last()),
{
    let i = choose|i: int|
        0 <= i < lines(listing).len() && trim(#[trigger] lines(listing)[i]).len() > 0 && offered(
            lines(listing)[i],
            is_path,
        ) == name;
    let entry = trim(lines(listing)[i]);
    lemma_trim_is_bounded(lines(listing)[i]);
    lemma_last_position(entry, '/');
    assert(name.last() == entry.last());
}

/// The path that a word is completed to begins with no white space and
/// ends as the candidate ends, where the working directory does not begin
/// with white space.
proof fn lemma_completed_path_is_bounded(
    input: Seq<char>,
    current_dir: Seq<char>,
    name: Seq<char>,
)
    requires
        completion_target(input, current_dir).0,
        completion_target(input, current_dir).2.len() > 0,
        name.len() > 0,
        name[0] == completion_target(input, current_dir).2[0],
        current_dir.len() > 0 ==> !is_whitespace(current_dir[0]),
    ensures
        ({
            let path = completed_word(
                tokens(input).last(),
                name,
                true,
                completion_target(input, current_dir).1,
            );
            path.len() > 0 && !is_whitespace(path[0]) && path.last() == name.last()
                && names_entry(path, completion_target(input, current_dir).1, name)
        }),
{
    reveal_strlit("./");
    reveal_strlit("../");
    let target = completion_target(input, current_dir);
    let dir = target.1;
    let prefix = target.2;
    let last = tokens(input).last();
    let path = completed_word(last, name, true, dir);
    lemma_tokens_are_words(input);
    assert(is_word(last));
    lemma_last_position(last, '/');
    assert(!is_whitespace('/'));
    match last_position(last, '/') {
        Some(j) => {
            let dir_part = last.take(j + 1);
            assert(prefix == last.skip(j + 1));
            assert(prefix[0] == last[j + 1]);
            assert(dir_part[0] == last[0]);
            assert(dir == resolve_dir(dir_part, current_dir));
            assert(last.contains('/'));
            assert(path == entry_path(dir, name));
            if dir.len() > 0 {
                assert(path[0] == dir[0]);
                if current_dir.len() > 0 {
                    assert((current_dir + seq!['/'] + dir_part.skip(2))[0] == current_dir[0]);
                    assert((current_dir + seq!['/'] + dir_part)[0] == current_dir[0]);
                } else {
                    assert((current_dir + seq!['/'] + dir_part.skip(2))[0] == '/');
                    assert((current_dir + seq!['/'] + dir_part)[0] == '/');
                }
            } else {
                assert(path[0] == '/');
            }
        },
        None => {
            assert(prefix == last);
            assert(dir == current_dir);
            assert(path == dir + seq!['/'] + name);
            if dir.len() > 0 {
                assert(path[0] == dir[0]);
            } else {
                assert(path[0] == '/');
            }
        },
    }
}

/// `cd` and a path that neither begins nor ends with white space is a
/// change of directory into that path, and when the server prints the path
/// it becomes the new working directory.
proof fn lemma_cd_into(path: Seq<char>, current_dir: Seq<char>)
    requires
        path.len() > 0,
        !is_whitespace(path[0]),
        !is_whitespace(path.last()),
    ensures
        cd_target("cd"@ + seq![' '] + path) == Some(path),
        remote_script("cd"@ + seq![' '] + path, current_dir) == cd_script(current_dir, path),
        execution_view(path + seq!['\n'], 0, true).new_dir == Some(path),
{
    reveal_strlit("cd");
    reveal_strlit("cd ");
    let cd = "cd"@;
    let change = cd + seq![' '] + path;
    assert(cd =~= seq!['c', 'd']);
    assert(change[0] == 'c');
    assert(change.last() == path.last());
    lemma_trim_bounded(change);
    assert("cd "@ =~= cd + seq![' ']);
    assert(change.subrange(0, 3) == "cd "@);
    assert(change.skip(3) == path);
    lemma_trim_bounded(path);
    lemma_trim_trailing(path, seq!['\n']);
}

/// Completing a path and changing into it arrive at the same place. Where
/// the last word of a line is completed as a path and the listing has one
/// candidate for it, the word is completed to the path of that candidate in
/// the directory that was listed; `cd` and that path is a change of
/// directory into exactly that path; and when the server prints the path,
/// it becomes the new working directory. The working directory must not
/// begin with white space.
pub proof fn lemma_completed_path_round_trip(
    input: Seq<char>,
    current_dir: Seq<char>,
    listing: Seq<char>,
    name: Seq<char>,
)
    requires
        completion_target(input, current_dir).0,
        completion_target(input, current_dir).2.len() > 0,
        forall|m: Seq<char>|
            is_candidate(m, listing, true, completion_target(input, current_dir).2) <==> m == name,
        current_dir.len() > 0 ==> !is_whitespace(current_dir[0]),
    ensures
        ({
            let target = completion_target(input, current_dir);
            let path = completed_word(tokens(input).last(), name, true, target.1);
            let change = "cd"@ + seq![' '] + path;
            &&& completion_start(true, input, current_dir) == (CompletionStart::Admitted {
                shell_command: shell_invocation(listing_script(true, target.1, target.2)),
            })
            &&& names_entry(path, target.1, name)
            &&& completion_outcome(input, current_dir, 0, listing) == Completion::Completed(
                join(tokens(input).drop_last().push(path), seq![' ']),
            )
            &&& cd_target(change) == Some(path)
            &&& remote_script(change, current_dir) == cd_script(current_dir, path)
            &&& execution_view(path + seq!['\n'], 0, true).new_dir == Some(path)
        }),
{
    let target = completion_target(input, current_dir);
    let path = completed_word(tokens(input).last(), name, true, target.1);
    lemma_single_candidate(listing, true, target.2, name);
    assert(is_candidate(name, listing, true, target.2));
    lemma_candidate_is_bounded(name, listing, true, target.2);
    lemma_completed_path_is_bounded(input, current_dir, name);
    lemma_cd_into(path, current_dir);
    assert(tokens(input).len() > 0);
}

} // verus!
