//! Tab completion: which word of an input line is completed, against what,
//! and what the remote listing makes of it.

use crate::lines::{lines, split_lines};
use crate::order::{
    insert_ascending, inserted, lemma_ascending_unique, lemma_inserted, strictly_ascending,
};
use crate::quoting::{invoke_shell, shell_invocation};
use crate::records::{option_view, CompleteCommandResult};
use crate::text::{
    chars_of, contains_char, find_last, is_listed, join, join_chars, last_position, names,
    push_chars, push_str, starts_with, string_of, string_views, texts, to_strings, to_texts,
};
use crate::whitespace::{split_whitespace, tokens, trim, trim_bounds};
use vstd::prelude::*;
use vstd::slice::slice_to_vec;

verus! {

/// The commands whose arguments are completed as paths.
pub open spec fn file_operation_commands() -> Seq<Seq<char>> {
    seq![
        "cd"@,
        "ls"@,
        "cat"@,
        "less"@,
        "more"@,
        "head"@,
        "tail"@,
        "grep"@,
        "find"@,
        "rm"@,
        "rmdir"@,
        "mkdir"@,
        "touch"@,
        "cp"@,
        "mv"@,
        "chmod"@,
        "chown"@,
        "vi"@,
        "vim"@,
        "nano"@,
        "pwd"@,
        "open"@,
        "file"@,
        "stat"@,
        "readlink"@,
    ]
}

fn file_operation_table() -> (table: [&'static str; 25])
    ensures
        names(table@) == file_operation_commands(),
{
    let table = [
        "cd",
        "ls",
        "cat",
        "less",
        "more",
        "head",
        "tail",
        "grep",
        "find",
        "rm",
        "rmdir",
        "mkdir",
        "touch",
        "cp",
        "mv",
        "chmod",
        "chown",
        "vi",
        "vim",
        "nano",
        "pwd",
        "open",
        "file",
        "stat",
        "readlink",
    ];
    assert(names(table@) =~= file_operation_commands());
    table
}

/// Whether `cmd` is one of the commands whose arguments are completed as
/// paths.
pub fn is_file_operation_command(cmd: &str) -> (b: bool)
    ensures
        b == file_operation_commands().contains(cmd@),
{
    let name = chars_of(cmd);
    let table = file_operation_table();
    is_listed(name.as_slice(), table.as_slice())
}

/// At how many leading positions `a` and `b` hold the same character.
pub open spec fn common_len(a: Seq<char>, b: Seq<char>) -> nat
    decreases a.len(),
{
    if a.len() > 0 && b.len() > 0 && a[0] == b[0] {
        1 + common_len(a.drop_first(), b.drop_first())
    } else {
        0
    }
}

/// How many leading characters of the first string every string of the list
/// begins with.
pub open spec fn shared_len(strings: Seq<Seq<char>>) -> nat
    decreases strings.len(),
{
    if strings.len() == 0 {
        0
    } else if strings.len() == 1 {
        strings[0].len()
    } else {
        let before = shared_len(strings.drop_last());
        let here = common_len(strings[0], strings.last());
        if here < before {
            here
        } else {
            before
        }
    }
}

/// The longest common prefix of the strings; empty for an empty list.
pub open spec fn common_prefix(strings: Seq<Seq<char>>) -> Seq<char> {
    if strings.len() == 0 {
        Seq::empty()
    } else {
        strings[0].take(shared_len(strings) as int)
    }
}

/// Whether every string of the list begins with `p`.
pub open spec fn is_common_prefix(p: Seq<char>, strings: Seq<Seq<char>>) -> bool {
    forall|i: int| 0 <= i < strings.len() ==> p.is_prefix_of(#[trigger] strings[i])
}

/// `common_len` counts the positions up to the first at which the two texts
/// differ or one of them ends.
pub proof fn lemma_common_len(a: Seq<char>, b: Seq<char>)
    ensures
        common_len(a, b) <= a.len(),
        common_len(a, b) <= b.len(),
        a.take(common_len(a, b) as int) == b.take(common_len(a, b) as int),
        common_len(a, b) < a.len() && common_len(a, b) < b.len() ==> a[common_len(a, b) as int]
            != b[common_len(a, b) as int],
    decreases a.len(),
{
    if a.len() > 0 && b.len() > 0 && a[0] == b[0] {
        let ra = a.drop_first();
        let rb = b.drop_first();
        lemma_common_len(ra, rb);
        let n = common_len(ra, rb) as int;
        assert(a.take(n + 1) =~= seq![a[0]] + ra.take(n));
        assert(b.take(n + 1) =~= seq![b[0]] + rb.take(n));
        if n < ra.len() && n < rb.len() {
            assert(ra[n] == a[n + 1]);
            assert(rb[n] == b[n + 1]);
        }
    } else {
        assert(a.take(0) =~= b.take(0));
    }
}

/// A text that two texts both begin with is no longer than what they share.
pub proof fn lemma_common_len_bounds_prefix(q: Seq<char>, a: Seq<char>, b: Seq<char>)
    requires
        q.is_prefix_of(a),
        q.is_prefix_of(b),
    ensures
        q.len() <= common_len(a, b),
{
    lemma_common_len(a, b);
    let n = common_len(a, b) as int;
    if n < q.len() {
        assert(a[n] == q[n]);
        assert(b[n] == q[n]);
    }
}

/// What all strings share is no longer than the first, and no longer than
/// what the first shares with any of them.
pub proof fn lemma_shared_len(strings: Seq<Seq<char>>)
    requires
        strings.len() > 0,
    ensures
        shared_len(strings) <= strings[0].len(),
        forall|i: int|
            0 <= i < strings.len() ==> shared_len(strings) <= common_len(
                strings[0],
                #[trigger] strings[i],
            ),
        forall|q: Seq<char>| is_common_prefix(q, strings) ==> q.len() <= shared_len(strings),
    decreases strings.len(),
{
    lemma_common_len(strings[0], strings[0]);
    if strings.len() == 1 {
        assert(common_len(strings[0], strings[0]) == strings[0].len()) by {
            lemma_common_len_self(strings[0]);
        }
        assert forall|q: Seq<char>| is_common_prefix(q, strings) implies q.len() <= shared_len(
            strings,
        ) by {
            assert(q.is_prefix_of(strings[0]));
        }
    } else {
        let init = strings.drop_last();
        lemma_shared_len(init);
        lemma_common_len(strings[0], strings.last());
        assert(init[0] == strings[0]);
        assert forall|i: int| 0 <= i < strings.len() implies shared_len(strings) <= common_len(
            strings[0],
            #[trigger] strings[i],
        ) by {
            if i < init.len() {
                assert(init[i] == strings[i]);
            }
        }
        assert forall|q: Seq<char>| is_common_prefix(q, strings) implies q.len() <= shared_len(
            strings,
        ) by {
            assert forall|i: int| 0 <= i < init.len() implies q.is_prefix_of(
                #[trigger] init[i],
            ) by {
                assert(init[i] == strings[i]);
            }
            assert(is_common_prefix(q, init));
            assert(q.is_prefix_of(strings[0]));
            assert(q.is_prefix_of(strings[strings.len() - 1]));
            lemma_common_len_bounds_prefix(q, strings[0], strings.last());
        }
    }
}

/// A text shares all of its characters with itself.
pub proof fn lemma_common_len_self(a: Seq<char>)
    ensures
        common_len(a, a) == a.len(),
    decreases a.len(),
{
    if a.len() > 0 {
        lemma_common_len_self(a.drop_first());
    }
}

/// The longest common prefix is what its name says: every string begins
/// with it, and whatever every string begins with is a prefix of it.
pub proof fn lemma_common_prefix_is_longest(strings: Seq<Seq<char>>)
    requires
        strings.len() > 0,
    ensures
        is_common_prefix(common_prefix(strings), strings),
        forall|q: Seq<char>|
            is_common_prefix(q, strings) ==> q.is_prefix_of(common_prefix(strings)),
{
    lemma_shared_len(strings);
    let p = common_prefix(strings);
    let n = shared_len(strings) as int;
    assert forall|i: int| 0 <= i < strings.len() implies p.is_prefix_of(
        #[trigger] strings[i],
    ) by {
        lemma_common_len(strings[0], strings[i]);
        let m = common_len(strings[0], strings[i]) as int;
        assert(strings[0].take(m).take(n) =~= strings[0].take(n));
        assert(strings[i].take(m).take(n) =~= strings[i].take(n));
        assert(strings[i].subrange(0, n) =~= p);
    }
    assert forall|q: Seq<char>| is_common_prefix(q, strings) implies q.is_prefix_of(p) by {
        assert(q.is_prefix_of(strings[0]));
        assert(p.subrange(0, q.len() as int) =~= q);
    }
}

/// At how many leading positions `a` and `b` hold the same character.
pub fn common_length(a: &[char], b: &[char]) -> (n: usize)
    ensures
        n == common_len(a@, b@),
        n <= a@.len(),
        n <= b@.len(),
{
    let mut i: usize = 0;
    assert(a@.skip(0) == a@);
    assert(b@.skip(0) == b@);
    while i < a.len() && i < b.len() && a[i] == b[i]
        invariant
            i <= a.len(),
            i <= b.len(),
            common_len(a@, b@) == i + common_len(a@.skip(i as int), b@.skip(i as int)),
        decreases a.len() - i,
    {
        assert(a@.skip(i as int).drop_first() == a@.skip(i + 1));
        assert(b@.skip(i as int).drop_first() == b@.skip(i + 1));
        i += 1;
    }
    i
}

/// The longest common prefix of the items; empty for an empty list.
pub fn common_prefix_of(items: &Vec<Vec<char>>) -> (prefix: Vec<char>)
    ensures
        prefix@ == common_prefix(texts(items@)),
{
    if items.len() == 0 {
        return Vec::new();
    }
    let first = items[0].as_slice();
    let mut n: usize = first.len();
    let mut i: usize = 1;
    assert(texts(items@).take(1).len() == 1);
    while i < items.len()
        invariant
            1 <= i <= items.len(),
            first@ == texts(items@)[0],
            n == shared_len(texts(items@).take(i as int)),
            n <= first@.len(),
        decreases items.len() - i,
    {
        let shared = common_length(first, items[i].as_slice());
        proof {
            let now = texts(items@).take(i + 1);
            assert(now.drop_last() == texts(items@).take(i as int));
            assert(now[0] == first@);
            assert(now.last() == items@[i as int]@);
        }
        if shared < n {
            n = shared;
        }
        i += 1;
    }
    assert(texts(items@).take(items.len() as int) == texts(items@));
    slice_to_vec(&first[0..n])
}

/// The longest common prefix of the strings, character by character; empty
/// for an empty list.
pub fn longest_common_prefix(strings: &[String]) -> (prefix: String)
    ensures
        prefix@ == common_prefix(string_views(strings@)),
{
    let items = to_texts(strings);
    let prefix = common_prefix_of(&items);
    string_of(prefix.as_slice())
}

/// Whether the last word of the line is completed as a path: it holds a
/// `/`, begins with `.` or `~`, or is an argument of a command that works on
/// files.
pub open spec fn wants_path(parts: Seq<Seq<char>>) -> bool
    recommends
        parts.len() > 0,
{
    let last = parts.last();
    ||| last.contains('/')
    ||| (last.len() > 0 && last[0] == '.')
    ||| (last.len() > 0 && last[0] == '~')
    ||| (file_operation_commands().contains(parts[0]) && parts.len() > 1)
}

/// The directory to list for the directory part of a word. A part that
/// begins with `./` is taken below the working directory, and so is one that
/// begins with neither `/` nor `~`. A part that begins with `../` stands for
/// the working directory itself: the parent is not worked out.
pub open spec fn resolve_dir(dir_part: Seq<char>, current_dir: Seq<char>) -> Seq<char> {
    if "./"@.is_prefix_of(dir_part) {
        current_dir + seq!['/'] + dir_part.skip(2)
    } else if "../"@.is_prefix_of(dir_part) {
        current_dir
    } else if dir_part.len() > 0 && (dir_part[0] == '/' || dir_part[0] == '~') {
        dir_part
    } else {
        current_dir + seq!['/'] + dir_part
    }
}

/// What to complete in an input line: whether it is a path, the directory to
/// list, and the prefix typed so far. The word to complete is the last word
/// of the line. A line without words gives nothing to complete: an empty
/// prefix. A path is split at its last `/` into directory and prefix; a word
/// without one is a name in the working directory. A command name has no
/// directory.
pub open spec fn completion_target(input: Seq<char>, current_dir: Seq<char>) -> (
    bool,
    Seq<char>,
    Seq<char>,
) {
    let parts = tokens(input);
    if parts.len() == 0 {
        (false, Seq::empty(), Seq::empty())
    } else if wants_path(parts) {
        let last = parts.last();
        match last_position(last, '/') {
            Some(i) => (true, resolve_dir(last.take(i + 1), current_dir), last.skip(i + 1)),
            None => (true, current_dir, last),
        }
    } else {
        (false, Seq::empty(), parts.last())
    }
}

fn resolve_directory(dir_part: &[char], current_dir: &[char]) -> (dir: Vec<char>)
    ensures
        dir@ == resolve_dir(dir_part@, current_dir@),
{
    let here = chars_of("./");
    let up = chars_of("../");
    if starts_with(dir_part, here.as_slice()) {
        proof {
            reveal_strlit("./");
        }
        let mut dir = slice_to_vec(current_dir);
        dir.push('/');
        push_chars(&mut dir, &dir_part[2..dir_part.len()]);
        assert(dir_part@.subrange(2, dir_part@.len() as int) == dir_part@.skip(2));
        dir
    } else if starts_with(dir_part, up.as_slice()) {
        slice_to_vec(current_dir)
    } else if dir_part.len() > 0 && (dir_part[0] == '/' || dir_part[0] == '~') {
        slice_to_vec(dir_part)
    } else {
        let mut dir = slice_to_vec(current_dir);
        dir.push('/');
        push_chars(&mut dir, dir_part);
        dir
    }
}

/// What to complete in an input line, on characters.
pub fn locate_completion(input: &[char], current_dir: &[char]) -> (target: (
    bool,
    Vec<char>,
    Vec<char>,
))
    ensures
        (target.0, target.1@, target.2@) == completion_target(input@, current_dir@),
{
    let parts = split_whitespace(input);
    if parts.len() == 0 {
        return (false, Vec::new(), Vec::new());
    }
    assert(texts(parts@).last() == parts@[parts.len() - 1]@);
    assert(texts(parts@)[0] == parts@[0]@);
    let last = parts[parts.len() - 1].as_slice();
    let first = parts[0].as_slice();
    let table = file_operation_table();
    let end = last.len();
    let slash = find_last(last, '/');
    let is_path = slash.is_some() || (end > 0 && last[0] == '.') || (end > 0 && last[0] == '~')
        || (is_listed(first, table.as_slice()) && parts.len() > 1);
    if is_path {
        match slash {
            Some(i) => {
                let dir = resolve_directory(&last[0..i + 1], current_dir);
                let prefix = slice_to_vec(&last[i + 1..end]);
                assert(last@.subrange(0, i + 1) == last@.take(i + 1));
                assert(last@.subrange(i + 1, end as int) == last@.skip(i + 1));
                (true, dir, prefix)
            },
            None => (true, slice_to_vec(current_dir), slice_to_vec(last)),
        }
    } else {
        (false, Vec::new(), slice_to_vec(last))
    }
}

/// Parses an input line for completion: whether its last word is completed
/// as a path, the directory to list, and the prefix to complete.
pub fn parse_completion_input(input: &str, current_dir: &str) -> (parsed: (bool, String, String))
    ensures
        (parsed.0, parsed.1@, parsed.2@) == completion_target(input@, current_dir@),
{
    let line = chars_of(input);
    let cwd = chars_of(current_dir);
    let target = locate_completion(line.as_slice(), cwd.as_slice());
    (target.0, string_of(target.1.as_slice()), string_of(target.2.as_slice()))
}

/// The path of the entry `name` in the directory `dir`: the directory, a
/// `/` where the directory does not end with one, and the name.
pub open spec fn entry_path(dir: Seq<char>, name: Seq<char>) -> Seq<char> {
    if dir.len() > 0 && dir.last() == '/' {
        dir + name
    } else {
        dir + seq!['/'] + name
    }
}

/// Whether `path` names the entry `name` of the directory `dir`: it is the
/// directory, a `/`, and the name, where the `/` may be the one that the
/// directory ends with.
pub open spec fn names_entry(path: Seq<char>, dir: Seq<char>, name: Seq<char>) -> bool {
    path == dir + seq!['/'] + name || path == entry_path(dir, name)
}

/// The word that takes the place of the last word of the line. A command
/// name is replaced by the common prefix. A path is replaced by the common
/// prefix as an entry of the directory that was listed. For a word that
/// held a `/` the directory mostly ends with one, which is then not
/// repeated; it does not where the word began with `../`, for which the
/// working directory is listed. A name in the working directory is joined
/// to it with a `/` in any case.
pub open spec fn completed_word(
    last_part: Seq<char>,
    common_prefix: Seq<char>,
    is_path: bool,
    dir: Seq<char>,
) -> Seq<char> {
    if !is_path {
        common_prefix
    } else if last_part.contains('/') {
        entry_path(dir, common_prefix)
    } else {
        dir + seq!['/'] + common_prefix
    }
}

/// The input line with its last word replaced by `completed_word`, the words
/// one space apart. A line without words stays as it is.
pub open spec fn completed_input(
    input: Seq<char>,
    last_part: Seq<char>,
    common_prefix: Seq<char>,
    is_path: bool,
    dir: Seq<char>,
) -> Seq<char> {
    let parts = tokens(input);
    if parts.len() == 0 {
        input
    } else {
        join(
            parts.drop_last().push(completed_word(last_part, common_prefix, is_path, dir)),
            seq![' '],
        )
    }
}

/// The input line with its last word completed, on characters.
pub fn rebuild_input(
    input: &[char],
    last_part: &[char],
    common_prefix: &[char],
    is_path: bool,
    dir: &[char],
) -> (line: Vec<char>)
    ensures
        line@ == completed_input(input@, last_part@, common_prefix@, is_path, dir@),
{
    let mut parts = split_whitespace(input);
    if parts.len() == 0 {
        return slice_to_vec(input);
    }
    let mut word: Vec<char> = Vec::new();
    if !is_path {
        push_chars(&mut word, common_prefix);
    } else if contains_char(last_part, '/') {
        push_chars(&mut word, dir);
        if !(dir.len() > 0 && dir[dir.len() - 1] == '/') {
            word.push('/');
        }
        push_chars(&mut word, common_prefix);
    } else {
        push_chars(&mut word, dir);
        word.push('/');
        push_chars(&mut word, common_prefix);
    }
    assert(word@ == completed_word(last_part@, common_prefix@, is_path, dir@));
    let ghost before = parts@;
    parts.pop();
    parts.push(word);
    assert(texts(parts@) =~= texts(before).drop_last().push(word@));
    let space: [char; 1] = [' '];
    assert(space@ =~= seq![' ']);
    join_chars(&parts, space.as_slice())
}

/// Rebuilds the input line with its last word completed.
pub fn build_completed_input(
    input: &str,
    last_part: &str,
    common_prefix: &str,
    is_path: bool,
    dir: &str,
) -> (line: String)
    ensures
        line@ == completed_input(input@, last_part@, common_prefix@, is_path, dir@),
{
    let line = rebuild_input(
        chars_of(input).as_slice(),
        chars_of(last_part).as_slice(),
        chars_of(common_prefix).as_slice(),
        is_path,
        chars_of(dir).as_slice(),
    );
    string_of(line.as_slice())
}

/// The script that lists what the prefix may be completed to, at most 50
/// entries: for a path, the entries of the directory whose names begin with
/// the prefix; for a command, the command names that begin with it.
pub open spec fn listing_script(is_path: bool, dir: Seq<char>, prefix: Seq<char>) -> Seq<char> {
    if is_path {
        "cd \""@ + dir + "\" && ls -1d "@ + prefix + "* 2>/dev/null | head -50"@
    } else {
        "compgen -c "@ + prefix + " | head -50"@
    }
}

/// The command line that lists what the prefix may be completed to.
pub fn completion_query(is_path: bool, dir: &[char], prefix: &[char]) -> (line: Vec<char>)
    ensures
        line@ == shell_invocation(listing_script(is_path, dir@, prefix@)),
{
    let mut script: Vec<char> = Vec::new();
    if is_path {
        push_str(&mut script, "cd \"");
        push_chars(&mut script, dir);
        push_str(&mut script, "\" && ls -1d ");
        push_chars(&mut script, prefix);
        push_str(&mut script, "* 2>/dev/null | head -50");
    } else {
        push_str(&mut script, "compgen -c ");
        push_chars(&mut script, prefix);
        push_str(&mut script, " | head -50");
    }
    assert(script@ == listing_script(is_path, dir@, prefix@));
    invoke_shell(script.as_slice())
}

/// The name of an entry without the directories that lead to it: what
/// follows its last `/`.
pub open spec fn base_name(entry: Seq<char>) -> Seq<char> {
    match last_position(entry, '/') {
        Some(i) => entry.skip(i + 1),
        None => entry,
    }
}

/// What a line of the listing offers: the line without the white space
/// around it, and of a path only its base name.
pub open spec fn offered(line: Seq<char>, is_path: bool) -> Seq<char> {
    if is_path {
        base_name(trim(line))
    } else {
        trim(line)
    }
}

/// Whether one of the lines, not a blank one, offers `m`.
pub open spec fn offered_by(ls: Seq<Seq<char>>, m: Seq<char>, is_path: bool) -> bool {
    exists|i: int|
        0 <= i < ls.len() && trim(#[trigger] ls[i]).len() > 0 && offered(ls[i], is_path) == m
}

/// Whether `m` is a candidate: a line of the listing offers it, and it
/// begins with the prefix.
pub open spec fn is_candidate(
    m: Seq<char>,
    listing: Seq<char>,
    is_path: bool,
    prefix: Seq<char>,
) -> bool {
    prefix.is_prefix_of(m) && offered_by(lines(listing), m, is_path)
}

/// Whether `s` is the list of the candidates: sorted, each candidate once,
/// and nothing else.
pub open spec fn lists_candidates(
    s: Seq<Seq<char>>,
    listing: Seq<char>,
    is_path: bool,
    prefix: Seq<char>,
) -> bool {
    &&& strictly_ascending(s)
    &&& forall|m: Seq<char>| #[trigger] s.contains(m) <==> is_candidate(m, listing, is_path, prefix)
}

/// The list of the candidates. There is one such list for every listing,
/// and only one: see `lemma_candidates_are_listed` and
/// `lemma_ascending_unique`.
pub open spec fn candidates(listing: Seq<char>, is_path: bool, prefix: Seq<char>) -> Seq<
    Seq<char>,
> {
    choose|s: Seq<Seq<char>>| lists_candidates(s, listing, is_path, prefix)
}

/// The candidates that the lines offer for a prefix, sorted, each one once.
pub open spec fn gathered(ls: Seq<Seq<char>>, is_path: bool, prefix: Seq<char>) -> Seq<
    Seq<char>,
>
    decreases ls.len(),
{
    if ls.len() == 0 {
        Seq::empty()
    } else if trim(ls.last()).len() > 0 && prefix.is_prefix_of(offered(ls.last(), is_path)) {
        inserted(gathered(ls.drop_last(), is_path, prefix), offered(ls.last(), is_path))
    } else {
        gathered(ls.drop_last(), is_path, prefix)
    }
}

/// What is gathered from the lines is sorted, without repetitions, and
/// holds what the lines offer for the prefix and nothing else.
pub proof fn lemma_gathered(ls: Seq<Seq<char>>, is_path: bool, prefix: Seq<char>)
    ensures
        strictly_ascending(gathered(ls, is_path, prefix)),
        forall|m: Seq<char>| #[trigger]
            gathered(ls, is_path, prefix).contains(m) <==> (prefix.is_prefix_of(m) && offered_by(
                ls,
                m,
                is_path,
            )),
    decreases ls.len(),
{
    let all = gathered(ls, is_path, prefix);
    if ls.len() == 0 {
    } else {
        let seen = ls.drop_last();
        let line = ls.last();
        let before = gathered(seen, is_path, prefix);
        lemma_gathered(seen, is_path, prefix);
        let takes = trim(line).len() > 0 && prefix.is_prefix_of(offered(line, is_path));
        if takes {
            lemma_inserted(before, offered(line, is_path));
        }
        assert forall|m: Seq<char>| #[trigger]
            all.contains(m) <==> (prefix.is_prefix_of(m) && offered_by(ls, m, is_path)) by {
            if offered_by(ls, m, is_path) {
                let i = choose|i: int|
                    0 <= i < ls.len() && trim(#[trigger] ls[i]).len() > 0 && offered(
                        ls[i],
                        is_path,
                    ) == m;
                if i < seen.len() {
                    assert(seen[i] == ls[i]);
                }
            }
            if offered_by(seen, m, is_path) {
                let i = choose|i: int|
                    0 <= i < seen.len() && trim(#[trigger] seen[i]).len() > 0 && offered(
                        seen[i],
                        is_path,
                    ) == m;
                assert(ls[i] == seen[i]);
            }
            if trim(line).len() > 0 && offered(line, is_path) == m {
                assert(ls[ls.len() - 1] == line);
            }
            assert(before.contains(m) <==> (prefix.is_prefix_of(m) && offered_by(
                seen,
                m,
                is_path,
            )));
        }
    }
}

/// Every listing has its list of candidates: sorted, each candidate once,
/// and nothing else.
pub proof fn lemma_candidates_are_listed(listing: Seq<char>, is_path: bool, prefix: Seq<char>)
    ensures
        lists_candidates(candidates(listing, is_path, prefix), listing, is_path, prefix),
{
    lemma_gathered(lines(listing), is_path, prefix);
    assert(lists_candidates(gathered(lines(listing), is_path, prefix), listing, is_path, prefix));
}

/// The base name of an entry, as a part of it.
pub fn base_name_of(entry: &[char]) -> (name: &[char])
    ensures
        name@ == base_name(entry@),
{
    let end = entry.len();
    match find_last(entry, '/') {
        Some(i) => {
            assert(entry@.subrange(i + 1, end as int) == entry@.skip(i + 1));
            &entry[i + 1..end]
        },
        None => entry,
    }
}

/// The candidates that a listing holds for a prefix: sorted, each one once.
pub fn collect_candidates(listing: &[char], is_path: bool, prefix: &[char]) -> (found: Vec<
    Vec<char>,
>)
    ensures
        texts(found@) == candidates(listing@, is_path, prefix@),
        lists_candidates(texts(found@), listing@, is_path, prefix@),
{
    let ls = split_lines(listing);
    let mut found: Vec<Vec<char>> = Vec::new();
    let mut k: usize = 0;
    assert(texts(ls@).take(0).len() == 0);
    while k < ls.len()
        invariant
            k <= ls.len(),
            texts(ls@) == lines(listing@),
            texts(found@) == gathered(texts(ls@).take(k as int), is_path, prefix@),
        decreases ls.len() - k,
    {
        let line = ls[k].as_slice();
        proof {
            let now = texts(ls@).take(k + 1);
            assert(now.drop_last() == texts(ls@).take(k as int));
            assert(now.last() == line@);
        }
        let bounds = trim_bounds(line);
        if bounds.0 < bounds.1 {
            let trimmed = &line[bounds.0..bounds.1];
            let name = if is_path {
                base_name_of(trimmed)
            } else {
                trimmed
            };
            assert(name@ == offered(line@, is_path));
            if starts_with(name, prefix) {
                insert_ascending(&mut found, slice_to_vec(name));
            }
        }
        k += 1;
    }
    proof {
        assert(texts(ls@).take(ls.len() as int) == texts(ls@));
        lemma_gathered(lines(listing@), is_path, prefix@);
        lemma_candidates_are_listed(listing@, is_path, prefix@);
        lemma_ascending_unique(texts(found@), candidates(listing@, is_path, prefix@));
    }
    found
}

/// What completion comes to.
pub enum Completion {
    /// There is nothing to complete, or nothing to complete it with.
    Nothing,
    /// The input line with its last word completed.
    Completed(Seq<char>),
    /// The candidates to choose from.
    Candidates(Seq<Seq<char>>),
}

/// What completion comes to for a prefix and its candidates. With one
/// candidate, or where all candidates go on alike behind the prefix, the
/// last word is completed to their longest common prefix. Otherwise the
/// candidates are shown.
pub open spec fn completion_of(
    input: Seq<char>,
    is_path: bool,
    dir: Seq<char>,
    prefix: Seq<char>,
    found: Seq<Seq<char>>,
) -> Completion {
    if found.len() == 0 {
        Completion::Nothing
    } else if found.len() == 1 || common_prefix(found).len() > prefix.len() {
        Completion::Completed(
            completed_input(
                input,
                if tokens(input).len() > 0 {
                    tokens(input).last()
                } else {
                    Seq::empty()
                },
                common_prefix(found),
                is_path,
                dir,
            ),
        )
    } else {
        Completion::Candidates(found)
    }
}

/// What completion comes to for an input line, given how the listing ended
/// and what it printed. Nothing comes of a line without a word to complete,
/// nor of a listing that failed.
pub open spec fn completion_outcome(
    input: Seq<char>,
    current_dir: Seq<char>,
    exit_code: u32,
    listing: Seq<char>,
) -> Completion {
    let target = completion_target(input, current_dir);
    if target.2.len() == 0 || exit_code != 0 {
        Completion::Nothing
    } else {
        completion_of(input, target.0, target.1, target.2, candidates(listing, target.0, target.2))
    }
}

/// Whether the result says what the completion came to.
pub open spec fn shows(r: CompleteCommandResult, c: Completion) -> bool {
    match c {
        Completion::Nothing => r.completed_input.is_none() && r.matches@.len() == 0
            && !r.should_show_matches,
        Completion::Completed(line) => option_view(r.completed_input) == Some(line)
            && r.matches@.len() == 0 && !r.should_show_matches,
        Completion::Candidates(found) => r.completed_input.is_none() && string_views(r.matches@)
            == found && r.should_show_matches,
    }
}

/// The result that reports no completion.
pub fn no_completion() -> (r: CompleteCommandResult)
    ensures
        shows(r, Completion::Nothing),
{
    CompleteCommandResult {
        completed_input: None,
        matches: Vec::new(),
        should_show_matches: false,
    }
}

/// Completes the input line from what the listing printed.
pub fn complete_from_listing(input: &str, current_dir: &str, exit_code: u32, listing: &str) -> (r:
    CompleteCommandResult)
    ensures
        shows(r, completion_outcome(input@, current_dir@, exit_code, listing@)),
{
    let line = chars_of(input);
    let cwd = chars_of(current_dir);
    let target = locate_completion(line.as_slice(), cwd.as_slice());
    let is_path = target.0;
    let dir = target.1;
    let prefix = target.2;
    if prefix.len() == 0 || exit_code != 0 {
        return no_completion();
    }
    let found = collect_candidates(chars_of(listing).as_slice(), is_path, prefix.as_slice());
    if found.len() == 0 {
        return no_completion();
    }
    let common = common_prefix_of(&found);
    if found.len() == 1 || common.len() > prefix.len() {
        let parts = split_whitespace(line.as_slice());
        let empty: Vec<char> = Vec::new();
        let last_part = if parts.len() > 0 {
            assert(texts(parts@).last() == parts@[parts.len() - 1]@);
            parts[parts.len() - 1].as_slice()
        } else {
            empty.as_slice()
        };
        let completed = rebuild_input(
            line.as_slice(),
            last_part,
            common.as_slice(),
            is_path,
            dir.as_slice(),
        );
        CompleteCommandResult {
            completed_input: Some(string_of(completed.as_slice())),
            matches: Vec::new(),
            should_show_matches: false,
        }
    } else {
        CompleteCommandResult {
            completed_input: None,
            matches: to_strings(&found),
            should_show_matches: true,
        }
    }
}

} // verus!
