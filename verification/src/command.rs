//! The command executor: which command lines are run, as what script, and
//! what is made of their output.

use crate::assumed::{decode_lossy, utf8_lossy};
use crate::lines::{is_plain_line, lemma_lines_first, lemma_lines_last, lines, split_lines};
use crate::quoting::{escape_single_quotes, push_escaped, shell_invocation, wrap_for_shell};
use crate::records::{ExecuteSshCommandResult, ExecutionView};
use crate::text::{
    chars_of, is_listed, names, push_chars, push_str, spells, starts_with, string_of, string_views,
    texts, to_strings,
};
use crate::whitespace::{split_whitespace, tokens, trim, trim_bounds};
use vstd::prelude::*;
use vstd::slice::slice_to_vec;
use vstd::utf8::{encode_utf8, encode_utf8_decode_utf8, encode_utf8_valid_utf8};

verus! {

/// The guidance for `vim` and `vi`.
pub const EDITOR_GUIDANCE: &'static str = "警告: vim/vi 是交互式程序，当前终端不支持交互式操作。\n提示: 可以使用以下替代方案：\n  - 使用 cat/less 查看文件: less <文件名>\n  - 使用 echo 创建/编辑文件: echo \"内容\" > <文件名>\n  - 使用 sed 编辑文件: sed -i 's/旧/新/g' <文件名>";

/// The guidance for `nano`.
pub const NANO_GUIDANCE: &'static str = "警告: nano 是交互式程序，当前终端不支持交互式操作。\n提示: 可以使用以下替代方案：\n  - 使用 cat/less 查看文件: less <文件名>\n  - 使用 echo 创建/编辑文件: echo \"内容\" > <文件名>";

/// The guidance for `htop` and `top`.
pub const MONITOR_GUIDANCE: &'static str = "警告: htop/top 是交互式程序，当前终端不支持交互式操作。\n提示: 可以使用以下替代方案：\n  - 使用 ps 查看进程: ps aux\n  - 使用 ps aux | head 查看前几个进程";

/// The guidance for `less` and `more`.
pub const PAGER_GUIDANCE: &'static str = "警告: less/more 是交互式程序，当前终端不支持交互式操作。\n提示: 可以使用以下替代方案：\n  - 使用 cat 查看文件: cat <文件名>\n  - 使用 head/tail 查看文件部分内容";

/// The guidance for `man`.
pub const MANUAL_GUIDANCE: &'static str = "警告: man 是交互式程序，当前终端不支持交互式操作。\n提示: 可以使用以下替代方案：\n  - 使用 man -P cat <命令> 查看手册\n  - 使用 --help 选项查看帮助";

/// The guidance for `screen`, `tmux` and `byobu`.
pub const MULTIPLEXER_GUIDANCE: &'static str = "警告: screen/tmux/byobu 是终端复用器，当前终端不支持。\n提示: 可以使用以下替代方案：\n  - 使用 nohup 在后台运行命令\n  - 使用 & 在后台运行命令";

/// What the guidance for any other interactive program begins with.
pub const GUIDANCE_HEAD: &'static str = "警告: ";

/// What the guidance for any other interactive program ends with.
pub const GUIDANCE_TAIL: &'static str = " 是交互式程序，当前终端不支持交互式操作。";

/// The programs that need a terminal of their own and are not run.
pub open spec fn interactive_commands() -> Seq<Seq<char>> {
    seq![
        "vim"@,
        "vi"@,
        "nano"@,
        "emacs"@,
        "htop"@,
        "top"@,
        "less"@,
        "more"@,
        "man"@,
        "screen"@,
        "tmux"@,
        "byobu"@,
        "mc"@,
        "ranger"@,
        "ncdu"@,
        "glances"@,
        "watch"@,
        "dialog"@,
        "whiptail"@,
        "fzf"@,
        "ripgrep"@,
        "bat"@,
        "lesspipe"@,
    ]
}

fn interactive_table() -> (table: [&'static str; 23])
    ensures
        names(table@) == interactive_commands(),
{
    let table = [
        "vim",
        "vi",
        "nano",
        "emacs",
        "htop",
        "top",
        "less",
        "more",
        "man",
        "screen",
        "tmux",
        "byobu",
        "mc",
        "ranger",
        "ncdu",
        "glances",
        "watch",
        "dialog",
        "whiptail",
        "fzf",
        "ripgrep",
        "bat",
        "lesspipe",
    ];
    assert(names(table@) =~= interactive_commands());
    table
}

/// Whether the first word of the command line names an interactive
/// program. A line without words does not.
pub open spec fn is_interactive(command: Seq<char>) -> bool {
    tokens(command).len() > 0 && interactive_commands().contains(tokens(command)[0])
}

/// Whether the command line starts an interactive program, on characters.
pub fn starts_interactive(command: &[char]) -> (b: bool)
    ensures
        b == is_interactive(command@),
{
    let parts = split_whitespace(command);
    if parts.len() == 0 {
        return false;
    }
    assert(texts(parts@)[0] == parts@[0]@);
    let table = interactive_table();
    is_listed(parts[0].as_slice(), table.as_slice())
}

/// Whether the command line starts an interactive program.
pub fn is_interactive_command(command: &str) -> (b: bool)
    ensures
        b == is_interactive(command@),
{
    starts_interactive(chars_of(command).as_slice())
}

/// The guidance shown for an interactive program, by its name.
pub open spec fn interactive_message(command_name: Seq<char>) -> Seq<char> {
    if command_name == "vim"@ || command_name == "vi"@ {
        EDITOR_GUIDANCE@
    } else if command_name == "nano"@ {
        NANO_GUIDANCE@
    } else if command_name == "htop"@ || command_name == "top"@ {
        MONITOR_GUIDANCE@
    } else if command_name == "less"@ || command_name == "more"@ {
        PAGER_GUIDANCE@
    } else if command_name == "man"@ {
        MANUAL_GUIDANCE@
    } else if command_name == "screen"@ || command_name == "tmux"@ || command_name == "byobu"@ {
        MULTIPLEXER_GUIDANCE@
    } else {
        GUIDANCE_HEAD@ + command_name + GUIDANCE_TAIL@
    }
}

/// The guidance shown for an interactive program, on characters.
pub fn guidance_for(name: &[char]) -> (message: Vec<char>)
    ensures
        message@ == interactive_message(name@),
{
    if spells(name, "vim") || spells(name, "vi") {
        chars_of(EDITOR_GUIDANCE)
    } else if spells(name, "nano") {
        chars_of(NANO_GUIDANCE)
    } else if spells(name, "htop") || spells(name, "top") {
        chars_of(MONITOR_GUIDANCE)
    } else if spells(name, "less") || spells(name, "more") {
        chars_of(PAGER_GUIDANCE)
    } else if spells(name, "man") {
        chars_of(MANUAL_GUIDANCE)
    } else if spells(name, "screen") || spells(name, "tmux") || spells(name, "byobu") {
        chars_of(MULTIPLEXER_GUIDANCE)
    } else {
        let mut message: Vec<char> = Vec::new();
        push_str(&mut message, GUIDANCE_HEAD);
        push_chars(&mut message, name);
        push_str(&mut message, GUIDANCE_TAIL);
        message
    }
}

/// The guidance shown in place of output for an interactive program.
pub fn generate_interactive_message(command_name: &str) -> (message: String)
    ensures
        message@ == interactive_message(command_name@),
{
    string_of(guidance_for(chars_of(command_name).as_slice()).as_slice())
}

/// The directory that a change of directory names: the home directory for
/// a bare `cd`, else what follows `cd` and a space, without the white space
/// around it. Nothing where the command line is no change of directory.
pub open spec fn cd_target(command: Seq<char>) -> Option<Seq<char>> {
    let line = trim(command);
    if line == "cd"@ {
        Some("~"@)
    } else if "cd "@.is_prefix_of(line) {
        Some(trim(line.skip(3)))
    } else {
        None
    }
}

/// The script that changes into the working directory, from there into the
/// target, and prints where it has arrived.
pub open spec fn cd_script(current_dir: Seq<char>, target: Seq<char>) -> Seq<char> {
    "cd \""@ + current_dir + "\" && cd \""@ + target + "\" && pwd"@
}

/// What a change of directory is rewritten to: its script in escaped form,
/// and the mark that it is one. Any other command line comes back as it is,
/// without the mark.
pub open spec fn cd_command(command: Seq<char>, current_dir: Seq<char>) -> (Seq<char>, bool) {
    match cd_target(command) {
        Some(target) => (escape_single_quotes(cd_script(current_dir, target)), true),
        None => (command, false),
    }
}

/// Rewrites a change of directory, on characters.
pub fn rewrite_cd(command: &[char], current_dir: &[char]) -> (rewritten: (Vec<char>, bool))
    ensures
        (rewritten.0@, rewritten.1) == cd_command(command@, current_dir@),
{
    let bounds = trim_bounds(command);
    let line = &command[bounds.0..bounds.1];
    let mut target: Vec<char> = Vec::new();
    if spells(line, "cd") {
        push_str(&mut target, "~");
    } else if starts_with(line, chars_of("cd ").as_slice()) {
        proof {
            reveal_strlit("cd ");
        }
        let rest = &line[3..line.len()];
        assert(rest@ == line@.skip(3));
        let inner = trim_bounds(rest);
        push_chars(&mut target, &rest[inner.0..inner.1]);
    } else {
        return (slice_to_vec(command), false);
    }
    assert(cd_target(command@) == Some(target@));
    let mut script: Vec<char> = Vec::new();
    push_str(&mut script, "cd \"");
    push_chars(&mut script, current_dir);
    push_str(&mut script, "\" && cd \"");
    push_chars(&mut script, target.as_slice());
    push_str(&mut script, "\" && pwd");
    assert(script@ == cd_script(current_dir@, target@));
    let mut escaped: Vec<char> = Vec::new();
    push_escaped(&mut escaped, script.as_slice());
    (escaped, true)
}

/// Rewrites a change of directory so that it starts from the working
/// directory and reports the directory it arrives in.
pub fn process_cd_command(command: &str, current_dir: &str) -> (rewritten: (String, bool))
    ensures
        (rewritten.0@, rewritten.1) == cd_command(command@, current_dir@),
{
    let rewritten = rewrite_cd(chars_of(command).as_slice(), chars_of(current_dir).as_slice());
    (string_of(rewritten.0.as_slice()), rewritten.1)
}

/// The script that runs a command in the working directory. In the home
/// directory, and where no directory is given, the command runs as it is.
pub open spec fn normal_script(command: Seq<char>, current_dir: Seq<char>) -> Seq<char> {
    if current_dir == "~"@ || current_dir.len() == 0 {
        command
    } else {
        "cd \""@ + current_dir + "\" && "@ + command
    }
}

/// The script that runs a command in the working directory, in escaped
/// form, on characters.
pub fn rewrite_normal(command: &[char], current_dir: &[char]) -> (escaped: Vec<char>)
    ensures
        escaped@ == escape_single_quotes(normal_script(command@, current_dir@)),
{
    let mut script: Vec<char> = Vec::new();
    if !(spells(current_dir, "~") || current_dir.len() == 0) {
        push_str(&mut script, "cd \"");
        push_chars(&mut script, current_dir);
        push_str(&mut script, "\" && ");
    }
    push_chars(&mut script, command);
    assert(script@ == normal_script(command@, current_dir@));
    let mut escaped: Vec<char> = Vec::new();
    push_escaped(&mut escaped, script.as_slice());
    escaped
}

/// Rewrites a command so that it runs in the working directory.
pub fn process_normal_command(command: &str, current_dir: &str) -> (escaped: String)
    ensures
        escaped@ == escape_single_quotes(normal_script(command@, current_dir@)),
{
    let escaped = rewrite_normal(chars_of(command).as_slice(), chars_of(current_dir).as_slice());
    string_of(escaped.as_slice())
}

/// The lines to display for an output. The last line is left out where it
/// is empty and not the only one, and an output without lines gives one
/// empty line.
pub open spec fn display_lines(output: Seq<char>) -> Seq<Seq<char>> {
    let all = lines(output);
    if all.len() == 0 {
        seq![Seq::empty()]
    } else if all.len() > 1 && all.last().len() == 0 {
        all.drop_last()
    } else {
        all
    }
}

/// The lines to display for an output, on characters.
pub fn display_lines_of(output: &[char]) -> (shown: Vec<Vec<char>>)
    ensures
        texts(shown@) == display_lines(output@),
{
    let mut all = split_lines(output);
    let count = all.len();
    if count == 0 {
        all.push(Vec::new());
        assert(texts(all@) =~= seq![Seq::<char>::empty()]);
    } else if count > 1 && all[count - 1].len() == 0 {
        let ghost before = texts(all@);
        assert(before.last() == all@[count - 1]@);
        all.pop();
        assert(texts(all@) =~= before.drop_last());
    } else {
        assert(texts(all@).last() == all@[count - 1]@);
    }
    all
}

/// Splits an output into the lines to display.
pub fn split_output_lines(output: &str) -> (shown: Vec<String>)
    ensures
        string_views(shown@) == display_lines(output@),
{
    let shown = display_lines_of(chars_of(output).as_slice());
    to_strings(&shown)
}

/// The answer to a command line that starts an interactive program: exit
/// code 0, no output, and the guidance for the program, which is also what
/// the lines to display are made of.
pub open spec fn interactive_answer(command: Seq<char>) -> ExecutionView {
    let message = interactive_message(tokens(trim(command))[0]);
    ExecutionView {
        output: Seq::empty(),
        exit_code: 0,
        is_interactive: true,
        interactive_message: Some(message),
        new_dir: None,
        output_lines: display_lines(message),
    }
}

/// The working directory of a command: the home directory where none is
/// given.
pub open spec fn working_dir(current_dir: Option<Seq<char>>) -> Seq<char> {
    match current_dir {
        Some(dir) => dir,
        None => "~"@,
    }
}

/// The script that is run for a command line: for a change of directory the
/// script that reports the new directory, for any other command line the
/// line without the white space around it, run in the working directory.
pub open spec fn remote_script(command: Seq<char>, current_dir: Seq<char>) -> Seq<char> {
    match cd_target(command) {
        Some(target) => cd_script(current_dir, target),
        None => normal_script(trim(command), current_dir),
    }
}

/// What is done about a command line.
#[derive(Debug)]
pub enum ExecutionPlan {
    /// It is answered at once, without the server.
    Answer(ExecuteSshCommandResult),
    /// The shell command is run on the server.
    Run { shell_command: String, is_cd: bool },
}

/// Decides what is done about a command line. One that starts an
/// interactive program is answered with guidance. Any other is rewritten to
/// a script and handed to `bash` as one single-quoted argument.
pub fn plan_execution(command: &str, current_dir: Option<&str>) -> (plan: ExecutionPlan)
    ensures
        match plan {
            ExecutionPlan::Answer(r) => is_interactive(trim(command@)) && r@ == interactive_answer(
                command@,
            ),
            ExecutionPlan::Run { shell_command, is_cd } => !is_interactive(trim(command@)) && is_cd
                == cd_target(command@).is_some() && shell_command@ == shell_invocation(
                remote_script(
                    command@,
                    working_dir(
                        match current_dir {
                            Some(dir) => Some(dir@),
                            None => None,
                        },
                    ),
                ),
            ),
        },
{
    let line = chars_of(command);
    let bounds = trim_bounds(line.as_slice());
    let trimmed = &line.as_slice()[bounds.0..bounds.1];
    let dir = match current_dir {
        Some(dir) => chars_of(dir),
        None => chars_of("~"),
    };
    let parts = split_whitespace(trimmed);
    if starts_interactive(trimmed) {
        assert(texts(parts@)[0] == parts@[0]@);
        let message = guidance_for(parts[0].as_slice());
        let shown = display_lines_of(message.as_slice());
        return ExecutionPlan::Answer(
            ExecuteSshCommandResult {
                output: String::new(),
                exit_code: 0,
                is_interactive: true,
                interactive_message: Some(string_of(message.as_slice())),
                new_dir: None,
                output_lines: to_strings(&shown),
            },
        );
    }
    let rewritten = rewrite_cd(line.as_slice(), dir.as_slice());
    let escaped = if rewritten.1 {
        rewritten.0
    } else {
        rewrite_normal(trimmed, dir.as_slice())
    };
    let shell_command = wrap_for_shell(escaped.as_slice());
    ExecutionPlan::Run { shell_command: string_of(shell_command.as_slice()), is_cd: rewritten.1 }
}

/// The exit code shown for an exit status: the same 32 bits, read as a
/// signed number.
pub open spec fn exit_code_of(exit_status: u32) -> i32 {
    if exit_status <= 0x7fff_ffff {
        exit_status as i32
    } else {
        (exit_status - 0x1_0000_0000) as i32
    }
}

/// The exit code shown for an exit status.
pub fn exit_code_for(exit_status: u32) -> (code: i32)
    ensures
        code == exit_code_of(exit_status),
{
    if exit_status <= 0x7fff_ffff {
        exit_status as i32
    } else {
        let below: u32 = 0xffff_ffff - exit_status;
        -1 - (below as i32)
    }
}

/// What running a command line gave, from the text it printed and its exit
/// status. After a change of directory that succeeded, the new directory is
/// the text without the white space around it.
pub open spec fn execution_view(output: Seq<char>, exit_status: u32, is_cd: bool) -> ExecutionView {
    ExecutionView {
        output,
        exit_code: exit_code_of(exit_status),
        is_interactive: false,
        interactive_message: None,
        new_dir: if is_cd && exit_status == 0 {
            Some(trim(output))
        } else {
            None
        },
        output_lines: display_lines(output),
    }
}

/// Makes the result of a command from the text it printed and its exit
/// status.
pub fn execution_result(output: String, exit_status: u32, is_cd: bool) -> (r:
    ExecuteSshCommandResult)
    ensures
        r@ == execution_view(output@, exit_status, is_cd),
{
    let text = chars_of(output.as_str());
    let shown = display_lines_of(text.as_slice());
    let new_dir = if is_cd && exit_status == 0 {
        let bounds = trim_bounds(text.as_slice());
        Some(string_of(&text.as_slice()[bounds.0..bounds.1]))
    } else {
        None
    };
    ExecuteSshCommandResult {
        output,
        exit_code: exit_code_for(exit_status),
        is_interactive: false,
        interactive_message: None,
        new_dir,
        output_lines: to_strings(&shown),
    }
}

/// Makes the result of a command from the bytes it printed, read as UTF-8
/// with a replacement character for what is not, and its exit status. Bytes
/// that are the UTF-8 encoding of a text are read as that text.
pub fn finish_execution(output: &[u8], exit_status: u32, is_cd: bool) -> (r:
    ExecuteSshCommandResult)
    ensures
        r@ == execution_view(utf8_lossy(output@), exit_status, is_cd),
        forall|text: Seq<char>|
            output@ == #[trigger] encode_utf8(text) ==> r@ == execution_view(
                text,
                exit_status,
                is_cd,
            ),
{
    let decoded = decode_lossy(output);
    proof {
        assert forall|text: Seq<char>| output@ == #[trigger] encode_utf8(text) implies decoded@
            == text by {
            encode_utf8_valid_utf8(text);
            encode_utf8_decode_utf8(text);
        }
    }
    execution_result(decoded, exit_status, is_cd)
}

/// Two lines are shown as two lines, whether or not a line feed follows the
/// second, and an empty output is shown as one empty line.
pub proof fn lemma_display_two_lines(a: Seq<char>, b: Seq<char>)
    requires
        is_plain_line(a),
        is_plain_line(b),
        b.len() > 0,
    ensures
        display_lines(a + seq!['\n'] + b + seq!['\n']) == seq![a, b],
        display_lines(a + seq!['\n'] + b) == seq![a, b],
        display_lines(Seq::empty()) == seq![Seq::<char>::empty()],
{
    let none = Seq::<char>::empty();
    assert(lines(none) == Seq::<Seq<char>>::empty());
    lemma_lines_first(a, b + seq!['\n']);
    lemma_lines_first(b, none);
    assert(b + seq!['\n'] + none == b + seq!['\n']);
    assert(a + seq!['\n'] + (b + seq!['\n']) == a + seq!['\n'] + b + seq!['\n']);
    assert(seq![a] + (seq![b] + Seq::<Seq<char>>::empty()) == seq![a, b]);
    lemma_lines_first(a, b);
    lemma_lines_last(b);
    assert(seq![a] + seq![b] == seq![a, b]);
    assert(seq![a, b].last() == b);
}

/// None of the fixed guidance texts is empty.
proof fn lemma_fixed_guidance_not_empty()
    ensures
        EDITOR_GUIDANCE@.len() > 0,
        NANO_GUIDANCE@.len() > 0,
        MONITOR_GUIDANCE@.len() > 0,
        PAGER_GUIDANCE@.len() > 0,
        MANUAL_GUIDANCE@.len() > 0,
        MULTIPLEXER_GUIDANCE@.len() > 0,
{
    reveal_strlit("警告: vim/vi 是交互式程序，当前终端不支持交互式操作。\n提示: 可以使用以下替代方案：\n  - 使用 cat/less 查看文件: less <文件名>\n  - 使用 echo 创建/编辑文件: echo \"内容\" > <文件名>\n  - 使用 sed 编辑文件: sed -i 's/旧/新/g' <文件名>");
    reveal_strlit("警告: nano 是交互式程序，当前终端不支持交互式操作。\n提示: 可以使用以下替代方案：\n  - 使用 cat/less 查看文件: less <文件名>\n  - 使用 echo 创建/编辑文件: echo \"内容\" > <文件名>");
    reveal_strlit("警告: htop/top 是交互式程序，当前终端不支持交互式操作。\n提示: 可以使用以下替代方案：\n  - 使用 ps 查看进程: ps aux\n  - 使用 ps aux | head 查看前几个进程");
    reveal_strlit("警告: less/more 是交互式程序，当前终端不支持交互式操作。\n提示: 可以使用以下替代方案：\n  - 使用 cat 查看文件: cat <文件名>\n  - 使用 head/tail 查看文件部分内容");
    reveal_strlit("警告: man 是交互式程序，当前终端不支持交互式操作。\n提示: 可以使用以下替代方案：\n  - 使用 man -P cat <命令> 查看手册\n  - 使用 --help 选项查看帮助");
    reveal_strlit("警告: screen/tmux/byobu 是终端复用器，当前终端不支持。\n提示: 可以使用以下替代方案：\n  - 使用 nohup 在后台运行命令\n  - 使用 & 在后台运行命令");
}

/// The guidance for an interactive program is never empty.
pub proof fn lemma_guidance_not_empty(command_name: Seq<char>)
    ensures
        interactive_message(command_name).len() > 0,
{
    reveal_strlit("警告: ");
    assert(GUIDANCE_HEAD@.len() > 0);
    lemma_fixed_guidance_not_empty();
}

} // verus!
