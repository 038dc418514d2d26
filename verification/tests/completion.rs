use ssh_terminal::completion::{
    base_name_of, build_completed_input, collect_candidates, common_length, common_prefix_of,
    complete_from_listing, completion_query, is_file_operation_command,
    locate_completion, longest_common_prefix, no_completion, parse_completion_input,
    rebuild_input,
};
use ssh_terminal::text::chars_of;

fn strings(items: &[&str]) -> Vec<String> {
    items.iter().map(|s| s.to_string()).collect()
}

fn shown(items: &[Vec<char>]) -> Vec<String> {
    items.iter().map(|t| t.iter().collect()).collect()
}

fn parsed(input: &str, dir: &str) -> (bool, String, String) {
    parse_completion_input(input, dir)
}

fn target(is_path: bool, dir: &str, prefix: &str) -> (bool, String, String) {
    (is_path, dir.to_string(), prefix.to_string())
}

#[test]
fn common_prefix_of_three_names() {
    assert_eq!(longest_common_prefix(&strings(&["abc", "abd", "abe"])), "ab");
}

#[test]
fn common_prefix_of_one_name_is_the_name() {
    assert_eq!(longest_common_prefix(&strings(&["config.json"])), "config.json");
    assert_eq!(longest_common_prefix(&strings(&["日本語"])), "日本語");
    assert_eq!(longest_common_prefix(&strings(&[""])), "");
}

#[test]
fn common_prefix_of_nothing_is_empty() {
    assert_eq!(longest_common_prefix(&[]), "");
}

#[test]
fn common_prefix_is_taken_by_characters() {
    assert_eq!(longest_common_prefix(&strings(&["héllo", "hé", "héron"])), "hé");
    assert_eq!(longest_common_prefix(&strings(&["日本語", "日本酒"])), "日本");
    assert_eq!(longest_common_prefix(&strings(&["é", "è"])), "");
    assert_eq!(longest_common_prefix(&strings(&["abc", "xyz"])), "");
    assert_eq!(longest_common_prefix(&strings(&["abc", ""])), "");
    assert_eq!(longest_common_prefix(&strings(&["", "abc"])), "");
    assert_eq!(longest_common_prefix(&strings(&["same", "same", "same"])), "same");
    assert_eq!(longest_common_prefix(&strings(&["Abc", "abc"])), "");
    assert_eq!(longest_common_prefix(&strings(&["abcd", "abc", "ab", "abcde"])), "ab");
}

#[test]
fn common_length_counts_agreeing_positions() {
    assert_eq!(common_length(&chars_of("abc"), &chars_of("abd")), 2);
    assert_eq!(common_length(&chars_of("abc"), &chars_of("abc")), 3);
    assert_eq!(common_length(&chars_of("abc"), &chars_of("")), 0);
    assert_eq!(common_length(&chars_of("xbc"), &chars_of("abc")), 0);
    assert_eq!(common_length(&chars_of("ab"), &chars_of("abc")), 2);
    let items = vec![chars_of("make"), chars_of("makefile"), chars_of("man")];
    assert_eq!(common_prefix_of(&items), chars_of("ma"));
    assert_eq!(common_prefix_of(&Vec::new()), Vec::<char>::new());
}

#[test]
fn file_commands_are_recognised() {
    for name in [
        "cd", "ls", "cat", "less", "more", "head", "tail", "grep", "find", "rm", "rmdir", "mkdir",
        "touch", "cp", "mv", "chmod", "chown", "vi", "vim", "nano", "pwd", "open", "file", "stat",
        "readlink",
    ] {
        assert!(is_file_operation_command(name), "{:?}", name);
    }
    for name in ["git", "", "CD", "cd ", " ls", "echo", "lsof", "c"] {
        assert!(!is_file_operation_command(name), "{:?}", name);
    }
}

#[test]
fn a_line_without_words_has_nothing_to_complete() {
    assert_eq!(parsed("", "/home/u"), target(false, "", ""));
    assert_eq!(parsed("   \t ", "/home/u"), target(false, "", ""));
}

#[test]
fn a_single_word_is_a_command_name() {
    assert_eq!(parsed("gi", "/home/u"), target(false, "", "gi"));
    assert_eq!(parsed("  gi  ", "/home/u"), target(false, "", "gi"));
    assert_eq!(parsed("ls", "/home/u"), target(false, "", "ls"));
    assert_eq!(parsed("ls ", "/home/u"), target(false, "", "ls"));
    assert_eq!(parsed("sudo apt", "/home/u"), target(false, "", "apt"));
}

#[test]
fn an_argument_of_a_file_command_is_a_path() {
    assert_eq!(parsed("cd pro", "/home/u"), target(true, "/home/u", "pro"));
    assert_eq!(parsed("cat a b", "~"), target(true, "~", "b"));
    assert_eq!(parsed("  ls   -l   fi ", "/srv"), target(true, "/srv", "fi"));
}

#[test]
fn a_word_that_looks_like_a_path_is_a_path() {
    assert_eq!(parsed(".bash", "/home/u"), target(true, "/home/u", ".bash"));
    assert_eq!(parsed("~", "/home/u"), target(true, "/home/u", "~"));
    assert_eq!(parsed("echo .git", "/w"), target(true, "/w", ".git"));
    assert_eq!(parsed("git add src/ma", "/w"), target(true, "/w/src/", "ma"));
}

#[test]
fn directories_are_resolved_against_the_working_directory() {
    assert_eq!(parsed("cat ./src/ma", "/home/u"), target(true, "/home/u/src/", "ma"));
    assert_eq!(parsed("./scr", "/home/u"), target(true, "/home/u/", "scr"));
    assert_eq!(parsed("cat sub/dir/fi", "/home/u"), target(true, "/home/u/sub/dir/", "fi"));
    assert_eq!(parsed("ls /etc/pa", "/home/u"), target(true, "/etc/", "pa"));
    assert_eq!(parsed("ls /", "/home/u"), target(true, "/", ""));
    assert_eq!(parsed("ls ~/Do", "/home/u"), target(true, "~/", "Do"));
    assert_eq!(parsed("ls src/", "/home/u"), target(true, "/home/u/src/", ""));
    assert_eq!(parsed("cat .hidden/fi", "/home/u"), target(true, "/home/u/.hidden/", "fi"));
}

#[test]
fn a_parent_directory_is_taken_for_the_working_directory() {
    assert_eq!(parsed("cat ../x", "/home/u"), target(true, "/home/u", "x"));
    assert_eq!(parsed("cat ../../a/b", "/home/u"), target(true, "/home/u", "b"));
}

#[test]
fn locate_completion_works_on_characters() {
    let found = locate_completion(&chars_of("cd pro"), &chars_of("/home/u"));
    assert_eq!(found, (true, chars_of("/home/u"), chars_of("pro")));
}

#[test]
fn the_last_word_is_replaced() {
    assert_eq!(build_completed_input("cd pro", "pro", "projects", true, "/home/u"), "cd /home/u/projects");
    assert_eq!(build_completed_input("cd pro", "pro", "projects", true, "~"), "cd ~/projects");
    assert_eq!(build_completed_input("ls /etc/pa", "/etc/pa", "passwd", true, "/etc/"), "ls /etc/passwd");
    assert_eq!(build_completed_input("gi", "gi", "git", false, ""), "git");
    assert_eq!(build_completed_input("sudo ap", "ap", "apt", false, ""), "sudo apt");
    assert_eq!(build_completed_input("cat ../x", "../x", "xyz", true, "/home/u"), "cat /home/u/xyz");
}

#[test]
fn a_directory_without_slash_at_its_end_gets_one() {
    assert_eq!(build_completed_input("ls ../fo", "../fo", "foo", true, "/home/u"), "ls /home/u/foo");
    assert_eq!(build_completed_input("ls ../fo", "../fo", "foo", true, "/home/u/"), "ls /home/u/foo");
    assert_eq!(build_completed_input("ls ../fo", "../fo", "foo", true, ""), "ls /foo");
    assert_eq!(build_completed_input("ls ../fo", "../fo", "foo", true, "/"), "ls /foo");
    assert_eq!(build_completed_input("ls fo", "fo", "foo", true, "/"), "ls //foo");
    assert_eq!(
        rebuild_input(&chars_of("cd a/b"), &chars_of("a/b"), &chars_of("bin"), true, &chars_of("/w/a/")),
        chars_of("cd /w/a/bin")
    );
}

#[test]
fn a_word_that_begins_with_the_parent_is_completed_below_the_working_directory() {
    let r = complete_from_listing("ls ../fo", "/home/u", 0, "foo\n");
    assert_eq!(r.completed_input, Some("ls /home/u/foo".to_string()));
    assert!(r.matches.is_empty());
    assert!(!r.should_show_matches);
    let r = complete_from_listing("cat ../no", "/home/u", 0, "notes.md\nnotes.txt\n");
    assert_eq!(r.completed_input, Some("cat /home/u/notes.".to_string()));
}

#[test]
fn the_rebuilt_line_has_single_spaces() {
    assert_eq!(build_completed_input("  cat   -n   fi  ", "fi", "file.txt", true, "/d"), "cat -n /d/file.txt");
    assert_eq!(
        rebuild_input(&chars_of("a\tb"), &chars_of("b"), &chars_of("bc"), false, &[]),
        chars_of("a bc")
    );
}

#[test]
fn a_line_without_words_is_not_rebuilt() {
    assert_eq!(build_completed_input("", "", "x", false, ""), "");
    assert_eq!(build_completed_input("  ", "", "x", true, "/d"), "  ");
}

#[test]
fn listing_commands() {
    let line: String = completion_query(true, &chars_of("/home/u"), &chars_of("fi")).iter().collect();
    assert_eq!(line, "bash -c 'cd \"/home/u\" && ls -1d fi* 2>/dev/null | head -50'");
    let line: String = completion_query(false, &[], &chars_of("gi")).iter().collect();
    assert_eq!(line, "bash -c 'compgen -c gi | head -50'");
}

#[test]
fn listing_commands_escape_quotes() {
    let line: String = completion_query(true, &chars_of("/home/O'Brien"), &chars_of("it's")).iter().collect();
    assert_eq!(
        line,
        "bash -c 'cd \"/home/O'\"'\"'Brien\" && ls -1d it'\"'\"'s* 2>/dev/null | head -50'"
    );
    let line: String = completion_query(false, &[], &chars_of("g'")).iter().collect();
    assert_eq!(line, "bash -c 'compgen -c g'\"'\"' | head -50'");
}

#[test]
fn base_names() {
    assert_eq!(base_name_of(&chars_of("src/main.rs")), &chars_of("main.rs")[..]);
    assert_eq!(base_name_of(&chars_of("/a/b/c")), &chars_of("c")[..]);
    assert_eq!(base_name_of(&chars_of("plain")), &chars_of("plain")[..]);
    assert_eq!(base_name_of(&chars_of("dir/")), &chars_of("")[..]);
    assert_eq!(base_name_of(&[]), &chars_of("")[..]);
}

#[test]
fn a_sorted_list_takes_each_item_once() {
    let found = collect_candidates(&chars_of("m\nb\nz\nb\na\nm\né\nab\n"), false, &[]);
    assert_eq!(shown(&found), vec!["a", "ab", "b", "m", "z", "é"]);
}

#[test]
fn candidates_are_sorted_and_unique() {
    let found = collect_candidates(&chars_of("gitk\ngit\n  git  \ngit-shell\n\n   \ngit\n"), false, &chars_of("gi"));
    assert_eq!(shown(&found), vec!["git", "git-shell", "gitk"]);
}

#[test]
fn candidates_agree_with_sorting_and_deduplicating() {
    let listing = "zeta\nalpha\nbeta\nalpha\n Beta \nétoile\nalp\n";
    let found = collect_candidates(&chars_of(listing), false, &[]);
    let mut expected: Vec<String> = listing.lines().map(|l| l.trim().to_string()).filter(|l| !l.is_empty()).collect();
    expected.sort();
    expected.dedup();
    assert_eq!(shown(&found), expected);
}

#[test]
fn candidates_must_begin_with_the_prefix() {
    let found = collect_candidates(&chars_of("file1\nother\nfile2\nFile3\n"), false, &chars_of("file"));
    assert_eq!(shown(&found), vec!["file1", "file2"]);
}

#[test]
fn path_candidates_are_base_names() {
    let found = collect_candidates(&chars_of("src/main.rs\nlib/main.rs\nsrc/mod.rs\nmake\nsub/\n"), true, &chars_of("m"));
    assert_eq!(shown(&found), vec!["main.rs", "make", "mod.rs"]);
    let found = collect_candidates(&chars_of("src/main.rs\n"), false, &chars_of("s"));
    assert_eq!(shown(&found), vec!["src/main.rs"]);
}

#[test]
fn several_candidates_without_common_extension_are_shown() {
    let r = complete_from_listing("ab", "/home/u", 0, "abc\nabd\nabe\n");
    assert_eq!(r.completed_input, None);
    assert_eq!(r.matches, vec!["abc", "abd", "abe"]);
    assert!(r.should_show_matches);
}

#[test]
fn candidates_are_shown_in_order_whatever_the_listing_order() {
    let r = complete_from_listing("ab", "/home/u", 0, "abe\nabc\nabd\nabc\n");
    assert_eq!(r.matches, vec!["abc", "abd", "abe"]);
    assert!(r.should_show_matches);
    assert_eq!(r.completed_input, None);
}

#[test]
fn a_single_candidate_completes_the_word() {
    let r = complete_from_listing("cat con", "/home/u", 0, "config.json\n");
    assert_eq!(r.completed_input, Some("cat /home/u/config.json".to_string()));
    assert!(r.matches.is_empty());
    assert!(!r.should_show_matches);
    let r = complete_from_listing("config.j", "/home/u", 0, "config.json\n");
    assert_eq!(r.completed_input, Some("config.json".to_string()));
    assert!(r.matches.is_empty());
    assert!(!r.should_show_matches);
}

#[test]
fn a_single_candidate_equal_to_the_prefix_still_completes() {
    let r = complete_from_listing("git", "/home/u", 0, "git\n");
    assert_eq!(r.completed_input, Some("git".to_string()));
    assert!(!r.should_show_matches);
}

#[test]
fn a_longer_common_prefix_completes_the_word() {
    let r = complete_from_listing("cat co", "/home/u", 0, "config.json\nconfig.yaml\n");
    assert_eq!(r.completed_input, Some("cat /home/u/config.".to_string()));
    assert!(r.matches.is_empty());
    assert!(!r.should_show_matches);
    let r = complete_from_listing("ls /etc/pa", "/home/u", 0, "/etc/pam.d\n/etc/pam.conf\n");
    assert_eq!(r.completed_input, Some("ls /etc/pam.".to_string()));
}

#[test]
fn a_failed_listing_completes_nothing() {
    let r = complete_from_listing("cat con", "/home/u", 2, "config.json\n");
    assert_eq!(r.completed_input, None);
    assert!(r.matches.is_empty());
    assert!(!r.should_show_matches);
}

#[test]
fn an_empty_listing_completes_nothing() {
    for listing in ["", "\n", "  \n\n", "other\n"] {
        let r = complete_from_listing("cat con", "/home/u", 0, listing);
        assert_eq!(r.completed_input, None);
        assert!(r.matches.is_empty());
        assert!(!r.should_show_matches);
    }
}

#[test]
fn a_blank_line_completes_nothing() {
    let r = complete_from_listing("   ", "/home/u", 0, "anything\n");
    assert_eq!(r.completed_input, None);
    assert!(r.matches.is_empty());
    assert!(!r.should_show_matches);
    let r = no_completion();
    assert_eq!(r.completed_input, None);
    assert!(r.matches.is_empty());
    assert!(!r.should_show_matches);
}

#[test]
fn completion_in_the_home_directory() {
    let r = complete_from_listing("cd Doc", "~", 0, "Documents\n");
    assert_eq!(r.completed_input, Some("cd ~/Documents".to_string()));
}
