use minishell::lookup::{find_command_path, split_search_path};
use minishell::text::{join_all, status_code_text, str_eq, tokenize};

fn strings(items: &[&str]) -> Vec<String> {
    items.iter().map(|s| s.to_string()).collect()
}

#[test]
fn tokenize_splits_on_whitespace_runs() {
    assert_eq!(tokenize("echo a b  c"), strings(&["echo", "a", "b", "c"]));
    assert_eq!(tokenize("a\tb \t c"), strings(&["a", "b", "c"]));
    assert_eq!(tokenize("   "), Vec::<String>::new());
    assert_eq!(tokenize(""), Vec::<String>::new());
    assert_eq!(tokenize("single"), strings(&["single"]));
}

#[test]
fn join_all_uses_single_spaces() {
    assert_eq!(join_all(&strings(&["a", "b", "c"])), "a b c");
    assert_eq!(join_all(&strings(&["only"])), "only");
    assert_eq!(join_all(&Vec::new()), "");
}

#[test]
fn str_eq_compares_by_characters() {
    assert!(str_eq("abc", "abc"));
    assert!(!str_eq("abc", "abd"));
    assert!(!str_eq("abc", "ab"));
    assert!(str_eq("", ""));
}

#[test]
fn status_codes_render_in_decimal() {
    assert_eq!(status_code_text(0), "0");
    assert_eq!(status_code_text(7), "7");
    assert_eq!(status_code_text(255), "255");
    assert_eq!(status_code_text(-1), "-1");
    assert_eq!(status_code_text(i32::MAX), "2147483647");
    assert_eq!(status_code_text(i32::MIN), "-2147483648");
}

#[test]
fn search_path_splits_on_colons_keeping_empty_entries() {
    assert_eq!(split_search_path("/bin:/usr/bin"), strings(&["/bin", "/usr/bin"]));
    assert_eq!(split_search_path("a::b"), strings(&["a", "", "b"]));
    assert_eq!(split_search_path(""), strings(&[""]));
    assert_eq!(split_search_path("a:"), strings(&["a", ""]));
}

#[test]
fn lookup_probes_directories_in_listed_order() {
    // Both `/usr/.` and `/etc/.` exist; the first listed directory wins.
    assert_eq!(find_command_path(".", Some("/usr:/etc")), Some("/usr/.".to_string()));
    assert_eq!(find_command_path(".", Some("/etc:/usr")), Some("/etc/.".to_string()));
}

#[test]
fn lookup_finds_an_executable_in_a_directory() {
    assert_eq!(find_command_path("sh", Some("/bin")), Some("/bin/sh".to_string()));
}

#[test]
fn lookup_falls_back_to_the_name_as_a_path() {
    assert_eq!(find_command_path("/bin/sh", Some("/nonexistent_dir_xyz")), Some("/bin/sh".to_string()));
    assert_eq!(find_command_path("/bin/sh", None), Some("/bin/sh".to_string()));
}

#[test]
fn lookup_reports_nothing_for_an_absent_name() {
    assert_eq!(find_command_path("definitely_missing_command_xyz", None), None);
    assert_eq!(find_command_path("definitely_missing_command_xyz", Some("/usr/bin:/bin")), None);
}
