use study::config::{
    expand_tilde, expand_tilde_with, global_config_path, global_config_path_in, parse_course_code,
    resolve_course_dir, resolve_course_dir_with, state_path, state_path_in, GlobalConfig,
};
use study::paths::join;

fn parts(input: &str) -> (String, String) {
    parse_course_code(input)
}

fn pair(a: &str, b: &str) -> (String, String) {
    (a.to_string(), b.to_string())
}

fn global(courses_dir: &str) -> GlobalConfig {
    GlobalConfig {
        courses_dir: courses_dir.to_string(),
        default_template_dir: "/templates".to_string(),
    }
}

#[test]
fn code_with_hyphen_splits_at_the_hyphen() {
    assert_eq!(parts("MS-C2286"), pair("MS", "C2286"));
}

#[test]
fn code_without_hyphen_splits_after_letters() {
    assert_eq!(parts("PHYS101"), pair("PHYS", "101"));
}

#[test]
fn code_without_letters_has_no_faculty() {
    assert_eq!(parts("101"), pair("undefined", "101"));
}

#[test]
fn code_with_leading_hyphen_has_empty_faculty() {
    assert_eq!(parts("-abc"), pair("", "abc"));
}

#[test]
fn code_splits_at_the_first_of_several_hyphens() {
    assert_eq!(parts("a-b-c"), pair("a", "b-c"));
    assert_eq!(parts("CS-"), pair("CS", ""));
    assert_eq!(parts("-"), pair("", ""));
}

#[test]
fn hyphen_wins_over_letters() {
    assert_eq!(parts("12-AB"), pair("12", "AB"));
    assert_eq!(parts("AB12-3"), pair("AB12", "3"));
}

#[test]
fn code_of_letters_only_is_all_faculty() {
    assert_eq!(parts("PHYS"), pair("PHYS", ""));
}

#[test]
fn empty_code_has_no_faculty() {
    assert_eq!(parts(""), pair("undefined", ""));
}

#[test]
fn only_ascii_letters_count_as_faculty() {
    assert_eq!(parts("\u{e9}cole1"), pair("undefined", "\u{e9}cole1"));
    assert_eq!(parts("ab\u{e9}1"), pair("ab", "\u{e9}1"));
    assert_eq!(parts("a_b"), pair("a", "_b"));
}

#[test]
fn parts_put_together_give_the_code_back() {
    for input in ["MS-C2286", "PHYS101", "x-", "-y", "a-b-c", "abc", "q9"] {
        let (faculty, code) = parse_course_code(input);
        if input.contains('-') {
            assert_eq!(format!("{}-{}", faculty, code), input);
            assert!(!faculty.contains('-'));
        } else {
            assert_eq!(format!("{}{}", faculty, code), input);
        }
    }
    for input in ["101", "", "_x", "9a"] {
        let (faculty, code) = parse_course_code(input);
        assert_eq!(faculty, "undefined");
        assert_eq!(code, input);
    }
}

#[test]
fn join_puts_one_separator_between() {
    assert_eq!(join("/courses", "MS"), "/courses/MS");
    assert_eq!(join("/courses/", "MS"), "/courses/MS");
    assert_eq!(join("", "MS"), "MS");
    assert_eq!(join("/courses", ""), "/courses/");
    assert_eq!(join("/", "x"), "/x");
    assert_eq!(join("a", "b/c"), "a/b/c");
}

#[test]
fn join_keeps_a_part_that_begins_with_a_separator_below_the_base() {
    assert_eq!(join("/courses", "/etc"), "/courses/etc");
    assert_eq!(join("/courses/", "/etc"), "/courses/etc");
    assert_eq!(join("/courses", "///etc/passwd"), "/courses/etc/passwd");
    assert_eq!(join("/courses", "/"), "/courses/");
    assert_eq!(join("rel", "/x/"), "rel/x/");
    assert_eq!(join("", "/etc"), "etc");
    assert_eq!(join("", "/"), "");
}

#[test]
fn join_always_begins_with_the_base() {
    let bases = ["", "/", "a", "a/", "/a/b", "~/courses", "rel/dir/"];
    let parts = ["", "x", "x/y", "/abs", "/", "//", ".hidden", "x/", "/a/b"];
    for base in bases {
        for part in parts {
            let joined = join(base, part);
            assert!(joined.starts_with(base), "{:?} {:?}", base, part);
            assert!(joined.ends_with(part.trim_start_matches('/')), "{:?} {:?}", base, part);
            assert!(!joined[base.len()..].starts_with("//"), "{:?} {:?}", base, part);
        }
    }
}

#[test]
fn join_of_a_relative_part_agrees_with_the_standard_library() {
    let bases = ["", "/", "a", "a/", "/a/b", "~/courses", "rel/dir/"];
    let parts = ["", "x", "x/y", ".hidden", "x/", "..", "a b/c"];
    for base in bases {
        for part in parts {
            let expected = std::path::Path::new(base).join(part);
            assert_eq!(join(base, part), expected.to_str().unwrap(), "{:?} {:?}", base, part);
        }
    }
}

#[test]
fn tilde_is_replaced_by_the_home_directory() {
    assert_eq!(expand_tilde_with("~/courses", Some("/home/alice")), "/home/alice/courses");
    assert_eq!(expand_tilde_with("~/", Some("/home/alice")), "/home/alice/");
    assert_eq!(expand_tilde_with("~/a/b", Some("/home/alice/")), "/home/alice/a/b");
}

#[test]
fn tilde_stays_without_a_home_directory() {
    assert_eq!(expand_tilde_with("~/courses", None), "~/courses");
}

#[test]
fn only_a_leading_tilde_slash_is_expanded() {
    assert_eq!(expand_tilde_with("/srv/courses", Some("/home/alice")), "/srv/courses");
    assert_eq!(expand_tilde_with("~", Some("/home/alice")), "~");
    assert_eq!(expand_tilde_with("~bob/x", Some("/home/alice")), "~bob/x");
    assert_eq!(expand_tilde_with("a/~/b", Some("/home/alice")), "a/~/b");
    assert_eq!(expand_tilde_with("", Some("/home/alice")), "");
}

#[test]
fn expand_tilde_leaves_other_paths_alone() {
    assert_eq!(expand_tilde("/srv/courses"), "/srv/courses");
    assert_eq!(expand_tilde("relative"), "relative");
}

#[test]
fn expand_tilde_uses_some_home_directory_or_none() {
    let expanded = expand_tilde("~/courses");
    assert!(expanded == "~/courses" || expanded.ends_with("/courses"));
}

#[test]
fn course_dir_is_root_faculty_code() {
    let g = global("/srv/courses");
    assert_eq!(resolve_course_dir(&g, "MS-C2286"), "/srv/courses/MS/C2286");
    assert_eq!(resolve_course_dir(&g, "PHYS101"), "/srv/courses/PHYS/101");
    assert_eq!(resolve_course_dir(&g, "101"), "/srv/courses/undefined/101");
    assert_eq!(resolve_course_dir(&g, "-abc"), "/srv/courses/abc");
}

#[test]
fn course_dir_expands_the_courses_directory() {
    let g = global("~/courses");
    assert_eq!(
        resolve_course_dir_with(&g, "MS-C2286", Some("/home/alice")),
        "/home/alice/courses/MS/C2286"
    );
    assert_eq!(resolve_course_dir_with(&g, "MS-C2286", None), "~/courses/MS/C2286");
}

#[test]
fn course_dir_of_plain_codes_matches_the_standard_library_join() {
    let g = global("/srv/courses");
    for input in ["MS-C2286", "PHYS101", "101", "-abc", "x-", "PHYS", "a-b/c"] {
        let (faculty, code) = parse_course_code(input);
        let expected = std::path::Path::new("/srv/courses").join(&faculty).join(&code);
        assert_eq!(resolve_course_dir(&g, input), expected.to_str().unwrap());
    }
}

#[test]
fn course_dir_stays_below_the_courses_directory() {
    let g = global("/c");
    assert_eq!(resolve_course_dir(&g, "MS-/etc"), "/c/MS/etc");
    assert_eq!(resolve_course_dir(&g, "MS-//etc/passwd"), "/c/MS/etc/passwd");
    assert_eq!(resolve_course_dir(&g, "/etc"), "/c/undefined/etc");
    assert_eq!(resolve_course_dir(&g, "/-x"), "/c/x");
    assert_eq!(resolve_course_dir(&g, "-/etc"), "/c/etc");
    assert_eq!(resolve_course_dir_with(&g, "MS-/etc", Some("/home/alice")), "/c/MS/etc");
    for input in ["MS-/etc", "/etc", "/-/", "-/", "a-/", "//", "x-//y"] {
        assert!(resolve_course_dir(&g, input).starts_with("/c/"), "{:?}", input);
    }
}

#[test]
fn tilde_expansion_stays_below_the_home_directory() {
    assert_eq!(expand_tilde_with("~//etc", Some("/home/alice")), "/home/alice/etc");
    assert_eq!(expand_tilde_with("~///", Some("/home/alice")), "/home/alice/");
    let g = global("~//srv");
    assert_eq!(resolve_course_dir_with(&g, "MS-/etc", Some("/home/alice")), "/home/alice/srv/MS/etc");
}

#[test]
fn default_global_config_points_below_home() {
    let g = GlobalConfig::default();
    assert_eq!(g.courses_dir, "~/courses");
    assert_eq!(g.default_template_dir, "~/.config/study/templates");
}

#[test]
fn state_and_config_files_are_below_the_config_directory() {
    assert_eq!(state_path_in(Some("/home/alice/.config")), "/home/alice/.config/study/state.toml");
    assert_eq!(
        global_config_path_in(Some("/home/alice/.config")),
        "/home/alice/.config/study/config.toml"
    );
}

#[test]
fn state_and_config_files_fall_back_to_dot_config() {
    assert_eq!(state_path_in(None), "~/.config/study/state.toml");
    assert_eq!(global_config_path_in(None), "~/.config/study/config.toml");
}

#[test]
fn paths_from_the_environment_end_in_the_file_names() {
    assert!(state_path().ends_with("study/state.toml"));
    assert!(global_config_path().ends_with("study/config.toml"));
}
