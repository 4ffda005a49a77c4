use study::commands::init_course;
use study::commands::study::{
    accepts, course_input, display_name, is_yes, offer_text, resolve_exercise, run,
    should_offer_exercise,
};
use study::config::{
    CourseConfig, CourseInfo, DatedEntry, EntryKind, ExerciseType, GlobalConfig, StudyConfig,
    StudyState,
};
use study::error::{ErrorKind, StudyError};
use study::names::NameMap;
use study::text::trim;

fn config(name: Option<&str>, commands: &[&str], with_type: bool) -> CourseConfig {
    let mut types: NameMap<ExerciseType> = NameMap::new();
    if with_type {
        types.insert(
            "lab".to_string(),
            ExerciseType {
                template: "lab".to_string(),
                naming_scheme: "lab{:02}".to_string(),
                meta: NameMap::new(),
            },
        );
    }
    CourseConfig {
        course: CourseInfo { code: "MS-C2286".to_string(), name: name.map(|n| n.to_string()) },
        template_dir: None,
        exercise_types: types,
        study: StudyConfig { commands: commands.iter().map(|c| c.to_string()).collect() },
    }
}

fn dir(name: &str, modified: i128) -> DatedEntry {
    DatedEntry { name: name.to_string(), kind: EntryKind::Directory, modified: Some(modified) }
}

#[test]
fn course_input_prefers_the_argument() {
    let mut state = StudyState::default();
    state.record_course("PHYS101");
    assert_eq!(course_input(Some("MS-C2286"), &state), Ok("MS-C2286".to_string()));
}

#[test]
fn course_input_falls_back_to_the_last_course() {
    let mut state = StudyState::default();
    state.record_course("PHYS101");
    assert_eq!(course_input(None, &state), Ok("PHYS101".to_string()));
}

#[test]
fn course_input_fails_without_argument_and_history() {
    let err = course_input(None, &StudyState::default()).unwrap_err();
    assert_eq!(err, StudyError::NoCourse);
    assert_eq!(err.kind(), ErrorKind::NotFound);
    assert_eq!(err.message(), "No course specified and no previous session found.");
}

#[test]
fn display_name_is_the_name_or_the_code() {
    assert_eq!(display_name(&config(Some("Statistics"), &[], false)), "Statistics");
    assert_eq!(display_name(&config(None, &[], false)), "MS-C2286");
}

#[test]
fn exercise_is_the_argument_first() {
    let mut state = StudyState::default();
    state.record_exercise("MS-C2286", "lab01");
    let entries = vec![dir("lab02", 10)];
    assert_eq!(
        resolve_exercise(Some("lab09"), &state, "MS-C2286", &entries),
        Some("lab09".to_string())
    );
}

#[test]
fn exercise_is_the_recorded_one_next() {
    let mut state = StudyState::default();
    state.record_exercise("MS-C2286", "lab01");
    state.record_exercise("PHYS101", "ex05");
    let entries = vec![dir("lab02", 10)];
    assert_eq!(resolve_exercise(None, &state, "MS-C2286", &entries), Some("lab01".to_string()));
}

#[test]
fn exercise_is_the_latest_directory_last() {
    let mut state = StudyState::default();
    state.record_exercise("PHYS101", "ex05");
    let entries = vec![dir("lab01", 10), dir("lab02", 30), dir("lab03", 20)];
    assert_eq!(resolve_exercise(None, &state, "MS-C2286", &entries), Some("lab02".to_string()));
    assert_eq!(resolve_exercise(None, &state, "MS-C2286", &Vec::new()), None);
}

#[test]
fn exercise_is_offered_only_where_types_exist() {
    assert!(should_offer_exercise(&None, &config(None, &[], true)));
    assert!(!should_offer_exercise(&None, &config(None, &[], false)));
    assert!(!should_offer_exercise(&Some("lab01".to_string()), &config(None, &[], true)));
}

#[test]
fn offer_names_the_course() {
    assert_eq!(offer_text("Statistics"), "No exercises found for 'Statistics'. Create one? [Y/n] ");
}

#[test]
fn yes_is_empty_y_or_yes() {
    assert!(is_yes(""));
    assert!(is_yes("y"));
    assert!(is_yes("yes"));
    assert!(!is_yes("n"));
    assert!(!is_yes("no"));
    assert!(!is_yes("ye"));
    assert!(!is_yes("yess"));
    assert!(!is_yes("Y"));
    assert!(!is_yes(" y"));
}

#[test]
fn answers_are_trimmed_and_lowercased() {
    assert!(accepts("\n"));
    assert!(accepts(""));
    assert!(accepts("   \t\r\n"));
    assert!(accepts("y\n"));
    assert!(accepts("Y\n"));
    assert!(accepts("  YES  \n"));
    assert!(accepts("yEs"));
    assert!(!accepts("n\n"));
    assert!(!accepts("no"));
    assert!(!accepts("y e s"));
    assert!(!accepts("yes please"));
}

#[test]
fn trim_takes_white_space_from_both_ends() {
    assert_eq!(trim("  a b \n"), "a b");
    assert_eq!(trim("\u{a0}\u{2003}x\u{3000}"), "x");
    assert_eq!(trim("x"), "x");
    assert_eq!(trim(" \t "), "");
    assert_eq!(trim(""), "");
    assert_eq!(trim("_ x _"), "_ x _");
    for s in [" a ", "\n\nabc\t", "no-space", " \u{85}z\u{2028} ", "\u{200b}x"] {
        assert_eq!(trim(s), s.trim());
    }
}

#[test]
fn session_without_commands_starts_nothing() {
    let c = config(Some("Statistics"), &[], true);
    let mut state = StudyState::default();
    state.record_course("PHYS101");
    let session = run(&c, "Statistics", "/c/MS/C2286", Some("lab01"), true, state);
    assert!(session.commands.is_empty());
    assert!(session.state.is_none());
    assert_eq!(session.announcement, "No study commands configured for 'Statistics'.");
    assert_eq!(session.work_dir, "/c/MS/C2286/lab01");
}

#[test]
fn session_starts_the_commands_in_order() {
    let c = config(Some("Statistics"), &["code .", "open notes.pdf", "code ."], true);
    let session = run(&c, "MS-C2286", "/c/MS/C2286", Some("lab01"), true, StudyState::default());
    assert_eq!(session.commands, vec!["code .", "open notes.pdf", "code ."]);
    assert_eq!(session.work_dir, "/c/MS/C2286/lab01");
    assert_eq!(session.announcement, "Starting study session for 'Statistics' / 'lab01'...");
    let state = session.state.unwrap();
    assert_eq!(state.last_course, Some("MS-C2286".to_string()));
    assert_eq!(state.last_exercise("MS-C2286"), Some(&"lab01".to_string()));
}

#[test]
fn session_works_in_the_course_directory_without_exercise_directory() {
    let c = config(None, &["code ."], true);
    let session = run(&c, "MS-C2286", "/c/MS/C2286", Some("gone"), false, StudyState::default());
    assert_eq!(session.work_dir, "/c/MS/C2286");
    assert_eq!(session.announcement, "Starting study session for 'MS-C2286'...");
    let state = session.state.unwrap();
    assert_eq!(state.last_exercise("MS-C2286"), Some(&"gone".to_string()));
}

#[test]
fn session_without_exercise_records_the_course_only() {
    let c = config(None, &["code ."], false);
    let mut before = StudyState::default();
    before.record_course("PHYS101");
    before.record_exercise("PHYS101", "ex01");
    before.record_exercise("MS-C2286", "lab04");
    let session = run(&c, "MS-C2286", "/c/MS/C2286", None, false, before);
    assert_eq!(session.work_dir, "/c/MS/C2286");
    assert_eq!(session.announcement, "Starting study session for 'MS-C2286'...");
    let state = session.state.unwrap();
    assert_eq!(state.last_course, Some("MS-C2286".to_string()));
    assert_eq!(state.last_exercise("MS-C2286"), Some(&"lab04".to_string()));
    assert_eq!(state.last_exercise("PHYS101"), Some(&"ex01".to_string()));
}

#[test]
fn course_code_prompt_is_trimmed() {
    assert_eq!(init_course::prompt_course_details("  MS-C2286 \n"), Ok("MS-C2286".to_string()));
}

#[test]
fn course_code_prompt_refuses_an_empty_line() {
    for line in ["", "\n", "   \t \n"] {
        let err = init_course::prompt_course_details(line).unwrap_err();
        assert_eq!(err, StudyError::EmptyCourseCode);
        assert_eq!(err.kind(), ErrorKind::InvalidInput);
        assert_eq!(err.message(), "Course code is required.");
    }
}

#[test]
fn course_name_prompt_is_optional() {
    assert_eq!(init_course::prompt_course_name(" Statistics \n"), Some("Statistics".to_string()));
    assert_eq!(init_course::prompt_course_name("\n"), None);
    assert_eq!(init_course::prompt_course_name(""), None);
}

#[test]
fn new_course_goes_below_faculty_and_code() {
    let global =
        GlobalConfig { courses_dir: "/c".to_string(), default_template_dir: "/t".to_string() };
    assert_eq!(init_course::course_location(&global, "MS-C2286", false), "/c/MS/C2286");
    assert_eq!(init_course::course_location(&global, "PHYS101", false), "/c/PHYS/101");
    assert_eq!(init_course::course_location(&global, "101", false), "/c/undefined/101");
}

#[test]
fn raw_course_goes_below_undefined() {
    let global =
        GlobalConfig { courses_dir: "/c".to_string(), default_template_dir: "/t".to_string() };
    assert_eq!(init_course::course_location(&global, "MS-C2286", true), "/c/undefined/MS-C2286");
    assert_eq!(
        init_course::course_location_with(
            &GlobalConfig::default(),
            "PHYS101",
            true,
            Some("/home/alice")
        ),
        "/home/alice/courses/undefined/PHYS101"
    );
}

#[test]
fn new_course_starts_empty() {
    let made = init_course::run("MS-C2286", Some("Statistics".to_string()), "/c/MS/C2286", false)
        .unwrap();
    assert_eq!(made.course_dir, "/c/MS/C2286");
    assert_eq!(made.config_path, "/c/MS/C2286/course.toml");
    assert_eq!(made.config.course.code, "MS-C2286");
    assert_eq!(made.config.course.name, Some("Statistics".to_string()));
    assert_eq!(made.config.template_dir, None);
    assert!(made.config.exercise_types.is_empty());
    assert!(made.config.study.commands.is_empty());
    assert_eq!(
        made.report,
        vec![
            "Initialized course 'MS-C2286' at /c/MS/C2286",
            "Edit /c/MS/C2286/course.toml to configure exercise types and study commands.",
        ]
    );
}

#[test]
fn existing_course_is_not_touched() {
    let err = init_course::run("MS-C2286", None, "/c/MS/C2286", true).unwrap_err();
    assert_eq!(err, StudyError::CourseExists { path: "/c/MS/C2286".to_string() });
    assert_eq!(err.kind(), ErrorKind::AlreadyExists);
    assert_eq!(err.message(), "Course directory already exists: /c/MS/C2286");
}

#[test]
fn remaining_errors_have_kind_and_message() {
    assert_eq!(StudyError::NoCourseRoot.message(), "No course.toml found in current or parent directories. Use --course <name> or run from inside a course directory.");
    assert_eq!(StudyError::NoExerciseTypes.message(), "No exercise types defined in course.toml. Add [exercise_types.<name>] sections.");
    assert_eq!(StudyError::Metadata.kind(), ErrorKind::Other);
    assert_eq!(StudyError::Metadata.message(), "Exercise metadata cannot be written as TOML.");
    let unknown =
        StudyError::UnknownExerciseType { requested: "q".to_string(), available: Vec::new() };
    assert_eq!(unknown.message(), "Unknown exercise type 'q'. Available: ");
}

#[test]
fn session_stays_below_the_course_directory() {
    let c = config(None, &["code ."], true);
    let session = run(&c, "MS-C2286", "/c/MS/C2286", Some("/tmp"), true, StudyState::default());
    assert_eq!(session.work_dir, "/c/MS/C2286/tmp");
    let session = run(&c, "MS-C2286", "/c/MS/C2286", Some("/"), true, StudyState::default());
    assert_eq!(session.work_dir, "/c/MS/C2286/");
}

#[test]
fn new_course_stays_below_the_courses_directory() {
    let global =
        GlobalConfig { courses_dir: "/c".to_string(), default_template_dir: "/t".to_string() };
    assert_eq!(init_course::course_location(&global, "MS-/etc", false), "/c/MS/etc");
    assert_eq!(init_course::course_location(&global, "/etc", false), "/c/undefined/etc");
    assert_eq!(init_course::course_location(&global, "/etc", true), "/c/undefined/etc");
    assert_eq!(init_course::course_location(&global, "MS-/etc", true), "/c/undefined/MS-/etc");
    assert_eq!(
        init_course::course_location_with(&global, "-//x", false, Some("/home/alice")),
        "/c/x"
    );
}
