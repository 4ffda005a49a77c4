use clap_complete::Shell;
use study::cli::{Args, Command, InitTarget, Request};

fn some(s: &str) -> Option<String> {
    Some(s.to_string())
}

#[test]
fn bare_invocation_is_a_study_session() {
    let args = Args { command: None, course: some("MS-C2286"), exercise: some("lab01") };
    match args.request() {
        Request::Study { course, exercise } => {
            assert_eq!(course, some("MS-C2286"));
            assert_eq!(exercise, some("lab01"));
        }
        other => panic!("{:?}", other),
    }
}

#[test]
fn bare_invocation_may_name_nothing() {
    let args = Args { command: None, course: None, exercise: None };
    match args.request() {
        Request::Study { course, exercise } => {
            assert_eq!(course, None);
            assert_eq!(exercise, None);
        }
        other => panic!("{:?}", other),
    }
}

#[test]
fn study_command_names_its_course() {
    let args = Args {
        command: Some(Command::Study { course: "PHYS101".to_string(), exercise: None }),
        course: some("ignored"),
        exercise: some("ignored"),
    };
    match args.request() {
        Request::Study { course, exercise } => {
            assert_eq!(course, some("PHYS101"));
            assert_eq!(exercise, None);
        }
        other => panic!("{:?}", other),
    }
}

#[test]
fn init_commands_keep_their_arguments() {
    let course = Args {
        command: Some(Command::Init {
            target: InitTarget::Course { name: some("MS-C2286"), raw: true },
        }),
        course: None,
        exercise: None,
    };
    match course.request() {
        Request::InitCourse { name, raw } => {
            assert_eq!(name, some("MS-C2286"));
            assert!(raw);
        }
        other => panic!("{:?}", other),
    }
    let exercise = Args {
        command: Some(Command::Init {
            target: InitTarget::Exercise { kind: some("lab"), name: None, course: some("X") },
        }),
        course: None,
        exercise: None,
    };
    match exercise.request() {
        Request::InitExercise { kind, name, course } => {
            assert_eq!(kind, some("lab"));
            assert_eq!(name, None);
            assert_eq!(course, some("X"));
        }
        other => panic!("{:?}", other),
    }
}

#[test]
fn completions_command_keeps_its_shell() {
    let args = Args {
        command: Some(Command::Completions { shell: Shell::Fish }),
        course: None,
        exercise: None,
    };
    match args.request() {
        Request::Completions { shell } => assert_eq!(shell, Shell::Fish),
        other => panic!("{:?}", other),
    }
}
