//! A study session: which course, which exercise, where, and what is
//! started there.

use vstd::prelude::*;
use crate::config::{
    find_latest_exercise, is_latest_exercise, CourseConfig, DatedEntry, StudyState,
};
use crate::error::StudyError;
use crate::paths::{join, joined_path, lemma_join_stays_below};
use crate::text::{chars_of, lowercased, push_text, same_text, trim, trimmed};

verus! {

/// The course to study: the one named, else the one used last.
pub fn course_input(course_name: Option<&str>, state: &StudyState) -> (r: Result<
    String,
    StudyError,
>)
    ensures
        match course_name {
            Some(name) => r matches Ok(input) && input@ == name@,
            None => match state.last_course {
                Some(last) => r matches Ok(input) && input@ == last@,
                None => r matches Err(StudyError::NoCourse),
            },
        },
{
    match course_name {
        Some(name) => Ok(name.to_owned()),
        None => match &state.last_course {
            Some(last) => Ok(last.clone()),
            None => Err(StudyError::NoCourse),
        },
    }
}

/// The name under which the course is shown: its readable name, or its
/// code where it has none.
pub fn display_name(config: &CourseConfig) -> (name: String)
    ensures
        name@ == match config.course.name {
            Some(n) => n@,
            None => config.course.code@,
        },
{
    match &config.course.name {
        Some(n) => n.clone(),
        None => config.course.code.clone(),
    }
}

/// Whether `found` is the exercise that a session works on: the one named;
/// else the one recorded for the course; else the exercise directory
/// modified last; else none.
pub open spec fn is_session_exercise(
    found: Option<Seq<char>>,
    exercise_name: Option<Seq<char>>,
    state: StudyState,
    code: Seq<char>,
    entries: Seq<DatedEntry>,
) -> bool {
    match exercise_name {
        Some(name) => found == Some(name),
        None => match state.exercise_of(code) {
            Some(last) => found == Some(last),
            None => is_latest_exercise(entries, found),
        },
    }
}

/// The exercise to work on in the course `code`. `entries` are the entries
/// of the course directory.
pub fn resolve_exercise(
    exercise_name: Option<&str>,
    state: &StudyState,
    code: &str,
    entries: &Vec<DatedEntry>,
) -> (r: Option<String>)
    ensures
        is_session_exercise(r.deep_view(), exercise_name.deep_view(), *state, code@, entries@),
{
    match exercise_name {
        Some(name) => Some(name.to_owned()),
        None => match state.last_exercise(code) {
            Some(last) => Some(last.clone()),
            None => find_latest_exercise(entries),
        },
    }
}

/// Whether the user is to be asked if an exercise should be created: no
/// exercise was found, and the course has exercise types.
pub fn should_offer_exercise(exercise: &Option<String>, config: &CourseConfig) -> (offer: bool)
    ensures
        offer == (exercise is None && config.exercise_types.names().len() > 0),
{
    exercise.is_none() && !config.exercise_types.is_empty()
}

/// The question put to the user where no exercise was found.
pub fn offer_text(display_name: &str) -> (text: String)
    ensures
        text@ == "No exercises found for '"@ + display_name@ + "'. Create one? [Y/n] "@,
{
    let mut text = String::new();
    push_text(&mut text, "No exercises found for '");
    push_text(&mut text, display_name);
    push_text(&mut text, "'. Create one? [Y/n] ");
    text
}

/// Whether an answer, without the white space around it and in lower
/// case, says yes: the empty answer, `y` and `yes` do.
pub open spec fn says_yes(answer: Seq<char>) -> bool {
    answer.len() == 0 || answer == "y"@ || answer == "yes"@
}

/// Whether an answer that was trimmed and put in lower case says yes.
pub fn is_yes(answer: &str) -> (yes: bool)
    ensures
        yes == says_yes(answer@),
{
    chars_of(answer).len() == 0 || same_text(answer, "y") || same_text(answer, "yes")
}

/// Whether the line that the user typed accepts the offer.
pub fn accepts(line: &str) -> (yes: bool)
    ensures
        yes == says_yes(lowercased(trimmed(line@))),
{
    let answer = trim(line);
    let lower = answer.as_str().to_lowercase();
    is_yes(lower.as_str())
}

/// The directory in which the session takes place: the exercise's where an
/// exercise was found and its directory is there, else the course's.
pub open spec fn work_dir_of(
    course_dir: Seq<char>,
    exercise: Option<Seq<char>>,
    exercise_is_dir: bool,
) -> Seq<char> {
    match exercise {
        Some(name) => if exercise_is_dir {
            joined_path(course_dir, name)
        } else {
            course_dir
        },
        None => course_dir,
    }
}

/// A session takes place in the course directory or below it, whatever
/// the exercise is called.
pub proof fn lemma_work_dir_below_course(
    course_dir: Seq<char>,
    exercise: Option<Seq<char>>,
    exercise_is_dir: bool,
)
    ensures
        course_dir.is_prefix_of(work_dir_of(course_dir, exercise, exercise_is_dir)),
{
    match exercise {
        Some(name) => {
            lemma_join_stays_below(course_dir, name);
        },
        None => {},
    }
    assert(course_dir.subrange(0, course_dir.len() as int) =~= course_dir);
}

/// What a study session comes to.
#[derive(Debug)]
pub struct Session {
    /// The directory in which the commands are started.
    pub work_dir: String,
    /// The line that tells the user what happens.
    pub announcement: String,
    /// The shell command lines to start, in this order, none waiting for
    /// another.
    pub commands: Vec<String>,
    /// The session state to save afterwards; `None` where nothing is
    /// started.
    pub state: Option<StudyState>,
}

/// The line that tells the user what happens.
pub open spec fn announcement_text(
    config: CourseConfig,
    input: Seq<char>,
    exercise: Option<Seq<char>>,
    exercise_is_dir: bool,
) -> Seq<char> {
    let shown = match config.course.name {
        Some(n) => n@,
        None => config.course.code@,
    };
    if config.study.commands@.len() == 0 {
        "No study commands configured for '"@ + input + "'."@
    } else {
        match exercise {
            Some(name) => if exercise_is_dir {
                "Starting study session for '"@ + shown + "' / '"@ + name + "'..."@
            } else {
                "Starting study session for '"@ + shown + "'..."@
            },
            None => "Starting study session for '"@ + shown + "'..."@,
        }
    }
}

/// Decides what a study session does.
///
/// `input` is what the course was asked for by, `course_dir` its directory
/// and `config` its configuration. `exercise` is the exercise to work on, if
/// any, and `exercise_is_dir` says whether its directory below the course
/// directory is there. `state` is the session state so far.
///
/// A course without study commands starts nothing and saves nothing. Any
/// other starts its commands in order and records the course, and the
/// exercise if there is one, whether or not the commands can be started.
pub fn run(
    config: &CourseConfig,
    input: &str,
    course_dir: &str,
    exercise: Option<&str>,
    exercise_is_dir: bool,
    state: StudyState,
) -> (session: Session)
    ensures
        session.work_dir@ == work_dir_of(course_dir@, exercise.deep_view(), exercise_is_dir),
        session.announcement@ == announcement_text(
            *config,
            input@,
            exercise.deep_view(),
            exercise_is_dir,
        ),
        session.commands.deep_view() == config.study.commands.deep_view(),
        config.study.commands@.len() == 0 ==> session.commands@.len() == 0 && session.state is None,
        config.study.commands@.len() > 0 ==> match session.state {
            Some(after) => after.records(state, config.course.code@, exercise.deep_view()),
            None => false,
        },
{
    let in_exercise = exercise_is_dir && exercise.is_some();
    let work_dir = match exercise {
        Some(name) => if exercise_is_dir {
            join(course_dir, name)
        } else {
            course_dir.to_owned()
        },
        None => course_dir.to_owned(),
    };
    let mut announcement = String::new();
    if config.study.commands.len() == 0 {
        push_text(&mut announcement, "No study commands configured for '");
        push_text(&mut announcement, input);
        push_text(&mut announcement, "'.");
        assert(announcement@ =~= announcement_text(
            *config,
            input@,
            exercise.deep_view(),
            exercise_is_dir,
        ));
        let commands: Vec<String> = Vec::new();
        assert(commands.deep_view() =~= config.study.commands.deep_view());
        return Session { work_dir, announcement, commands, state: None };
    }
    let shown = display_name(config);
    push_text(&mut announcement, "Starting study session for '");
    push_text(&mut announcement, shown.as_str());
    match exercise {
        Some(name) => {
            if exercise_is_dir {
                push_text(&mut announcement, "' / '");
                push_text(&mut announcement, name);
            }
        },
        None => {},
    }
    push_text(&mut announcement, "'...");
    assert(announcement@ =~= announcement_text(
        *config,
        input@,
        exercise.deep_view(),
        exercise_is_dir,
    ));

    let mut commands: Vec<String> = Vec::new();
    let mut i: usize = 0;
    while i < config.study.commands.len()
        invariant
            i <= config.study.commands.len(),
            commands.len() == i,
            forall|j: int| 0 <= j < i ==> commands@[j]@ == config.study.commands@[j]@,
        decreases config.study.commands.len() - i,
    {
        commands.push(config.study.commands[i].clone());
        i += 1;
    }
    assert(commands.deep_view() =~= config.study.commands.deep_view());

    let mut after = state;
    after.record_course(config.course.code.as_str());
    match exercise {
        Some(name) => {
            after.record_exercise(config.course.code.as_str(), name);
        },
        None => {},
    }
    Session { work_dir, announcement, commands, state: Some(after) }
}

} // verus!
