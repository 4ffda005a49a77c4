//! Setting up a new course: where its directory goes and what its
//! `course.toml` starts with.

use vstd::prelude::*;
use crate::config::{
    course_code_parts, expand_tilde, expand_tilde_with, has_tilde, no_faculty, parse_course_code,
    tilde_expanded, CourseConfig, CourseInfo, GlobalConfig, StudyConfig,
};
use crate::error::StudyError;
use crate::names::NameMap;
use crate::paths::{join, joined_path, lemma_join_stays_below};
use crate::text::{chars_of, push_text, trim, trimmed};

verus! {

/// The course code that the user typed at the prompt: the line without the
/// white space around it. A line with nothing else is refused.
pub fn prompt_course_details(line: &str) -> (r: Result<String, StudyError>)
    ensures
        trimmed(line@).len() == 0 ==> r matches Err(StudyError::EmptyCourseCode),
        trimmed(line@).len() > 0 ==> (r matches Ok(code) && code@ == trimmed(line@)),
{
    let code = trim(line);
    if chars_of(code.as_str()).len() == 0 {
        Err(StudyError::EmptyCourseCode)
    } else {
        Ok(code)
    }
}

/// The course name that the user typed at the prompt: the line without the
/// white space around it, or no name where that leaves nothing.
pub fn prompt_course_name(line: &str) -> (r: Option<String>)
    ensures
        r.deep_view() == if trimmed(line@).len() == 0 {
            None
        } else {
            Some(trimmed(line@))
        },
{
    let name = trim(line);
    if chars_of(name.as_str()).len() == 0 {
        None
    } else {
        Some(name)
    }
}

/// The directory of a new course below the courses directory `root`:
/// `<root>/<faculty>/<code>`, faculty and code being the parts of the
/// course code; with `raw`, the code is not taken apart and the course goes
/// below the faculty `no_faculty()` under its whole code.
pub open spec fn new_course_path(root: Seq<char>, code: Seq<char>, raw: bool) -> Seq<char> {
    let (faculty, dir_name) = if raw {
        (no_faculty(), code)
    } else {
        course_code_parts(code)
    };
    joined_path(joined_path(root, faculty), dir_name)
}

/// A new course goes below the courses directory, whatever its code holds.
pub proof fn lemma_new_course_below_root(root: Seq<char>, code: Seq<char>, raw: bool)
    ensures
        root.is_prefix_of(new_course_path(root, code, raw)),
{
    let (faculty, dir_name) = if raw {
        (no_faculty(), code)
    } else {
        course_code_parts(code)
    };
    let below = joined_path(root, faculty);
    lemma_join_stays_below(root, faculty);
    lemma_join_stays_below(below, dir_name);
    let whole = new_course_path(root, code, raw);
    assert(whole.subrange(0, root.len() as int) =~= below.subrange(0, root.len() as int));
}

/// Where the directory of the new course `code` goes, for a given home
/// directory.
pub fn course_location_with(global: &GlobalConfig, code: &str, raw: bool, home: Option<&str>) -> (r:
    String)
    ensures
        r@ == new_course_path(tilde_expanded(global.courses_dir@, home.deep_view()), code@, raw),
{
    let root = expand_tilde_with(global.courses_dir.as_str(), home);
    let (faculty, dir_name) = if raw {
        ("undefined".to_owned(), code.to_owned())
    } else {
        parse_course_code(code)
    };
    let below = join(root.as_str(), faculty.as_str());
    join(below.as_str(), dir_name.as_str())
}

/// Where the directory of the new course `code` goes. A courses directory
/// that begins with `~/` is expanded with the home directory that the
/// environment gives.
pub fn course_location(global: &GlobalConfig, code: &str, raw: bool) -> (r: String)
    ensures
        exists|home: Option<Seq<char>>|
            r@ == new_course_path(tilde_expanded(global.courses_dir@, home), code@, raw),
        !has_tilde(global.courses_dir@) ==> r@ == new_course_path(global.courses_dir@, code@, raw),
{
    let root = expand_tilde(global.courses_dir.as_str());
    let (faculty, dir_name) = if raw {
        ("undefined".to_owned(), code.to_owned())
    } else {
        parse_course_code(code)
    };
    let below = join(root.as_str(), faculty.as_str());
    let r = join(below.as_str(), dir_name.as_str());
    proof {
        let home = choose|home: Option<Seq<char>>|
            root@ == tilde_expanded(global.courses_dir@, home);
        assert(r@ == new_course_path(tilde_expanded(global.courses_dir@, home), code@, raw));
    }
    r
}

/// What setting up a course comes to: the directory to make, the
/// configuration to write into its `course.toml`, and what to tell the user.
#[derive(Debug)]
pub struct NewCourse {
    pub course_dir: String,
    pub config_path: String,
    pub config: CourseConfig,
    pub report: Vec<String>,
}

/// The two lines that tell the user what was made.
pub open spec fn report_lines(code: Seq<char>, course_dir: Seq<char>) -> Seq<Seq<char>> {
    seq![
        "Initialized course '"@ + code + "' at "@ + course_dir,
        "Edit "@ + joined_path(course_dir, "course.toml"@)
            + " to configure exercise types and study commands."@,
    ]
}

/// Sets up the course `code` in `course_dir`, the directory that
/// `course_location` gives for it; `exists` says whether that directory is
/// there already.
///
/// An existing directory is never touched: the result is then
/// `CourseExists`. Else the new course has the given code and name, no
/// template directory of its own, no exercise types and no study commands.
pub fn run(code: &str, course_name: Option<String>, course_dir: &str, exists: bool) -> (r: Result<
    NewCourse,
    StudyError,
>)
    ensures
        exists ==> (r matches Err(StudyError::CourseExists { path }) && path@ == course_dir@),
        !exists ==> match r {
            Ok(made) => {
                &&& made.course_dir@ == course_dir@
                &&& made.config_path@ == joined_path(course_dir@, "course.toml"@)
                &&& made.config.course.code@ == code@
                &&& made.config.course.name.deep_view() == course_name.deep_view()
                &&& made.config.template_dir is None
                &&& made.config.exercise_types.names().len() == 0
                &&& made.config.study.commands@.len() == 0
                &&& made.report.deep_view() == report_lines(code@, course_dir@)
            },
            Err(_) => false,
        },
{
    if exists {
        return Err(StudyError::CourseExists { path: course_dir.to_owned() });
    }
    let config_path = join(course_dir, "course.toml");
    let mut first = String::new();
    push_text(&mut first, "Initialized course '");
    push_text(&mut first, code);
    push_text(&mut first, "' at ");
    push_text(&mut first, course_dir);
    let mut second = String::new();
    push_text(&mut second, "Edit ");
    push_text(&mut second, config_path.as_str());
    push_text(&mut second, " to configure exercise types and study commands.");
    let mut report: Vec<String> = Vec::new();
    report.push(first);
    report.push(second);
    assert(report.deep_view() =~= report_lines(code@, course_dir@));
    let config = CourseConfig {
        course: CourseInfo { code: code.to_owned(), name: course_name },
        template_dir: None,
        exercise_types: NameMap::new(),
        study: StudyConfig::default(),
    };
    Ok(NewCourse { course_dir: course_dir.to_owned(), config_path, config, report })
}

} // verus!
