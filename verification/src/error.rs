//! What can go wrong, by condition.

use vstd::prelude::*;
use crate::text::{join, joined, push_text};

verus! {

/// The conditions under which an operation gives up.
#[derive(Debug, Clone, Copy, PartialEq, Eq, Structural)]
pub enum ErrorKind {
    NotFound,
    AlreadyExists,
    InvalidInput,
    InvalidData,
    Other,
}

/// Why an operation gave up.
#[derive(Debug, Clone, PartialEq, Eq)]
pub enum StudyError {
    /// No course was named and none is remembered from an earlier session.
    NoCourse,
    /// Nothing is known of a course by this code or name.
    CourseNotFound { input: String },
    /// Neither the working directory nor a directory above it is a course.
    NoCourseRoot,
    /// The course declares no exercise types.
    NoExerciseTypes,
    /// The course has no exercise type of the requested name.
    UnknownExerciseType { requested: String, available: Vec<String> },
    /// No exercise type was asked for, and the course does not have exactly
    /// one.
    AmbiguousExerciseType { available: Vec<String> },
    /// The directory of the new exercise is there already.
    ExerciseExists { path: String },
    /// The directory of the new course is there already.
    CourseExists { path: String },
    /// No course code was given at the prompt.
    EmptyCourseCode,
    /// The metadata of the exercise cannot be written as a TOML document.
    Metadata,
}

impl StudyError {
    /// The condition that the error falls under.
    pub open spec fn kind_of(self) -> ErrorKind {
        match self {
            StudyError::NoCourse => ErrorKind::NotFound,
            StudyError::CourseNotFound { .. } => ErrorKind::NotFound,
            StudyError::NoCourseRoot => ErrorKind::NotFound,
            StudyError::NoExerciseTypes => ErrorKind::InvalidData,
            StudyError::UnknownExerciseType { .. } => ErrorKind::NotFound,
            StudyError::AmbiguousExerciseType { .. } => ErrorKind::InvalidInput,
            StudyError::ExerciseExists { .. } => ErrorKind::AlreadyExists,
            StudyError::CourseExists { .. } => ErrorKind::AlreadyExists,
            StudyError::EmptyCourseCode => ErrorKind::InvalidInput,
            StudyError::Metadata => ErrorKind::Other,
        }
    }

    /// The condition that the error falls under.
    pub fn kind(&self) -> (kind: ErrorKind)
        ensures
            kind == self.kind_of(),
    {
        match self {
            StudyError::NoCourse => ErrorKind::NotFound,
            StudyError::CourseNotFound { .. } => ErrorKind::NotFound,
            StudyError::NoCourseRoot => ErrorKind::NotFound,
            StudyError::NoExerciseTypes => ErrorKind::InvalidData,
            StudyError::UnknownExerciseType { .. } => ErrorKind::NotFound,
            StudyError::AmbiguousExerciseType { .. } => ErrorKind::InvalidInput,
            StudyError::ExerciseExists { .. } => ErrorKind::AlreadyExists,
            StudyError::CourseExists { .. } => ErrorKind::AlreadyExists,
            StudyError::EmptyCourseCode => ErrorKind::InvalidInput,
            StudyError::Metadata => ErrorKind::Other,
        }
    }

    /// The message shown to the user.
    pub open spec fn text(self) -> Seq<char> {
        match self {
            StudyError::NoCourse => "No course specified and no previous session found."@,
            StudyError::CourseNotFound { input } => "Course not found: "@ + input@,
            StudyError::NoCourseRoot =>
                "No course.toml found in current or parent directories. Use --course <name> or run from inside a course directory."@,
            StudyError::NoExerciseTypes =>
                "No exercise types defined in course.toml. Add [exercise_types.<name>] sections."@,
            StudyError::UnknownExerciseType { requested, available } => "Unknown exercise type '"@
                + requested@ + "'. Available: "@ + joined(available.deep_view(), ", "@),
            StudyError::AmbiguousExerciseType { available } =>
                "Multiple exercise types available. Use --type <type> to choose: "@ + joined(
                    available.deep_view(),
                    ", "@,
                ),
            StudyError::ExerciseExists { path } => "Exercise directory already exists: "@ + path@,
            StudyError::CourseExists { path } => "Course directory already exists: "@ + path@,
            StudyError::EmptyCourseCode => "Course code is required."@,
            StudyError::Metadata => "Exercise metadata cannot be written as TOML."@,
        }
    }

    /// The message shown to the user.
    pub fn message(&self) -> (text: String)
        ensures
            text@ == self.text(),
    {
        let mut out = String::new();
        match self {
            StudyError::NoCourse => {
                push_text(&mut out, "No course specified and no previous session found.");
            },
            StudyError::CourseNotFound { input } => {
                push_text(&mut out, "Course not found: ");
                push_text(&mut out, input.as_str());
            },
            StudyError::NoCourseRoot => {
                push_text(
                    &mut out,
                    "No course.toml found in current or parent directories. Use --course <name> or run from inside a course directory.",
                );
            },
            StudyError::NoExerciseTypes => {
                push_text(
                    &mut out,
                    "No exercise types defined in course.toml. Add [exercise_types.<name>] sections.",
                );
            },
            StudyError::UnknownExerciseType { requested, available } => {
                let list = join(available, ", ");
                push_text(&mut out, "Unknown exercise type '");
                push_text(&mut out, requested.as_str());
                push_text(&mut out, "'. Available: ");
                push_text(&mut out, list.as_str());
            },
            StudyError::AmbiguousExerciseType { available } => {
                let list = join(available, ", ");
                push_text(
                    &mut out,
                    "Multiple exercise types available. Use --type <type> to choose: ",
                );
                push_text(&mut out, list.as_str());
            },
            StudyError::ExerciseExists { path } => {
                push_text(&mut out, "Exercise directory already exists: ");
                push_text(&mut out, path.as_str());
            },
            StudyError::CourseExists { path } => {
                push_text(&mut out, "Course directory already exists: ");
                push_text(&mut out, path.as_str());
            },
            StudyError::EmptyCourseCode => {
                push_text(&mut out, "Course code is required.");
            },
            StudyError::Metadata => {
                push_text(&mut out, "Exercise metadata cannot be written as TOML.");
            },
        }
        assert(out@ =~= self.text());
        out
    }
}

} // verus!
