//! What can be asked for on the command line.

use vstd::prelude::*;

verus! {

/// `clap_complete::Shell`, a shell that completions can be generated for.
#[verifier::external_type_specification]
#[verifier::external_body]
pub struct ExShell(clap_complete::Shell);

/// The command line as it was given.
#[derive(Debug)]
pub struct Args {
    pub command: Option<Command>,
    /// Course name, for the invocation without a command.
    pub course: Option<String>,
    /// Exercise name, for the invocation without a command.
    pub exercise: Option<String>,
}

#[derive(Debug)]
pub enum Command {
    /// Initialize a course or exercise.
    Init { target: InitTarget },
    /// Start a study session for a course.
    Study { course: String, exercise: Option<String> },
    /// Generate shell completions.
    Completions { shell: clap_complete::Shell },
}

#[derive(Debug)]
pub enum InitTarget {
    /// Initialize a new course directory; with `raw`, the course code is
    /// not taken apart.
    Course { name: Option<String>, raw: bool },
    /// Initialize a new exercise, of the type `kind`.
    Exercise { kind: Option<String>, name: Option<String>, course: Option<String> },
}

/// What is to be done.
#[derive(Debug)]
pub enum Request {
    InitCourse { name: Option<String>, raw: bool },
    InitExercise { kind: Option<String>, name: Option<String>, course: Option<String> },
    Study { course: Option<String>, exercise: Option<String> },
    Completions { shell: clap_complete::Shell },
}

impl Args {
    /// What the command line asks for. Without a command it stands for
    /// `study`, with the course and the exercise given, if any; with a
    /// command, a course or exercise given beside it is passed over.
    pub open spec fn requested(self) -> Request {
        match self.command {
            Some(Command::Init { target: InitTarget::Course { name, raw } }) =>
                Request::InitCourse { name, raw },
            Some(Command::Init { target: InitTarget::Exercise { kind, name, course } }) =>
                Request::InitExercise { kind, name, course },
            Some(Command::Study { course, exercise }) => Request::Study {
                course: Some(course),
                exercise,
            },
            Some(Command::Completions { shell }) => Request::Completions { shell },
            None => Request::Study { course: self.course, exercise: self.exercise },
        }
    }

    /// What the command line asks for.
    pub fn request(self) -> (r: Request)
        ensures
            r == self.requested(),
    {
        match self.command {
            Some(Command::Init { target }) => match target {
                InitTarget::Course { name, raw } => Request::InitCourse { name, raw },
                InitTarget::Exercise { kind, name, course } => Request::InitExercise {
                    kind,
                    name,
                    course,
                },
            },
            Some(Command::Study { course, exercise }) => Request::Study {
                course: Some(course),
                exercise,
            },
            Some(Command::Completions { shell }) => Request::Completions { shell },
            None => Request::Study { course: self.course, exercise: self.exercise },
        }
    }
}

} // verus!
