//! Words offered when the command line is completed.

use vstd::prelude::*;
use crate::config::{CourseConfig, CourseProbe};

verus! {

/// What a scanned course can be asked for by: its code, then its readable
/// name where it has one. A course whose `course.toml` could not be
/// understood offers nothing.
pub open spec fn labels_of(probe: CourseProbe) -> Seq<Seq<char>> {
    match probe.course {
        Some(course) => match course.name {
            Some(name) => seq![course.code@, name@],
            None => seq![course.code@],
        },
        None => Seq::empty(),
    }
}

/// The labels of all the scanned courses, in the order of the scan.
pub open spec fn course_labels(scanned: Seq<CourseProbe>) -> Seq<Seq<char>>
    decreases scanned.len(),
{
    if scanned.len() == 0 {
        Seq::empty()
    } else {
        course_labels(scanned.drop_last()) + labels_of(scanned.last())
    }
}

/// The codes and names of the courses found in the course directories.
pub fn list_courses(scanned: &Vec<CourseProbe>) -> (labels: Vec<String>)
    ensures
        labels.deep_view() == course_labels(scanned@),
{
    let mut labels: Vec<String> = Vec::new();
    let mut i: usize = 0;
    proof {
        assert(labels.deep_view() =~= course_labels(scanned@.take(0)));
    }
    while i < scanned.len()
        invariant
            i <= scanned.len(),
            labels.deep_view() == course_labels(scanned@.take(i as int)),
        decreases scanned.len() - i,
    {
        let ghost before = labels.deep_view();
        proof {
            assert(scanned@.take(i + 1).drop_last() =~= scanned@.take(i as int));
            assert(scanned@.take(i + 1).last() == scanned@[i as int]);
        }
        match &scanned[i].course {
            Some(course) => {
                labels.push(course.code.clone());
                match &course.name {
                    Some(name) => {
                        labels.push(name.clone());
                    },
                    None => {},
                }
            },
            None => {},
        }
        proof {
            assert(labels.deep_view() =~= before + labels_of(scanned@[i as int]));
        }
        i += 1;
    }
    proof {
        assert(scanned@.take(scanned.len() as int) =~= scanned@);
    }
    labels
}

/// The names of a course's exercise types; none where the course's
/// `course.toml` could not be loaded.
pub fn list_exercise_types(loaded: Option<&CourseConfig>) -> (names: Vec<String>)
    ensures
        names.deep_view() == match loaded {
            Some(config) => config.exercise_types.names(),
            None => Seq::empty(),
        },
{
    match loaded {
        Some(config) => config.exercise_types.names_vec(),
        None => {
            let names: Vec<String> = Vec::new();
            assert(names.deep_view() =~= Seq::<Seq<char>>::empty());
            names
        },
    }
}

} // verus!
