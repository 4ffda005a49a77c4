//! Configuration records, the session state, and how a course identifier
//! leads to a directory.

use vstd::prelude::*;
use crate::names::NameMap;
use crate::paths::{join, joined_path, lemma_join_stays_below, without_leading_separators};
use crate::text::{
    chars_of, find_char, first_index, is_ascii_letter, lemma_first_index, lemma_letter_run,
    letter_prefix_len, letter_run, same_text, string_of,
};

verus! {

/// Where courses and templates live.
#[derive(Debug, Clone)]
pub struct GlobalConfig {
    pub courses_dir: String,
    pub default_template_dir: String,
}

impl Default for GlobalConfig {
    /// The configuration used where none was written down.
    fn default() -> (config: Self)
        ensures
            config.courses_dir@ == "~/courses"@,
            config.default_template_dir@ == "~/.config/study/templates"@,
    {
        GlobalConfig {
            courses_dir: "~/courses".to_owned(),
            default_template_dir: "~/.config/study/templates".to_owned(),
        }
    }
}

/// How a course is called: its code, and a readable name where it has one.
#[derive(Debug, Clone)]
pub struct CourseInfo {
    pub code: String,
    pub name: Option<String>,
}

/// A kind of exercise: the template its directory starts from, how its
/// directories are named, and further metadata for the generated file.
#[derive(Debug, Clone)]
pub struct ExerciseType {
    pub template: String,
    pub naming_scheme: String,
    pub meta: NameMap<toml::Value>,
}

/// The shell command lines of a study session, in the order in which they
/// are started.
#[derive(Debug, Clone)]
pub struct StudyConfig {
    pub commands: Vec<String>,
}

impl Default for StudyConfig {
    fn default() -> (config: Self)
        ensures
            config.commands@.len() == 0,
    {
        StudyConfig { commands: Vec::new() }
    }
}

/// What a course directory's `course.toml` holds.
#[derive(Debug, Clone)]
pub struct CourseConfig {
    pub course: CourseInfo,
    pub template_dir: Option<String>,
    pub exercise_types: NameMap<ExerciseType>,
    pub study: StudyConfig,
}

/// What is remembered between invocations: the course used last, and for
/// each course code the exercise used last.
#[derive(Debug, Clone)]
pub struct StudyState {
    pub last_course: Option<String>,
    pub last_exercises: NameMap<String>,
}

impl Default for StudyState {
    /// The state before anything was recorded.
    fn default() -> (state: Self)
        ensures
            state.last_course is None,
            state.last_exercises.names().len() == 0,
            state.last_exercises.wf(),
    {
        StudyState { last_course: None, last_exercises: NameMap::new() }
    }
}

impl StudyState {
    /// The exercise recorded for the course `code`, if any.
    pub open spec fn exercise_of(&self, code: Seq<char>) -> Option<Seq<char>> {
        if self.last_exercises.contains(code) {
            Some(self.last_exercises.value_of(code)@)
        } else {
            None
        }
    }

    /// Whether this state is `before` with the course `code` recorded as
    /// the one used last, and with `exercise`, if there is one, recorded as
    /// the exercise used last in that course. What is recorded for other
    /// courses is as before.
    pub open spec fn records(
        &self,
        before: StudyState,
        code: Seq<char>,
        exercise: Option<Seq<char>>,
    ) -> bool {
        &&& self.last_course.deep_view() == Some(code)
        &&& match exercise {
            Some(e) => self.exercise_of(code) == Some(e),
            None => self.exercise_of(code) == before.exercise_of(code),
        }
        &&& forall|other: Seq<char>|
            other != code ==> self.exercise_of(other) == before.exercise_of(other)
    }

    /// The exercise used last in the course `code`.
    pub fn last_exercise(&self, code: &str) -> (r: Option<&String>)
        ensures
            r.deep_view() == self.exercise_of(code@),
    {
        self.last_exercises.get(code)
    }

    /// Records that the course `code` was used.
    pub fn record_course(&mut self, code: &str)
        ensures
            final(self).last_course.deep_view() == Some(code@),
            final(self).last_exercises == old(self).last_exercises,
    {
        self.last_course = Some(code.to_owned());
    }

    /// Records that `exercise` was used in the course `code`. What is
    /// recorded for other courses stays.
    pub fn record_exercise(&mut self, code: &str, exercise: &str)
        ensures
            final(self).last_course == old(self).last_course,
            final(self).exercise_of(code@) == Some(exercise@),
            forall|other: Seq<char>|
                other != code@ ==> final(self).exercise_of(other) == old(self).exercise_of(other),
            old(self).last_exercises.contains(code@) ==> final(self).last_exercises.names() == old(
                self,
            ).last_exercises.names(),
            !old(self).last_exercises.contains(code@) ==> final(self).last_exercises.names() == old(
                self,
            ).last_exercises.names().push(code@),
    {
        let ghost before = self.last_exercises;
        let value = exercise.to_owned();
        self.last_exercises.insert(code.to_owned(), value);
        proof {
            let after = self.last_exercises;
            assert(after.as_map().dom().contains(code@));
            assert(after.as_map()[code@] == value);
            assert forall|other: Seq<char>| other != code@ implies self.exercise_of(other)
                == old(self).exercise_of(other) by {
                assert(after.as_map().dom().contains(other) == before.as_map().dom().contains(
                    other,
                ));
                if before.contains(other) {
                    assert(after.as_map()[other] == before.as_map()[other]);
                }
            }
        }
    }
}

// ---------------------------------------------------------------------------
// Course codes
// ---------------------------------------------------------------------------

/// The faculty under which courses without one are filed.
pub open spec fn no_faculty() -> Seq<char> {
    "undefined"@
}

/// The faculty and the code that a course identifier stands for.
///
/// An identifier with a hyphen is split at its first hyphen. One without
/// is split behind its leading ASCII letters. One that has neither is the
/// code as a whole, filed under `no_faculty()`.
pub open spec fn course_code_parts(input: Seq<char>) -> (Seq<char>, Seq<char>) {
    let hyphen = first_index(input, '-') as int;
    let letters = letter_run(input) as int;
    if hyphen < input.len() {
        (input.take(hyphen), input.skip(hyphen + 1))
    } else if letters > 0 {
        (input.take(letters), input.skip(letters))
    } else {
        (no_faculty(), input)
    }
}

/// Splits a course identifier into faculty and code. Every string is
/// accepted.
pub fn parse_course_code(input: &str) -> (parts: (String, String))
    ensures
        (parts.0@, parts.1@) == course_code_parts(input@),
{
    let chars = chars_of(input);
    proof {
        lemma_first_index(chars@, '-');
        lemma_letter_run(chars@);
    }
    let hyphen = find_char(&chars, '-');
    if hyphen < chars.len() {
        return (string_of(&chars, 0, hyphen), string_of(&chars, hyphen + 1, chars.len()));
    }
    let letters = letter_prefix_len(&chars);
    if letters > 0 {
        return (string_of(&chars, 0, letters), string_of(&chars, letters, chars.len()));
    }
    ("undefined".to_owned(), input.to_owned())
}

/// The two parts of a course identifier give the identifier back: around
/// its first hyphen where it has one; one after the other where it has none
/// and begins with a letter, the faculty then being all its leading letters;
/// and an identifier with neither is its own code.
pub proof fn lemma_course_code_reconstructs(input: Seq<char>)
    ensures
        ({
            let (faculty, code) = course_code_parts(input);
            if input.contains('-') {
                &&& faculty + seq!['-'] + code == input
                &&& !faculty.contains('-')
            } else if input.len() > 0 && is_ascii_letter(input[0]) {
                &&& faculty + code == input
                &&& faculty.len() > 0
                &&& forall|i: int| 0 <= i < faculty.len() ==> is_ascii_letter(faculty[i])
                &&& code.len() > 0 ==> !is_ascii_letter(code[0])
            } else {
                &&& faculty == no_faculty()
                &&& code == input
            }
        }),
{
    lemma_first_index(input, '-');
    lemma_letter_run(input);
    let (faculty, code) = course_code_parts(input);
    let hyphen = first_index(input, '-') as int;
    if input.contains('-') {
        let k = choose|k: int| 0 <= k < input.len() && input[k] == '-';
        assert(hyphen < input.len());
        assert(faculty + seq!['-'] + code =~= input);
        if faculty.contains('-') {
            let j = choose|j: int| 0 <= j < faculty.len() && faculty[j] == '-';
            assert(input[j] == '-');
        }
    } else {
        if hyphen < input.len() {
            assert(input.contains(input[hyphen]));
        }
        if input.len() > 0 && is_ascii_letter(input[0]) {
            assert(letter_run(input) > 0);
            assert(faculty + code =~= input);
        } else {
            assert(letter_run(input) == 0);
        }
    }
}

// ---------------------------------------------------------------------------
// Where things are
// ---------------------------------------------------------------------------

/// `dirs::home_dir` looks the user's home directory up in the environment
/// of the process. Nothing is promised of what it finds. A home directory
/// whose path is not valid Unicode counts as none.
#[verifier::external_body]
fn user_home() -> Option<String> {
    dirs::home_dir().and_then(|p| p.into_os_string().into_string().ok())
}

/// `dirs::config_dir` looks the user's configuration directory up in the
/// environment of the process. Nothing is promised of what it finds. A
/// directory whose path is not valid Unicode counts as none.
#[verifier::external_body]
fn user_config_dir() -> Option<String> {
    dirs::config_dir().and_then(|p| p.into_os_string().into_string().ok())
}

/// Whether `path` begins with `~/`.
pub open spec fn has_tilde(path: Seq<char>) -> bool {
    path.len() >= 2 && path[0] == '~' && path[1] == '/'
}

/// `path` with a leading `~/` replaced by the home directory, where there
/// is one: what follows the `~/` is put below the home directory. Any other
/// path is left as it is.
pub open spec fn tilde_expanded(path: Seq<char>, home: Option<Seq<char>>) -> Seq<char> {
    match home {
        Some(h) => if has_tilde(path) {
            joined_path(h, path.skip(2))
        } else {
            path
        },
        None => path,
    }
}

/// A path that begins with `~/` is expanded to a path below the home
/// directory.
pub proof fn lemma_tilde_below_home(path: Seq<char>, home: Seq<char>)
    requires
        has_tilde(path),
    ensures
        home.is_prefix_of(tilde_expanded(path, Some(home))),
{
    lemma_join_stays_below(home, path.skip(2));
}

/// Expands a leading `~/` of `path` to the given home directory.
pub fn expand_tilde_with(path: &str, home: Option<&str>) -> (r: String)
    ensures
        r@ == tilde_expanded(path@, home.deep_view()),
{
    let chars = chars_of(path);
    match home {
        Some(h) => {
            if chars.len() >= 2 && chars[0] == '~' && chars[1] == '/' {
                let rest = string_of(&chars, 2, chars.len());
                join(h, rest.as_str())
            } else {
                path.to_owned()
            }
        },
        None => path.to_owned(),
    }
}

/// Expands a leading `~/` of `path` to the user's home directory. The home
/// directory is whatever the environment gives at the time of the call, so
/// the result is stated for some home directory, or none. A path without
/// `~/` in front comes back unchanged.
pub fn expand_tilde(path: &str) -> (r: String)
    ensures
        exists|home: Option<Seq<char>>| r@ == tilde_expanded(path@, home),
        !has_tilde(path@) ==> r@ == path@,
{
    let chars = chars_of(path);
    if chars.len() >= 2 && chars[0] == '~' && chars[1] == '/' {
        let home = user_home();
        let r = match &home {
            Some(h) => expand_tilde_with(path, Some(h.as_str())),
            None => expand_tilde_with(path, None),
        };
        assert(r@ == tilde_expanded(path@, home.deep_view()));
        r
    } else {
        let r = path.to_owned();
        assert(r@ == tilde_expanded(path@, None));
        r
    }
}

/// The directory of the course `input` below the courses directory `root`:
/// `<root>/<faculty>/<code>`. Faculty and code are each put below what
/// stands before them; neither takes its place, whatever it begins with.
pub open spec fn course_path(root: Seq<char>, input: Seq<char>) -> Seq<char> {
    let (faculty, code) = course_code_parts(input);
    joined_path(joined_path(root, faculty), code)
}

/// The directory of a course stands below the courses directory, whatever
/// the course identifier holds: it begins with the courses directory and
/// ends with the code, less the separators in front of the code.
pub proof fn lemma_course_path_below_root(root: Seq<char>, input: Seq<char>)
    ensures
        root.is_prefix_of(course_path(root, input)),
        joined_path(root, course_code_parts(input).0).is_prefix_of(course_path(root, input)),
        without_leading_separators(course_code_parts(input).1).is_suffix_of(
            course_path(root, input),
        ),
{
    let (faculty, code) = course_code_parts(input);
    let below = joined_path(root, faculty);
    lemma_join_stays_below(root, faculty);
    lemma_join_stays_below(below, code);
    let whole = course_path(root, input);
    assert(whole.subrange(0, root.len() as int) =~= below.subrange(0, root.len() as int));
}

/// The directory in which the course `input` is expected, for a given home
/// directory. Whether it exists is not looked at.
pub fn resolve_course_dir_with(global: &GlobalConfig, input: &str, home: Option<&str>) -> (r:
    String)
    ensures
        r@ == course_path(tilde_expanded(global.courses_dir@, home.deep_view()), input@),
{
    let (faculty, code) = parse_course_code(input);
    let root = expand_tilde_with(global.courses_dir.as_str(), home);
    let below = join(root.as_str(), faculty.as_str());
    join(below.as_str(), code.as_str())
}

/// The directory in which the course `input` is expected. Whether it exists
/// is not looked at. A courses directory that begins with `~/` is expanded
/// with the home directory that the environment gives.
pub fn resolve_course_dir(global: &GlobalConfig, input: &str) -> (r: String)
    ensures
        exists|home: Option<Seq<char>>|
            r@ == course_path(tilde_expanded(global.courses_dir@, home), input@),
        !has_tilde(global.courses_dir@) ==> r@ == course_path(global.courses_dir@, input@),
{
    let (faculty, code) = parse_course_code(input);
    let root = expand_tilde(global.courses_dir.as_str());
    let below = join(root.as_str(), faculty.as_str());
    let r = join(below.as_str(), code.as_str());
    proof {
        let home = choose|home: Option<Seq<char>>|
            root@ == tilde_expanded(global.courses_dir@, home);
        assert(r@ == course_path(tilde_expanded(global.courses_dir@, home), input@));
    }
    r
}

/// The directory that holds this program's files: `study` below the
/// configuration directory `dir`, or below `~/.config` where there is
/// none.
pub open spec fn program_dir(dir: Option<Seq<char>>) -> Seq<char> {
    match dir {
        Some(d) => joined_path(d, "study"@),
        None => joined_path("~/.config"@, "study"@),
    }
}

fn program_dir_in(config_dir: Option<&str>) -> (r: String)
    ensures
        r@ == program_dir(config_dir.deep_view()),
{
    match config_dir {
        Some(d) => join(d, "study"),
        None => join("~/.config", "study"),
    }
}

/// The file of the session state, for a given configuration directory.
pub fn state_path_in(config_dir: Option<&str>) -> (r: String)
    ensures
        r@ == joined_path(program_dir(config_dir.deep_view()), "state.toml"@),
{
    let dir = program_dir_in(config_dir);
    join(dir.as_str(), "state.toml")
}

/// The file of the global configuration, for a given configuration
/// directory.
pub fn global_config_path_in(config_dir: Option<&str>) -> (r: String)
    ensures
        r@ == joined_path(program_dir(config_dir.deep_view()), "config.toml"@),
{
    let dir = program_dir_in(config_dir);
    join(dir.as_str(), "config.toml")
}

/// The file of the session state, below the configuration directory that
/// the environment gives.
pub fn state_path() -> (r: String)
    ensures
        exists|dir: Option<Seq<char>>| r@ == joined_path(program_dir(dir), "state.toml"@),
{
    let dir = user_config_dir();
    let r = match &dir {
        Some(d) => state_path_in(Some(d.as_str())),
        None => state_path_in(None),
    };
    assert(r@ == joined_path(program_dir(dir.deep_view()), "state.toml"@));
    r
}

/// The file of the global configuration, below the configuration directory
/// that the environment gives.
pub fn global_config_path() -> (r: String)
    ensures
        exists|dir: Option<Seq<char>>| r@ == joined_path(program_dir(dir), "config.toml"@),
{
    let dir = user_config_dir();
    let r = match &dir {
        Some(d) => global_config_path_in(Some(d.as_str())),
        None => global_config_path_in(None),
    };
    assert(r@ == joined_path(program_dir(dir.deep_view()), "config.toml"@));
    r
}

// ---------------------------------------------------------------------------
// What was found on disk
// ---------------------------------------------------------------------------

/// A directory that was looked at, and whether a `course.toml` was found in
/// it.
#[derive(Debug, Clone)]
pub struct DirProbe {
    pub path: String,
    pub has_config: bool,
}

/// What an entry of a directory listing is.
#[derive(Debug, Clone, Copy, PartialEq, Eq, Structural)]
pub enum EntryKind {
    Directory,
    /// Anything that is not a directory.
    File,
    /// The kind of the entry could not be read.
    Unknown,
}

/// An entry of a directory listing. Entries that could not be read at all
/// are not listed.
#[derive(Debug, Clone)]
pub struct Entry {
    pub path: String,
    pub kind: EntryKind,
}

/// An entry directly below the courses directory, with the listing of what
/// is below it (empty where the entry could not be listed).
#[derive(Debug, Clone)]
pub struct FacultyListing {
    pub entry: Entry,
    pub children: Vec<Entry>,
}

/// A course directory that was scanned: the course that its `course.toml`
/// declares, or `None` where the file is missing or cannot be understood.
#[derive(Debug, Clone)]
pub struct CourseProbe {
    pub dir: String,
    pub course: Option<CourseInfo>,
}

/// An entry of a course directory: its name, its kind, and when it was
/// last modified, in nanoseconds since the Unix epoch (`None` where the time
/// could not be read).
#[derive(Debug, Clone)]
pub struct DatedEntry {
    pub name: String,
    pub kind: EntryKind,
    pub modified: Option<i128>,
}

/// `probes[i]` is the first probe in which a `course.toml` was found.
pub open spec fn is_first_root(probes: Seq<DirProbe>, i: int) -> bool {
    &&& 0 <= i < probes.len()
    &&& probes[i].has_config
    &&& forall|j: int| 0 <= j < i ==> !probes[j].has_config
}

/// The course directory that encloses a starting directory.
///
/// `ancestors` are the starting directory and every directory above it,
/// nearest first, each with what was found there. The result is the nearest
/// one that holds a `course.toml`.
pub fn find_course_root(ancestors: &Vec<DirProbe>) -> (r: Option<String>)
    ensures
        match r {
            Some(path) => exists|i: int|
                is_first_root(ancestors@, i) && path@ == ancestors@[i].path@,
            None => forall|i: int| 0 <= i < ancestors@.len() ==> !ancestors@[i].has_config,
        },
{
    let mut i: usize = 0;
    while i < ancestors.len()
        invariant
            i <= ancestors.len(),
            forall|j: int| 0 <= j < i ==> !ancestors@[j].has_config,
        decreases ancestors.len() - i,
    {
        if ancestors[i].has_config {
            assert(is_first_root(ancestors@, i as int));
            return Some(ancestors[i].path.clone());
        }
        i += 1;
    }
    None
}

/// The paths of the directories among `entries`, in order.
pub open spec fn directories(entries: Seq<Entry>) -> Seq<Seq<char>>
    decreases entries.len(),
{
    if entries.len() == 0 {
        Seq::empty()
    } else if entries.last().kind == EntryKind::Directory {
        directories(entries.drop_last()).push(entries.last().path@)
    } else {
        directories(entries.drop_last())
    }
}

/// The course directories found in the listings: the directories below the
/// directories below the courses directory, in the order of the listings.
pub open spec fn course_dirs_of(faculties: Seq<FacultyListing>) -> Seq<Seq<char>>
    decreases faculties.len(),
{
    if faculties.len() == 0 {
        Seq::empty()
    } else if faculties.last().entry.kind == EntryKind::Directory {
        course_dirs_of(faculties.drop_last()) + directories(faculties.last().children@)
    } else {
        course_dirs_of(faculties.drop_last())
    }
}

/// All course directories, `<courses_dir>/<faculty>/<course>`.
///
/// `faculties` lists the entries of the courses directory, each with the
/// entries below it. Only directories count, on both levels: files, and
/// entries whose kind could not be read, are passed over.
pub fn course_dirs(faculties: &Vec<FacultyListing>) -> (dirs: Vec<String>)
    ensures
        dirs.deep_view() == course_dirs_of(faculties@),
{
    let mut dirs: Vec<String> = Vec::new();
    let mut i: usize = 0;
    proof {
        assert(dirs.deep_view() =~= course_dirs_of(faculties@.take(0)));
    }
    while i < faculties.len()
        invariant
            i <= faculties.len(),
            dirs.deep_view() == course_dirs_of(faculties@.take(i as int)),
        decreases faculties.len() - i,
    {
        let faculty = &faculties[i];
        proof {
            assert(faculties@.take(i + 1).drop_last() =~= faculties@.take(i as int));
            assert(faculties@.take(i + 1).last() == faculties@[i as int]);
        }
        if faculty.entry.kind == EntryKind::Directory {
            let ghost before = dirs.deep_view();
            let mut k: usize = 0;
            proof {
                assert(dirs.deep_view() =~= before + directories(faculty.children@.take(0)));
            }
            while k < faculty.children.len()
                invariant
                    k <= faculty.children.len(),
                    dirs.deep_view() == before + directories(faculty.children@.take(k as int)),
                decreases faculty.children.len() - k,
            {
                let child = &faculty.children[k];
                proof {
                    assert(faculty.children@.take(k + 1).drop_last() =~= faculty.children@.take(
                        k as int,
                    ));
                    assert(faculty.children@.take(k + 1).last() == faculty.children@[k as int]);
                }
                let ghost so_far = dirs.deep_view();
                if child.kind == EntryKind::Directory {
                    dirs.push(child.path.clone());
                    proof {
                        assert(dirs.deep_view() =~= so_far.push(child.path@));
                    }
                }
                k += 1;
                proof {
                    assert(dirs.deep_view() =~= before + directories(
                        faculty.children@.take(k as int),
                    ));
                }
            }
            proof {
                assert(faculty.children@.take(faculty.children.len() as int)
                    =~= faculty.children@);
            }
        }
        i += 1;
    }
    proof {
        assert(faculties@.take(faculties.len() as int) =~= faculties@);
    }
    dirs
}

/// Whether the scanned course carries the readable name `input`. Names are
/// compared as they are, letter case included.
pub open spec fn is_called(probe: CourseProbe, input: Seq<char>) -> bool {
    match probe.course {
        Some(course) => match course.name {
            Some(name) => name@ == input,
            None => false,
        },
        None => false,
    }
}

/// `scanned[i]` is the first scanned course that is called `input`.
pub open spec fn is_first_called(scanned: Seq<CourseProbe>, input: Seq<char>, i: int) -> bool {
    &&& 0 <= i < scanned.len()
    &&& is_called(scanned[i], input)
    &&& forall|j: int| 0 <= j < i ==> !is_called(scanned[j], input)
}

/// Whether `found` is what the search for the course `input` gives: the
/// directly resolved directory where a valid `course.toml` was found in
/// it; else the directory of the first scanned course that is called
/// `input`; else nothing.
pub open spec fn is_course_dir_for(
    input: Seq<char>,
    direct: DirProbe,
    scanned: Seq<CourseProbe>,
    found: Option<Seq<char>>,
) -> bool {
    if direct.has_config {
        found == Some(direct.path@)
    } else {
        match found {
            Some(dir) => exists|i: int|
                is_first_called(scanned, input, i) && dir == scanned[i].dir@,
            None => forall|i: int| 0 <= i < scanned.len() ==> !is_called(scanned[i], input),
        }
    }
}

/// The directory of the course that `input` stands for, as a code or as a
/// readable name.
///
/// `direct` is the directory that `resolve_course_dir` gives for `input`,
/// with whether a valid `course.toml` was found there; if so, it is the
/// answer. Else the answer is the first of the `scanned` course directories
/// whose course is called `input`, and `None` if there is none.
pub fn find_course_dir(input: &str, direct: &DirProbe, scanned: &Vec<CourseProbe>) -> (r: Option<
    String,
>)
    ensures
        is_course_dir_for(input@, *direct, scanned@, r.deep_view()),
{
    if direct.has_config {
        return Some(direct.path.clone());
    }
    let mut i: usize = 0;
    while i < scanned.len()
        invariant
            !direct.has_config,
            i <= scanned.len(),
            forall|j: int| 0 <= j < i ==> !is_called(scanned@[j], input@),
        decreases scanned.len() - i,
    {
        let called = match &scanned[i].course {
            Some(course) => match &course.name {
                Some(name) => same_text(name.as_str(), input),
                None => false,
            },
            None => false,
        };
        if called {
            assert(is_first_called(scanned@, input@, i as int));
            return Some(scanned[i].dir.clone());
        }
        i += 1;
    }
    None
}

/// A course that its code-based directory does not lead to is still found
/// by its readable name: where the directly resolved directory holds no
/// valid `course.toml`, and `scanned[k]` is called `input` with no course
/// scanned before it called the same, the search gives the directory of
/// `scanned[k]`.
pub proof fn lemma_fallback_by_name(
    input: Seq<char>,
    direct: DirProbe,
    scanned: Seq<CourseProbe>,
    k: int,
    found: Option<Seq<char>>,
)
    requires
        !direct.has_config,
        0 <= k < scanned.len(),
        is_called(scanned[k], input),
        forall|j: int| 0 <= j < k ==> !is_called(scanned[j], input),
        is_course_dir_for(input, direct, scanned, found),
    ensures
        found == Some(scanned[k].dir@),
{
    match found {
        Some(dir) => {
            let i = choose|i: int| is_first_called(scanned, input, i) && dir == scanned[i].dir@;
            assert(i == k);
        },
        None => {
            assert(!is_called(scanned[k], input));
        },
    }
}

/// Whether a name marks a hidden entry.
pub open spec fn is_hidden(name: Seq<char>) -> bool {
    name.len() > 0 && name[0] == '.'
}

/// Whether an entry of a course directory can be an exercise: a directory
/// that is not hidden and whose modification time is known.
pub open spec fn is_exercise_dir(entry: DatedEntry) -> bool {
    &&& entry.kind == EntryKind::Directory
    &&& !is_hidden(entry.name@)
    &&& entry.modified is Some
}

/// `entries[i]` is the exercise directory modified last; of several
/// modified at the same latest time, the one listed last.
pub open spec fn is_latest(entries: Seq<DatedEntry>, i: int) -> bool {
    &&& 0 <= i < entries.len()
    &&& is_exercise_dir(entries[i])
    &&& forall|j: int|
        0 <= j < i && is_exercise_dir(entries[j]) ==> entries[j].modified->0
            <= entries[i].modified->0
    &&& forall|j: int|
        i < j < entries.len() && is_exercise_dir(entries[j]) ==> entries[j].modified->0
            < entries[i].modified->0
}

/// Whether `found` names the exercise directory of `entries` that was
/// modified last; `None` where the entries hold no exercise directory.
pub open spec fn is_latest_exercise(entries: Seq<DatedEntry>, found: Option<Seq<char>>) -> bool {
    match found {
        Some(name) => exists|i: int| is_latest(entries, i) && name == entries[i].name@,
        None => forall|i: int| 0 <= i < entries.len() ==> !is_exercise_dir(entries[i]),
    }
}

/// The latest exercise directory so far stays the latest when the next
/// entry is no exercise directory, or is one that was modified earlier.
proof fn lemma_latest_stays(entries: Seq<DatedEntry>, i: int, b: int)
    requires
        0 <= b < i < entries.len(),
        is_latest(entries.take(i), b),
        is_exercise_dir(entries[i]) ==> entries[i].modified->0 < entries[b].modified->0,
    ensures
        is_latest(entries.take(i + 1), b),
{
    let seen = entries.take(i);
    let next = entries.take(i + 1);
    assert forall|j: int| 0 <= j < b && is_exercise_dir(next[j]) implies next[j].modified->0
        <= next[b].modified->0 by {
        assert(seen[j] == next[j]);
    }
    assert forall|j: int|
        b < j < next.len() && is_exercise_dir(next[j]) implies next[j].modified->0
        < next[b].modified->0 by {
        if j < i {
            assert(seen[j] == next[j]);
        }
    }
}

/// The next entry becomes the latest exercise directory when it is one and
/// none so far was modified later.
proof fn lemma_latest_moves(entries: Seq<DatedEntry>, i: int, best: Option<int>)
    requires
        0 <= i < entries.len(),
        is_exercise_dir(entries[i]),
        match best {
            Some(b) => 0 <= b < i && is_latest(entries.take(i), b) && entries[b].modified->0
                <= entries[i].modified->0,
            None => forall|j: int| 0 <= j < i ==> !is_exercise_dir(entries[j]),
        },
    ensures
        is_latest(entries.take(i + 1), i),
{
    let seen = entries.take(i);
    let next = entries.take(i + 1);
    assert forall|j: int| 0 <= j < i && is_exercise_dir(next[j]) implies next[j].modified->0
        <= next[i].modified->0 by {
        assert(seen[j] == next[j]);
    }
}

/// The name of the exercise directory that was modified last, among the
/// entries of a course directory.
pub fn find_latest_exercise(entries: &Vec<DatedEntry>) -> (r: Option<String>)
    ensures
        is_latest_exercise(entries@, r.deep_view()),
{
    let mut best: Option<usize> = None;
    let mut i: usize = 0;
    while i < entries.len()
        invariant
            i <= entries.len(),
            match best {
                Some(b) => b < i && is_latest(entries@.take(i as int), b as int),
                None => forall|j: int| 0 <= j < i ==> !is_exercise_dir(entries@[j]),
            },
        decreases entries.len() - i,
    {
        let entry = &entries[i];
        let hidden = {
            let name = chars_of(entry.name.as_str());
            name.len() > 0 && name[0] == '.'
        };
        let eligible = entry.kind == EntryKind::Directory && !hidden && entry.modified.is_some();
        let newer = eligible && match best {
            Some(b) => entries[b].modified.unwrap() <= entry.modified.unwrap(),
            None => true,
        };
        if newer {
            proof {
                let so_far = match best {
                    Some(b) => Some(b as int),
                    None => None,
                };
                lemma_latest_moves(entries@, i as int, so_far);
            }
            best = Some(i);
        } else {
            proof {
                match best {
                    Some(b) => {
                        lemma_latest_stays(entries@, i as int, b as int);
                    },
                    None => {},
                }
            }
        }
        i += 1;
    }
    proof {
        assert(entries@.take(entries.len() as int) =~= entries@);
    }
    match best {
        Some(b) => Some(entries[b].name.clone()),
        None => None,
    }
}

} // verus!
