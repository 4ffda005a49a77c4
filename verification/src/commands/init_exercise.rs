//! Starting a new exercise in a course: which type, which name, where, and
//! what goes into it.

use vstd::prelude::*;
use crate::config::{
    expand_tilde, expand_tilde_with, has_tilde, tilde_expanded, CourseConfig, CourseInfo,
    ExerciseType, GlobalConfig, StudyState,
};
use crate::document::{
    copy_of, empty_table, new_table, pretty_document, table_entries, table_insert, table_of,
    table_value, text_of, text_value, to_pretty,
};
use crate::error::StudyError;
use crate::names::NameMap;
use crate::paths::{join, joined_path, lemma_join_stays_below};
use crate::text::{
    bounded_decimal, chars_of, find_char, first_index, has_prefix_at, lemma_first_index,
    lemma_zero_padded_value, parse_decimal, push_text, push_zero_padded, string_of, zero_padded,
};

verus! {

// ---------------------------------------------------------------------------
// Naming schemes
// ---------------------------------------------------------------------------

/// The characters that open a width specifier: `{:0`.
pub open spec fn opener() -> Seq<char> {
    seq!['{', ':', '0']
}

/// `s` without the openers that it begins with.
pub open spec fn without_openers(s: Seq<char>) -> Seq<char>
    decreases s.len(),
{
    if opener().is_prefix_of(s) {
        without_openers(s.skip(3))
    } else {
        s
    }
}

/// `s` without the closing braces that it ends with.
pub open spec fn without_closers(s: Seq<char>) -> Seq<char>
    decreases s.len(),
{
    if s.len() > 0 && s.last() == '}' {
        without_closers(s.drop_last())
    } else {
        s
    }
}

/// The width that numbers are padded to where a scheme names none.
pub open spec fn default_width() -> nat {
    2
}

/// `s` without a `+` in front of it.
pub open spec fn without_plus(s: Seq<char>) -> Seq<char> {
    if s.len() > 0 && s[0] == '+' {
        s.drop_first()
    } else {
        s
    }
}

/// The width that a specifier asks for: the number between its opener and
/// its closing brace, written in decimal digits, with or without a `+` in
/// front. A specifier of any other form, or with a number beyond `usize`,
/// asks for the default width.
pub open spec fn specifier_width(specifier: Seq<char>) -> nat {
    let number = without_plus(without_closers(without_openers(specifier)));
    match bounded_decimal(number, usize::MAX as nat) {
        Some(n) => n,
        None => default_width(),
    }
}

/// The literal prefix and the width of a naming scheme. The prefix is what
/// stands before the first `{`, the rest is the width specifier; a scheme
/// without `{` is all prefix.
pub open spec fn scheme_parts(scheme: Seq<char>) -> (Seq<char>, nat) {
    let brace = first_index(scheme, '{') as int;
    if brace < scheme.len() {
        (scheme.take(brace), specifier_width(scheme.skip(brace)))
    } else {
        (scheme, default_width())
    }
}

/// Takes a naming scheme such as `lab{:02}` apart into its prefix (`lab`)
/// and its width (2).
pub fn parse_naming_scheme(scheme: &str) -> (parts: (String, usize))
    ensures
        (parts.0@, parts.1 as nat) == scheme_parts(scheme@),
{
    let chars = chars_of(scheme);
    proof {
        lemma_first_index(chars@, '{');
    }
    let brace = find_char(&chars, '{');
    if brace >= chars.len() {
        return (scheme.to_owned(), 2);
    }
    let ghost specifier = chars@.skip(brace as int);
    let open = vec!['{', ':', '0'];
    assert(open@ =~= opener());
    let mut start: usize = brace;
    while has_prefix_at(&chars, start, &open)
        invariant
            brace <= start <= chars.len(),
            open@ == opener(),
            without_openers(specifier) == without_openers(chars@.skip(start as int)),
        decreases chars.len() - start,
    {
        proof {
            assert(chars@.skip(start as int).skip(3) =~= chars@.skip(start + 3));
        }
        start += 3;
    }
    let mut end: usize = chars.len();
    proof {
        assert(chars@.skip(start as int) =~= chars@.subrange(start as int, end as int));
    }
    while end > start && chars[end - 1] == '}'
        invariant
            start <= end <= chars.len(),
            without_closers(chars@.skip(start as int)) == without_closers(
                chars@.subrange(start as int, end as int),
            ),
        decreases end - start,
    {
        proof {
            assert(chars@.subrange(start as int, end as int).drop_last() =~= chars@.subrange(
                start as int,
                end - 1,
            ));
        }
        end -= 1;
    }
    let prefix = string_of(&chars, 0, brace);
    let ghost signed = chars@.subrange(start as int, end as int);
    if start < end && chars[start] == '+' {
        start += 1;
    }
    proof {
        assert(chars@.subrange(start as int, end as int) =~= without_plus(signed));
    }
    match parse_decimal(&chars, start, end, usize::MAX as u64) {
        Some(n) => (prefix, n as usize),
        None => (prefix, 2),
    }
}

// ---------------------------------------------------------------------------
// The next name
// ---------------------------------------------------------------------------

/// The number that the entry `name` carries under `prefix`: `name` is
/// `prefix` followed by decimal digits, and nothing else, that spell a
/// number within `u32`.
pub open spec fn entry_number(prefix: Seq<char>, name: Seq<char>) -> Option<nat> {
    if prefix.is_prefix_of(name) {
        bounded_decimal(name.skip(prefix.len() as int), u32::MAX as nat)
    } else {
        None
    }
}

/// The highest number that any of the entries carries under `prefix`; 0
/// where none carries one.
pub open spec fn highest_number(prefix: Seq<char>, names: Seq<Seq<char>>) -> nat
    decreases names.len(),
{
    if names.len() == 0 {
        0
    } else {
        let before = highest_number(prefix, names.drop_last());
        match entry_number(prefix, names.last()) {
            Some(n) => if n > before {
                n
            } else {
                before
            },
            None => before,
        }
    }
}

/// The name after the highest numbered entry: the scheme's prefix, then
/// the number that follows the highest one in use, padded with zeros to the
/// scheme's width.
pub open spec fn next_name_of(scheme: Seq<char>, names: Seq<Seq<char>>) -> Seq<char> {
    let (prefix, width) = scheme_parts(scheme);
    prefix + zero_padded(highest_number(prefix, names) + 1, width)
}

/// `highest_number` is no smaller than the number of any entry, and is the
/// number of some entry unless it is 0.
pub proof fn lemma_highest_number(prefix: Seq<char>, names: Seq<Seq<char>>)
    ensures
        forall|i: int|
            0 <= i < names.len() ==> match #[trigger] entry_number(prefix, names[i]) {
                Some(n) => n <= highest_number(prefix, names),
                None => true,
            },
        highest_number(prefix, names) > 0 ==> exists|i: int|
            0 <= i < names.len() && entry_number(prefix, names[i]) == Some(
                highest_number(prefix, names),
            ),
        highest_number(prefix, names) <= u32::MAX,
    decreases names.len(),
{
    if names.len() > 0 {
        let rest = names.drop_last();
        lemma_highest_number(prefix, rest);
        assert forall|i: int| 0 <= i < names.len() implies match #[trigger] entry_number(
            prefix,
            names[i],
        ) {
            Some(n) => n <= highest_number(prefix, names),
            None => true,
        } by {
            if i < names.len() - 1 {
                assert(rest[i] == names[i]);
            }
        }
        if highest_number(prefix, names) > 0 {
            if highest_number(prefix, names) == highest_number(prefix, rest) {
                let i = choose|i: int|
                    0 <= i < rest.len() && entry_number(prefix, rest[i]) == Some(
                        highest_number(prefix, rest),
                    );
                assert(rest[i] == names[i]);
            } else {
                assert(entry_number(prefix, names[names.len() - 1]) == Some(
                    highest_number(prefix, names),
                ));
            }
        }
    }
}

/// The next name is new: no entry is called by it, as long as the highest
/// number in use is below the largest that an entry can carry.
pub proof fn lemma_next_name_is_new(scheme: Seq<char>, names: Seq<Seq<char>>)
    requires
        highest_number(scheme_parts(scheme).0, names) < u32::MAX,
    ensures
        !names.contains(next_name_of(scheme, names)),
{
    let (prefix, width) = scheme_parts(scheme);
    let next = highest_number(prefix, names) + 1;
    let name = next_name_of(scheme, names);
    lemma_highest_number(prefix, names);
    lemma_zero_padded_value(next as nat, width);
    assert(name.subrange(0, prefix.len() as int) =~= prefix);
    assert(name.skip(prefix.len() as int) =~= zero_padded(next as nat, width));
    assert(entry_number(prefix, name) == Some(next as nat));
    if names.contains(name) {
        let i = choose|i: int| 0 <= i < names.len() && names[i] == name;
        assert(entry_number(prefix, names[i]) == Some(next as nat));
    }
}

/// The number that the entry `name` carries under `prefix`, if any.
fn number_of(prefix: &Vec<char>, name: &str) -> (r: Option<u32>)
    ensures
        match entry_number(prefix@, name@) {
            Some(n) => r == Some(n as u32),
            None => r is None,
        },
{
    let chars = chars_of(name);
    if !has_prefix_at(&chars, 0, prefix) {
        assert(chars@.skip(0) =~= chars@);
        return None;
    }
    assert(chars@.skip(0) =~= chars@);
    assert(chars@.skip(prefix.len() as int) =~= chars@.subrange(
        prefix.len() as int,
        chars.len() as int,
    ));
    match parse_decimal(&chars, prefix.len(), chars.len(), 0xffff_ffff) {
        Some(n) => Some(n as u32),
        None => None,
    }
}

/// The name for the next exercise of a naming scheme, given the names of
/// the entries that the course directory holds.
pub fn next_name(entries: &Vec<String>, naming_scheme: &str) -> (name: String)
    ensures
        name@ == next_name_of(naming_scheme@, entries.deep_view()),
{
    let (prefix, width) = parse_naming_scheme(naming_scheme);
    let prefix_chars = chars_of(prefix.as_str());
    let mut highest: u32 = 0;
    let mut i: usize = 0;
    while i < entries.len()
        invariant
            i <= entries.len(),
            prefix_chars@ == prefix@,
            highest == highest_number(prefix@, entries.deep_view().take(i as int)),
        decreases entries.len() - i,
    {
        proof {
            let next = entries.deep_view().take(i + 1);
            assert(next.drop_last() =~= entries.deep_view().take(i as int));
            assert(next.last() == entries@[i as int]@);
        }
        match number_of(&prefix_chars, entries[i].as_str()) {
            Some(n) => {
                if n > highest {
                    highest = n;
                }
            },
            None => {},
        }
        i += 1;
    }
    proof {
        assert(entries.deep_view().take(entries.len() as int) =~= entries.deep_view());
    }
    let mut name = String::new();
    push_text(&mut name, prefix.as_str());
    push_zero_padded(&mut name, highest as u64 + 1, width);
    assert(name@ =~= next_name_of(naming_scheme@, entries.deep_view()));
    name
}

// ---------------------------------------------------------------------------
// The exercise type
// ---------------------------------------------------------------------------

/// Which of the exercise types `names` is meant: the requested one where
/// one is requested, and the only one where none is. `None` where the
/// requested type is not there, or where nothing is requested and there is
/// not exactly one type.
pub open spec fn chosen_type(names: Seq<Seq<char>>, requested: Option<Seq<char>>) -> Option<int> {
    match requested {
        Some(name) => if names.contains(name) {
            Some(names.index_of(name))
        } else {
            None
        },
        None => if names.len() == 1 {
            Some(0)
        } else {
            None
        },
    }
}

/// Whether `e` is the error for a request that `chosen_type` answers with
/// `None`: the requested type is unknown, or the choice is ambiguous. Either
/// error lists the types that the course has.
pub open spec fn is_type_error(
    e: StudyError,
    names: Seq<Seq<char>>,
    requested: Option<Seq<char>>,
) -> bool {
    match requested {
        Some(name) => match e {
            StudyError::UnknownExerciseType { requested: r, available } => r@ == name
                && available.deep_view() == names,
            _ => false,
        },
        None => match e {
            StudyError::AmbiguousExerciseType { available } => available.deep_view() == names,
            _ => false,
        },
    }
}

/// Picks the exercise type: the one called `requested`, or the course's
/// only type where nothing is requested.
pub fn resolve_exercise_type<'a>(config: &'a CourseConfig, requested: Option<&str>) -> (r: Result<
    (String, &'a ExerciseType),
    StudyError,
>)
    ensures
        config.exercise_types.wf(),
        match chosen_type(config.exercise_types.names(), requested.deep_view()) {
            Some(k) => match r {
                Ok((name, exercise_type)) => name@ == config.exercise_types.names()[k]
                    && *exercise_type == config.exercise_types.values()[k],
                Err(_) => false,
            },
            None => match r {
                Ok(_) => false,
                Err(e) => is_type_error(e, config.exercise_types.names(), requested.deep_view()),
            },
        },
{
    let types = &config.exercise_types;
    match requested {
        Some(name) => match types.position(name) {
            Some(k) => {
                assert(types.names().index_of(name@) == k);
                Ok((name.to_owned(), types.value_at(k)))
            },
            None => Err(
                StudyError::UnknownExerciseType {
                    requested: name.to_owned(),
                    available: types.names_vec(),
                },
            ),
        },
        None => {
            if types.len() == 1 {
                Ok((types.name_at(0).clone(), types.value_at(0)))
            } else {
                Err(StudyError::AmbiguousExerciseType { available: types.names_vec() })
            }
        },
    }
}

// ---------------------------------------------------------------------------
// The template
// ---------------------------------------------------------------------------

/// The directory below which the course's templates are looked for: the
/// course's own where it names one, else the global default.
pub open spec fn template_root(global: GlobalConfig, course: CourseConfig) -> Seq<char> {
    match course.template_dir {
        Some(dir) => dir@,
        None => global.default_template_dir@,
    }
}

/// The directory of the template `template_name` below the template root
/// `root`. A name that begins with `/` does not lead out of the root.
pub open spec fn template_path(root: Seq<char>, template_name: Seq<char>) -> Seq<char> {
    joined_path(root, template_name)
}

/// A template is looked for below the template root only.
pub proof fn lemma_template_below_root(root: Seq<char>, template_name: Seq<char>)
    ensures
        root.is_prefix_of(template_path(root, template_name)),
{
    lemma_join_stays_below(root, template_name);
}

/// Where the template `template_name` of a course would be, for a given
/// home directory. Whether a directory is there is not looked at.
pub fn resolve_template_dir_with(
    global: &GlobalConfig,
    course: &CourseConfig,
    template_name: &str,
    home: Option<&str>,
) -> (r: String)
    ensures
        r@ == template_path(
            tilde_expanded(template_root(*global, *course), home.deep_view()),
            template_name@,
        ),
{
    let root = match &course.template_dir {
        Some(dir) => expand_tilde_with(dir.as_str(), home),
        None => expand_tilde_with(global.default_template_dir.as_str(), home),
    };
    join(root.as_str(), template_name)
}

/// Where the template `template_name` of a course would be. Whether a
/// directory is there is not looked at. A template root that begins with
/// `~/` is expanded with the home directory that the environment gives.
pub fn resolve_template_dir(
    global: &GlobalConfig,
    course: &CourseConfig,
    template_name: &str,
) -> (r: String)
    ensures
        exists|home: Option<Seq<char>>|
            r@ == template_path(
                tilde_expanded(template_root(*global, *course), home),
                template_name@,
            ),
        !has_tilde(template_root(*global, *course)) ==> r@ == template_path(
            template_root(*global, *course),
            template_name@,
        ),
{
    let root = match &course.template_dir {
        Some(dir) => expand_tilde(dir.as_str()),
        None => expand_tilde(global.default_template_dir.as_str()),
    };
    let r = join(root.as_str(), template_name);
    proof {
        let home = choose|home: Option<Seq<char>>|
            root@ == tilde_expanded(template_root(*global, *course), home);
        assert(r@ == template_path(
            tilde_expanded(template_root(*global, *course), home),
            template_name@,
        ));
    }
    r
}

// ---------------------------------------------------------------------------
// The metadata file
// ---------------------------------------------------------------------------

/// The `course` table of an exercise's metadata: the code, and the name
/// where the course has one.
pub open spec fn course_section(course: CourseInfo) -> Map<Seq<char>, toml::Value> {
    let code = empty_table().insert("code"@, text_value(course.code@));
    match course.name {
        Some(name) => code.insert("name"@, text_value(name@)),
        None => code,
    }
}

/// The `exercise` table of an exercise's metadata: its name and its type,
/// and over these the custom entries of the type. A custom entry called
/// `name` or `type` takes the place of the built-in one.
pub open spec fn exercise_section(
    exercise_name: Seq<char>,
    kind: Seq<char>,
    custom: NameMap<toml::Value>,
) -> Map<Seq<char>, toml::Value> {
    empty_table().insert("name"@, text_value(exercise_name)).insert(
        "type"@,
        text_value(kind),
    ).union_prefer_right(custom.as_map())
}

/// What the metadata document of an exercise holds.
pub open spec fn meta_entries(
    course: CourseInfo,
    exercise_name: Seq<char>,
    kind: Seq<char>,
    custom: NameMap<toml::Value>,
) -> Map<Seq<char>, toml::Value> {
    empty_table().insert("course"@, table_value(course_section(course))).insert(
        "exercise"@,
        table_value(exercise_section(exercise_name, kind, custom)),
    )
}

/// The custom entries of the exercise type come last: each is found in
/// the `exercise` table as it is, also under the names `name` and `type`;
/// the built-in `name` and `type` are there only where no custom entry
/// takes their place.
pub proof fn lemma_custom_entries_win(
    exercise_name: Seq<char>,
    kind: Seq<char>,
    custom: NameMap<toml::Value>,
)
    ensures
        ({
            let section = exercise_section(exercise_name, kind, custom);
            &&& forall|key: Seq<char>|
                custom.contains(key) ==> section.dom().contains(key) && section[key]
                    == custom.value_of(key)
            &&& !custom.contains("name"@) ==> section.dom().contains("name"@) && section["name"@]
                == text_value(exercise_name)
            &&& !custom.contains("type"@) ==> section.dom().contains("type"@) && section["type"@]
                == text_value(kind)
            &&& forall|key: Seq<char>|
                section.dom().contains(key) ==> custom.contains(key) || key == "name"@ || key
                    == "type"@
        }),
{
    reveal_strlit("name");
    reveal_strlit("type");
    assert("name"@ != "type"@) by {
        assert("name"@[0] != "type"@[0]);
    }
}

/// What the first `n` entries of `m` hold.
spec fn first_entries(m: NameMap<toml::Value>, n: int) -> Map<Seq<char>, toml::Value> {
    Map::new(
        |name: Seq<char>| exists|j: int| 0 <= j < n && m.names()[j] == name,
        |name: Seq<char>| m.value_of(name),
    )
}

/// The text of an exercise's `meta.toml`.
///
/// Fails with `StudyError::Metadata` exactly where the document cannot be
/// written as TOML.
pub fn generate_meta(
    course: &CourseInfo,
    exercise_name: &str,
    kind: &str,
    custom_meta: &NameMap<toml::Value>,
) -> (r: Result<String, StudyError>)
    ensures
        match pretty_document(meta_entries(*course, exercise_name@, kind@, *custom_meta)) {
            Some(text) => match r {
                Ok(written) => written@ == text,
                Err(_) => false,
            },
            None => r matches Err(StudyError::Metadata),
        },
{
    let mut course_table = new_table();
    table_insert(&mut course_table, "code".to_owned(), text_of(course.code.clone()));
    match &course.name {
        Some(name) => {
            table_insert(&mut course_table, "name".to_owned(), text_of(name.clone()));
        },
        None => {},
    }
    assert(table_entries(course_table) == course_section(*course));

    let mut exercise_table = new_table();
    table_insert(&mut exercise_table, "name".to_owned(), text_of(exercise_name.to_owned()));
    table_insert(&mut exercise_table, "type".to_owned(), text_of(kind.to_owned()));
    let ghost built_in = table_entries(exercise_table);
    let count = custom_meta.len();
    let mut i: usize = 0;
    proof {
        assert(built_in.union_prefer_right(first_entries(*custom_meta, 0)) =~= built_in);
    }
    while i < count
        invariant
            i <= count,
            count == custom_meta.names().len(),
            custom_meta.wf(),
            table_entries(exercise_table) == built_in.union_prefer_right(
                first_entries(*custom_meta, i as int),
            ),
        decreases count - i,
    {
        let key = custom_meta.name_at(i).clone();
        let value = copy_of(custom_meta.value_at(i));
        proof {
            let names = custom_meta.names();
            assert(names.index_of(key@) == i);
            assert(custom_meta.value_of(key@) == value);
            assert(built_in.union_prefer_right(first_entries(*custom_meta, i as int)).insert(
                key@,
                value,
            ) =~= built_in.union_prefer_right(first_entries(*custom_meta, i + 1)));
        }
        table_insert(&mut exercise_table, key, value);
        i += 1;
    }
    proof {
        assert(first_entries(*custom_meta, count as int) =~= custom_meta.as_map());
    }

    let mut meta = new_table();
    table_insert(&mut meta, "course".to_owned(), table_of(course_table));
    table_insert(&mut meta, "exercise".to_owned(), table_of(exercise_table));
    match to_pretty(&meta) {
        Ok(text) => Ok(text),
        Err(_) => Err(StudyError::Metadata),
    }
}

// ---------------------------------------------------------------------------
// The operation
// ---------------------------------------------------------------------------

/// The course directory that was looked for, or why there is none. `found`
/// is what the search gave: for the course `course` where one is named, else
/// upwards from the working directory.
pub fn located(course: Option<&str>, found: Option<String>) -> (r: Result<String, StudyError>)
    ensures
        match found {
            Some(dir) => r == Ok::<String, StudyError>(dir),
            None => match course {
                Some(name) => r matches Err(StudyError::CourseNotFound { input })
                    && input@ == name@,
                None => r matches Err(StudyError::NoCourseRoot),
            },
        },
{
    match found {
        Some(dir) => Ok(dir),
        None => match course {
            Some(name) => Err(StudyError::CourseNotFound { input: name.to_owned() }),
            None => Err(StudyError::NoCourseRoot),
        },
    }
}

/// What is to be made, worked out before anything is touched.
#[derive(Debug, Clone, PartialEq, Eq)]
pub struct Plan {
    /// The name of the exercise type.
    pub kind: String,
    /// The name of the new exercise.
    pub exercise_name: String,
    /// The directory of the new exercise.
    pub exercise_dir: String,
    /// The name of the template that the exercise type asks for.
    pub template: String,
}

/// A plan, each of its texts as the characters that it holds.
pub struct PlanView {
    pub kind: Seq<char>,
    pub exercise_name: Seq<char>,
    pub exercise_dir: Seq<char>,
    pub template: Seq<char>,
}

impl View for Plan {
    type V = PlanView;

    open spec fn view(&self) -> PlanView {
        PlanView {
            kind: self.kind@,
            exercise_name: self.exercise_name@,
            exercise_dir: self.exercise_dir@,
            template: self.template@,
        }
    }
}

/// The plan for the `k`-th exercise type of the course: the custom name
/// where one is given, else the next name of the type's naming scheme; the
/// directory of that name below the course directory. A custom name that
/// begins with `/` does not lead out of the course directory.
pub open spec fn plan_of(
    config: CourseConfig,
    course_dir: Seq<char>,
    k: int,
    custom_name: Option<Seq<char>>,
    entries: Seq<Seq<char>>,
) -> PlanView {
    let exercise_type = config.exercise_types.values()[k];
    let exercise_name = match custom_name {
        Some(name) => name,
        None => next_name_of(exercise_type.naming_scheme@, entries),
    };
    PlanView {
        kind: config.exercise_types.names()[k],
        exercise_name,
        exercise_dir: joined_path(course_dir, exercise_name),
        template: exercise_type.template@,
    }
}

/// The directory of a new exercise stands below the course directory,
/// whatever the exercise is called.
pub proof fn lemma_exercise_dir_below_course(
    config: CourseConfig,
    course_dir: Seq<char>,
    k: int,
    custom_name: Option<Seq<char>>,
    entries: Seq<Seq<char>>,
)
    ensures
        course_dir.is_prefix_of(plan_of(config, course_dir, k, custom_name, entries).exercise_dir),
{
    lemma_join_stays_below(
        course_dir,
        plan_of(config, course_dir, k, custom_name, entries).exercise_name,
    );
}

/// Whether `r` is what planning an exercise gives.
///
/// A course without exercise types gives `NoExerciseTypes`. A type that
/// cannot be picked gives the error of `resolve_exercise_type`. Else the
/// plan is `plan_of` for the type picked.
pub open spec fn is_planned(
    r: Result<Plan, StudyError>,
    config: CourseConfig,
    course_dir: Seq<char>,
    requested: Option<Seq<char>>,
    custom_name: Option<Seq<char>>,
    entries: Seq<Seq<char>>,
) -> bool {
    let names = config.exercise_types.names();
    if names.len() == 0 {
        r matches Err(StudyError::NoExerciseTypes)
    } else {
        match chosen_type(names, requested) {
            Some(k) => match r {
                Ok(plan) => plan@ == plan_of(config, course_dir, k, custom_name, entries),
                Err(_) => false,
            },
            None => match r {
                Ok(_) => false,
                Err(e) => is_type_error(e, names, requested),
            },
        }
    }
}

/// Works out what a new exercise will be called and where it will stand.
///
/// `entries` are the names of what the course directory holds; they
/// matter only where no custom name is given.
pub fn plan(
    config: &CourseConfig,
    course_dir: &str,
    exercise_type: Option<&str>,
    custom_name: Option<&str>,
    entries: &Vec<String>,
) -> (r: Result<Plan, StudyError>)
    ensures
        is_planned(
            r,
            *config,
            course_dir@,
            exercise_type.deep_view(),
            custom_name.deep_view(),
            entries.deep_view(),
        ),
{
    match settle(config, course_dir, exercise_type, custom_name, entries) {
        Ok((plan, _)) => Ok(plan),
        Err(e) => Err(e),
    }
}

/// The plan, with the exercise type that it is for.
fn settle<'a>(
    config: &'a CourseConfig,
    course_dir: &str,
    exercise_type: Option<&str>,
    custom_name: Option<&str>,
    entries: &Vec<String>,
) -> (r: Result<(Plan, &'a ExerciseType), StudyError>)
    ensures
        config.exercise_types.wf(),
        ({
            let names = config.exercise_types.names();
            let requested = exercise_type.deep_view();
            if names.len() == 0 {
                r matches Err(StudyError::NoExerciseTypes)
            } else {
                match chosen_type(names, requested) {
                    Some(k) => match r {
                        Ok((plan, chosen)) => {
                            &&& plan@ == plan_of(
                                *config,
                                course_dir@,
                                k,
                                custom_name.deep_view(),
                                entries.deep_view(),
                            )
                            &&& *chosen == config.exercise_types.values()[k]
                        },
                        Err(_) => false,
                    },
                    None => match r {
                        Ok(_) => false,
                        Err(e) => is_type_error(e, names, requested),
                    },
                }
            }
        }),
{
    if config.exercise_types.is_empty() {
        return Err(StudyError::NoExerciseTypes);
    }
    let (kind, chosen) = match resolve_exercise_type(config, exercise_type) {
        Ok(pair) => pair,
        Err(e) => {
            return Err(e);
        },
    };
    let exercise_name = match custom_name {
        Some(name) => name.to_owned(),
        None => next_name(entries, chosen.naming_scheme.as_str()),
    };
    let exercise_dir = join(course_dir, exercise_name.as_str());
    Ok((Plan { kind, exercise_name, exercise_dir, template: chosen.template.clone() }, chosen))
}

/// How the directory of a new exercise comes to be.
#[derive(Debug, Clone, PartialEq, Eq)]
pub enum Populate {
    /// Copy the template directory `from`, with all that is in it, to
    /// `to`.
    CopyTemplate { from: String, to: String },
    /// Make the empty directory `path`.
    CreateDir { path: String },
}

/// What is written once the directory of the exercise is there.
#[derive(Debug)]
pub struct Finish {
    /// The file that takes the metadata.
    pub meta_path: String,
    /// The text of that file.
    pub meta: String,
    /// The session state to save.
    pub state: StudyState,
}

/// What starting an exercise comes to: first `populate`; then, where
/// `finish` is an error, that error, and else the writes of `finish`.
#[derive(Debug)]
pub struct Outcome {
    pub plan: Plan,
    pub populate: Populate,
    /// The line that tells the user what was made.
    pub report: String,
    pub finish: Result<Finish, StudyError>,
}

/// The line that tells the user what was made.
pub open spec fn report_text(plan: PlanView, from_template: bool) -> Seq<char> {
    if from_template {
        "Initialized "@ + plan.kind + " exercise '"@ + plan.exercise_name + "' from template '"@
            + plan.template + "'"@
    } else {
        "Initialized "@ + plan.kind + " exercise '"@ + plan.exercise_name
            + "' (no template found)"@
    }
}

/// Whether `populate` is how the planned directory comes to be: a copy of
/// the template directory where there is one, else an empty directory.
pub open spec fn is_populate(
    populate: Populate,
    plan: PlanView,
    template_dir: Option<Seq<char>>,
) -> bool {
    match template_dir {
        Some(dir) => match populate {
            Populate::CopyTemplate { from, to } => from@ == dir && to@ == plan.exercise_dir,
            _ => false,
        },
        None => match populate {
            Populate::CreateDir { path } => path@ == plan.exercise_dir,
            _ => false,
        },
    }
}

/// Whether `finish` is what follows the making of the directory, `text`
/// being the metadata document, if it can be written: the document goes to
/// `meta.toml` in the new directory, and the state records the course and
/// the exercise. Without a document, `finish` is `Metadata`.
pub open spec fn is_finish(
    finish: Result<Finish, StudyError>,
    plan: PlanView,
    code: Seq<char>,
    text: Option<Seq<char>>,
    state: StudyState,
) -> bool {
    match text {
        Some(text) => match finish {
            Ok(f) => {
                &&& f.meta_path@ == joined_path(plan.exercise_dir, "meta.toml"@)
                &&& f.meta@ == text
                &&& f.state.records(state, code, Some(plan.exercise_name))
            },
            Err(_) => false,
        },
        None => finish matches Err(StudyError::Metadata),
    }
}

/// What is written once the directory of the planned exercise is there:
/// `meta`, the text of its metadata, into `meta.toml`, and the state with
/// the course `code` and the exercise recorded. Where there is no text,
/// nothing is written.
pub fn finish(plan: &Plan, code: &str, meta: Option<String>, state: StudyState) -> (r: Result<
    Finish,
    StudyError,
>)
    ensures
        is_finish(r, plan@, code@, meta.deep_view(), state),
{
    match meta {
        Some(text) => {
            let mut state = state;
            state.record_course(code);
            state.record_exercise(code, plan.exercise_name.as_str());
            let meta_path = join(plan.exercise_dir.as_str(), "meta.toml");
            Ok(Finish { meta_path, meta: text, state })
        },
        None => Err(StudyError::Metadata),
    }
}

/// Whether `r` is what starting an exercise gives.
///
/// A course without exercise types gives `NoExerciseTypes`, and a type that
/// cannot be picked the error of `resolve_exercise_type`. Where the planned
/// directory is there already, the result is `ExerciseExists` with that
/// directory. Else the outcome holds the plan, how its directory comes to
/// be, the report, and what is written afterwards.
pub open spec fn is_started(
    r: Result<Outcome, StudyError>,
    config: CourseConfig,
    course_dir: Seq<char>,
    requested: Option<Seq<char>>,
    custom_name: Option<Seq<char>>,
    entries: Seq<Seq<char>>,
    target_exists: bool,
    template_dir: Option<Seq<char>>,
    state: StudyState,
) -> bool {
    let names = config.exercise_types.names();
    if names.len() == 0 {
        r matches Err(StudyError::NoExerciseTypes)
    } else {
        match chosen_type(names, requested) {
            None => match r {
                Ok(_) => false,
                Err(e) => is_type_error(e, names, requested),
            },
            Some(k) => {
                let planned = plan_of(config, course_dir, k, custom_name, entries);
                if target_exists {
                    r matches Err(StudyError::ExerciseExists { path }) && path@
                        == planned.exercise_dir
                } else {
                    match r {
                        Ok(outcome) => {
                            &&& outcome.plan@ == planned
                            &&& is_populate(outcome.populate, planned, template_dir)
                            &&& outcome.report@ == report_text(planned, template_dir is Some)
                            &&& is_finish(
                                outcome.finish,
                                planned,
                                config.course.code@,
                                pretty_document(
                                    meta_entries(
                                        config.course,
                                        planned.exercise_name,
                                        planned.kind,
                                        config.exercise_types.values()[k].meta,
                                    ),
                                ),
                                state,
                            )
                        },
                        Err(_) => false,
                    }
                }
            },
        }
    }
}

/// Starts a new exercise in a course.
///
/// `config` is the course's configuration and `course_dir` its directory;
/// `entries` are the names of what that directory holds. `target_exists`
/// says whether the directory that `plan` gives for the same arguments is
/// there already, and `template_dir` is the directory of the planned
/// template where it is one. `state` is the session state so far.
///
/// Nothing is ever overwritten: where the target exists the result is
/// `ExerciseExists`, and nothing is to be done.
pub fn run(
    config: &CourseConfig,
    course_dir: &str,
    exercise_type: Option<&str>,
    custom_name: Option<&str>,
    entries: &Vec<String>,
    target_exists: bool,
    template_dir: Option<&str>,
    state: StudyState,
) -> (r: Result<Outcome, StudyError>)
    ensures
        config.exercise_types.wf(),
        is_started(
            r,
            *config,
            course_dir@,
            exercise_type.deep_view(),
            custom_name.deep_view(),
            entries.deep_view(),
            target_exists,
            template_dir.deep_view(),
            state,
        ),
{
    let (plan, chosen) = match settle(config, course_dir, exercise_type, custom_name, entries) {
        Ok(settled) => settled,
        Err(e) => {
            return Err(e);
        },
    };
    if target_exists {
        return Err(StudyError::ExerciseExists { path: plan.exercise_dir });
    }
    let mut report = String::new();
    push_text(&mut report, "Initialized ");
    push_text(&mut report, plan.kind.as_str());
    push_text(&mut report, " exercise '");
    push_text(&mut report, plan.exercise_name.as_str());
    let populate = match template_dir {
        Some(dir) => {
            push_text(&mut report, "' from template '");
            push_text(&mut report, plan.template.as_str());
            push_text(&mut report, "'");
            Populate::CopyTemplate { from: dir.to_owned(), to: plan.exercise_dir.clone() }
        },
        None => {
            push_text(&mut report, "' (no template found)");
            Populate::CreateDir { path: plan.exercise_dir.clone() }
        },
    };
    assert(report@ =~= report_text(plan@, template_dir is Some));

    let meta = match generate_meta(
        &config.course,
        plan.exercise_name.as_str(),
        plan.kind.as_str(),
        &chosen.meta,
    ) {
        Ok(text) => Some(text),
        Err(_) => None,
    };
    let finish = finish(&plan, config.course.code.as_str(), meta, state);
    Ok(Outcome { plan, populate, report, finish })
}

/// An exercise is started once. Of two runs for the same course and
/// exercise type that resolve to the same exercise name, the first finding
/// the directory free and the second finding it there, the first makes the
/// directory and the second fails with `ExerciseExists` for that very
/// directory; whatever the second was to do besides, it hands out no step,
/// so what the first made stays as it is.
pub proof fn lemma_second_run_fails(
    first: Result<Outcome, StudyError>,
    second: Result<Outcome, StudyError>,
    config: CourseConfig,
    course_dir: Seq<char>,
    requested: Option<Seq<char>>,
    custom_name: Option<Seq<char>>,
    entries: (Seq<Seq<char>>, Seq<Seq<char>>),
    template_dir: (Option<Seq<char>>, Option<Seq<char>>),
    state: (StudyState, StudyState),
)
    requires
        first is Ok,
        is_started(
            first,
            config,
            course_dir,
            requested,
            custom_name,
            entries.0,
            false,
            template_dir.0,
            state.0,
        ),
        is_started(
            second,
            config,
            course_dir,
            requested,
            custom_name,
            entries.1,
            true,
            template_dir.1,
            state.1,
        ),
        custom_name is None ==> {
            let k = chosen_type(config.exercise_types.names(), requested)->0;
            let scheme = config.exercise_types.values()[k].naming_scheme@;
            next_name_of(scheme, entries.0) == next_name_of(scheme, entries.1)
        },
    ensures
        match second {
            Ok(_) => false,
            Err(e) => match e {
                StudyError::ExerciseExists { path } => {
                    let made = first->Ok_0;
                    &&& path@ == made.plan.exercise_dir@
                    &&& match made.populate {
                        Populate::CopyTemplate { from, to } => to@ == path@,
                        Populate::CreateDir { path: created } => created@ == path@,
                    }
                },
                _ => false,
            },
        },
{
}

} // verus!
