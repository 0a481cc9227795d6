//! The catalog of rule texts, and the composite check: look a course's rule
//! up, parse it, and evaluate it against a transcript.
use vstd::prelude::*;
use crate::condition::strings_view;
use crate::evaluate::{evaluate_condition, satisfied};
use crate::grammar::{parse_rule, ParseErrorModel};
use crate::parser::{parse, ParseError};
use crate::text::{ascii_lowercase, lower_seq};

verus! {

/// Rule texts by course identifier.
pub struct Catalog {
    pub entries: Vec<(String, String)>,
}

pub open spec fn entries_view(v: Seq<(String, String)>) -> Seq<(Seq<char>, Seq<char>)> {
    v.map_values(|e: (String, String)| (e.0@, e.1@))
}

/// The rule text of the first entry for `key`.
pub open spec fn catalog_lookup(es: Seq<(Seq<char>, Seq<char>)>, key: Seq<char>) -> Option<Seq<char>>
    decreases es.len(),
{
    if es.len() == 0 {
        None
    } else if es[0].0 == key {
        Some(es[0].1)
    } else {
        catalog_lookup(es.drop_first(), key)
    }
}

impl View for Catalog {
    type V = Seq<(Seq<char>, Seq<char>)>;

    open spec fn view(&self) -> Seq<(Seq<char>, Seq<char>)> {
        entries_view(self.entries@)
    }
}

impl Catalog {
    pub fn new(entries: Vec<(String, String)>) -> (r: Catalog)
        ensures
            r@ == entries_view(entries@),
    {
        Catalog { entries }
    }

    /// The rule text for `course`, if the catalog has one.
    pub fn lookup(&self, course: &String) -> (r: Option<String>)
        ensures
            match r {
                Some(t) => catalog_lookup(self@, course@) == Some(t@),
                None => catalog_lookup(self@, course@) is None,
            },
    {
        let mut i: usize = 0;
        assert(self@.subrange(0, self@.len() as int) =~= self@);
        while i < self.entries.len()
            invariant
                i <= self@.len(),
                self@.len() == self.entries@.len(),
                catalog_lookup(self@, course@) == catalog_lookup(
                    self@.subrange(i as int, self@.len() as int),
                    course@,
                ),
            decreases self@.len() - i,
        {
            proof {
                let rest = self@.subrange(i as int, self@.len() as int);
                assert(rest.drop_first() =~= self@.subrange(i + 1, self@.len() as int));
                assert(rest[0] == (self.entries@[i as int].0@, self.entries@[i as int].1@));
            }
            if self.entries[i].0 == *course {
                return Some(self.entries[i].1.clone());
            }
            i = i + 1;
        }
        None
    }
}

/// Why a course's rule could not be checked.
#[derive(Debug)]
pub enum UnlockError {
    /// The catalog has no rule text for the course.
    NotFound(String),
    /// The course's rule text does not parse.
    Parse(String, ParseError),
}

pub enum UnlockErrorModel {
    NotFound(Seq<char>),
    Parse(Seq<char>, ParseErrorModel),
}

impl View for UnlockError {
    type V = UnlockErrorModel;

    open spec fn view(&self) -> UnlockErrorModel {
        match self {
            UnlockError::NotFound(c) => UnlockErrorModel::NotFound(c@),
            UnlockError::Parse(c, e) => UnlockErrorModel::Parse(c@, e@),
        }
    }
}

pub open spec fn lower_all(tr: Seq<Seq<char>>) -> Seq<Seq<char>> {
    tr.map_values(|t: Seq<char>| lower_seq(t))
}

/// What checking `course` against a transcript gives: the course is looked
/// up as given; its rule text and identifier, and the transcript, are then
/// taken in lower case.
pub open spec fn unlock_outcome(
    tr: Seq<Seq<char>>,
    course: Seq<char>,
    catalog: Seq<(Seq<char>, Seq<char>)>,
) -> Result<bool, UnlockErrorModel> {
    match catalog_lookup(catalog, course) {
        None => Err(UnlockErrorModel::NotFound(course)),
        Some(rule) => match parse_rule(lower_seq(rule)) {
            Ok(c) => Ok(satisfied(lower_all(tr), lower_seq(course), c)),
            Err(e) => Err(UnlockErrorModel::Parse(lower_seq(course), e)),
        },
    }
}

pub open spec fn unlock_view(r: Result<bool, UnlockError>) -> Result<bool, UnlockErrorModel> {
    match r {
        Ok(b) => Ok(b),
        Err(e) => Err(e@),
    }
}

fn lowercase_all(transcript: &Vec<String>) -> (r: Vec<String>)
    ensures
        strings_view(r@) == lower_all(strings_view(transcript@)),
{
    let mut out: Vec<String> = Vec::new();
    let mut i: usize = 0;
    while i < transcript.len()
        invariant
            i <= transcript@.len(),
            strings_view(out@) =~= lower_all(strings_view(transcript@.subrange(0, i as int))),
        decreases transcript@.len() - i,
    {
        let ghost before = out@;
        out.push(ascii_lowercase(transcript[i].as_str()));
        proof {
            assert(transcript@.subrange(0, i + 1) =~= transcript@.subrange(0, i as int).push(
                transcript@[i as int],
            ));
            assert(strings_view(out@) =~= strings_view(before).push(out@[i as int]@));
            assert(strings_view(transcript@.subrange(0, i + 1)) =~= strings_view(
                transcript@.subrange(0, i as int),
            ).push(transcript@[i as int]@));
        }
        i = i + 1;
    }
    assert(transcript@.subrange(0, transcript@.len() as int) =~= transcript@);
    out
}

/// Whether a transcript meets the prerequisite rule of `course`: the rule
/// text is looked up in the catalog, parsed, and evaluated. Course
/// identifiers and rule text are compared in lower case.
pub fn is_unlocked(transcript: Vec<String>, course: String, catalog: &Catalog) -> (r: Result<bool, UnlockError>)
    ensures
        unlock_view(r) == unlock_outcome(strings_view(transcript@), course@, catalog@),
{
    let transcript = lowercase_all(&transcript);
    let rule = match catalog.lookup(&course) {
        Some(t) => t,
        None => return Err(UnlockError::NotFound(course)),
    };
    let course = ascii_lowercase(course.as_str());
    let rule = ascii_lowercase(rule.as_str());
    match parse(rule.as_str()) {
        Ok(condition) => Ok(evaluate_condition(transcript.as_slice(), course.as_str(), &condition)),
        Err(e) => Err(UnlockError::Parse(course, e)),
    }
}

} // verus!
