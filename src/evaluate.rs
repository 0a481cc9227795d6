//! Evaluation of a condition tree against a transcript of completed courses.
use vstd::prelude::*;
use crate::condition::{
    category_option_view, strings_view, Category, CategoryModel, Condition, ConditionModel,
};
use crate::text::{chars_of, decimal, decimal_digits, has_prefix, starts_with};

verus! {

/// The units of credit that each completed course is worth.
pub const UOC_PER_COURSE: u64 = 6;

/// The first four characters of a course identifier (its faculty), or the
/// whole of a shorter one.
pub open spec fn faculty_prefix(t: Seq<char>) -> Seq<char> {
    if t.len() >= 4 {
        t.subrange(0, 4)
    } else {
        t
    }
}

/// Whether a transcript entry counts towards a units-of-credit requirement
/// with this category; without one, every entry counts.
pub open spec fn in_category(e: Seq<char>, cat: Option<CategoryModel>) -> bool {
    match cat {
        None => true,
        Some(CategoryModel::Comp) => has_prefix(e, "comp"@),
        Some(CategoryModel::CompLevel(level)) => has_prefix(e, "comp"@ + decimal(level as nat)),
        Some(CategoryModel::Courses(list)) => list.contains(e),
    }
}

/// How many transcript entries are in the category.
pub open spec fn count_in(tr: Seq<Seq<char>>, cat: Option<CategoryModel>) -> nat
    decreases tr.len(),
{
    if tr.len() == 0 {
        0
    } else {
        count_in(tr.drop_last(), cat) + if in_category(tr.last(), cat) {
            1nat
        } else {
            0nat
        }
    }
}

/// Whether a transcript satisfies a condition, for the given target course.
pub open spec fn satisfied(tr: Seq<Seq<char>>, target: Seq<char>, c: ConditionModel) -> bool
    decreases c,
{
    match c {
        ConditionModel::Empty => true,
        ConditionModel::Course(id) => tr.contains(id),
        ConditionModel::ImpliedCourseCode(code) => tr.contains(faculty_prefix(target) + code),
        ConditionModel::And(a, b) => satisfied(tr, target, *a) && satisfied(tr, target, *b),
        ConditionModel::Or(a, b) => satisfied(tr, target, *a) || satisfied(tr, target, *b),
        ConditionModel::Uoc(amount, cat) => count_in(tr, cat) * (UOC_PER_COURSE as nat) >= amount,
    }
}

/// Whether `x` is one of the strings of `v`.
fn contains(v: &[String], x: &String) -> (r: bool)
    ensures
        r == strings_view(v@).contains(x@),
{
    let mut i: usize = 0;
    while i < v.len()
        invariant
            i <= v@.len(),
            forall|k: int| 0 <= k < i ==> v@[k]@ != x@,
        decreases v@.len() - i,
    {
        if v[i] == *x {
            assert(strings_view(v@)[i as int] == x@);
            return true;
        }
        i = i + 1;
    }
    assert(!strings_view(v@).contains(x@)) by {
        if strings_view(v@).contains(x@) {
            let k = choose|k: int| 0 <= k < strings_view(v@).len() && strings_view(v@)[k] == x@;
            assert(v@[k]@ == x@);
        }
    }
    false
}

fn matches_category(e: &String, cat: &Option<Category>) -> (r: bool)
    ensures
        r == in_category(e@, category_option_view(*cat)),
{
    match cat {
        None => true,
        Some(Category::Comp) => starts_with(e, &chars_of("comp")),
        Some(Category::CompLevel(level)) => {
            let mut p = chars_of("comp");
            let mut d = decimal_digits(*level);
            p.append(&mut d);
            starts_with(e, &p)
        },
        Some(Category::Courses(list)) => contains(list.as_slice(), e),
    }
}

fn count_matching(transcript: &[String], cat: &Option<Category>) -> (r: usize)
    ensures
        r == count_in(strings_view(transcript@), category_option_view(*cat)),
{
    let mut n: usize = 0;
    let mut i: usize = 0;
    while i < transcript.len()
        invariant
            i <= transcript@.len(),
            n <= i,
            n == count_in(strings_view(transcript@.subrange(0, i as int)), category_option_view(*cat)),
        decreases transcript@.len() - i,
    {
        let hit = matches_category(&transcript[i], cat);
        proof {
            let next = strings_view(transcript@.subrange(0, i + 1));
            assert(next.drop_last() =~= strings_view(transcript@.subrange(0, i as int)));
            assert(next.last() == transcript@[i as int]@);
        }
        if hit {
            n = n + 1;
        }
        i = i + 1;
    }
    assert(transcript@.subrange(0, transcript@.len() as int) =~= transcript@);
    n
}

/// Evaluates a condition against a transcript. An implied course code takes
/// the faculty prefix of `target_course`; a units-of-credit requirement
/// counts `UOC_PER_COURSE` for each entry of its category.
pub fn evaluate_condition(transcript: &[String], target_course: &str, condition: &Condition) -> (r: bool)
    ensures
        r == satisfied(strings_view(transcript@), target_course@, condition@),
    decreases condition,
{
    match condition {
        Condition::Empty => true,
        Condition::Course(id) => contains(transcript, id),
        Condition::ImpliedCourseCode(code) => {
            let n = target_course.unicode_len();
            let mut id = if n >= 4 {
                target_course.substring_char(0, 4).to_owned()
            } else {
                target_course.to_owned()
            };
            id.append(code.as_str());
            contains(transcript, &id)
        },
        Condition::And(a, b) => {
            let x = evaluate_condition(transcript, target_course, a);
            let y = evaluate_condition(transcript, target_course, b);
            x && y
        },
        Condition::Or(a, b) => {
            let x = evaluate_condition(transcript, target_course, a);
            let y = evaluate_condition(transcript, target_course, b);
            x || y
        },
        Condition::Uoc(amount, cat) => {
            let n = count_matching(transcript, cat);
            (n as u128) * (UOC_PER_COURSE as u128) >= (*amount as u128)
        },
    }
}

/// A condition with no constraint holds of every transcript.
pub proof fn lemma_empty_always_satisfied(tr: Seq<Seq<char>>, target: Seq<char>)
    ensures
        satisfied(tr, target, ConditionModel::Empty),
{
}

/// A single course holds exactly when the transcript lists it.
pub proof fn lemma_course_iff_listed(tr: Seq<Seq<char>>, target: Seq<char>, id: Seq<char>)
    ensures
        satisfied(tr, target, ConditionModel::Course(id)) == tr.contains(id),
{
}

/// `Or` and `And` combine the results of their two sides as boolean or and and.
pub proof fn lemma_or_and_combine(tr: Seq<Seq<char>>, target: Seq<char>, a: ConditionModel, b: ConditionModel)
    ensures
        satisfied(tr, target, ConditionModel::Or(Box::new(a), Box::new(b))) == (satisfied(tr, target, a)
            || satisfied(tr, target, b)),
        satisfied(tr, target, ConditionModel::And(Box::new(a), Box::new(b))) == (satisfied(tr, target, a)
            && satisfied(tr, target, b)),
{
}

/// With `n` matching entries, a requirement of exactly `6 * n` units holds,
/// one unit less holds, and one unit more does not.
pub proof fn lemma_uoc_boundary(tr: Seq<Seq<char>>, target: Seq<char>, cat: Option<CategoryModel>)
    requires
        count_in(tr, cat) >= 1,
        count_in(tr, cat) * 6 + 1 <= u32::MAX,
    ensures
        satisfied(tr, target, ConditionModel::Uoc((count_in(tr, cat) * 6) as u32, cat)),
        satisfied(tr, target, ConditionModel::Uoc((count_in(tr, cat) * 6 - 1) as u32, cat)),
        !satisfied(tr, target, ConditionModel::Uoc((count_in(tr, cat) * 6 + 1) as u32, cat)),
{
}

} // verus!
