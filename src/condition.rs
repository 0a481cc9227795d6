//! The condition tree that a rule parses into, and its mathematical model.
use vstd::prelude::*;

verus! {

/// Which transcript entries count towards a units-of-credit requirement.
#[derive(Debug)]
pub enum Category {
    /// Courses whose identifier starts with `comp`.
    Comp,
    /// Courses whose identifier starts with `comp` followed by the level.
    CompLevel(u32),
    /// The courses of an explicit list.
    Courses(Vec<String>),
}

/// A prerequisite condition.
#[derive(Debug)]
pub enum Condition {
    /// No constraint.
    Empty,
    /// The course must be in the transcript.
    Course(String),
    /// A four-digit code that takes its faculty prefix from the target course.
    ImpliedCourseCode(String),
    And(Box<Condition>, Box<Condition>),
    Or(Box<Condition>, Box<Condition>),
    /// At least this many units of credit, from the courses of the category
    /// or, without one, from all courses.
    Uoc(u32, Option<Category>),
}

pub enum CategoryModel {
    Comp,
    CompLevel(u32),
    Courses(Seq<Seq<char>>),
}

pub enum ConditionModel {
    Empty,
    Course(Seq<char>),
    ImpliedCourseCode(Seq<char>),
    And(Box<ConditionModel>, Box<ConditionModel>),
    Or(Box<ConditionModel>, Box<ConditionModel>),
    Uoc(u32, Option<CategoryModel>),
}

/// The characters of each string, in order.
pub open spec fn strings_view(v: Seq<String>) -> Seq<Seq<char>> {
    v.map_values(|s: String| s@)
}

impl View for Category {
    type V = CategoryModel;

    open spec fn view(&self) -> CategoryModel {
        match self {
            Category::Comp => CategoryModel::Comp,
            Category::CompLevel(l) => CategoryModel::CompLevel(*l),
            Category::Courses(v) => CategoryModel::Courses(strings_view(v@)),
        }
    }
}

pub open spec fn category_option_view(c: Option<Category>) -> Option<CategoryModel> {
    match c {
        Some(k) => Some(k@),
        None => None,
    }
}

/// The model of a condition tree.
pub open spec fn condition_view(c: Condition) -> ConditionModel
    decreases c,
{
    match c {
        Condition::Empty => ConditionModel::Empty,
        Condition::Course(id) => ConditionModel::Course(id@),
        Condition::ImpliedCourseCode(code) => ConditionModel::ImpliedCourseCode(code@),
        Condition::And(a, b) => ConditionModel::And(
            Box::new(condition_view(*a)),
            Box::new(condition_view(*b)),
        ),
        Condition::Or(a, b) => ConditionModel::Or(
            Box::new(condition_view(*a)),
            Box::new(condition_view(*b)),
        ),
        Condition::Uoc(n, c) => ConditionModel::Uoc(n, category_option_view(c)),
    }
}

impl View for Condition {
    type V = ConditionModel;

    open spec fn view(&self) -> ConditionModel {
        condition_view(*self)
    }
}

} // verus!
