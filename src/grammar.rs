//! The rule grammar, stated as ordered choices over positions of the text.
//! Each function gives, for a start position, the end position and value of
//! the first alternative that matches, or `None`.
use vstd::prelude::*;
use crate::condition::{CategoryModel, ConditionModel};
use crate::fuzzy::{fuzzy_at, Boundary};
use crate::text::{is_alpha, is_digit, number_at, skip_ws, ws1};

verus! {

pub open spec fn then_ws1(s: Seq<char>, o: Option<int>) -> Option<int> {
    match o {
        Some(a) => ws1(s, a),
        None => None,
    }
}

pub open spec fn then_fuzzy(s: Seq<char>, o: Option<int>, tag: Seq<char>, pct: nat, b: Boundary) -> Option<int> {
    match o {
        Some(a) => fuzzy_at(s, a, tag, pct, b),
        None => None,
    }
}

/// Four ASCII letters then four decimal digits, as in `comp1511`.
pub open spec fn course_at(s: Seq<char>, i: int) -> Option<int> {
    if 0 <= i && i + 8 <= s.len() && (forall|k: int| i <= k < i + 4 ==> is_alpha(#[trigger] s[k]))
        && (forall|k: int| i + 4 <= k < i + 8 ==> is_digit(#[trigger] s[k])) {
        Some(i + 8)
    } else {
        None
    }
}

/// Four decimal digits.
pub open spec fn code_at(s: Seq<char>, i: int) -> bool {
    0 <= i && i + 4 <= s.len() && forall|k: int| i <= k < i + 4 ==> is_digit(#[trigger] s[k])
}

/// The exact characters of `kw` at `i`.
pub open spec fn keyword_at(s: Seq<char>, i: int, kw: Seq<char>) -> bool {
    0 <= i && i + kw.len() <= s.len() && s.subrange(i, i + kw.len()) == kw
}

/// An optional, possibly misspelt, `prerequisite` or `prereq`, an optional
/// colon, and whitespace: where the condition starts.
pub open spec fn header_end(s: Seq<char>) -> int {
    let a = match fuzzy_at(s, 0, "prerequisite"@, 80, Boundary::ColonOrSpace) {
        Some(a) => a,
        None => match fuzzy_at(s, 0, "prereq"@, 80, Boundary::ColonOrSpace) {
            Some(a) => a,
            None => 0,
        },
    };
    let b = if 0 <= a < s.len() && s[a] == ':' {
        a + 1
    } else {
        a
    };
    skip_ws(s, b)
}

/// `level <n> comp courses`.
pub open spec fn level_category_at(s: Seq<char>, i: int) -> Option<(int, CategoryModel)> {
    match then_ws1(s, fuzzy_at(s, i, "level"@, 80, Boundary::Space)) {
        Some(b) => match number_at(s, b) {
            Some((c, level)) => {
                let e = then_fuzzy(s, ws1(s, c), "comp"@, 80, Boundary::Space);
                match then_fuzzy(s, then_ws1(s, e), "courses"@, 80, Boundary::NotAlpha) {
                    Some(g) => Some((g, CategoryModel::CompLevel(level))),
                    None => None,
                }
            },
            None => None,
        },
        None => None,
    }
}

/// The courses that follow a first one in a list: each after a comma with
/// optional whitespace round it. Stops before a separator that no course follows.
pub open spec fn list_tail(s: Seq<char>, i: int) -> (int, Seq<Seq<char>>)
    decreases s.len() - i,
{
    let a = skip_ws(s, i);
    if 0 <= a < s.len() && s[a] == ',' {
        let b = skip_ws(s, a + 1);
        match course_at(s, b) {
            Some(c) => if i < c <= s.len() {
                let (e, rest) = list_tail(s, c);
                (e, seq![s.subrange(b, c)] + rest)
            } else {
                (i, Seq::empty())
            },
            None => (i, Seq::empty()),
        }
    } else {
        (i, Seq::empty())
    }
}

/// `(` course, course, ... `)`.
pub open spec fn list_category_at(s: Seq<char>, i: int) -> Option<(int, CategoryModel)> {
    if 0 <= i < s.len() && s[i] == '(' {
        match course_at(s, i + 1) {
            Some(c) => {
                let (e, rest) = list_tail(s, c);
                if 0 <= e < s.len() && s[e] == ')' {
                    Some((e + 1, CategoryModel::Courses(seq![s.subrange(i + 1, c)] + rest)))
                } else {
                    None
                }
            },
            None => None,
        }
    } else {
        None
    }
}

/// `comp courses`.
pub open spec fn comp_category_at(s: Seq<char>, i: int) -> Option<(int, CategoryModel)> {
    let a = then_ws1(s, fuzzy_at(s, i, "comp"@, 80, Boundary::NotAlpha));
    match then_fuzzy(s, a, "courses"@, 80, Boundary::NotAlpha) {
        Some(g) => Some((g, CategoryModel::Comp)),
        None => None,
    }
}

pub open spec fn category_at(s: Seq<char>, i: int) -> Option<(int, CategoryModel)> {
    match level_category_at(s, i) {
        Some(r) => Some(r),
        None => match list_category_at(s, i) {
            Some(r) => Some(r),
            None => comp_category_at(s, i),
        },
    }
}

/// `completion of`, as an optional lead-in to a units-of-credit requirement.
pub open spec fn completion_of_at(s: Seq<char>, i: int) -> Option<int> {
    let a = then_ws1(s, fuzzy_at(s, i, "completion"@, 80, Boundary::Space));
    then_fuzzy(s, a, "of"@, 80, Boundary::Space)
}

/// `in <category>` after a units-of-credit requirement.
pub open spec fn in_category_at(s: Seq<char>, i: int) -> Option<(int, CategoryModel)> {
    match then_ws1(s, fuzzy_at(s, i, "in"@, 80, Boundary::Space)) {
        Some(y) => category_at(s, y),
        None => None,
    }
}

/// `[completion of] <n> units of credit [in <category>]`; `of` is matched at
/// half similarity, every other keyword at the default.
pub open spec fn uoc_at(s: Seq<char>, i: int) -> Option<(int, ConditionModel)> {
    let a = match completion_of_at(s, i) {
        Some(a) => a,
        None => i,
    };
    match number_at(s, skip_ws(s, a)) {
        Some((c, amount)) => {
            let e = then_ws1(s, fuzzy_at(s, skip_ws(s, c), "units"@, 80, Boundary::Space));
            let g = then_ws1(s, then_fuzzy(s, e, "of"@, 50, Boundary::Space));
            match then_fuzzy(s, g, "credit"@, 80, Boundary::Space) {
                Some(k) => {
                    let l = skip_ws(s, k);
                    match in_category_at(s, l) {
                        Some((m, cat)) => Some((m, ConditionModel::Uoc(amount, Some(cat)))),
                        None => Some((l, ConditionModel::Uoc(amount, None))),
                    }
                },
                None => None,
            }
        },
        None => None,
    }
}

/// `or` or `and`, then the rest of the condition.
pub open spec fn condition_at(s: Seq<char>, i: int) -> Option<(int, ConditionModel)>
    decreases s.len() - i, 3int,
{
    if !(0 <= i <= s.len()) {
        None
    } else {
        match binary_at(s, i, "or"@) {
            Some((e, a, b)) => Some((e, ConditionModel::Or(Box::new(a), Box::new(b)))),
            None => match binary_at(s, i, "and"@) {
                Some((e, a, b)) => Some((e, ConditionModel::And(Box::new(a), Box::new(b)))),
                None => base_at(s, i),
            },
        }
    }
}

/// A base condition, the keyword `kw` after optional whitespace, at least one
/// whitespace character, and a condition.
pub open spec fn binary_at(s: Seq<char>, i: int, kw: Seq<char>) -> Option<(int, ConditionModel, ConditionModel)>
    decreases s.len() - i, 2int,
{
    if !(0 <= i <= s.len()) {
        None
    } else {
        match base_at(s, i) {
            Some((j, a)) => {
                let k = skip_ws(s, j);
                if keyword_at(s, k, kw) {
                    match ws1(s, k + kw.len()) {
                        Some(m) => if i < m <= s.len() {
                            match condition_at(s, m) {
                                Some((e, b)) => Some((e, a, b)),
                                None => None,
                            }
                        } else {
                            None
                        },
                        None => None,
                    }
                } else {
                    None
                }
            },
            None => None,
        }
    }
}

/// The end of the text, a units-of-credit requirement, a course, a condition
/// in parentheses, or a four-digit code, tried in that order.
pub open spec fn base_at(s: Seq<char>, i: int) -> Option<(int, ConditionModel)>
    decreases s.len() - i, 1int,
{
    if !(0 <= i <= s.len()) {
        None
    } else if i == s.len() {
        Some((i, ConditionModel::Empty))
    } else {
        match uoc_at(s, i) {
            Some(r) => Some(r),
            None => match course_at(s, i) {
                Some(c) => Some((c, ConditionModel::Course(s.subrange(i, c)))),
                None => match paren_at(s, i) {
                    Some(r) => Some(r),
                    None => if code_at(s, i) {
                        Some((i + 4, ConditionModel::ImpliedCourseCode(s.subrange(i, i + 4))))
                    } else {
                        None
                    },
                },
            },
        }
    }
}

/// `(` condition `)`.
pub open spec fn paren_at(s: Seq<char>, i: int) -> Option<(int, ConditionModel)>
    decreases s.len() - i, 0int,
{
    if 0 <= i < s.len() && s[i] == '(' {
        match condition_at(s, i + 1) {
            Some((e, c)) => if 0 <= e < s.len() && s[e] == ')' {
                Some((e + 1, c))
            } else {
                None
            },
            None => None,
        }
    } else {
        None
    }
}

/// Why a rule text does not parse, with the text that was left.
pub enum ParseErrorModel {
    NoMatch(Seq<char>),
    TrailingInput(Seq<char>),
}

/// A header, then one condition that runs to the end of the text.
pub open spec fn parse_rule(s: Seq<char>) -> Result<ConditionModel, ParseErrorModel> {
    let h = header_end(s);
    match condition_at(s, h) {
        Some((e, c)) => if e == s.len() {
            Ok(c)
        } else {
            Err(ParseErrorModel::TrailingInput(s.subrange(e, s.len() as int)))
        },
        None => Err(ParseErrorModel::NoMatch(s.subrange(h, s.len() as int))),
    }
}

} // verus!
