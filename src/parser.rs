//! The parser: a recursive descent over the characters of the rule text that
//! returns what the grammar gives.
use vstd::prelude::*;
use crate::condition::{
    strings_view, Category, CategoryModel, Condition, ConditionModel,
};
use crate::fuzzy::{typo_tag_with_dist, Boundary, DEFAULT_THRESHOLD_PERCENT};
use crate::grammar::{
    base_at, binary_at, category_at, code_at, comp_category_at, condition_at,
    course_at, header_end, in_category_at, keyword_at, level_category_at, list_category_at,
    list_tail, paren_at, parse_rule, then_fuzzy, then_ws1, uoc_at, ParseErrorModel,
};
use crate::text::{
    chars_of, is_alpha, is_digit, opt_pos, parse_number, skip_whitespace, whitespace1,
};

verus! {

/// Why a rule text does not parse, with the text that was left unparsed.
#[derive(Debug)]
pub enum ParseError {
    /// No alternative of the grammar matched what follows the header.
    NoMatch(String),
    /// A condition was parsed, but text follows it.
    TrailingInput(String),
}

impl View for ParseError {
    type V = ParseErrorModel;

    open spec fn view(&self) -> ParseErrorModel {
        match self {
            ParseError::NoMatch(t) => ParseErrorModel::NoMatch(t@),
            ParseError::TrailingInput(t) => ParseErrorModel::TrailingInput(t@),
        }
    }
}

pub open spec fn parse_view(r: Result<Condition, ParseError>) -> Result<ConditionModel, ParseErrorModel> {
    match r {
        Ok(c) => Ok(c@),
        Err(e) => Err(e@),
    }
}

pub open spec fn parsed_view(r: Option<(usize, Condition)>) -> Option<(int, ConditionModel)> {
    match r {
        Some((j, c)) => Some((j as int, c@)),
        None => None,
    }
}

pub open spec fn category_parsed_view(r: Option<(usize, Category)>) -> Option<(int, CategoryModel)> {
    match r {
        Some((j, c)) => Some((j as int, c@)),
        None => None,
    }
}

pub open spec fn binary_parsed_view(r: Option<(usize, Condition, Condition)>) -> Option<(int, ConditionModel, ConditionModel)> {
    match r {
        Some((j, a, b)) => Some((j as int, a@, b@)),
        None => None,
    }
}

fn ws1_after(s: &Vec<char>, o: Option<usize>) -> (r: Option<usize>)
    requires
        o is Some ==> o->0 <= s@.len(),
    ensures
        opt_pos(r) == then_ws1(s@, opt_pos(o)),
        r is Some ==> o is Some && o->0 <= r->0 <= s@.len(),
{
    match o {
        Some(a) => whitespace1(s, a),
        None => None,
    }
}

fn fuzzy_after(s: &Vec<char>, o: Option<usize>, tag: &str, pct: u64, b: Boundary) -> (r: Option<usize>)
    requires
        o is Some ==> o->0 <= s@.len(),
        pct <= 100,
    ensures
        opt_pos(r) == then_fuzzy(s@, opt_pos(o), tag@, pct as nat, b),
        r is Some ==> o is Some && o->0 <= r->0 <= s@.len(),
{
    match o {
        Some(a) => typo_tag_with_dist(s, a, &chars_of(tag), pct, b),
        None => None,
    }
}

fn fuzzy_from(s: &Vec<char>, i: usize, tag: &str, pct: u64, b: Boundary) -> (r: Option<usize>)
    requires
        i <= s@.len(),
        pct <= 100,
    ensures
        opt_pos(r) == crate::fuzzy::fuzzy_at(s@, i as int, tag@, pct as nat, b),
        r is Some ==> i <= r->0 <= s@.len(),
{
    typo_tag_with_dist(s, i, &chars_of(tag), pct, b)
}

/// Whether every character in `a..b` is an ASCII letter (or, with `digits`,
/// a decimal digit).
fn all_of_class(s: &Vec<char>, a: usize, b: usize, digits: bool) -> (r: bool)
    requires
        a <= b <= s@.len(),
    ensures
        r == (forall|k: int|
            a <= k < b ==> if digits {
                is_digit(#[trigger] s@[k])
            } else {
                is_alpha(s@[k])
            }),
{
    let mut k = a;
    while k < b
        invariant
            a <= k <= b <= s@.len(),
            forall|m: int|
                a <= m < k ==> if digits {
                    is_digit(#[trigger] s@[m])
                } else {
                    is_alpha(s@[m])
                },
        decreases b - k,
    {
        let c = s[k];
        let ok = if digits {
            '0' <= c && c <= '9'
        } else {
            ('a' <= c && c <= 'z') || ('A' <= c && c <= 'Z')
        };
        if !ok {
            return false;
        }
        k = k + 1;
    }
    true
}

/// A course identifier at `i`: its end and its text.
fn parse_course(text: &str, s: &Vec<char>, i: usize) -> (r: Option<(usize, String)>)
    requires
        s@ == text@,
        i <= s@.len(),
    ensures
        match r {
            Some((c, id)) => course_at(s@, i as int) == Some(c as int) && id@ == s@.subrange(
                i as int,
                c as int,
            ) && c <= s@.len(),
            None => course_at(s@, i as int) is None,
        },
{
    if s.len() - i < 8 {
        return None;
    }
    if all_of_class(s, i, i + 4, false) && all_of_class(s, i + 4, i + 8, true) {
        let id = text.substring_char(i, i + 8).to_owned();
        Some((i + 8, id))
    } else {
        None
    }
}

/// Whether the characters of `kw` stand at `i`.
fn keyword(s: &Vec<char>, i: usize, kw: &str) -> (r: bool)
    requires
        i <= s@.len(),
    ensures
        r == keyword_at(s@, i as int, kw@),
{
    let k = chars_of(kw);
    if s.len() - i < k.len() {
        return false;
    }
    let n = s.len();
    let mut j: usize = 0;
    while j < k.len()
        invariant
            n == s@.len(),
            i + k@.len() <= s@.len(),
            j <= k@.len(),
            k@ == kw@,
            forall|m: int| 0 <= m < j ==> s@[i + m] == k@[m],
        decreases k@.len() - j,
    {
        if s[i + j] != k[j] {
            assert(s@.subrange(i as int, i + k@.len())[j as int] != k@[j as int]);
            return false;
        }
        j = j + 1;
    }
    assert(s@.subrange(i as int, i + k@.len()) =~= k@);
    true
}

/// The optional header; the position where the condition starts.
fn parse_prereq_header(s: &Vec<char>) -> (r: usize)
    ensures
        r == header_end(s@),
        r <= s@.len(),
{
    let a = match fuzzy_from(s, 0, "prerequisite", DEFAULT_THRESHOLD_PERCENT, Boundary::ColonOrSpace) {
        Some(a) => a,
        None => match fuzzy_from(s, 0, "prereq", DEFAULT_THRESHOLD_PERCENT, Boundary::ColonOrSpace) {
            Some(a) => a,
            None => 0,
        },
    };
    let b = if a < s.len() && s[a] == ':' {
        a + 1
    } else {
        a
    };
    skip_whitespace(s, b)
}

fn parse_level_category(s: &Vec<char>, i: usize) -> (r: Option<(usize, Category)>)
    requires
        i <= s@.len(),
    ensures
        category_parsed_view(r) == level_category_at(s@, i as int),
        r is Some ==> i <= (r->0).0 <= s@.len(),
{
    let b = ws1_after(s, fuzzy_from(s, i, "level", DEFAULT_THRESHOLD_PERCENT, Boundary::Space));
    match b {
        Some(b) => match parse_number(s, b) {
            Some((c, level)) => {
                let e = fuzzy_after(s, whitespace1(s, c), "comp", DEFAULT_THRESHOLD_PERCENT, Boundary::Space);
                match fuzzy_after(s, ws1_after(s, e), "courses", DEFAULT_THRESHOLD_PERCENT, Boundary::NotAlpha) {
                    Some(g) => Some((g, Category::CompLevel(level))),
                    None => None,
                }
            },
            None => None,
        },
        None => None,
    }
}

fn parse_list_tail(text: &str, s: &Vec<char>, i: usize) -> (r: (usize, Vec<String>))
    requires
        s@ == text@,
        i <= s@.len(),
    ensures
        r.0 as int == list_tail(s@, i as int).0,
        strings_view(r.1@) == list_tail(s@, i as int).1,
        i <= r.0 <= s@.len(),
    decreases s@.len() - i,
{
    let a = skip_whitespace(s, i);
    if a < s.len() && s[a] == ',' {
        let b = skip_whitespace(s, a + 1);
        match parse_course(text, s, b) {
            Some((c, id)) => if i < c {
                let (e, mut rest) = parse_list_tail(text, s, c);
                let ghost old_rest = rest@;
                rest.insert(0, id);
                assert(strings_view(rest@) =~= seq![s@.subrange(b as int, c as int)]
                    + strings_view(old_rest));
                (e, rest)
            } else {
                (i, Vec::new())
            },
            None => (i, Vec::new()),
        }
    } else {
        proof {
            assert(strings_view(Seq::<String>::empty()) =~= Seq::empty());
        }
        (i, Vec::new())
    }
}

fn parse_list_category(text: &str, s: &Vec<char>, i: usize) -> (r: Option<(usize, Category)>)
    requires
        s@ == text@,
        i <= s@.len(),
    ensures
        category_parsed_view(r) == list_category_at(s@, i as int),
        r is Some ==> i <= (r->0).0 <= s@.len(),
{
    if i < s.len() && s[i] == '(' {
        match parse_course(text, s, i + 1) {
            Some((c, first)) => {
                let (e, mut rest) = parse_list_tail(text, s, c);
                if e < s.len() && s[e] == ')' {
                    let ghost old_rest = rest@;
                    rest.insert(0, first);
                    assert(strings_view(rest@) =~= seq![s@.subrange(i + 1, c as int)]
                        + strings_view(old_rest));
                    Some((e + 1, Category::Courses(rest)))
                } else {
                    None
                }
            },
            None => None,
        }
    } else {
        None
    }
}

fn parse_comp_category(s: &Vec<char>, i: usize) -> (r: Option<(usize, Category)>)
    requires
        i <= s@.len(),
    ensures
        category_parsed_view(r) == comp_category_at(s@, i as int),
        r is Some ==> i <= (r->0).0 <= s@.len(),
{
    let a = ws1_after(s, fuzzy_from(s, i, "comp", DEFAULT_THRESHOLD_PERCENT, Boundary::NotAlpha));
    match fuzzy_after(s, a, "courses", DEFAULT_THRESHOLD_PERCENT, Boundary::NotAlpha) {
        Some(g) => Some((g, Category::Comp)),
        None => None,
    }
}

fn parse_category(text: &str, s: &Vec<char>, i: usize) -> (r: Option<(usize, Category)>)
    requires
        s@ == text@,
        i <= s@.len(),
    ensures
        category_parsed_view(r) == category_at(s@, i as int),
        r is Some ==> i <= (r->0).0 <= s@.len(),
{
    match parse_level_category(s, i) {
        Some(r) => Some(r),
        None => match parse_list_category(text, s, i) {
            Some(r) => Some(r),
            None => parse_comp_category(s, i),
        },
    }
}

fn parse_units_of_credit(text: &str, s: &Vec<char>, i: usize) -> (r: Option<(usize, Condition)>)
    requires
        s@ == text@,
        i <= s@.len(),
    ensures
        parsed_view(r) == uoc_at(s@, i as int),
        r is Some ==> i <= (r->0).0 <= s@.len(),
{
    let lead = ws1_after(s, fuzzy_from(s, i, "completion", DEFAULT_THRESHOLD_PERCENT, Boundary::Space));
    let a = match fuzzy_after(s, lead, "of", DEFAULT_THRESHOLD_PERCENT, Boundary::Space) {
        Some(a) => a,
        None => i,
    };
    match parse_number(s, skip_whitespace(s, a)) {
        Some((c, amount)) => {
            let e = ws1_after(s, fuzzy_from(s, skip_whitespace(s, c), "units", DEFAULT_THRESHOLD_PERCENT, Boundary::Space));
            let g = ws1_after(s, fuzzy_after(s, e, "of", 50, Boundary::Space));
            match fuzzy_after(s, g, "credit", DEFAULT_THRESHOLD_PERCENT, Boundary::Space) {
                Some(k) => {
                    let l = skip_whitespace(s, k);
                    let y = ws1_after(s, fuzzy_from(s, l, "in", DEFAULT_THRESHOLD_PERCENT, Boundary::Space));
                    let cat = match y {
                        Some(y) => parse_category(text, s, y),
                        None => None,
                    };
                    assert(category_parsed_view(cat) == in_category_at(s@, l as int));
                    match cat {
                        Some((m, cat)) => Some((m, Condition::Uoc(amount, Some(cat)))),
                        None => Some((l, Condition::Uoc(amount, None))),
                    }
                },
                None => None,
            }
        },
        None => None,
    }
}

/// `or` or `and` between two conditions, else a base condition; the first
/// alternative that matches wins.
fn parse_condition(text: &str, s: &Vec<char>, i: usize) -> (r: Option<(usize, Condition)>)
    requires
        s@ == text@,
        i <= s@.len(),
    ensures
        parsed_view(r) == condition_at(s@, i as int),
        r is Some ==> i <= (r->0).0 <= s@.len(),
    decreases s@.len() - i, 3int,
{
    match parse_binary(text, s, i, "or") {
        Some((e, a, b)) => Some((e, Condition::Or(Box::new(a), Box::new(b)))),
        None => match parse_binary(text, s, i, "and") {
            Some((e, a, b)) => Some((e, Condition::And(Box::new(a), Box::new(b)))),
            None => parse_base_condition(text, s, i),
        },
    }
}

fn parse_binary(text: &str, s: &Vec<char>, i: usize, kw: &str) -> (r: Option<(usize, Condition, Condition)>)
    requires
        s@ == text@,
        i <= s@.len(),
    ensures
        binary_parsed_view(r) == binary_at(s@, i as int, kw@),
        r is Some ==> i <= (r->0).0 <= s@.len(),
    decreases s@.len() - i, 2int,
{
    match parse_base_condition(text, s, i) {
        Some((j, a)) => {
            let k = skip_whitespace(s, j);
            let n = s.len();
            let kl = kw.unicode_len();
            if keyword(s, k, kw) {
                assert(k + kl <= n);
                match whitespace1(s, k + kl) {
                    Some(m) => if i < m {
                        match parse_condition(text, s, m) {
                            Some((e, b)) => Some((e, a, b)),
                            None => None,
                        }
                    } else {
                        None
                    },
                    None => None,
                }
            } else {
                None
            }
        },
        None => None,
    }
}

fn parse_base_condition(text: &str, s: &Vec<char>, i: usize) -> (r: Option<(usize, Condition)>)
    requires
        s@ == text@,
        i <= s@.len(),
    ensures
        parsed_view(r) == base_at(s@, i as int),
        r is Some ==> i <= (r->0).0 <= s@.len(),
    decreases s@.len() - i, 1int,
{
    if i == s.len() {
        return Some((i, Condition::Empty));
    }
    match parse_units_of_credit(text, s, i) {
        Some(r) => Some(r),
        None => match parse_course(text, s, i) {
            Some((c, id)) => Some((c, Condition::Course(id))),
            None => match parse_parenthesised_condition(text, s, i) {
                Some(r) => Some(r),
                None => parse_implied_course_code(text, s, i),
            },
        },
    }
}

fn parse_parenthesised_condition(text: &str, s: &Vec<char>, i: usize) -> (r: Option<(usize, Condition)>)
    requires
        s@ == text@,
        i <= s@.len(),
    ensures
        parsed_view(r) == paren_at(s@, i as int),
        r is Some ==> i <= (r->0).0 <= s@.len(),
    decreases s@.len() - i, 0int,
{
    if i < s.len() && s[i] == '(' {
        match parse_condition(text, s, i + 1) {
            Some((e, c)) => if e < s.len() && s[e] == ')' {
                Some((e + 1, c))
            } else {
                None
            },
            None => None,
        }
    } else {
        None
    }
}

fn parse_implied_course_code(text: &str, s: &Vec<char>, i: usize) -> (r: Option<(usize, Condition)>)
    requires
        s@ == text@,
        i < s@.len(),
    ensures
        parsed_view(r) == (if code_at(s@, i as int) {
            Some((i + 4, ConditionModel::ImpliedCourseCode(s@.subrange(i as int, i + 4))))
        } else {
            None
        }),
        r is Some ==> i <= (r->0).0 <= s@.len(),
{
    if s.len() - i >= 4 && all_of_class(s, i, i + 4, true) {
        let code = text.substring_char(i, i + 4).to_owned();
        Some((i + 4, Condition::ImpliedCourseCode(code)))
    } else {
        None
    }
}

/// Parses a whole rule: an optional header (`prerequisite`, `prereq`, or a
/// misspelling of either, then an optional colon), then one condition that
/// must run to the end of the text.
pub fn parse(input: &str) -> (r: Result<Condition, ParseError>)
    ensures
        parse_view(r) == parse_rule(input@),
{
    let s = chars_of(input);
    let h = parse_prereq_header(&s);
    match parse_condition(input, &s, h) {
        Some((e, c)) => if e == s.len() {
            Ok(c)
        } else {
            Err(ParseError::TrailingInput(input.substring_char(e, s.len()).to_owned()))
        },
        None => Err(ParseError::NoMatch(input.substring_char(h, s.len()).to_owned())),
    }
}

/// Parsing is deterministic: two results of `parse` on the same text are the
/// same tree, or the same error.
pub proof fn lemma_parse_deterministic(
    text: &str,
    r1: Result<Condition, ParseError>,
    r2: Result<Condition, ParseError>,
)
    requires
        parse_view(r1) == parse_rule(text@),
        parse_view(r2) == parse_rule(text@),
    ensures
        parse_view(r1) == parse_view(r2),
{
}

} // verus!
