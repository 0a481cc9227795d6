use prereq::{
    evaluate_condition, is_unlocked, parse, typo_tag, typo_tag_with_dist, Boundary, Catalog, Category, Condition,
    ParseError, UnlockError,
};

fn strings(v: &[&str]) -> Vec<String> {
    v.iter().map(|s| s.to_string()).collect()
}

fn chars(s: &str) -> Vec<char> {
    s.chars().collect()
}

/// Parses the lower-cased rule and evaluates it for `target`.
fn holds(rule: &str, target: &str, transcript: &[&str]) -> bool {
    let condition = parse(&rule.to_ascii_lowercase()).expect("rule parses");
    evaluate_condition(&strings(transcript), target, &condition)
}

fn catalog(entries: &[(&str, &str)]) -> Catalog {
    Catalog::new(
        entries
            .iter()
            .map(|(k, v)| (k.to_string(), v.to_string()))
            .collect(),
    )
}

#[test]
fn empty_condition_always_holds() {
    assert!(evaluate_condition(&[], "comp2521", &Condition::Empty));
    assert!(evaluate_condition(&strings(&["math1131"]), "comp2521", &Condition::Empty));
    assert!(holds("", "comp2521", &[]));
    assert!(holds("Prerequisite:", "comp2521", &[]));
}

#[test]
fn course_condition_is_membership() {
    let c = Condition::Course("comp1511".to_string());
    assert!(evaluate_condition(&strings(&["math1131", "comp1511"]), "comp2521", &c));
    assert!(!evaluate_condition(&strings(&["math1131", "comp1521"]), "comp2521", &c));
    assert!(!evaluate_condition(&[], "comp2521", &c));
}

#[test]
fn or_and_combine_sides() {
    let a = || Box::new(Condition::Course("comp1511".to_string()));
    let b = || Box::new(Condition::Course("comp1521".to_string()));
    let cases: Vec<(Vec<&str>, bool, bool)> = vec![
        (vec![], false, false),
        (vec!["comp1511"], true, false),
        (vec!["comp1521"], true, false),
        (vec!["comp1511", "comp1521"], true, true),
    ];
    for (t, or_expected, and_expected) in cases {
        let t = strings(&t);
        assert_eq!(evaluate_condition(&t, "comp2521", &Condition::Or(a(), b())), or_expected);
        assert_eq!(evaluate_condition(&t, "comp2521", &Condition::And(a(), b())), and_expected);
    }
}

#[test]
fn parsing_twice_gives_the_same_tree() {
    for rule in [
        "prerequisite: comp1511 or 24 units of credit in level 2 comp courses",
        "(comp1511 and comp1521) or 1531",
        "completion of 48 units of credit in (comp1511, comp1521)",
    ] {
        let first = format!("{:?}", parse(rule));
        let second = format!("{:?}", parse(rule));
        assert_eq!(first, second);
    }
}

#[test]
fn fuzzy_match_at_default_threshold() {
    // "unit" against "units": similarity exactly 0.80.
    assert_eq!(typo_tag(&chars("unit of"), 0, &chars("units"), Boundary::Space), Some(4));
    // "uni": 0.60.
    assert_eq!(typo_tag(&chars("uni of"), 0, &chars("units"), Boundary::Space), None);
    // "completi" against "completion": exactly 0.80; "complet": 0.70.
    assert_eq!(typo_tag(&chars("completi"), 0, &chars("completion"), Boundary::Space), Some(8));
    assert_eq!(typo_tag(&chars("complet"), 0, &chars("completion"), Boundary::Space), None);
}

#[test]
fn fuzzy_match_at_half_threshold() {
    // "cre" against "credit": exactly 0.50; "cr": 0.33.
    assert_eq!(typo_tag_with_dist(&chars("cre x"), 0, &chars("credit"), 50, Boundary::Space), Some(3));
    assert_eq!(typo_tag_with_dist(&chars("cr x"), 0, &chars("credit"), 50, Boundary::Space), None);
    // "o" against "of": exactly 0.50; "xy": 0.
    assert_eq!(typo_tag_with_dist(&chars("o credit"), 0, &chars("of"), 50, Boundary::Space), Some(1));
    assert_eq!(typo_tag_with_dist(&chars("xy credit"), 0, &chars("of"), 50, Boundary::Space), None);
}

#[test]
fn fuzzy_match_boundaries() {
    let s = chars("prereq: comp1511");
    assert_eq!(typo_tag(&s, 0, &chars("prereq"), Boundary::ColonOrSpace), Some(6));
    assert_eq!(typo_tag(&s, 0, &chars("prereq:"), Boundary::Space), Some(7));
    assert_eq!(typo_tag(&chars("comp,"), 0, &chars("comp"), Boundary::NotAlpha), Some(4));
    assert_eq!(typo_tag(&s, 8, &chars("comp"), Boundary::NotAlpha), Some(12));
    assert_eq!(typo_tag(&s, 8, &chars("math"), Boundary::NotAlpha), None);
}

#[test]
fn uoc_boundary() {
    let t = strings(&["comp1511", "comp1521"]);
    let uoc = |n: u32| Condition::Uoc(n, None);
    assert!(evaluate_condition(&t, "comp2521", &uoc(12)));
    assert!(evaluate_condition(&t, "comp2521", &uoc(11)));
    assert!(!evaluate_condition(&t, "comp2521", &uoc(13)));
    assert!(evaluate_condition(&[], "comp2521", &uoc(0)));
}

#[test]
fn header_then_course() {
    assert!(holds("Prerequisite: COMP1511", "comp2521", &["comp1511"]));
    assert!(!holds("Prerequisite: COMP1511", "comp2521", &["comp1521"]));
}

#[test]
fn units_of_credit_over_all_courses() {
    let rule = "24 units of credit";
    assert!(!holds(rule, "comp2521", &["comp1511", "comp1521", "math1131"]));
    assert!(holds(rule, "comp2521", &["comp1511", "comp1521", "math1131", "math1231"]));
}

#[test]
fn either_course() {
    assert!(holds("COMP1511 or COMP1521", "comp2521", &["comp1521"]));
    assert!(holds("COMP1511 or COMP1521", "comp2521", &["comp1511"]));
    assert!(!holds("COMP1511 or COMP1521", "comp2521", &["comp1531"]));
}

#[test]
fn implied_code_takes_target_faculty() {
    assert!(holds("1511", "comp2521", &["comp1511"]));
    assert!(!holds("1511", "comp2521", &["math1511"]));
    assert!(holds("1511", "math2521", &["math1511"]));
}

#[test]
fn units_of_credit_in_level_category() {
    let rule = "24 units of credit in Level 2 COMP courses";
    assert!(!holds(rule, "comp3511", &["comp2511", "comp2521", "mast1031"]));
    assert!(holds(
        rule,
        "comp3511",
        &["comp2511", "comp2521", "comp2041", "comp2111", "mast1031"]
    ));
    assert!(!holds(
        rule,
        "comp3511",
        &["comp2511", "comp2521", "comp2041", "comp3111", "mast1031"]
    ));
}

#[test]
fn misspelt_header_parses_alike() {
    for t in [&["comp1511"][..], &["comp1521"][..]] {
        assert_eq!(
            holds("Prerequisit: COMP1511", "comp2521", t),
            holds("Prerequisite: COMP1511", "comp2521", t)
        );
    }
    assert!(holds("Prerequisit: COMP1511", "comp2521", &["comp1511"]));
    assert!(holds("Prereq COMP1511", "comp2521", &["comp1511"]));
    assert_eq!(
        format!("{:?}", parse("prerequisit: comp1511")),
        format!("{:?}", parse("prerequisite: comp1511"))
    );
}

#[test]
fn parse_shapes() {
    match parse("comp1511 and comp1521 or comp1531") {
        Ok(Condition::And(a, b)) => {
            assert!(matches!(*a, Condition::Course(ref c) if c == "comp1511"));
            assert!(matches!(*b, Condition::Or(_, _)));
        }
        other => panic!("unexpected {:?}", other),
    }
    match parse("completion of 48 units of credit in (comp1511, comp1521 ,comp1531)") {
        Ok(Condition::Uoc(48, Some(Category::Courses(list)))) => {
            assert_eq!(list, strings(&["comp1511", "comp1521", "comp1531"]));
        }
        other => panic!("unexpected {:?}", other),
    }
    assert!(matches!(
        parse("12 units of credit in comp courses"),
        Ok(Condition::Uoc(12, Some(Category::Comp)))
    ));
    assert!(matches!(
        parse("6 unit of credt in level 10 comp courses"),
        Ok(Condition::Uoc(6, Some(Category::CompLevel(10))))
    ));
    assert!(matches!(parse("(comp1511)"), Ok(Condition::Course(_))));
    assert!(matches!(parse("2521"), Ok(Condition::ImpliedCourseCode(ref c)) if c == "2521"));
}

#[test]
fn category_filters() {
    let level = parse("6 units of credit in level 10 comp courses").unwrap();
    assert!(evaluate_condition(&strings(&["comp1011"]), "comp4000", &level));
    assert!(!evaluate_condition(&strings(&["comp1511"]), "comp4000", &level));
    let comp = parse("12 units of credit in comp courses").unwrap();
    assert!(!evaluate_condition(&strings(&["comp1511", "math1131"]), "comp4000", &comp));
    assert!(evaluate_condition(&strings(&["comp1511", "comp9021"]), "comp4000", &comp));
    let list = parse("12 units of credit in (comp1511, comp1521)").unwrap();
    assert!(!evaluate_condition(&strings(&["comp1511", "comp1531"]), "comp4000", &list));
    assert!(evaluate_condition(&strings(&["comp1521", "comp1511"]), "comp4000", &list));
}

#[test]
fn parse_errors() {
    match parse("xyz") {
        Err(ParseError::NoMatch(rest)) => assert_eq!(rest, "xyz"),
        other => panic!("unexpected {:?}", other),
    }
    match parse("comp1511 comp1521") {
        Err(ParseError::TrailingInput(rest)) => assert_eq!(rest, " comp1521"),
        other => panic!("unexpected {:?}", other),
    }
    // A unit count that does not fit in 32 bits is no number.
    assert!(parse("99999999999 units of credit").is_err());
    assert!(matches!(parse("4294967295 units of credit"), Ok(Condition::Uoc(4294967295, None))));
}

#[test]
fn unlocked_through_catalog() {
    let cat = catalog(&[
        ("COMP2521", "Prerequisite: COMP1511 or COMP1917"),
        ("COMP3311", "Prerequisite: 24 UNITS OF CREDIT"),
        ("COMP9999", "something else entirely"),
    ]);
    assert!(is_unlocked(strings(&["COMP1511"]), "COMP2521".to_string(), &cat).unwrap());
    assert!(!is_unlocked(strings(&["comp1521"]), "COMP2521".to_string(), &cat).unwrap());
    assert!(!is_unlocked(strings(&["a", "b", "c"]), "COMP3311".to_string(), &cat).unwrap());
    assert!(is_unlocked(strings(&["a", "b", "c", "d"]), "COMP3311".to_string(), &cat).unwrap());
    match is_unlocked(vec![], "COMP1000".to_string(), &cat) {
        Err(UnlockError::NotFound(c)) => assert_eq!(c, "COMP1000"),
        other => panic!("unexpected {:?}", other),
    }
    match is_unlocked(vec![], "COMP9999".to_string(), &cat) {
        Err(UnlockError::Parse(c, ParseError::NoMatch(rest))) => {
            assert_eq!(c, "comp9999");
            assert_eq!(rest, "something else entirely");
        }
        other => panic!("unexpected {:?}", other),
    }
}

#[test]
fn implied_code_through_catalog() {
    let cat = catalog(&[("MATH2521", "1511")]);
    assert!(is_unlocked(strings(&["MATH1511"]), "MATH2521".to_string(), &cat).unwrap());
    assert!(!is_unlocked(strings(&["comp1511"]), "MATH2521".to_string(), &cat).unwrap());
}
