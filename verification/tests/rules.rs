use regex::Regex;
use resc::errors::{RescError, RescResult};
use resc::fetcher::{FetchResult, Fetcher};
use resc::pattern::Pattern;
use resc::props::PropertyMap;
use resc::rule::{capture_props, Rule, RuleResult};
use resc::ruleset::Ruleset;

fn pattern(src: &str) -> Pattern {
    Pattern { src: src.to_string() }
}

fn map(pairs: &[(&str, &str)]) -> PropertyMap {
    let mut m = PropertyMap::new();
    for (k, v) in pairs {
        m.insert(k.to_string(), v.to_string());
    }
    m
}

fn fetched(maps: &[&[(&str, &str)]]) -> RescResult<Vec<FetchResult>> {
    Ok(maps.iter().map(|pairs| FetchResult { props: map(pairs) }).collect())
}

fn source(url: &str) -> Fetcher {
    Fetcher { url: pattern(url), returns: "child".to_string() }
}

fn rule(
    name: &str,
    on: &str,
    fetchers: Vec<Fetcher>,
    task: &str,
    queue: &str,
    set: Option<&str>,
) -> Rule {
    Rule {
        name: name.to_string(),
        on_regex: Regex::new(on).unwrap(),
        fetchers,
        make_task: pattern(task),
        make_queue: pattern(queue),
        make_set: set.map(pattern),
    }
}

fn job_rule(fetchers: Vec<Fetcher>) -> Rule {
    rule("job", r"^job/(?P<id>\d+)$", fetchers, "${id}-processed", "done", None)
}

fn triple(r: &RuleResult) -> (String, String, Option<String>) {
    (r.task.clone(), r.queue.clone(), r.set.clone())
}

#[test]
fn job_without_sources_gives_one_result() {
    let ruleset = Ruleset { rules: vec![job_rule(Vec::new())] };
    let matching = ruleset.matching_rules("job/42");
    assert_eq!(matching.len(), 1);
    assert_eq!(matching[0].name, "job");
    let results = matching[0].results("job/42", Vec::new()).unwrap();
    assert_eq!(results.len(), 1);
    assert_eq!(results[0].task, "42-processed");
    assert_eq!(results[0].queue, "done");
    assert_eq!(results[0].set, None);
}

#[test]
fn job_with_two_sources_gives_three_results_with_the_task_id() {
    let rule = rule(
        "job",
        r"^job/(?P<id>\d+)$",
        vec![source("http://a/${id}"), source("http://b/${id}")],
        "${id}-${region}",
        "done/${region}",
        Some("seen/${id}"),
    );
    let answers = vec![
        fetched(&[&[("region", "eu"), ("id", "")]]),
        fetched(&[&[("region", "us"), ("id", "")], &[("region", "ap"), ("id", "")]]),
    ];
    let results = rule.results("job/42", answers).unwrap();
    assert_eq!(results.len(), 3);
    assert_eq!(
        results.iter().map(triple).collect::<Vec<_>>(),
        vec![
            ("42-eu".to_string(), "done/eu".to_string(), Some("seen/42".to_string())),
            ("42-us".to_string(), "done/us".to_string(), Some("seen/42".to_string())),
            ("42-ap".to_string(), "done/ap".to_string(), Some("seen/42".to_string())),
        ]
    );
}

#[test]
fn is_match_gives_the_same_answer_each_time() {
    let rule = job_rule(Vec::new());
    for task in ["job/42", "job/", "", "xjob/1", "job/1x", "job/007"] {
        let first = rule.is_match(task);
        for _ in 0..5 {
            assert_eq!(rule.is_match(task), first);
        }
    }
    assert!(rule.is_match("job/42"));
    assert!(rule.is_match("job/007"));
    assert!(!rule.is_match("job/"));
    assert!(!rule.is_match(""));
    assert!(!rule.is_match("xjob/1"));
    assert!(!rule.is_match("job/1x"));
}

#[test]
fn rule_matches_anywhere_in_the_task() {
    let rule = rule("r", r"b+", Vec::new(), "t", "q", None);
    assert!(rule.is_match("b"));
    assert!(rule.is_match("aabbcc"));
    assert!(rule.is_match("aaab"));
    assert!(!rule.is_match("aacc"));
    assert!(!rule.is_match("B"));
}

#[test]
fn task_properties_are_the_named_groups() {
    let rule = job_rule(Vec::new());
    let props = rule.props("job/42").unwrap();
    assert_eq!(props.len(), 1);
    assert_eq!(props.get("id").map(|s| s.as_str()), Some("42"));
    assert!(rule.props("job/x").is_none());
}

#[test]
fn unnamed_groups_give_no_property() {
    let rule = rule("r", r"^(\w+)/(?P<kind>\w+)/(\d+)$", Vec::new(), "t", "q", None);
    let props = rule.props("acme/order/17").unwrap();
    assert_eq!(props.len(), 1);
    assert_eq!(props.get("kind").map(|s| s.as_str()), Some("order"));
}

#[test]
fn group_that_took_no_part_gives_no_property() {
    let on = r"^(?:n(?P<num>\d+)|w(?P<word>[a-z]+))(?P<rest>.*)$";
    let rule = rule("r", on, Vec::new(), "t", "q", None);
    let props = rule.props("n12").unwrap();
    assert_eq!(props.len(), 2);
    assert_eq!(props.get("num").map(|s| s.as_str()), Some("12"));
    assert_eq!(props.get("rest").map(|s| s.as_str()), Some(""));
    assert!(props.get("word").is_none());
    let props = rule.props("wab!").unwrap();
    assert_eq!(props.len(), 2);
    assert_eq!(props.get("word").map(|s| s.as_str()), Some("ab"));
    assert_eq!(props.get("rest").map(|s| s.as_str()), Some("!"));
    assert!(props.get("num").is_none());
}

#[test]
fn properties_come_from_the_leftmost_match() {
    let rule = rule("r", r"(?P<n>\d+)", Vec::new(), "t", "q", None);
    let props = rule.props("a 12 b 34").unwrap();
    assert_eq!(props.get("n").map(|s| s.as_str()), Some("12"));
}

#[test]
fn capture_props_pairs_names_and_groups() {
    let names =
        vec![None, Some("a".to_string()), None, Some("b".to_string()), Some("c".to_string())];
    let groups = vec![
        Some("whole".to_string()),
        Some("1".to_string()),
        Some("2".to_string()),
        None,
        Some("".to_string()),
    ];
    let props = capture_props(&names, &groups);
    assert_eq!(props.len(), 2);
    assert_eq!(props.get("a").map(|s| s.as_str()), Some("1"));
    assert_eq!(props.get("c").map(|s| s.as_str()), Some(""));
    assert!(props.get("b").is_none());
    let short = capture_props(&names, &groups[..2].to_vec());
    assert_eq!(short.len(), 1);
    assert_eq!(short.get("a").map(|s| s.as_str()), Some("1"));
    assert!(capture_props(&Vec::new(), &groups).is_empty());
}

#[test]
fn result_renders_the_three_patterns() {
    let rule = rule("r", r".", Vec::new(), "${a}/task", "queue/${b}", Some("${a}${b}"));
    let r = rule.result(&map(&[("a", "1"), ("b", "2")]));
    assert_eq!(triple(&r), ("1/task".to_string(), "queue/2".to_string(), Some("12".to_string())));
    let r = rule.result(&PropertyMap::new());
    assert_eq!(
        triple(&r),
        ("${a}/task".to_string(), "queue/${b}".to_string(), Some("${a}${b}".to_string()))
    );
}

#[test]
fn rule_without_set_gives_results_without_set() {
    let rule = rule("r", r".", Vec::new(), "t", "q", None);
    assert_eq!(rule.result(&PropertyMap::new()).set, None);
    let empty_set = self::rule("r", r".", Vec::new(), "t", "q", Some(""));
    assert_eq!(empty_set.result(&PropertyMap::new()).set, Some(String::new()));
}

#[test]
fn without_sources_the_answers_do_not_count() {
    let rule = job_rule(Vec::new());
    let answers =
        vec![fetched(&[&[("id", "7")], &[("id", "8")]]), Err(RescError::Fetch("down".to_string()))];
    let results = rule.results("job/42", answers).unwrap();
    assert_eq!(results.len(), 1);
    assert_eq!(results[0].task, "42-processed");
}

#[test]
fn results_of_sources_are_concatenated() {
    let rule = rule(
        "r",
        r"^(?P<id>\d+)$",
        vec![source("a"), source("b")],
        "${id}:${x}",
        "q",
        None,
    );
    for (n, m) in [(0usize, 0usize), (0, 3), (2, 0), (1, 1), (3, 4)] {
        let first: Vec<FetchResult> =
            (0..n).map(|i| FetchResult { props: map(&[("x", &format!("a{}", i))]) }).collect();
        let second: Vec<FetchResult> =
            (0..m).map(|i| FetchResult { props: map(&[("x", &format!("b{}", i))]) }).collect();
        let results = rule.results("5", vec![Ok(first), Ok(second)]).unwrap();
        assert_eq!(results.len(), n + m);
        for i in 0..n {
            assert_eq!(results[i].task, format!("5:a{}", i));
        }
        for i in 0..m {
            assert_eq!(results[n + i].task, format!("5:b{}", i));
        }
    }
}

#[test]
fn source_without_maps_contributes_nothing() {
    let rule = job_rule(vec![source("a"), source("b")]);
    let results = rule.results("job/1", vec![fetched(&[]), fetched(&[&[("x", "y")]])]).unwrap();
    assert_eq!(results.len(), 1);
    let results = rule.results("job/1", vec![fetched(&[]), fetched(&[])]).unwrap();
    assert!(results.is_empty());
}

#[test]
fn answers_beyond_the_sources_are_passed_over() {
    let rule = job_rule(vec![source("a")]);
    let results = rule
        .results("job/1", vec![fetched(&[&[("x", "1")]]), fetched(&[&[("x", "2")], &[("x", "3")]])])
        .unwrap();
    assert_eq!(results.len(), 1);
    let results = rule
        .results("job/1", vec![fetched(&[]), Err(RescError::Fetch("not asked".to_string()))])
        .unwrap();
    assert!(results.is_empty());
    let rule = job_rule(vec![source("a"), source("b")]);
    let results = rule.results("job/1", vec![fetched(&[&[("x", "1")]])]).unwrap();
    assert_eq!(results.len(), 1);
    let results = rule.results("job/1", Vec::new()).unwrap();
    assert!(results.is_empty());
}

#[test]
fn task_properties_take_precedence_over_fetched_ones() {
    let on = r"^(?P<id>\d+)-(?P<kind>\w+)$";
    let rule = rule("r", on, vec![source("a")], "${id}/${kind}/${extra}", "q", None);
    let answers = vec![fetched(&[
        &[("id", "fetched"), ("kind", "fetched"), ("extra", "e1")],
        &[("extra", "e2")],
        &[("id", ""), ("extra", "e3")],
    ])];
    let results = rule.results("42-job", answers).unwrap();
    assert_eq!(
        results.iter().map(|r| r.task.clone()).collect::<Vec<_>>(),
        vec!["42/job/e1", "42/job/e2", "42/job/e3"]
    );
}

#[test]
fn failure_of_a_source_is_returned_without_results() {
    let rule = job_rule(vec![source("a"), source("b"), source("c")]);
    let failing: Vec<Vec<RescResult<Vec<FetchResult>>>> = vec![
        vec![Err(RescError::Fetch("first".to_string()))],
        vec![fetched(&[&[("x", "1")]]), Err(RescError::Fetch("second".to_string()))],
        vec![
            fetched(&[&[("x", "1")]]),
            fetched(&[&[("x", "2")]]),
            Err(RescError::Fetch("third".to_string())),
        ],
        vec![
            Err(RescError::Fetch("first".to_string())),
            fetched(&[&[("x", "2")]]),
            Err(RescError::Fetch("third".to_string())),
        ],
    ];
    let expected = ["first", "second", "third", "first"];
    for (answers, words) in failing.into_iter().zip(expected) {
        match rule.results("job/1", answers) {
            Err(RescError::Fetch(m)) => assert_eq!(m, words),
            other => panic!("expected the failure {}, got {:?}", words, other),
        }
    }
}

#[test]
fn failure_is_returned_as_it_came() {
    let rule = job_rule(vec![source("a")]);
    match rule.results("job/1", vec![Err(RescError::Conf("odd".to_string()))]) {
        Err(RescError::Conf(m)) => assert_eq!(m, "odd"),
        other => panic!("expected the error as it came, got {:?}", other),
    }
}

#[test]
fn results_if_match_tests_the_task_first() {
    let rule = job_rule(vec![source("a")]);
    assert!(rule.results_if_match("nothing", vec![fetched(&[&[("x", "1")]])]).is_none());
    let results = rule.results_if_match("job/3", vec![fetched(&[&[("x", "1")]])]).unwrap().unwrap();
    assert_eq!(results.len(), 1);
    assert_eq!(results[0].task, "3-processed");
    match rule.results_if_match("job/3", vec![Err(RescError::Fetch("down".to_string()))]) {
        Some(Err(RescError::Fetch(m))) => assert_eq!(m, "down"),
        other => panic!("expected the failure, got {:?}", other),
    }
}

#[test]
fn source_address_is_rendered_from_the_task_properties() {
    let fetcher = source("http://host/items/${id}?kind=${kind}");
    assert_eq!(fetcher.address(&map(&[("id", "42")])), "http://host/items/42?kind=${kind}");
    assert_eq!(fetcher.returns, "child");
}

#[test]
fn matching_rules_come_in_the_order_of_the_set() {
    let ruleset = Ruleset {
        rules: vec![
            rule("digits", r"\d", Vec::new(), "t", "q", None),
            rule("letters", r"[a-z]", Vec::new(), "t", "q", None),
            rule("job", r"^job/", Vec::new(), "t", "q", None),
            rule("digits", r"\d\d", Vec::new(), "t", "q", None),
            rule("never", r"^$", Vec::new(), "t", "q", None),
        ],
    };
    let names = |task: &str| -> Vec<String> {
        ruleset.matching_rules(task).iter().map(|r| r.name.clone()).collect()
    };
    assert_eq!(names("job/42"), vec!["digits", "letters", "job", "digits"]);
    assert_eq!(names("job/4"), vec!["digits", "letters", "job"]);
    assert_eq!(names("7"), vec!["digits"]);
    assert_eq!(names("--"), Vec::<String>::new());
    assert_eq!(names(""), vec!["never"]);
    assert_eq!(ruleset.rules.len(), 5);
}

#[test]
fn matching_rules_of_an_empty_set() {
    let ruleset = Ruleset { rules: Vec::new() };
    assert!(ruleset.matching_rules("job/42").is_empty());
}

#[test]
fn matching_rules_are_the_rules_of_the_set() {
    let ruleset = Ruleset { rules: vec![job_rule(Vec::new()), job_rule(vec![source("a")])] };
    let matching = ruleset.matching_rules("job/1");
    assert_eq!(matching.len(), 2);
    assert!(std::ptr::eq(matching[0], &ruleset.rules[0]));
    assert!(std::ptr::eq(matching[1], &ruleset.rules[1]));
}
