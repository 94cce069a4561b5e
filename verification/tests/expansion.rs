use regex::Regex;
use resc::errors::{RescError, RescResult};
use resc::expansion::Progress;
use resc::fetcher::{FetchResult, Fetcher};
use resc::pattern::Pattern;
use resc::props::PropertyMap;
use resc::rule::{Rule, RuleResult};

fn props_of(pairs: &[(&str, &str)]) -> PropertyMap {
    let mut m = PropertyMap::new();
    for (k, v) in pairs {
        m.insert(k.to_string(), v.to_string());
    }
    m
}

fn answer(maps: &[&[(&str, &str)]]) -> RescResult<Vec<FetchResult>> {
    Ok(maps.iter().map(|pairs| FetchResult { props: props_of(pairs) }).collect())
}

fn rule_with_sources(urls: &[&str]) -> Rule {
    Rule {
        name: "job".to_string(),
        on_regex: Regex::new(r"^job/(?P<id>\d+)$").unwrap(),
        fetchers: urls
            .iter()
            .map(|u| Fetcher { url: Pattern { src: u.to_string() }, returns: "child".to_string() })
            .collect(),
        make_task: Pattern { src: "${id}-${region}".to_string() },
        make_queue: Pattern { src: "done".to_string() },
        make_set: None,
    }
}

/// Runs an expansion to its end, answering each source from `answers` by
/// its address, and notes the addresses asked.
fn run(
    rule: &Rule,
    task: &str,
    answers: &[(&str, fn() -> RescResult<Vec<FetchResult>>)],
    asked: &mut Vec<String>,
) -> Option<RescResult<Vec<RuleResult>>> {
    let mut progress = rule.begin(task);
    loop {
        match progress {
            Progress::NoMatch => return None,
            Progress::Done(results) => return Some(Ok(results)),
            Progress::Failed(e) => return Some(Err(e)),
            Progress::Ask(expansion) => {
                let address = expansion.address();
                assert_eq!(address, expansion.fetcher().address(expansion.props()));
                let known = answers.iter().find(|(a, _)| *a == address);
                let answer = known.expect("an unexpected address").1;
                asked.push(address);
                progress = expansion.resume(answer());
            },
        }
    }
}

#[test]
fn expansion_of_a_task_that_does_not_match() {
    let rule = rule_with_sources(&["a"]);
    assert!(matches!(rule.begin("other"), Progress::NoMatch));
    let rule = rule_with_sources(&[]);
    assert!(matches!(rule.begin("job/x"), Progress::NoMatch));
}

#[test]
fn expansion_without_sources_is_done_at_once() {
    let rule = rule_with_sources(&[]);
    match rule.begin("job/42") {
        Progress::Done(results) => {
            assert_eq!(results.len(), 1);
            assert_eq!(results[0].task, "42-${region}");
            assert_eq!(results[0].queue, "done");
            assert_eq!(results[0].set, None);
        },
        _ => panic!("expected the one result"),
    }
}

#[test]
fn expansion_asks_each_source_in_turn() {
    let rule = rule_with_sources(&["http://a/${id}", "http://b/${id}"]);
    let mut asked = Vec::new();
    let results = run(
        &rule,
        "job/42",
        &[
            ("http://b/42", || {
                answer(&[&[("region", "us"), ("id", "")], &[("region", "ap"), ("id", "")]])
            }),
            ("http://a/42", || answer(&[&[("region", "eu"), ("id", "")]])),
        ],
        &mut asked,
    )
    .unwrap()
    .unwrap();
    assert_eq!(asked, vec!["http://a/42", "http://b/42"]);
    assert_eq!(
        results.iter().map(|r| r.task.clone()).collect::<Vec<_>>(),
        vec!["42-eu", "42-us", "42-ap"]
    );
}

#[test]
fn expansion_hands_out_the_source_and_the_task_properties() {
    let rule = rule_with_sources(&["first", "second"]);
    match rule.begin("job/7") {
        Progress::Ask(expansion) => {
            assert_eq!(expansion.fetcher().url.src, "first");
            assert_eq!(expansion.props().len(), 1);
            assert_eq!(expansion.props().get("id").map(|s| s.as_str()), Some("7"));
            match expansion.resume(answer(&[&[("id", "fetched"), ("region", "eu")]])) {
                Progress::Ask(next) => {
                    assert_eq!(next.fetcher().url.src, "second");
                    assert_eq!(next.props().len(), 1);
                    assert_eq!(next.props().get("id").map(|s| s.as_str()), Some("7"));
                    match next.resume(answer(&[])) {
                        Progress::Done(results) => {
                            assert_eq!(results.len(), 1);
                            assert_eq!(results[0].task, "7-eu");
                        },
                        _ => panic!("expected the end"),
                    }
                },
                _ => panic!("expected the second source"),
            }
        },
        _ => panic!("expected the first source"),
    }
}

#[test]
fn expansion_stops_at_the_first_failure() {
    let rule = rule_with_sources(&["a", "b", "c"]);
    let mut asked = Vec::new();
    let outcome = run(
        &rule,
        "job/1",
        &[
            ("a", || answer(&[&[("region", "eu")]])),
            ("b", || Err(RescError::Fetch("b is down".to_string()))),
            ("c", || answer(&[&[("region", "us")]])),
        ],
        &mut asked,
    )
    .unwrap();
    assert_eq!(asked, vec!["a", "b"]);
    match outcome {
        Err(RescError::Fetch(m)) => assert_eq!(m, "b is down"),
        other => panic!("expected the failure, got {:?}", other),
    }
}

#[test]
fn expansion_and_results_agree() {
    let rule = rule_with_sources(&["a", "b"]);
    let first: fn() -> RescResult<Vec<FetchResult>> =
        || answer(&[&[("region", "r1")], &[("region", "r2")]]);
    let second: fn() -> RescResult<Vec<FetchResult>> = || answer(&[&[("region", "r3")]]);
    let mut asked = Vec::new();
    let stepwise =
        run(&rule, "job/9", &[("a", first), ("b", second)], &mut asked).unwrap().unwrap();
    let at_once = rule.results("job/9", vec![first(), second()]).unwrap();
    let triple = |r: &RuleResult| (r.task.clone(), r.queue.clone(), r.set.clone());
    assert_eq!(stepwise.len(), 3);
    assert_eq!(
        stepwise.iter().map(triple).collect::<Vec<_>>(),
        at_once.iter().map(triple).collect::<Vec<_>>()
    );
}
