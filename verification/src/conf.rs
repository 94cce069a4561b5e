//! The configuration: what a JSON value says of watchers, rules and
//! sources, what is assumed where it says nothing, and what is refused.

use vstd::prelude::*;
use vstd::string::*;
use crate::errors::{
    all_or_first_error,
    conf_error,
    decoded,
    lemma_first_error_stays,
    RescError,
    RescResult,
};
use crate::fetcher::{fetcher_views, Fetcher, FetcherView};
use crate::json::{parse, parsed, Json, JsonView};
use crate::matching::{compile, compiled};
use crate::pattern::Pattern;
use crate::rule::{rule_views, Rule, RuleView};
use crate::ruleset::Ruleset;
use crate::watcher::{watcher_views, Watcher, WatcherView};

verus! {

/// The configuration of Resc, as read from a JSON text.
#[derive(Debug)]
pub struct Conf {
    pub watchers: Vec<Watcher>,
}

impl View for Conf {
    type V = Seq<WatcherView>;

    open spec fn view(&self) -> Seq<WatcherView> {
        watcher_views(self.watchers@)
    }
}

/// The string that a value holds under a name, or the complaint that it is
/// missing.
pub open spec fn string_of(j: JsonView, c: Seq<char>) -> Result<Seq<char>, Seq<char>> {
    match j.member(c) {
        JsonView::Str(v) => Ok(v),
        _ => Err("Missing "@ + c),
    }
}

/// The string that a value holds under a name within a name, or the
/// complaint that it is missing.
pub open spec fn l2_string_of(j: JsonView, c1: Seq<char>, c2: Seq<char>) -> Result<
    Seq<char>,
    Seq<char>,
> {
    match j.member(c1).member(c2) {
        JsonView::Str(v) => Ok(v),
        _ => Err("Missing "@ + c1 + "/"@ + c2),
    }
}

/// The source that a value describes: it needs the strings `url` and
/// `returns`.
pub open spec fn fetcher_of(j: JsonView) -> Result<FetcherView, Seq<char>> {
    match string_of(j, "url"@) {
        Err(e) => Err(e),
        Ok(url) => match string_of(j, "returns"@) {
            Err(e) => Err(e),
            Ok(tag) => Ok(FetcherView { url, returns: tag }),
        },
    }
}

/// The sources that a rule's `fetch` describes: those of its items if it
/// is an array, none otherwise.
pub open spec fn fetchers_of(j: JsonView) -> Result<Seq<FetcherView>, Seq<char>> {
    match j {
        JsonView::Array(items) => all_or_first_error(
            Seq::new(items.len(), |i: int| fetcher_of(items[i])),
        ),
        _ => Ok(Seq::empty()),
    }
}

/// The rule that a value describes. It needs the string `on`, which must
/// compile, and the string `queue` under `make`. Without a string `name`
/// the rule is anonymous; without a string `task` under `make` it makes
/// `${input_task}`; `set` under `make` is a string, or null or absent.
pub open spec fn rule_of(j: JsonView) -> Result<RuleView, Seq<char>> {
    let name = match j.member("name"@) {
        JsonView::Str(v) => v,
        _ => "<anonymous rule>"@,
    };
    let make_task = match j.member("make"@).member("task"@) {
        JsonView::Str(v) => v,
        _ => "${input_task}"@,
    };
    match string_of(j, "on"@) {
        Err(e) => Err(e),
        Ok(on) => match compiled(on) {
            None => Err("invalid on/done pattern"@),
            Some(on_regex) => match fetchers_of(j.member("fetch"@)) {
                Err(e) => Err(e),
                Ok(fetchers) => match j.member("make"@).member("queue"@) {
                    JsonView::Str(make_queue) => match j.member("make"@).member("set"@) {
                        JsonView::Str(v) => Ok(
                            RuleView {
                                name,
                                on_regex,
                                fetchers,
                                make_task,
                                make_queue,
                                make_set: Some(v),
                            },
                        ),
                        JsonView::Null => Ok(
                            RuleView {
                                name,
                                on_regex,
                                fetchers,
                                make_task,
                                make_queue,
                                make_set: None,
                            },
                        ),
                        _ => Err("invalid make/set in rule"@),
                    },
                    _ => Err("missing make/queue string in rule"@),
                },
            },
        },
    }
}

/// The watcher that a value describes. It needs the string `input_queue`
/// and the array `rules`; without a string `taken_queue` tasks wait on the
/// input queue's name followed by `/taken`.
pub open spec fn watcher_of(
    j: JsonView,
    redis_url: Seq<char>,
    listener_channel: Seq<char>,
) -> Result<WatcherView, Seq<char>> {
    match string_of(j, "input_queue"@) {
        Err(e) => Err(e),
        Ok(input_queue) => {
            let taken_queue = match j.member("taken_queue"@) {
                JsonView::Str(v) => v,
                _ => input_queue + "/taken"@,
            };
            match j.member("rules"@) {
                JsonView::Array(items) => match all_or_first_error(
                    Seq::new(items.len(), |i: int| rule_of(items[i])),
                ) {
                    Err(e) => Err(e),
                    Ok(rules) => Ok(
                        WatcherView {
                            redis_url,
                            listener_channel,
                            input_queue,
                            taken_queue,
                            rules,
                        },
                    ),
                },
                _ => Err("no global_ruleset/rules array"@),
            }
        },
    }
}

/// The configuration that a value describes. It needs the string `url`
/// under `redis`, the string `listener_channel` and the array `watchers`.
pub open spec fn conf_of(j: JsonView) -> Result<Seq<WatcherView>, Seq<char>> {
    match l2_string_of(j, "redis"@, "url"@) {
        Err(e) => Err(e),
        Ok(redis_url) => match string_of(j, "listener_channel"@) {
            Err(e) => Err(e),
            Ok(listener_channel) => match j.member("watchers"@) {
                JsonView::Array(items) => all_or_first_error(
                    Seq::new(
                        items.len(),
                        |i: int| watcher_of(items[i], redis_url, listener_channel),
                    ),
                ),
                _ => Err("no watchers array"@),
            },
        },
    }
}

impl Json {
    /// The member of a name within the member of a name.
    fn member2(&self, c1: &str, c2: &str) -> (r: Option<&Json>)
        ensures
            match r {
                Some(j) => j@ == self@.member(c1@).member(c2@),
                None => self@.member(c1@).member(c2@) == JsonView::Null,
            },
    {
        match self.member(c1) {
            Some(j) => j.member(c2),
            None => None,
        }
    }

    /// The string under a name.
    pub fn get_string(&self, c: &str) -> (r: RescResult<String>)
        ensures
            decoded(r, string_of(self@, c@)),
    {
        match self.member(c) {
            Some(Json::Str(v)) => Ok(v.clone()),
            _ => Err(RescError::Conf(String::from_str("Missing ").concat(c))),
        }
    }

    /// The string under a name within a name.
    pub fn get_l2_string(&self, c1: &str, c2: &str) -> (r: RescResult<String>)
        ensures
            decoded(r, l2_string_of(self@, c1@, c2@)),
    {
        match self.member2(c1, c2) {
            Some(Json::Str(v)) => Ok(v.clone()),
            _ => Err(
                RescError::Conf(String::from_str("Missing ").concat(c1).concat("/").concat(c2)),
            ),
        }
    }

    /// The source that the value describes.
    pub fn as_fetcher(&self) -> (r: RescResult<Fetcher>)
        ensures
            decoded(r, fetcher_of(self@)),
    {
        let url_pattern = self.get_string("url")?;
        let tag = self.get_string("returns")?;
        Ok(Fetcher { url: Pattern { src: url_pattern }, returns: tag })
    }

    /// The sources that the value describes as a rule's `fetch`.
    fn as_fetchers(&self) -> (r: RescResult<Vec<Fetcher>>)
        ensures
            match fetchers_of(self@) {
                Ok(v) => r matches Ok(x) && fetcher_views(x@) == v,
                Err(words) => r matches Err(RescError::Conf(m)) && m@ == words,
            },
    {
        let mut fetchers: Vec<Fetcher> = Vec::new();
        if let Json::Array(items) = self {
            let ghost outcomes = Seq::new(
                self@->Array_0.len(),
                |i: int| fetcher_of(self@->Array_0[i]),
            );
            let mut i: usize = 0;
            proof {
                assert(outcomes.take(0) =~= Seq::empty());
                assert(fetcher_views(fetchers@) =~= Seq::empty());
            }
            while i < items.len()
                invariant
                    i <= items@.len(),
                    outcomes.len() == items@.len(),
                    forall|k: int|
                        0 <= k < items@.len() ==> outcomes[k] == fetcher_of(
                            #[trigger] items@[k]@,
                        ),
                    fetchers_of(self@) == all_or_first_error(outcomes),
                    all_or_first_error(outcomes.take(i as int)) == Ok::<
                        Seq<FetcherView>,
                        Seq<char>,
                    >(fetcher_views(fetchers@)),
                decreases items@.len() - i,
            {
                let ghost before = fetcher_views(fetchers@);
                proof {
                    assert(outcomes.take(i + 1).drop_last() =~= outcomes.take(i as int));
                    assert(outcomes.take(i + 1).last() == fetcher_of(items@[i as int]@));
                }
                match items[i].as_fetcher() {
                    Ok(fetcher) => {
                        fetchers.push(fetcher);
                        proof {
                            assert(fetcher_views(fetchers@) =~= before.push(fetcher@));
                        }
                    },
                    Err(e) => {
                        proof {
                            assert(all_or_first_error(outcomes.take(i + 1)).is_err());
                            lemma_first_error_stays(outcomes, i + 1);
                        }
                        return Err(e);
                    },
                }
                i += 1;
            }
            proof {
                assert(outcomes.take(items@.len() as int) =~= outcomes);
            }
        } else {
            proof {
                assert(fetcher_views(fetchers@) =~= Seq::empty());
            }
        }
        Ok(fetchers)
    }

    /// The rule that the value describes.
    pub fn as_rule(&self) -> (r: RescResult<Rule>)
        ensures
            decoded(r, rule_of(self@)),
    {
        let name = match self.member("name") {
            Some(Json::Str(v)) => v.clone(),
            _ => "<anonymous rule>".to_owned(),
        };
        let on_pattern = self.get_string("on")?;
        let on_regex = match compile(on_pattern.as_str()) {
            Ok(re) => re,
            Err(_) => {
                return Err(conf_error("invalid on/done pattern"));
            },
        };
        let fetchers = match self.member("fetch") {
            Some(fetch) => fetch.as_fetchers()?,
            None => Vec::new(),
        };
        proof {
            assert(self@.member("fetch"@) == JsonView::Null ==> fetcher_views(fetchers@)
                =~= Seq::empty());
        }
        let make_task = Pattern {
            src: match self.member2("make", "task") {
                Some(Json::Str(src)) => src.clone(),
                _ => "${input_task}".to_owned(),
            },
        };
        let make_queue = match self.member2("make", "queue") {
            Some(Json::Str(src)) => Pattern { src: src.clone() },
            _ => {
                return Err(conf_error("missing make/queue string in rule"));
            },
        };
        let make_set = match self.member2("make", "set") {
            Some(Json::Str(src)) => Some(Pattern { src: src.clone() }),
            Some(Json::Null) | None => None,
            _ => {
                return Err(conf_error("invalid make/set in rule"));
            },
        };
        Ok(Rule { name, on_regex, fetchers, make_task, make_queue, make_set })
    }

    /// The rules that the value describes as a watcher's `rules`.
    fn as_rules(&self) -> (r: RescResult<Vec<Rule>>)
        ensures
            match self@ {
                JsonView::Array(items) => match all_or_first_error(
                    Seq::new(items.len(), |i: int| rule_of(items[i])),
                ) {
                    Ok(v) => r matches Ok(x) && rule_views(x@) == v,
                    Err(words) => r matches Err(RescError::Conf(m)) && m@ == words,
                },
                _ => r matches Err(RescError::Conf(m)) && m@ == "no global_ruleset/rules array"@,
            },
    {
        let mut rules: Vec<Rule> = Vec::new();
        if let Json::Array(items) = self {
            let ghost outcomes = Seq::new(
                self@->Array_0.len(),
                |i: int| rule_of(self@->Array_0[i]),
            );
            let mut i: usize = 0;
            proof {
                assert(outcomes.take(0) =~= Seq::empty());
                assert(rule_views(rules@) =~= Seq::empty());
            }
            while i < items.len()
                invariant
                    i <= items@.len(),
                    outcomes.len() == items@.len(),
                    forall|k: int|
                        0 <= k < items@.len() ==> outcomes[k] == rule_of(#[trigger] items@[k]@),
                    self@ is Array,
                    outcomes == Seq::new(
                        self@->Array_0.len(),
                        |i: int| rule_of(self@->Array_0[i]),
                    ),
                    all_or_first_error(outcomes.take(i as int)) == Ok::<Seq<RuleView>, Seq<char>>(
                        rule_views(rules@),
                    ),
                decreases items@.len() - i,
            {
                let ghost before = rule_views(rules@);
                proof {
                    assert(outcomes.take(i + 1).drop_last() =~= outcomes.take(i as int));
                    assert(outcomes.take(i + 1).last() == rule_of(items@[i as int]@));
                }
                match items[i].as_rule() {
                    Ok(rule) => {
                        rules.push(rule);
                        proof {
                            assert(rule_views(rules@) =~= before.push(rule@));
                        }
                    },
                    Err(e) => {
                        proof {
                            assert(all_or_first_error(outcomes.take(i + 1)).is_err());
                            lemma_first_error_stays(outcomes, i + 1);
                        }
                        return Err(e);
                    },
                }
                i += 1;
            }
            proof {
                assert(outcomes.take(items@.len() as int) =~= outcomes);
            }
            Ok(rules)
        } else {
            Err(conf_error("no global_ruleset/rules array"))
        }
    }

    /// The watcher that the value describes, for queues at `redis_url`
    /// that announce tasks on `listener_channel`.
    pub fn as_watcher(&self, redis_url: String, listener_channel: String) -> (r: RescResult<
        Watcher,
    >)
        ensures
            decoded(r, watcher_of(self@, redis_url@, listener_channel@)),
    {
        let input_queue = self.get_string("input_queue")?;
        let taken_queue = match self.member("taken_queue") {
            Some(Json::Str(s)) => s.clone(),
            _ => input_queue.clone().concat("/taken"),
        };
        let rules = match self.member("rules") {
            Some(rules_value) => rules_value.as_rules()?,
            None => {
                return Err(conf_error("no global_ruleset/rules array"));
            },
        };
        Ok(
            Watcher {
                redis_url,
                listener_channel,
                input_queue,
                taken_queue,
                ruleset: Ruleset { rules },
            },
        )
    }

    /// The configuration that the value describes.
    pub fn as_conf(&self) -> (r: RescResult<Conf>)
        ensures
            decoded(r, conf_of(self@)),
    {
        let redis_url = self.get_l2_string("redis", "url")?;
        let listener_channel = self.get_string("listener_channel")?;
        let mut watchers: Vec<Watcher> = Vec::new();
        let items = match self.member("watchers") {
            Some(Json::Array(items)) => items,
            _ => {
                return Err(conf_error("no watchers array"));
            },
        };
        let ghost outcomes = Seq::new(
            items@.len(),
            |i: int| watcher_of(items@[i]@, redis_url@, listener_channel@),
        );
        let mut i: usize = 0;
        proof {
            assert(outcomes =~= Seq::new(
                self@.member("watchers"@)->Array_0.len(),
                |i: int|
                    watcher_of(
                        self@.member("watchers"@)->Array_0[i],
                        redis_url@,
                        listener_channel@,
                    ),
            ));
            assert(outcomes.take(0) =~= Seq::empty());
            assert(watcher_views(watchers@) =~= Seq::empty());
        }
        while i < items.len()
            invariant
                i <= items@.len(),
                outcomes.len() == items@.len(),
                forall|k: int|
                    0 <= k < items@.len() ==> outcomes[k] == watcher_of(
                        #[trigger] items@[k]@,
                        redis_url@,
                        listener_channel@,
                    ),
                conf_of(self@) == all_or_first_error(outcomes),
                all_or_first_error(outcomes.take(i as int)) == Ok::<Seq<WatcherView>, Seq<char>>(
                    watcher_views(watchers@),
                ),
            decreases items@.len() - i,
        {
            let ghost before = watcher_views(watchers@);
            proof {
                assert(outcomes.take(i + 1).drop_last() =~= outcomes.take(i as int));
                assert(outcomes.take(i + 1).last() == watcher_of(
                    items@[i as int]@,
                    redis_url@,
                    listener_channel@,
                ));
            }
            match items[i].as_watcher(redis_url.clone(), listener_channel.clone()) {
                Ok(watcher) => {
                    watchers.push(watcher);
                    proof {
                        assert(watcher_views(watchers@) =~= before.push(watcher@));
                    }
                },
                Err(e) => {
                    proof {
                        assert(all_or_first_error(outcomes.take(i + 1)).is_err());
                        lemma_first_error_stays(outcomes, i + 1);
                    }
                    return Err(e);
                },
            }
            i += 1;
        }
        proof {
            assert(outcomes.take(items@.len() as int) =~= outcomes);
        }
        Ok(Conf { watchers })
    }
}

/// What a configuration text gives once it is parsed: the configuration,
/// the error of a text that is no JSON, or the error of a value that
/// describes no configuration.
pub fn read_str(text: &str) -> (r: RescResult<Conf>)
    ensures
        match parsed(text@) {
            Some(model) => decoded(r, conf_of(model)),
            None => r matches Err(RescError::Json(_)),
        },
{
    let root = parse(text)?;
    root.as_conf()
}

} // verus!
