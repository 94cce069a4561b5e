//! What holds of rules and their results, whatever the task, the rule and
//! the sources' answers.

use vstd::prelude::*;
use crate::errors::{RescError, RescResult};
use crate::fetcher::{fetched_maps, FetchResult};
use crate::pattern::{lemma_render_placeholder, placeholder_end, placeholder_name, render};
use crate::rule::{capture_props_of, named_groups, Rule, RuleResultView};

verus! {

/// Whether the group at `i` gives the property `k`: it is named `k` and
/// took part in the match.
pub open spec fn gives(
    names: Seq<Option<Seq<char>>>,
    groups: Seq<Option<Seq<char>>>,
    i: int,
    k: Seq<char>,
) -> bool {
    0 <= i < names.len() && i < groups.len() && names[i] == Some(k) && groups[i].is_some()
}

/// The properties of the first `n` groups have a name exactly if one of
/// these groups gives it.
pub proof fn lemma_named_groups_names(
    names: Seq<Option<Seq<char>>>,
    groups: Seq<Option<Seq<char>>>,
    n: nat,
    k: Seq<char>,
)
    ensures
        named_groups(names, groups, n).contains_key(k) <==> exists|i: int|
            i < n && gives(names, groups, i, k),
    decreases n,
{
    if n > 0 {
        let last = n - 1;
        lemma_named_groups_names(names, groups, last as nat, k);
        if named_groups(names, groups, n).contains_key(k) {
            if gives(names, groups, last, k) {
            } else {
                let i = choose|i: int| i < last && gives(names, groups, i, k);
                assert(i < n && gives(names, groups, i, k));
            }
        }
        if exists|i: int| i < n && gives(names, groups, i, k) {
            let i = choose|i: int| i < n && gives(names, groups, i, k);
            if i < last {
                assert(i < last && gives(names, groups, i, k));
            }
        }
    }
}

/// The properties read off a match are exactly those of the named groups
/// that took part in it: a name is a property exactly if some group gives
/// it, no more and no fewer.
pub proof fn lemma_capture_props_names(
    names: Seq<Option<Seq<char>>>,
    groups: Seq<Option<Seq<char>>>,
    k: Seq<char>,
)
    ensures
        capture_props_of(names, groups).contains_key(k) <==> exists|i: int|
            gives(names, groups, i, k),
{
    lemma_named_groups_names(names, groups, names.len(), k);
    if exists|i: int| gives(names, groups, i, k) {
        let i = choose|i: int| gives(names, groups, i, k);
        assert(i < names.len() && gives(names, groups, i, k));
    }
}

/// The value of a property among those of the first `n` groups is the
/// text of the group that gives it, where no later group gives it too.
pub proof fn lemma_named_groups_value(
    names: Seq<Option<Seq<char>>>,
    groups: Seq<Option<Seq<char>>>,
    n: nat,
    i: int,
    k: Seq<char>,
)
    requires
        i < n,
        gives(names, groups, i, k),
        forall|j: int| i < j < n ==> !gives(names, groups, j, k),
    ensures
        named_groups(names, groups, n)[k] == groups[i].unwrap(),
    decreases n,
{
    if i < n - 1 {
        assert(!gives(names, groups, n - 1, k));
        lemma_named_groups_value(names, groups, (n - 1) as nat, i, k);
    }
}

/// The value of a property read off a match is the text that the group of
/// that name matched. (An expression has no two groups of one name.)
pub proof fn lemma_capture_props_value(
    names: Seq<Option<Seq<char>>>,
    groups: Seq<Option<Seq<char>>>,
    i: int,
    k: Seq<char>,
)
    requires
        gives(names, groups, i, k),
        forall|j: int| i < j ==> !gives(names, groups, j, k),
    ensures
        capture_props_of(names, groups)[k] == groups[i].unwrap(),
{
    lemma_named_groups_value(names, groups, names.len(), i, k);
}

/// The number of property maps in a list of answers, failures counting as
/// none.
pub open spec fn answered_maps(answers: Seq<RescResult<Vec<FetchResult>>>) -> nat
    decreases answers.len(),
{
    if answers.len() == 0 {
        0
    } else {
        answered_maps(answers.drop_last()) + match answers.last() {
            Ok(fetched) => fetched@.len(),
            Err(_) => 0,
        }
    }
}

impl Rule {
    /// Whether a rule applies to a task depends on the rule's expression
    /// and on the task's text, and on nothing else: asked again, the
    /// answer is the same.
    pub proof fn lemma_match_is_settled(&self, other: &Rule, task: Seq<char>)
        requires
            self.on_regex == other.on_regex,
        ensures
            self.matches(task) == other.matches(task),
    {
    }

    /// A rule without sources makes exactly one result of a task, whatever
    /// answers are handed in: the result rendered from the task's
    /// properties.
    pub proof fn lemma_no_sources_one_result(
        &self,
        base: Map<Seq<char>, Seq<char>>,
        answers: Seq<RescResult<Vec<FetchResult>>>,
    )
        requires
            self.fetchers@.len() == 0,
        ensures
            self.expansion(base, answers) == Ok::<Seq<RuleResultView>, RescError>(
                seq![self.rendered(base)],
            ),
            self.expansion(base, answers).unwrap().len() == 1,
    {
    }

    /// The results of answers put one behind the other are the results of
    /// the first answers followed by the results of the last ones: the
    /// answers are not combined with each other.
    pub proof fn lemma_results_are_concatenated(
        &self,
        base: Map<Seq<char>, Seq<char>>,
        first: Seq<RescResult<Vec<FetchResult>>>,
        last: Seq<RescResult<Vec<FetchResult>>>,
    )
        requires
            self.gathered(base, first).is_ok(),
            self.gathered(base, last).is_ok(),
        ensures
            self.gathered(base, first + last) == Ok::<Seq<RuleResultView>, RescError>(
                self.gathered(base, first).unwrap() + self.gathered(base, last).unwrap(),
            ),
        decreases last.len(),
    {
        if last.len() == 0 {
            assert(first + last =~= first);
            assert(self.gathered(base, first).unwrap() + Seq::<RuleResultView>::empty()
                =~= self.gathered(base, first).unwrap());
        } else {
            let before = last.drop_last();
            assert((first + last).drop_last() =~= first + before);
            assert((first + last).last() == last.last());
            self.lemma_results_are_concatenated(base, first, before);
            let fetched = last.last()->Ok_0;
            let added = self.merged(base, fetched_maps(fetched@));
            let head = self.gathered(base, first).unwrap();
            let middle = self.gathered(base, before).unwrap();
            assert((head + middle) + added =~= head + (middle + added));
        }
    }

    /// Where no source fails, the results are as many as the property maps
    /// of all answers together.
    pub proof fn lemma_results_count(
        &self,
        base: Map<Seq<char>, Seq<char>>,
        answers: Seq<RescResult<Vec<FetchResult>>>,
    )
        requires
            forall|i: int| 0 <= i < answers.len() ==> answers[i].is_ok(),
        ensures
            self.gathered(base, answers).is_ok(),
            self.gathered(base, answers).unwrap().len() == answered_maps(answers),
        decreases answers.len(),
    {
        if answers.len() > 0 {
            self.lemma_results_count(base, answers.drop_last());
            assert(answers.last().is_ok());
        }
    }

    /// Two sources that answer with N and with M property maps give N + M
    /// results: first those of the first source, then those of the second.
    pub proof fn lemma_two_sources(
        &self,
        base: Map<Seq<char>, Seq<char>>,
        first: Vec<FetchResult>,
        second: Vec<FetchResult>,
    )
        requires
            self.fetchers@.len() == 2,
        ensures
            self.expansion(base, seq![Ok(first), Ok(second)]) == Ok::<
                Seq<RuleResultView>,
                RescError,
            >(
                self.merged(base, fetched_maps(first@)) + self.merged(
                    base,
                    fetched_maps(second@),
                ),
            ),
            self.expansion(base, seq![Ok(first), Ok(second)]).unwrap().len() == first@.len()
                + second@.len(),
    {
        let both: Seq<RescResult<Vec<FetchResult>>> = seq![Ok(first), Ok(second)];
        let one: Seq<RescResult<Vec<FetchResult>>> = seq![Ok(first)];
        assert(both.drop_last() =~= one);
        assert(one.drop_last() =~= Seq::empty());
        assert(self.gathered(base, one.drop_last()) == Ok::<Seq<RuleResultView>, RescError>(
            Seq::empty(),
        ));
        assert(Seq::<RuleResultView>::empty() + self.merged(base, fetched_maps(first@))
            =~= self.merged(base, fetched_maps(first@)));
        assert(self.gathered(base, one) == Ok::<Seq<RuleResultView>, RescError>(
            self.merged(base, fetched_maps(first@)),
        ));
    }

    /// Where a source fails, there are no results: what comes out is the
    /// failure of the first source that failed, whatever the others
    /// answered.
    pub proof fn lemma_failure_is_returned(
        &self,
        base: Map<Seq<char>, Seq<char>>,
        answers: Seq<RescResult<Vec<FetchResult>>>,
        i: int,
    )
        requires
            0 <= i < answers.len(),
            answers[i].is_err(),
            forall|j: int| 0 <= j < i ==> answers[j].is_ok(),
        ensures
            self.gathered(base, answers) == Err::<Seq<RuleResultView>, RescError>(
                answers[i].unwrap_err(),
            ),
            i < self.fetchers@.len() ==> self.expansion(base, answers) == Err::<
                Seq<RuleResultView>,
                RescError,
            >(answers[i].unwrap_err()),
    {
        let upto = answers.take(i + 1);
        assert(upto.drop_last() =~= answers.take(i));
        assert(upto.last() == answers[i]);
        self.lemma_results_count(base, answers.take(i));
        self.lemma_failure_stays(base, answers, i + 1);
        if i < self.fetchers@.len() {
            let heard = self.heard(answers);
            assert(heard.take(i + 1) =~= upto);
            self.lemma_failure_stays(base, heard, i + 1);
        }
    }

    /// The task's own properties take precedence: a result made of a
    /// source's property map does not depend on what that map says of a
    /// name that the task's properties have.
    pub proof fn lemma_base_takes_precedence(
        &self,
        base: Map<Seq<char>, Seq<char>>,
        fetched: Map<Seq<char>, Seq<char>>,
        key: Seq<char>,
        value: Seq<char>,
    )
        requires
            base.contains_key(key),
        ensures
            fetched.union_prefer_right(base)[key] == base[key],
            self.rendered(fetched.insert(key, value).union_prefer_right(base)) == self.rendered(
                fetched.union_prefer_right(base),
            ),
            self.rendered(fetched.remove(key).union_prefer_right(base)) == self.rendered(
                fetched.union_prefer_right(base),
            ),
    {
        assert(fetched.insert(key, value).union_prefer_right(base) =~= fetched.union_prefer_right(
            base,
        ));
        assert(fetched.remove(key).union_prefer_right(base) =~= fetched.union_prefer_right(base));
    }
}

/// A placeholder for a name that the task's properties have is rendered
/// with the task's value, whatever a source says of that name.
pub proof fn lemma_placeholder_shows_base_value(
    t: Seq<char>,
    base: Map<Seq<char>, Seq<char>>,
    fetched: Map<Seq<char>, Seq<char>>,
)
    requires
        placeholder_end(t, 0) == Some(t.len() as int),
        base.contains_key(placeholder_name(t, 0, t.len() as int)),
    ensures
        render(t, fetched.union_prefer_right(base)) == base[placeholder_name(
            t,
            0,
            t.len() as int,
        )],
{
    lemma_render_placeholder(t, fetched.union_prefer_right(base));
}

/// Sources that differ only in what they say of names that the task's
/// properties have give the same rendering of every pattern.
pub proof fn lemma_render_ignores_shadowed(
    t: Seq<char>,
    base: Map<Seq<char>, Seq<char>>,
    a: Map<Seq<char>, Seq<char>>,
    b: Map<Seq<char>, Seq<char>>,
)
    requires
        forall|k: Seq<char>|
            #![trigger a.contains_key(k)]
            #![trigger b.contains_key(k)]
            !base.contains_key(k) ==> (a.contains_key(k) == b.contains_key(k) && (a.contains_key(k)
                ==> a[k] == b[k])),
    ensures
        render(t, a.union_prefer_right(base)) == render(t, b.union_prefer_right(base)),
{
    assert(a.union_prefer_right(base) =~= b.union_prefer_right(base));
}

} // verus!
