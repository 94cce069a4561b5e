//! The errors of the library.

use vstd::prelude::*;

verus! {

/// `serde_json::Error`, the refusal of a text: carried as it is, nothing
/// is read from it.
#[verifier::external_type_specification]
#[verifier::external_body]
pub struct ExJsonError(serde_json::Error);

/// What can go wrong.
#[derive(Debug)]
pub enum RescError {
    /// The configuration is no JSON text.
    Json(serde_json::Error),
    /// The configuration lacks something, or holds something that cannot be
    /// used. The string says what.
    Conf(String),
    /// A source of properties failed. The string says how.
    Fetch(String),
}

pub type RescResult<T> = Result<T, RescError>;

/// Whether `r` is what reading the configuration was to give: the value
/// with the expected content, or the configuration error with the expected
/// words.
pub open spec fn decoded<T: View>(r: RescResult<T>, expected: Result<T::V, Seq<char>>) -> bool {
    match expected {
        Ok(v) => r matches Ok(x) && x@ == v,
        Err(words) => r matches Err(RescError::Conf(m)) && m@ == words,
    }
}

/// The values of a list of outcomes, in order, or the first error among
/// them.
pub open spec fn all_or_first_error<T>(s: Seq<Result<T, Seq<char>>>) -> Result<Seq<T>, Seq<char>>
    decreases s.len(),
{
    if s.len() == 0 {
        Ok(Seq::empty())
    } else {
        match all_or_first_error(s.drop_last()) {
            Err(e) => Err(e),
            Ok(values) => match s.last() {
                Err(e) => Err(e),
                Ok(v) => Ok(values.push(v)),
            },
        }
    }
}

/// Once the outcomes up to some place hold an error, the outcomes behind
/// it change nothing.
pub proof fn lemma_first_error_stays<T>(s: Seq<Result<T, Seq<char>>>, n: int)
    requires
        0 <= n <= s.len(),
        all_or_first_error(s.take(n)).is_err(),
    ensures
        all_or_first_error(s) == all_or_first_error(s.take(n)),
    decreases s.len() - n,
{
    if n < s.len() {
        assert(s.take(n + 1).drop_last() =~= s.take(n));
        lemma_first_error_stays(s, n + 1);
    } else {
        assert(s.take(n) =~= s);
    }
}

/// Outcomes that are all values give all their values, in order.
pub proof fn lemma_all_values<T>(s: Seq<Result<T, Seq<char>>>)
    requires
        forall|i: int| 0 <= i < s.len() ==> s[i].is_ok(),
    ensures
        all_or_first_error(s).is_ok(),
        all_or_first_error(s)->Ok_0.len() == s.len(),
        forall|i: int| 0 <= i < s.len() ==> all_or_first_error(s)->Ok_0[i] == s[i]->Ok_0,
    decreases s.len(),
{
    if s.len() > 0 {
        lemma_all_values(s.drop_last());
        assert(s.last().is_ok());
        assert forall|i: int| 0 <= i < s.len() implies all_or_first_error(s)->Ok_0[i]
            == s[i]->Ok_0 by {
            if i < s.len() - 1 {
                assert(s.drop_last()[i] == s[i]);
            }
        }
    }
}

/// Outcomes that hold an error give an error and no values: the first
/// error among them.
pub proof fn lemma_first_error<T>(s: Seq<Result<T, Seq<char>>>, i: int)
    requires
        0 <= i < s.len(),
        s[i].is_err(),
        forall|j: int| 0 <= j < i ==> s[j].is_ok(),
    ensures
        all_or_first_error(s) == Err::<Seq<T>, Seq<char>>(s[i]->Err_0),
{
    let upto = s.take(i + 1);
    assert(upto.drop_last() =~= s.take(i));
    assert(upto.last() == s[i]);
    lemma_all_values(s.take(i));
    lemma_first_error_stays(s, i + 1);
}

/// The configuration error with these words.
pub(crate) fn conf_error(words: &str) -> (e: RescError)
    ensures
        e matches RescError::Conf(m) && m@ == words@,
{
    RescError::Conf(words.to_owned())
}

} // verus!
