//! Table names from free-text game titles: only the alphanumeric
//! characters, lower-cased.

use vstd::prelude::*;
use vstd::string::StringExecFns;
use vstd::std_specs::iter::IteratorSpec;
use crate::error::EloError;

verus! {

/// Whether a character is alphanumeric (Unicode's Alphabetic or Numeric).
pub uninterp spec fn alphanumeric(c: char) -> bool;

/// The lower-case mapping of a character (one to three characters).
pub uninterp spec fn lowercase_of(c: char) -> Seq<char>;

/// Relies on `char::is_alphanumeric`: a property of the character alone.
#[verifier::external_body]
fn is_alphanumeric(c: char) -> (r: bool)
    ensures
        r == alphanumeric(c),
{
    c.is_alphanumeric()
}

/// Relies on `char::to_lowercase`: the mapping of the character alone,
/// collected into a string.
#[verifier::external_body]
fn lowercase(c: char) -> (r: String)
    ensures
        r@ == lowercase_of(c),
{
    c.to_lowercase().collect()
}

/// The alphanumeric characters of `s`, each lower-cased, in order.
pub open spec fn cleaned(s: Seq<char>) -> Seq<char>
    decreases s.len(),
{
    if s.len() == 0 {
        Seq::empty()
    } else if alphanumeric(s.last()) {
        cleaned(s.drop_last()) + lowercase_of(s.last())
    } else {
        cleaned(s.drop_last())
    }
}

/// What a title keeps of its characters, each given as whether it is
/// alphanumeric and its lower-cased form: the lower-cased forms of the
/// alphanumeric ones, in order.
pub open spec fn kept(parts: Seq<(bool, String)>) -> Seq<char>
    decreases parts.len(),
{
    if parts.len() == 0 {
        Seq::empty()
    } else if parts.last().0 {
        kept(parts.drop_last()) + parts.last().1@
    } else {
        kept(parts.drop_last())
    }
}

/// `parts` describes the characters of `s` one by one.
pub open spec fn describes(parts: Seq<(bool, String)>, s: Seq<char>) -> bool {
    &&& parts.len() == s.len()
    &&& forall|j: int|
        0 <= j < s.len() ==> (#[trigger] parts[j]).0 == alphanumeric(s[j]) && parts[j].1@
            == lowercase_of(s[j])
}

/// Keeping from a description of `s` is keeping from `s` itself.
proof fn lemma_kept_cleaned(parts: Seq<(bool, String)>, s: Seq<char>)
    requires
        describes(parts, s),
    ensures
        kept(parts) == cleaned(s),
    decreases s.len(),
{
    if s.len() > 0 {
        let last = s.len() - 1;
        assert(parts[last].0 == alphanumeric(s[last]));
        assert(describes(parts.drop_last(), s.drop_last())) by {
            assert forall|j: int| 0 <= j < s.len() - 1 implies (#[trigger] parts.drop_last()[j]).0
                == alphanumeric(s.drop_last()[j]) && parts.drop_last()[j].1@ == lowercase_of(
                s.drop_last()[j],
            ) by {
                assert(parts.drop_last()[j] == parts[j]);
            }
        }
        lemma_kept_cleaned(parts.drop_last(), s.drop_last());
    }
}

/// Joins the lower-cased forms of the characters flagged alphanumeric.
pub fn assemble_cleaned(parts: &Vec<(bool, String)>) -> (r: String)
    ensures
        r@ == kept(parts@),
{
    let mut clean = String::new();
    let n = parts.len();
    for i in 0..n
        invariant
            n == parts@.len(),
            clean@ == kept(parts@.take(i as int)),
    {
        proof {
            assert(parts@.take(i + 1).drop_last() =~= parts@.take(i as int));
            assert(parts@.take(i + 1).last() == parts@[i as int]);
        }
        if parts[i].0 {
            clean.append(parts[i].1.as_str());
        }
    }
    proof {
        assert(parts@.take(n as int) =~= parts@);
    }
    clean
}

/// Keeps the alphanumeric characters of `string`, lower-cased.
pub fn clean_string(string: &str) -> (r: String)
    ensures
        r@ == cleaned(string@),
{
    let mut parts: Vec<(bool, String)> = Vec::new();
    let chars = string.chars();
    let ghost all = chars.remaining();
    proof {
        assert(all == string@);
    }
    for c in it: chars
        invariant
            it.seq() == all,
            all == string@,
            describes(parts@, string@.take(it.index())),
    {
        proof {
            assert(string@[it.index()] == c);
        }
        parts.push((is_alphanumeric(c), lowercase(c)));
        proof {
            let next = string@.take(it.index() + 1);
            assert forall|j: int| 0 <= j < next.len() implies (#[trigger] parts@[j]).0
                == alphanumeric(next[j]) && parts@[j].1@ == lowercase_of(next[j]) by {
                if j < it.index() {
                    assert(next[j] == string@.take(it.index())[j]);
                }
            }
        }
    }
    proof {
        assert(string@.take(string@.len() as int) =~= string@);
        lemma_kept_cleaned(parts@, string@);
    }
    assemble_cleaned(&parts)
}

/// The table name of a namespace titled `name`; there is none where the
/// title has no alphanumeric character.
pub fn table_name(name: &str) -> (r: Result<String, EloError>)
    ensures
        cleaned(name@).len() == 0 ==> r == Err::<String, EloError>(EloError::EmptyTableName),
        cleaned(name@).len() > 0 ==> (r matches Ok(t) && t@ == cleaned(name@)),
{
    let t = clean_string(name);
    if t.as_str().is_empty() {
        Err(EloError::EmptyTableName)
    } else {
        Ok(t)
    }
}

} // verus!
