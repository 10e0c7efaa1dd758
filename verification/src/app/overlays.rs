//! Finding projects by name in the search box.
use vstd::prelude::*;

use crate::text::{contains_spec, contains_str, is_ascii_char_seq, ascii_lower_seq};

verus! {

/// `str::to_lowercase`: the text with every character replaced by its Unicode lower-case
/// mapping.
pub uninterp spec fn unicode_lowercase(s: Seq<char>) -> Seq<char>;

/// Lower-cases a text with `str::to_lowercase`. Its result is named by
/// [`unicode_lowercase`] of the text; on ASCII text it is the ASCII lower-casing, as the
/// Unicode mapping agrees with it there.
#[verifier::external_body]
pub(crate) fn to_lowercase(s: &str) -> (r: String)
    ensures
        r@ == unicode_lowercase(s@),
        is_ascii_char_seq(s@) ==> r@ == ascii_lower_seq(s@),
{
    s.to_lowercase()
}

/// Whether a project name holds the query, both lower-cased.
pub open spec fn name_matches(name: Seq<char>, query: Seq<char>) -> bool {
    contains_spec(unicode_lowercase(name), unicode_lowercase(query))
}

/// The first project whose name holds the query, both lower-cased.
pub fn select_searched_service(names: &Vec<String>, query: &str) -> (r: Option<usize>)
    ensures
        r matches Some(i) ==> i < names@.len() && name_matches(names@[i as int]@, query@) && forall|
            k: int,
        | 0 <= k < i ==> !name_matches(#[trigger] names@[k]@, query@),
        r is None ==> forall|k: int|
            0 <= k < names@.len() ==> !name_matches(#[trigger] names@[k]@, query@),
{
    let q = to_lowercase(query);
    let mut i: usize = 0;
    while i < names.len()
        invariant
            i <= names@.len(),
            q@ == unicode_lowercase(query@),
            forall|k: int| 0 <= k < i ==> !name_matches(#[trigger] names@[k]@, query@),
        decreases names.len() - i,
    {
        let n = to_lowercase(names[i].as_str());
        if contains_str(n.as_str(), q.as_str()) {
            return Some(i);
        }
        i = i + 1;
    }
    None
}

/// The indices of the projects the list shows: while filtering, those whose names hold
/// the query (lower-cased), in order; otherwise all.
pub fn visible_services(names: &Vec<String>, query: &str, filtering: bool) -> (r: Vec<usize>)
    ensures
        !filtering ==> r@ == Seq::new(names@.len(), |i: int| i as usize),
        filtering ==> r@ == Seq::new(names@.len(), |i: int| i as usize).filter(
            |i: usize| i < names@.len() && name_matches(names@[i as int]@, query@),
        ),
{
    let q = to_lowercase(query);
    let ghost all = Seq::new(names@.len(), |i: int| i as usize);
    let ghost keep = |i: usize| i < names@.len() && name_matches(names@[i as int]@, query@);
    let mut r: Vec<usize> = Vec::new();
    let mut i: usize = 0;
    while i < names.len()
        invariant
            i <= names@.len(),
            q@ == unicode_lowercase(query@),
            all == Seq::new(names@.len(), |i: int| i as usize),
            keep == (|i: usize| i < names@.len() && name_matches(names@[i as int]@, query@)),
            !filtering ==> r@ == all.take(i as int),
            filtering ==> r@ == all.take(i as int).filter(keep),
        decreases names.len() - i,
    {
        proof {
            assert(all.take(i + 1).drop_last() =~= all.take(i as int));
            assert(all.take(i + 1).last() == i);
            reveal(Seq::filter);
            assert(all.take(i + 1) =~= all.take(i as int).push(i));
        }
        if !filtering {
            r.push(i);
        } else {
            let n = to_lowercase(names[i].as_str());
            if contains_str(n.as_str(), q.as_str()) {
                r.push(i);
            }
        }
        i = i + 1;
    }
    assert(all.take(names@.len() as int) =~= all);
    r
}

} // verus!
