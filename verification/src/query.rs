//! Request parameters: the query string they form and their canonical order.

use crate::text::{lemma_rank_flip, lemma_rank_same, lemma_rank_transitive, str_rank, text_rank, Rank};
use vstd::prelude::*;
use vstd::relations::{sorted_by, total_ordering};
use vstd::seq_lib::lemma_sorted_unique;

verus! {

/// A request parameter as contracts see it: its name and its value.
pub type Param = (Seq<char>, Seq<char>);

/// One parameter as it stands in a query string: `name=value`.
pub open spec fn pair_text(p: Param) -> Seq<char> {
    p.0 + seq!['='] + p.1
}

/// The query string of `params`: their `name=value` texts in the given
/// order, with `&` between neighbours.  No parameters give the empty text.
pub open spec fn query_string(params: Seq<Param>) -> Seq<char>
    decreases params.len(),
{
    if params.len() == 0 {
        Seq::empty()
    } else if params.len() == 1 {
        pair_text(params[0])
    } else {
        query_string(params.drop_last()) + seq!['&'] + pair_text(params.last())
    }
}

/// Whether `p` may stand before `q` in canonical order: parameters are
/// ordered by name, and those of one name by value.
pub open spec fn param_le(p: Param, q: Param) -> bool {
    match text_rank(p.0, q.0) {
        Rank::Before => true,
        Rank::Same => text_rank(p.1, q.1) != Rank::After,
        Rank::After => false,
    }
}

/// `param_le` as a relation.
pub open spec fn param_order() -> spec_fn(Param, Param) -> bool {
    |p: Param, q: Param| param_le(p, q)
}

/// The canonical form of `params`: the same parameters, sorted.
pub open spec fn canonical(params: Seq<Param>) -> Seq<Param> {
    params.sort_by(param_order())
}

/// The text that a private request signs: method, path and the query string
/// of the canonical parameters, separated by `|`.
pub open spec fn signing_payload(action: Seq<char>, path: Seq<char>, params: Seq<Param>) -> Seq<
    char,
> {
    action + seq!['|'] + path + seq!['|'] + query_string(canonical(params))
}

/// `param_le` is a total order on parameters.
pub proof fn lemma_param_order_total()
    ensures
        total_ordering(param_order()),
{
    let r = param_order();
    assert forall|x: Param| #[trigger] r(x, x) by {
        lemma_rank_same(x.0, x.0);
        lemma_rank_same(x.1, x.1);
    }
    assert forall|x: Param, y: Param| #[trigger] r(x, y) && #[trigger] r(y, x) implies x == y by {
        lemma_rank_flip(x.0, y.0);
        lemma_rank_flip(x.1, y.1);
        lemma_rank_same(x.0, y.0);
        lemma_rank_same(x.1, y.1);
    }
    assert forall|x: Param, y: Param, z: Param| #[trigger] r(x, y) && #[trigger] r(y, z) implies r(
        x,
        z,
    ) by {
        lemma_rank_transitive(x.0, y.0, z.0);
        if text_rank(x.0, z.0) == Rank::Same {
            lemma_rank_same(x.0, z.0);
            lemma_rank_flip(x.0, y.0);
            lemma_rank_same(x.0, y.0);
            lemma_rank_transitive(x.1, y.1, z.1);
        }
    }
    assert forall|x: Param, y: Param| #[trigger] r(x, y) || #[trigger] r(y, x) by {
        lemma_rank_flip(x.0, y.0);
        lemma_rank_flip(x.1, y.1);
    }
}

/// The canonical form holds exactly the given parameters, each as often as
/// it was given, in sorted order.
pub proof fn lemma_canonical_sorted(params: Seq<Param>)
    ensures
        sorted_by(canonical(params), param_order()),
        canonical(params).to_multiset() == params.to_multiset(),
        canonical(params).len() == params.len(),
{
    lemma_param_order_total();
    params.lemma_sort_by_ensures(param_order());
    params.to_multiset_ensures();
    canonical(params).to_multiset_ensures();
}

/// A sorted arrangement of the parameters is their canonical form: there is
/// only one.
pub proof fn lemma_canonical_unique(params: Seq<Param>, arranged: Seq<Param>)
    requires
        sorted_by(arranged, param_order()),
        arranged.to_multiset() == params.to_multiset(),
    ensures
        arranged == canonical(params),
{
    lemma_canonical_sorted(params);
    lemma_param_order_total();
    lemma_sorted_unique(arranged, canonical(params), param_order());
}

/// The canonical form does not depend on the order in which the parameters
/// were given, and so neither does the text that is signed.
pub proof fn lemma_canonical_ignores_order(first: Seq<Param>, second: Seq<Param>)
    requires
        first.to_multiset() == second.to_multiset(),
    ensures
        canonical(first) == canonical(second),
        forall|action: Seq<char>, path: Seq<char>|
            signing_payload(action, path, first) == signing_payload(action, path, second),
{
    lemma_canonical_sorted(first);
    lemma_canonical_unique(second, canonical(first));
}

/// Whether `p` may stand before `q` in canonical order.
pub fn param_before(p: (&str, &str), q: (&str, &str)) -> (le: bool)
    ensures
        le == param_le(p.deep_view(), q.deep_view()),
{
    match str_rank(p.0, q.0) {
        Rank::Before => true,
        Rank::Same => match str_rank(p.1, q.1) {
            Rank::After => false,
            _ => true,
        },
        Rank::After => false,
    }
}

/// Puts `p` into the sorted `sorted`, behind every parameter that may stand
/// before it.
fn insert_param<'a>(sorted: &mut Vec<(&'a str, &'a str)>, p: (&'a str, &'a str))
    requires
        sorted_by(old(sorted).deep_view(), param_order()),
    ensures
        sorted_by(final(sorted).deep_view(), param_order()),
        final(sorted).deep_view().to_multiset() == old(sorted).deep_view().to_multiset().insert(
            p.deep_view(),
        ),
{
    let ghost before = sorted.deep_view();
    let mut at: usize = sorted.len();
    let mut found = false;
    while at > 0 && !found
        invariant
            at <= sorted.len(),
            sorted.deep_view() == before,
            forall|k: int| at <= k < before.len() ==> !param_le(#[trigger] before[k], p.deep_view()),
            found ==> at > 0 && param_le(before[at - 1], p.deep_view()),
        decreases at + (if found { 0int } else { 1int }),
    {
        if param_before(sorted[at - 1], p) {
            found = true;
        } else {
            at = at - 1;
        }
    }
    sorted.insert(at, p);
    proof {
        let after = sorted.deep_view();
        let pv = p.deep_view();
        assert(after =~= before.insert(at as int, pv));
        vstd::seq_lib::to_multiset_insert(before, at as int, pv);
        lemma_param_order_total();
        let r = param_order();
        assert forall|i: int, j: int| 0 <= i < j < after.len() implies #[trigger] r(
            after[i],
            after[j],
        ) by {
            if j < at {
                assert(r(before[i], before[j]));
            } else if j == at {
                if i < at - 1 {
                    assert(r(before[i], before[at - 1]));
                    assert(r(before[at - 1], pv));
                } else {
                    assert(r(before[at - 1], pv));
                }
            } else if i < at {
                assert(r(before[i], before[j - 1]));
            } else if i == at {
                assert(!param_le(before[j - 1], pv));
                assert(r(before[j - 1], pv) || r(pv, before[j - 1]));
            } else {
                assert(r(before[i - 1], before[j - 1]));
            }
        }
    }
}

/// Returns the parameters in canonical order; `params` itself is left as it
/// was given.
pub fn sort_params<'a>(params: &[(&'a str, &'a str)]) -> (sorted: Vec<(&'a str, &'a str)>)
    ensures
        sorted.deep_view() == canonical(params.deep_view()),
{
    let mut sorted: Vec<(&'a str, &'a str)> = Vec::new();
    let mut i: usize = 0;
    assert(params.deep_view().take(0) =~= Seq::empty());
    assert(sorted.deep_view() =~= Seq::empty());
    while i < params.len()
        invariant
            i <= params.len(),
            sorted_by(sorted.deep_view(), param_order()),
            sorted.deep_view().to_multiset() == params.deep_view().take(i as int).to_multiset(),
        decreases params.len() - i,
    {
        insert_param(&mut sorted, params[i]);
        proof {
            let given = params.deep_view();
            assert(given.take(i as int + 1) =~= given.take(i as int).push(given[i as int]));
            vstd::seq_lib::to_multiset_build(given.take(i as int), given[i as int]);
        }
        i = i + 1;
    }
    proof {
        assert(params.deep_view().take(i as int) =~= params.deep_view());
        lemma_canonical_unique(params.deep_view(), sorted.deep_view());
    }
    sorted
}

} // verus!
