//! Reports over the markets of an exchange.

use crate::text::str_eq;
use crate::traits::exchange::{Market, MarketView};
use vstd::prelude::*;

verus! {

/// The markets that trade `base`, in the order of `markets`.
pub open spec fn group_of(markets: Seq<MarketView>, base: Seq<char>) -> Seq<MarketView>
    decreases markets.len(),
{
    if markets.len() == 0 {
        Seq::empty()
    } else if markets.last().base_unit == base {
        group_of(markets.drop_last(), base).push(markets.last())
    } else {
        group_of(markets.drop_last(), base)
    }
}

/// Whether every market of `group` is quoted in one of `quotes`.
pub open spec fn quoted_in(group: Seq<MarketView>, quotes: Seq<Seq<char>>) -> bool {
    forall|i: int| 0 <= i < group.len() ==> quotes.contains((#[trigger] group[i]).quote_unit)
}

/// Whether the report lists `base`: it is traded in more than one market,
/// and in none that is quoted in a unit outside `quotes`.
pub open spec fn listed(markets: Seq<MarketView>, quotes: Seq<Seq<char>>, base: Seq<char>) -> bool {
    group_of(markets, base).len() > 1 && quoted_in(group_of(markets, base), quotes)
}

/// Where `markets` first names `base`: the index of its first market, or
/// the number of markets if none trades it.
pub open spec fn first_mention(markets: Seq<MarketView>, base: Seq<char>) -> int
    decreases markets.len(),
{
    if markets.len() == 0 {
        0
    } else if markets[0].base_unit == base {
        0
    } else {
        1 + first_mention(markets.drop_first(), base)
    }
}

/// The first mention of a base unit is the market before which no market
/// trades it.
pub proof fn lemma_first_mention(markets: Seq<MarketView>, base: Seq<char>, i: int)
    requires
        0 <= i < markets.len(),
        markets[i].base_unit == base,
        forall|j: int| 0 <= j < i ==> (#[trigger] markets[j]).base_unit != base,
    ensures
        first_mention(markets, base) == i,
    decreases markets.len(),
{
    if i > 0 {
        let rest = markets.drop_first();
        assert(markets[0].base_unit != base);
        assert forall|j: int| 0 <= j < i - 1 implies (#[trigger] rest[j]).base_unit != base by {
            assert(markets[j + 1].base_unit != base);
        }
        lemma_first_mention(rest, base, i - 1);
    }
}

/// What the report holds as contracts see it: base units with their markets.
pub open spec fn groups_view(groups: Seq<(&str, Vec<&Market>)>) -> Seq<(Seq<char>, Seq<MarketView>)> {
    Seq::new(groups.len(), |i: int| (groups[i].0@, groups[i].1.deep_view()))
}

/// Whether a market of `markets[..upto]` trades `base`.
fn traded_before(markets: &Vec<Market>, upto: usize, base: &str) -> (yes: bool)
    requires
        upto <= markets.len(),
    ensures
        yes == exists|j: int| 0 <= j < upto && (#[trigger] markets[j]).base_unit@ == base@,
{
    let mut j: usize = 0;
    while j < upto
        invariant
            j <= upto <= markets.len(),
            forall|k: int| 0 <= k < j ==> (#[trigger] markets[k]).base_unit@ != base@,
        decreases upto - j,
    {
        if str_eq(markets[j].base_unit.as_str(), base) {
            return true;
        }
        j = j + 1;
    }
    false
}

/// Whether `quote` is one of `quotes`.
fn is_quote(quotes: &[&str], quote: &str) -> (yes: bool)
    ensures
        yes == quotes.deep_view().contains(quote@),
{
    let mut j: usize = 0;
    while j < quotes.len()
        invariant
            j <= quotes.len(),
            forall|k: int| 0 <= k < j ==> (#[trigger] quotes.deep_view()[k]) != quote@,
        decreases quotes.len() - j,
    {
        if str_eq(quotes[j], quote) {
            assert(quotes.deep_view()[j as int] == quote@);
            return true;
        }
        j = j + 1;
    }
    false
}

/// The markets that trade `base`, and whether all of them are quoted in one
/// of `quotes`.
fn collect_group<'a>(markets: &'a Vec<Market>, quotes: &[&str], base: &str) -> (found: (
    Vec<&'a Market>,
    bool,
))
    ensures
        found.0.deep_view() == group_of(markets.deep_view(), base@),
        found.1 == quoted_in(group_of(markets.deep_view(), base@), quotes.deep_view()),
{
    let ghost all = markets.deep_view();
    let mut group: Vec<&'a Market> = Vec::new();
    let mut quoted = true;
    let mut k: usize = 0;
    assert(all.take(0) =~= Seq::empty());
    assert(group.deep_view() =~= Seq::empty());
    while k < markets.len()
        invariant
            k <= markets.len(),
            all == markets.deep_view(),
            group.deep_view() == group_of(all.take(k as int), base@),
            quoted == quoted_in(group_of(all.take(k as int), base@), quotes.deep_view()),
        decreases markets.len() - k,
    {
        let ghost so_far = group.deep_view();
        proof {
            assert(all.take(k as int + 1).drop_last() =~= all.take(k as int));
            assert(all.take(k as int + 1).last() == all[k as int]);
        }
        if str_eq(markets[k].base_unit.as_str(), base) {
            let in_quotes = is_quote(quotes, markets[k].quote_unit.as_str());
            group.push(&markets[k]);
            proof {
                let now = group.deep_view();
                assert(now =~= so_far.push(all[k as int]));
                if quoted && in_quotes {
                    assert forall|i: int| 0 <= i < now.len() implies quotes.deep_view().contains(
                        (#[trigger] now[i]).quote_unit,
                    ) by {
                        if i < so_far.len() {
                            assert(so_far[i] == now[i]);
                        }
                    }
                } else if !in_quotes {
                    assert(now[now.len() - 1] == all[k as int]);
                } else {
                    let i = choose|i: int|
                        0 <= i < so_far.len() && !quotes.deep_view().contains(
                            (#[trigger] so_far[i]).quote_unit,
                        );
                    assert(now[i] == so_far[i]);
                }
            }
            quoted = quoted && in_quotes;
        }
        k = k + 1;
    }
    assert(all.take(k as int) =~= all);
    (group, quoted)
}

/// Groups the markets by base unit and lists the base units that are traded
/// in more than one market, all of them quoted in one of `includes_quotes`.
///
/// Each listed base unit comes once, with all its markets in the order of
/// `markets`; the base units come in the order in which `markets` first
/// names them.
pub fn get_markets_with_different_quotes<'a>(
    markets: &'a Vec<Market>,
    includes_quotes: &[&str],
) -> (groups: Vec<(&'a str, Vec<&'a Market>)>)
    ensures
        forall|i: int|
            0 <= i < groups.len() ==> {
                let (base, group) = #[trigger] groups_view(groups@)[i];
                &&& listed(markets.deep_view(), includes_quotes.deep_view(), base)
                &&& group == group_of(markets.deep_view(), base)
            },
        forall|i: int, j: int|
            0 <= i < j < groups.len() ==> (#[trigger] groups_view(groups@)[i]).0 != (
                #[trigger] groups_view(groups@)[j]).0,
        forall|i: int, j: int|
            0 <= i < j < groups.len() ==> first_mention(
                markets.deep_view(),
                (#[trigger] groups_view(groups@)[i]).0,
            ) < first_mention(markets.deep_view(), (#[trigger] groups_view(groups@)[j]).0),
        forall|base: Seq<char>|
            #[trigger] listed(markets.deep_view(), includes_quotes.deep_view(), base)
                ==> exists|i: int| 0 <= i < groups.len() && (#[trigger] groups_view(groups@)[i]).0 == base,
{
    let ghost all = markets.deep_view();
    let ghost quotes = includes_quotes.deep_view();
    let mut groups: Vec<(&'a str, Vec<&'a Market>)> = Vec::new();
    let mut i: usize = 0;
    while i < markets.len()
        invariant
            i <= markets.len(),
            all == markets.deep_view(),
            quotes == includes_quotes.deep_view(),
            forall|g: int|
                0 <= g < groups.len() ==> {
                    let (base, group) = #[trigger] groups_view(groups@)[g];
                    &&& listed(all, quotes, base)
                    &&& group == group_of(all, base)
                    &&& exists|j: int| 0 <= j < i && (#[trigger] all[j]).base_unit == base
                },
            forall|g: int, h: int|
                0 <= g < h < groups.len() ==> (#[trigger] groups_view(groups@)[g]).0 != (
                    #[trigger] groups_view(groups@)[h]).0,
            forall|g: int| 0 <= g < groups.len() ==> first_mention(all, (#[trigger] groups_view(groups@)[g]).0) < i,
            forall|g: int, h: int|
                0 <= g < h < groups.len() ==> first_mention(
                    all,
                    (#[trigger] groups_view(groups@)[g]).0,
                ) < first_mention(all, (#[trigger] groups_view(groups@)[h]).0),
            forall|j: int|
                0 <= j < i && listed(all, quotes, (#[trigger] all[j]).base_unit) ==> exists|g: int|
                    0 <= g < groups.len() && (#[trigger] groups_view(groups@)[g]).0
                        == all[j].base_unit,
        decreases markets.len() - i,
    {
        let base = markets[i].base_unit.as_str();
        let ghost before = groups_view(groups@);
        if !traded_before(markets, i, base) {
            let (group, quoted) = collect_group(markets, includes_quotes, base);
            if group.len() > 1 && quoted {
                let ghost added = group.deep_view();
                groups.push((base, group));
                proof {
                    let now = groups_view(groups@);
                    assert(now =~= before.push((base@, added)));
                    assert(all[i as int].base_unit == base@);
                    assert forall|j: int| 0 <= j < i implies (#[trigger] all[j]).base_unit != base@ by {
                        assert(markets[j].base_unit@ != base@);
                    }
                    lemma_first_mention(all, base@, i as int);
                    assert forall|g: int| 0 <= g < now.len() implies first_mention(
                        all,
                        (#[trigger] now[g]).0,
                    ) < i + 1 by {
                        if g < before.len() {
                            assert(now[g] == before[g]);
                        }
                    }
                    assert forall|g: int, h: int| 0 <= g < h < now.len() implies first_mention(
                        all,
                        (#[trigger] now[g]).0,
                    ) < first_mention(all, (#[trigger] now[h]).0) by {
                        assert(now[g] == before[g]);
                        if h < before.len() {
                            assert(now[h] == before[h]);
                        }
                    }
                    assert forall|g: int, h: int| 0 <= g < h < now.len() implies (#[trigger] now[g]).0
                        != (#[trigger] now[h]).0 by {
                        if h < before.len() {
                            assert(now[g] == before[g] && now[h] == before[h]);
                        } else {
                            assert(now[g] == before[g]);
                            let j = choose|j: int|
                                0 <= j < i && (#[trigger] all[j]).base_unit == before[g].0;
                            assert(markets[j].base_unit@ == all[j].base_unit);
                        }
                    }
                    assert forall|j: int|
                        0 <= j < i + 1 && listed(
                            all,
                            quotes,
                            (#[trigger] all[j]).base_unit,
                        ) implies exists|g: int|
                        0 <= g < now.len() && (#[trigger] now[g]).0 == all[j].base_unit by {
                        if j < i {
                            let g = choose|g: int|
                                0 <= g < before.len() && (#[trigger] before[g]).0
                                    == all[j].base_unit;
                            assert(now[g] == before[g]);
                        } else {
                            assert(now[now.len() - 1].0 == all[j].base_unit);
                        }
                    }
                    assert forall|g: int| 0 <= g < now.len() implies {
                        let (b, gr) = #[trigger] now[g];
                        &&& listed(all, quotes, b)
                        &&& gr == group_of(all, b)
                        &&& exists|j: int| 0 <= j < i + 1 && (#[trigger] all[j]).base_unit == b
                    } by {
                        if g < before.len() {
                            assert(now[g] == before[g]);
                            let j = choose|j: int|
                                0 <= j < i && (#[trigger] all[j]).base_unit == before[g].0;
                            assert(all[j].base_unit == now[g].0);
                        } else {
                            assert(all[i as int].base_unit == now[g].0);
                        }
                    }
                }
            } else {
                proof {
                    assert forall|g: int| 0 <= g < before.len() implies exists|j: int|
                        0 <= j < i + 1 && (#[trigger] all[j]).base_unit == (#[trigger] before[g]).0 by {
                        let j = choose|j: int|
                            0 <= j < i && (#[trigger] all[j]).base_unit == before[g].0;
                        assert(all[j].base_unit == before[g].0);
                    }
                }
            }
        } else {
            proof {
                let first = choose|j: int| 0 <= j < i && (#[trigger] markets[j]).base_unit@ == base@;
                assert(all[first].base_unit == all[i as int].base_unit);
                assert forall|g: int| 0 <= g < before.len() implies exists|j: int|
                    0 <= j < i + 1 && (#[trigger] all[j]).base_unit == (#[trigger] before[g]).0 by {
                    let j = choose|j: int|
                        0 <= j < i && (#[trigger] all[j]).base_unit == before[g].0;
                    assert(all[j].base_unit == before[g].0);
                }
            }
        }
        i = i + 1;
    }
    proof {
        assert forall|base: Seq<char>| #[trigger] listed(all, quotes, base) implies exists|g: int|
            0 <= g < groups.len() && (#[trigger] groups_view(groups@)[g]).0 == base by {
            lemma_group_names_base(all, base);
            let j = choose|j: int| 0 <= j < all.len() && (#[trigger] all[j]).base_unit == base;
            assert(listed(all, quotes, all[j].base_unit));
        }
    }
    groups
}

/// A base unit with a market is the base unit of one of the markets.
pub proof fn lemma_group_names_base(markets: Seq<MarketView>, base: Seq<char>)
    requires
        group_of(markets, base).len() > 0,
    ensures
        exists|j: int| 0 <= j < markets.len() && (#[trigger] markets[j]).base_unit == base,
    decreases markets.len(),
{
    if markets.len() > 0 {
        if markets.last().base_unit == base {
            assert(markets[markets.len() - 1].base_unit == base);
        } else {
            lemma_group_names_base(markets.drop_last(), base);
            let j = choose|j: int|
                0 <= j < markets.drop_last().len() && (#[trigger] markets.drop_last()[j]).base_unit
                    == base;
            assert(markets[j].base_unit == base);
        }
    }
}

} // verus!
