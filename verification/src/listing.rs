//! Lists of names: membership, the one ascending listing of a set of
//! names, and joining a list into a line of text.

use crate::text::{
    lemma_precedes_irreflexive, lemma_precedes_total, lemma_precedes_transitive, name_precedes,
    precedes,
};
use vstd::prelude::*;

verus! {

/// Each name precedes every later one, so none occurs twice.
pub open spec fn is_ascending(list: Seq<Seq<char>>) -> bool {
    forall|i: int, j: int|
        0 <= i < j < list.len() ==> precedes(#[trigger] list[i], #[trigger] list[j])
}

/// `list` holds exactly the names of `names`, each once, in ascending
/// order.
pub open spec fn is_sorted_listing(list: Seq<Seq<char>>, names: Set<Seq<char>>) -> bool {
    &&& is_ascending(list)
    &&& forall|k: Seq<char>| #[trigger] list.contains(k) <==> names.contains(k)
}

/// The ascending listing of a set of names, where the set has one (every
/// finite set has).
pub open spec fn sorted_listing(names: Set<Seq<char>>) -> Seq<Seq<char>> {
    choose|list: Seq<Seq<char>>| is_sorted_listing(list, names)
}

/// The parts in order, with `separator` between neighbours.
pub open spec fn join(parts: Seq<Seq<char>>, separator: Seq<char>) -> Seq<char>
    decreases parts.len(),
{
    if parts.len() == 0 {
        Seq::empty()
    } else if parts.len() == 1 {
        parts[0]
    } else {
        join(parts.drop_last(), separator) + separator + parts.last()
    }
}

/// A set of names has at most one ascending listing.
pub proof fn lemma_sorted_listing_unique(
    first: Seq<Seq<char>>,
    second: Seq<Seq<char>>,
    names: Set<Seq<char>>,
)
    requires
        is_sorted_listing(first, names),
        is_sorted_listing(second, names),
    ensures
        first == second,
    decreases first.len(),
{
    if first.len() == 0 {
        if second.len() > 0 {
            assert(second.contains(second[0]));
            assert(first.contains(second[0]));
        }
        assert(first =~= second);
    } else {
        let a = first[0];
        assert(first.contains(a));
        assert(second.contains(a));
        let b = second[0];
        assert(second.contains(b));
        assert(first.contains(b));
        if a != b {
            let m = choose|m: int| 0 <= m < first.len() && first[m] == b;
            let n = choose|n: int| 0 <= n < second.len() && second[n] == a;
            assert(precedes(first[0], first[m]));
            assert(precedes(second[0], second[n]));
            lemma_precedes_transitive(a, b, a);
            lemma_precedes_irreflexive(a);
        }
        let rest = names.remove(a);
        lemma_rest_is_listing(first, names);
        lemma_rest_is_listing(second, names);
        lemma_sorted_listing_unique(first.drop_first(), second.drop_first(), rest);
        assert(first =~= seq![a] + first.drop_first());
        assert(second =~= seq![a] + second.drop_first());
    }
}

proof fn lemma_rest_is_listing(list: Seq<Seq<char>>, names: Set<Seq<char>>)
    requires
        is_sorted_listing(list, names),
        list.len() > 0,
    ensures
        is_sorted_listing(list.drop_first(), names.remove(list[0])),
{
    let rest = list.drop_first();
    assert forall|i: int, j: int| 0 <= i < j < rest.len() implies precedes(
        #[trigger] rest[i],
        #[trigger] rest[j],
    ) by {
        assert(precedes(list[i + 1], list[j + 1]));
    }
    assert forall|k: Seq<char>| #[trigger] rest.contains(k) <==> names.remove(list[0]).contains(
        k,
    ) by {
        if rest.contains(k) {
            let i = choose|i: int| 0 <= i < rest.len() && rest[i] == k;
            assert(list[i + 1] == k);
            assert(list.contains(k));
            assert(precedes(list[0], list[i + 1]));
            lemma_precedes_irreflexive(k);
        }
        if names.remove(list[0]).contains(k) {
            assert(list.contains(k));
            let i = choose|i: int| 0 <= i < list.len() && list[i] == k;
            assert(rest[i - 1] == k);
        }
    }
}

/// `list` with `name` put at its place; `list` itself where it holds the
/// name already.
spec fn with_name(list: Seq<Seq<char>>, name: Seq<char>) -> Seq<Seq<char>>
    decreases list.len(),
{
    if list.len() == 0 {
        seq![name]
    } else if list.last() == name {
        list
    } else if precedes(list.last(), name) {
        list.push(name)
    } else {
        with_name(list.drop_last(), name).push(list.last())
    }
}

proof fn lemma_with_name(list: Seq<Seq<char>>, name: Seq<char>)
    requires
        is_ascending(list),
    ensures
        is_ascending(with_name(list, name)),
        forall|k: Seq<char>| #[trigger]
            with_name(list, name).contains(k) <==> list.contains(k) || k == name,
    decreases list.len(),
{
    let grown = with_name(list, name);
    if list.len() == 0 {
        assert(grown[0] == name);
    } else if list.last() == name {
        assert(list[list.len() - 1] == name);
    } else if precedes(list.last(), name) {
        assert forall|i: int, j: int| 0 <= i < j < grown.len() implies precedes(
            #[trigger] grown[i],
            #[trigger] grown[j],
        ) by {
            if j < list.len() {
                assert(precedes(list[i], list[j]));
            } else if i < list.len() - 1 {
                assert(precedes(list[i], list[list.len() - 1]));
                lemma_precedes_transitive(list[i], list.last(), name);
            }
        }
        assert forall|k: Seq<char>| #[trigger]
            grown.contains(k) <==> list.contains(k) || k == name by {
            if grown.contains(k) {
                let i = choose|i: int| 0 <= i < grown.len() && grown[i] == k;
                if i < list.len() {
                    assert(list[i] == k);
                }
            }
            if list.contains(k) {
                let i = choose|i: int| 0 <= i < list.len() && list[i] == k;
                assert(grown[i] == k);
            }
            if k == name {
                assert(grown[list.len() as int] == k);
            }
        }
    } else {
        let front = list.drop_last();
        let last = list.last();
        assert forall|i: int, j: int| 0 <= i < j < front.len() implies precedes(
            #[trigger] front[i],
            #[trigger] front[j],
        ) by {
            assert(precedes(list[i], list[j]));
        }
        lemma_with_name(front, name);
        lemma_precedes_total(last, name);
        let inner = with_name(front, name);
        assert forall|i: int, j: int| 0 <= i < j < grown.len() implies precedes(
            #[trigger] grown[i],
            #[trigger] grown[j],
        ) by {
            if j < inner.len() {
                assert(precedes(inner[i], inner[j]));
            } else {
                assert(inner.contains(inner[i]));
                if front.contains(inner[i]) {
                    let m = choose|m: int| 0 <= m < front.len() && front[m] == inner[i];
                    assert(precedes(list[m], list[list.len() - 1]));
                }
            }
        }
        assert forall|k: Seq<char>| #[trigger]
            grown.contains(k) <==> list.contains(k) || k == name by {
            if grown.contains(k) {
                let i = choose|i: int| 0 <= i < grown.len() && grown[i] == k;
                if i < inner.len() {
                    assert(inner.contains(k));
                    if front.contains(k) {
                        let m = choose|m: int| 0 <= m < front.len() && front[m] == k;
                        assert(list[m] == k);
                    }
                } else {
                    assert(list[list.len() - 1] == k);
                }
            }
            if list.contains(k) {
                let i = choose|i: int| 0 <= i < list.len() && list[i] == k;
                if i < front.len() {
                    assert(front[i] == k);
                    assert(front.contains(k));
                    assert(inner.contains(k));
                    let m = choose|m: int| 0 <= m < inner.len() && inner[m] == k;
                    assert(grown[m] == k);
                } else {
                    assert(grown[inner.len() as int] == k);
                }
            }
            if k == name {
                assert(inner.contains(k));
                let m = choose|m: int| 0 <= m < inner.len() && inner[m] == k;
                assert(grown[m] == k);
            }
        }
    }
}

/// Every finite set of names has an ascending listing, and
/// `sorted_listing` names it.
pub proof fn lemma_sorted_listing_exists(names: Set<Seq<char>>)
    requires
        names.finite(),
    ensures
        is_sorted_listing(sorted_listing(names), names),
    decreases names.len(),
{
    if names.len() == 0 {
        let none = Seq::<Seq<char>>::empty();
        assert forall|k: Seq<char>| #[trigger] none.contains(k) <==> names.contains(k) by {
            if names.contains(k) {
                assert(names.remove(k).len() + 1 == names.len());
            }
        }
        assert(is_sorted_listing(none, names));
    } else {
        let name = names.choose();
        let rest = names.remove(name);
        lemma_sorted_listing_exists(rest);
        let listed = sorted_listing(rest);
        lemma_with_name(listed, name);
        assert(is_sorted_listing(with_name(listed, name), names));
    }
}

/// A listing that satisfies `is_sorted_listing` is the one that
/// `sorted_listing` names.
pub proof fn lemma_sorted_listing_found(list: Seq<Seq<char>>, names: Set<Seq<char>>)
    requires
        is_sorted_listing(list, names),
    ensures
        sorted_listing(names) == list,
{
    lemma_sorted_listing_unique(sorted_listing(names), list, names);
}

/// Tells whether `name` is one of `names`.
pub fn contains_name(names: &Vec<String>, name: &String) -> (r: bool)
    ensures
        r == names.deep_view().contains(name@),
{
    let mut i: usize = 0;
    while i < names.len()
        invariant
            i <= names.len(),
            forall|j: int| 0 <= j < i ==> names.deep_view()[j] != name@,
        decreases names.len() - i,
    {
        if names[i] == *name {
            assert(names.deep_view()[i as int] == name@);
            return true;
        }
        i += 1;
    }
    false
}

/// Puts `name` into an ascending list at its place, unless the list holds
/// it already.
pub fn insert_ascending(list: &mut Vec<String>, name: String)
    requires
        is_ascending(old(list).deep_view()),
    ensures
        is_ascending(final(list).deep_view()),
        forall|k: Seq<char>|
            #[trigger] final(list).deep_view().contains(k) <==> old(list).deep_view().contains(k)
                || k == name@,
{
    let ghost before = list.deep_view();
    let mut at: usize = 0;
    while at < list.len() && name_precedes(list[at].as_str(), name.as_str())
        invariant
            list.deep_view() == before,
            at <= list.len(),
            forall|j: int| 0 <= j < at ==> precedes(#[trigger] before[j], name@),
        decreases list.len() - at,
    {
        at += 1;
    }
    if at < list.len() && list[at] == name {
        assert(before[at as int] == name@);
        assert(before.contains(name@));
        return ;
    }
    list.insert(at, name);
    proof {
        let after = list.deep_view();
        assert(after =~= before.insert(at as int, name@));
        if at < before.len() {
            lemma_precedes_total(before[at as int], name@);
        }
        assert forall|i: int, j: int| 0 <= i < j < after.len() implies precedes(
            #[trigger] after[i],
            #[trigger] after[j],
        ) by {
            if j < at {
                assert(precedes(before[i], before[j]));
            } else if j == at {
                assert(precedes(before[i], name@));
            } else if i == at {
                if j - 1 > at {
                    assert(precedes(before[at as int], before[j - 1]));
                    lemma_precedes_transitive(name@, before[at as int], before[j - 1]);
                }
            } else if i < at {
                assert(precedes(before[i], before[j - 1]));
            } else {
                assert(precedes(before[i - 1], before[j - 1]));
            }
        }
        assert forall|k: Seq<char>| #[trigger]
            after.contains(k) <==> before.contains(k) || k == name@ by {
            if after.contains(k) {
                let i = choose|i: int| 0 <= i < after.len() && after[i] == k;
                if i < at {
                    assert(before[i] == k);
                } else if i > at {
                    assert(before[i - 1] == k);
                }
            }
            if before.contains(k) {
                let i = choose|i: int| 0 <= i < before.len() && before[i] == k;
                if i < at {
                    assert(after[i] == k);
                } else {
                    assert(after[i + 1] == k);
                }
            }
            if k == name@ {
                assert(after[at as int] == k);
            }
        }
    }
}

/// Joins the parts into one string, with `separator` between neighbours.
pub fn join_names(parts: &Vec<String>, separator: &str) -> (line: String)
    ensures
        line@ == join(parts.deep_view(), separator@),
{
    let mut line = String::new();
    let mut i: usize = 0;
    while i < parts.len()
        invariant
            i <= parts.len(),
            line@ == join(parts.deep_view().take(i as int), separator@),
        decreases parts.len() - i,
    {
        let ghost done = parts.deep_view().take(i as int);
        let ghost next = parts.deep_view().take(i + 1);
        assert(next.drop_last() =~= done);
        assert(next.last() == parts[i as int]@);
        if i > 0 {
            line.append(separator);
        } else {
            assert(Seq::<char>::empty() + parts[i as int]@ =~= parts[i as int]@);
        }
        line.append(parts[i].as_str());
        i += 1;
    }
    assert(parts.deep_view().take(i as int) =~= parts.deep_view());
    line
}

} // verus!
