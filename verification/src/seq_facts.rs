//! Facts about sequences that the plans and their theorems rest on.

use vstd::prelude::*;
use vstd::seq_lib::lemma_flatten_concat;

verus! {

/// Reading one more event of a batch appends what that event leads to.
pub(crate) proof fn lemma_flat_map_take_succ<A, B>(s: Seq<A>, f: spec_fn(A) -> Seq<B>, i: int)
    requires
        0 <= i < s.len(),
    ensures
        s.take(i + 1).flat_map(f) == s.take(i).flat_map(f) + f(s[i]),
{
    broadcast use Seq::lemma_flatten_push;

    assert(s.take(i + 1).map_values(f) == s.take(i).map_values(f).push(f(s[i])));
}

/// Reading one more row of a snapshot appends what that row leads to, where
/// the row is among those asked for.
pub(crate) proof fn lemma_filter_map_values_take_succ<A, B>(
    s: Seq<A>,
    keep: spec_fn(A) -> bool,
    f: spec_fn(A) -> B,
    j: int,
)
    requires
        0 <= j < s.len(),
    ensures
        s.take(j + 1).filter(keep).map_values(f) == if keep(s[j]) {
            s.take(j).filter(keep).map_values(f).push(f(s[j]))
        } else {
            s.take(j).filter(keep).map_values(f)
        },
{
    broadcast use Seq::lemma_filter_push;

    assert(s.take(j + 1) == s.take(j).push(s[j]));
}

/// What a batch leads to is what its first part leads to, followed by what
/// the rest leads to.
pub(crate) proof fn lemma_flat_map_add<A, B>(first: Seq<A>, second: Seq<A>, f: spec_fn(A) -> Seq<B>)
    ensures
        (first + second).flat_map(f) == first.flat_map(f) + second.flat_map(f),
{
    assert((first + second).map_values(f) == first.map_values(f) + second.map_values(f));
    lemma_flatten_concat(first.map_values(f), second.map_values(f));
}

/// Keeping what yields something, a batch gives what its first part gives,
/// followed by what the rest gives.
pub(crate) proof fn lemma_filter_map_add<A, B>(first: Seq<A>, second: Seq<A>, f: spec_fn(A) -> Option<B>)
    ensures
        (first + second).filter_map(f) == first.filter_map(f) + second.filter_map(f),
    decreases second.len(),
{
    if second.len() == 0 {
        assert(first + second == first);
    } else {
        lemma_filter_map_add(first, second.drop_last(), f);
        assert((first + second).drop_last() == first + second.drop_last());
    }
}

/// A value is in a joined sequence exactly when it is in one of the two.
pub(crate) proof fn lemma_add_contains<A>(first: Seq<A>, second: Seq<A>, x: A)
    ensures
        (first + second).contains(x) <==> first.contains(x) || second.contains(x),
{
    let both = first + second;
    if both.contains(x) {
        let k = choose|k: int| 0 <= k < both.len() && both[k] == x;
        if k < first.len() {
            assert(first[k] == x);
        } else {
            assert(second[k - first.len()] == x);
        }
    }
    if first.contains(x) {
        let k = choose|k: int| 0 <= k < first.len() && first[k] == x;
        assert(both[k] == x);
    }
    if second.contains(x) {
        let k = choose|k: int| 0 <= k < second.len() && second[k] == x;
        assert(both[first.len() + k] == x);
    }
}

/// A command is among those of a batch exactly when one event of the batch
/// leads to it.
pub(crate) proof fn lemma_flat_map_contains<A, B>(s: Seq<A>, f: spec_fn(A) -> Seq<B>, x: B)
    ensures
        s.flat_map(f).contains(x) <==> exists|i: int|
            0 <= i < s.len() && (#[trigger] f(s[i])).contains(x),
    decreases s.len(),
{
    if s.len() == 0 {
        assert(s.flat_map(f) == Seq::<B>::empty());
    } else {
        let rest = s.drop_last();
        lemma_flat_map_contains(rest, f, x);
        assert(s == rest + seq![s.last()]);
        lemma_flat_map_add(rest, seq![s.last()], f);
        assert(seq![s.last()].map_values(f) == seq![f(s.last())]);
        seq![f(s.last())].lemma_flatten_one_element();
        assert(seq![s.last()].flat_map(f) == f(s.last()));
        lemma_add_contains(rest.flat_map(f), f(s.last()), x);
        if rest.flat_map(f).contains(x) {
            let i = choose|i: int| 0 <= i < rest.len() && (#[trigger] f(rest[i])).contains(x);
            assert(f(s[i]).contains(x));
        }
        if exists|i: int| 0 <= i < s.len() && (#[trigger] f(s[i])).contains(x) {
            let i = choose|i: int| 0 <= i < s.len() && (#[trigger] f(s[i])).contains(x);
            if i < rest.len() {
                assert(f(rest[i]).contains(x));
            }
        }
    }
}

/// A command is among those that the chosen rows lead to exactly when a
/// chosen row leads to it.
pub(crate) proof fn lemma_filter_map_values_contains<A, B>(
    s: Seq<A>,
    keep: spec_fn(A) -> bool,
    f: spec_fn(A) -> B,
    x: B,
)
    ensures
        s.filter(keep).map_values(f).contains(x) <==> exists|j: int|
            0 <= j < s.len() && keep(#[trigger] s[j]) && f(s[j]) == x,
    decreases s.len(),
{
    reveal(Seq::filter);
    let out = s.filter(keep).map_values(f);
    if s.len() == 0 {
    } else {
        let rest = s.drop_last();
        let rest_out = rest.filter(keep).map_values(f);
        lemma_filter_map_values_contains(rest, keep, f, x);
        if keep(s.last()) {
            assert(out == rest_out + seq![f(s.last())]);
            lemma_add_contains(rest_out, seq![f(s.last())], x);
            if seq![f(s.last())].contains(x) {
                assert(keep(s[s.len() - 1]) && f(s[s.len() - 1]) == x);
            }
            if f(s.last()) == x {
                assert(seq![f(s.last())][0] == x);
            }
        } else {
            assert(out == rest_out);
        }
        if rest_out.contains(x) {
            let j = choose|j: int| 0 <= j < rest.len() && keep(#[trigger] rest[j]) && f(rest[j]) == x;
            assert(keep(s[j]) && f(s[j]) == x);
        }
        if exists|j: int| 0 <= j < s.len() && keep(#[trigger] s[j]) && f(s[j]) == x {
            let j = choose|j: int| 0 <= j < s.len() && keep(#[trigger] s[j]) && f(s[j]) == x;
            if j < rest.len() {
                assert(keep(rest[j]) && f(rest[j]) == x);
            }
        }
    }
}

} // verus!
