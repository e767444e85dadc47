//! Stable sorting by a numeric key.
use vstd::prelude::*;

verus! {

/// A value that is ordered by a number it carries.
pub trait Keyed: Copy {
    spec fn key(&self) -> int;

    fn sort_key(&self) -> (k: u128)
        ensures
            k == self.key(),
    ;
}

/// The elements of `s` whose key is `k`, in their order in `s`.
pub open spec fn with_key<T: Keyed>(s: Seq<T>, k: int) -> Seq<T> {
    s.filter(|t: T| t.key() == k)
}

pub open spec fn sorted_by_key<T: Keyed>(s: Seq<T>) -> bool {
    forall|i: int, j: int| 0 <= i <= j < s.len() ==> (#[trigger] s[i]).key() <= (#[trigger] s[j]).key()
}

/// `output` holds the elements of `input` in ascending order of their keys,
/// and those with equal keys in the order in which `input` has them.
pub open spec fn stably_sorted<T: Keyed>(input: Seq<T>, output: Seq<T>) -> bool {
    &&& sorted_by_key(output)
    &&& forall|k: int| #[trigger] with_key(output, k) == with_key(input, k)
}

/// The one stable sort of `input` (see [`law_stable_sort_is_unique`]).
pub open spec fn stable_order<T: Keyed>(input: Seq<T>) -> Seq<T> {
    choose|output: Seq<T>| stably_sorted(input, output)
}

/// Elements that all have another key contribute nothing.
proof fn lemma_with_key_none<T: Keyed>(s: Seq<T>, k: int)
    requires
        forall|i: int| 0 <= i < s.len() ==> (#[trigger] s[i]).key() != k,
    ensures
        with_key(s, k) == Seq::<T>::empty(),
    decreases s.len(),
{
    reveal(Seq::filter);
    if s.len() > 0 {
        assert forall|i: int| 0 <= i < s.drop_last().len() implies (
        #[trigger] s.drop_last()[i]).key() != k by {
            assert(s.drop_last()[i] == s[i]);
        }
        lemma_with_key_none(s.drop_last(), k);
        assert(s.last() == s[s.len() - 1]);
    }
}

proof fn lemma_with_key_push<T: Keyed>(s: Seq<T>, x: T, k: int)
    ensures
        with_key(s.push(x), k) == if x.key() == k {
            with_key(s, k).push(x)
        } else {
            with_key(s, k)
        },
{
    reveal(Seq::filter);
    assert(s.push(x).drop_last() =~= s);
}

proof fn lemma_with_key_concat<T: Keyed>(a: Seq<T>, b: Seq<T>, k: int)
    ensures
        with_key(a + b, k) == with_key(a, k) + with_key(b, k),
{
    Seq::filter_distributes_over_add(a, b, |t: T| t.key() == k);
}

/// Inserting behind everything with a key up to its own, and before everything
/// with a greater key, appends `x` to the run of its key and touches no other.
proof fn lemma_with_key_insert<T: Keyed>(s: Seq<T>, pos: int, x: T, k: int)
    requires
        0 <= pos <= s.len(),
        forall|i: int| pos <= i < s.len() ==> x.key() < (#[trigger] s[i]).key(),
    ensures
        with_key(s.insert(pos, x), k) == if x.key() == k {
            with_key(s, k).push(x)
        } else {
            with_key(s, k)
        },
{
    let front = s.take(pos);
    let back = s.skip(pos);
    assert(s =~= front + back);
    assert(s.insert(pos, x) =~= front.push(x) + back);
    lemma_with_key_concat(front, back, k);
    lemma_with_key_concat(front.push(x), back, k);
    lemma_with_key_push(front, x, k);
    if x.key() == k {
        assert forall|i: int| 0 <= i < back.len() implies (#[trigger] back[i]).key() != k by {
            assert(back[i] == s[pos + i]);
        }
        lemma_with_key_none(back, k);
        assert(with_key(front, k).push(x) + Seq::<T>::empty() =~= (with_key(front, k)
            + Seq::<T>::empty()).push(x));
    }
}

/// The elements of `items` in ascending order of their keys; those with equal
/// keys keep their order.
pub fn stable_sort<T: Keyed>(items: &Vec<T>) -> (out: Vec<T>)
    ensures
        stably_sorted(items@, out@),
        out@ == stable_order(items@),
        out@.len() == items@.len(),
{
    let mut out: Vec<T> = Vec::new();
    assert(items@.take(0) =~= out@);
    for n in 0..items.len()
        invariant
            stably_sorted(items@.take(n as int), out@),
            out@.len() == n,
    {
        let x: T = items[n];
        let xk: u128 = x.sort_key();
        let mut pos: usize = out.len();
        while pos > 0 && out[pos - 1].sort_key() > xk
            invariant
                pos <= out.len(),
                xk == x.key(),
                forall|i: int| pos <= i < out@.len() ==> x.key() < (#[trigger] out@[i]).key(),
            decreases pos,
        {
            pos = pos - 1;
        }
        let ghost before = out@;
        out.insert(pos, x);
        proof {
            let prefix = items@.take(n as int);
            assert(items@.take(n + 1) =~= prefix.push(x));
            assert forall|k: int| #[trigger] with_key(out@, k) == with_key(items@.take(n + 1), k) by {
                lemma_with_key_insert(before, pos as int, x, k);
                lemma_with_key_push(prefix, x, k);
                assert(with_key(before, k) == with_key(prefix, k));
            }
        }
    }
    assert(items@.take(items@.len() as int) =~= items@);
    proof {
        law_stable_sort_is_unique(items@, out@, stable_order(items@));
    }
    out
}

/// The run of the smallest key starts with the first element.
proof fn lemma_with_key_first<T: Keyed>(s: Seq<T>)
    requires
        s.len() > 0,
    ensures
        with_key(s, s[0].key()).len() > 0,
        with_key(s, s[0].key())[0] == s[0],
        forall|k: int| #[trigger]
            with_key(s, k) == if s[0].key() == k {
                seq![s[0]] + with_key(s.drop_first(), k)
            } else {
                with_key(s.drop_first(), k)
            },
{
    let head = seq![s[0]];
    assert(s =~= head + s.drop_first());
    assert forall|k: int| #[trigger]
        with_key(s, k) == if s[0].key() == k {
            seq![s[0]] + with_key(s.drop_first(), k)
        } else {
            with_key(s.drop_first(), k)
        } by {
        lemma_with_key_concat(head, s.drop_first(), k);
        lemma_with_key_push(Seq::<T>::empty(), s[0], k);
        lemma_with_key_none(Seq::<T>::empty(), k);
        assert(Seq::<T>::empty().push(s[0]) =~= head);
        if s[0].key() != k {
            assert(Seq::<T>::empty() + with_key(s.drop_first(), k) =~= with_key(s.drop_first(), k));
        }
    }
}

/// Where some element of `s` has key `k`, the first element of a sorted `s` has
/// a key of at most `k`.
proof fn lemma_sorted_head_least<T: Keyed>(s: Seq<T>, k: int)
    requires
        sorted_by_key(s),
        with_key(s, k).len() > 0,
    ensures
        s.len() > 0,
        s[0].key() <= k,
{
    if forall|i: int| 0 <= i < s.len() ==> (#[trigger] s[i]).key() != k {
        lemma_with_key_none(s, k);
    }
    let i = choose|i: int| 0 <= i < s.len() && (#[trigger] s[i]).key() == k;
    assert(s[0].key() <= s[i].key());
}

/// There is only one way to sort stably: two stable sorts of the same elements
/// are the same sequence.
pub proof fn law_stable_sort_is_unique<T: Keyed>(input: Seq<T>, a: Seq<T>, b: Seq<T>)
    requires
        stably_sorted(input, a),
        stably_sorted(input, b),
    ensures
        a == b,
{
    assert forall|k: int| #[trigger] with_key(a, k) == with_key(b, k) by {
        assert(with_key(a, k) == with_key(input, k));
        assert(with_key(b, k) == with_key(input, k));
    }
    lemma_same_runs(a, b);
}

proof fn lemma_same_runs<T: Keyed>(a: Seq<T>, b: Seq<T>)
    requires
        sorted_by_key(a),
        sorted_by_key(b),
        forall|k: int| #[trigger] with_key(a, k) == with_key(b, k),
    ensures
        a == b,
    decreases a.len() + b.len(),
{
    if a.len() == 0 && b.len() == 0 {
        assert(a =~= b);
    } else if a.len() == 0 {
        lemma_with_key_first(b);
        lemma_with_key_none(a, b[0].key());
        assert(with_key(a, b[0].key()) == with_key(b, b[0].key()));
    } else {
        lemma_with_key_first(a);
        assert(with_key(a, a[0].key()) == with_key(b, a[0].key()));
        lemma_sorted_head_least(b, a[0].key());
        lemma_with_key_first(b);
        assert(with_key(a, b[0].key()) == with_key(b, b[0].key()));
        lemma_sorted_head_least(a, b[0].key());
        assert(a[0] == b[0]);
        let ra = a.drop_first();
        let rb = b.drop_first();
        assert forall|k: int| #[trigger] with_key(ra, k) == with_key(rb, k) by {
            assert(with_key(a, k) == with_key(b, k));
            if a[0].key() == k {
                assert((seq![a[0]] + with_key(ra, k)).drop_first() =~= with_key(ra, k));
                assert((seq![a[0]] + with_key(rb, k)).drop_first() =~= with_key(rb, k));
            }
        }
        assert forall|i: int, j: int| 0 <= i <= j < ra.len() implies (#[trigger] ra[i]).key() <= (
        #[trigger] ra[j]).key() by {
            assert(ra[i] == a[i + 1] && ra[j] == a[j + 1]);
        }
        assert forall|i: int, j: int| 0 <= i <= j < rb.len() implies (#[trigger] rb[i]).key() <= (
        #[trigger] rb[j]).key() by {
            assert(rb[i] == b[i + 1] && rb[j] == b[j + 1]);
        }
        lemma_same_runs(ra, rb);
        assert(a =~= seq![a[0]] + ra);
        assert(b =~= seq![b[0]] + rb);
    }
}

/// Every element is in the run of its key.
pub proof fn lemma_element_is_in_its_run<T: Keyed>(s: Seq<T>, i: int)
    requires
        0 <= i < s.len(),
    ensures
        with_key(s, s[i].key()).contains(s[i]),
{
    let k = s[i].key();
    s.lemma_filter_contains(|t: T| t.key() == k, i);
}

/// An element occurs in `s` as often as in the run of its key.
proof fn lemma_count_in_run<T: Keyed>(s: Seq<T>, x: T)
    ensures
        s.to_multiset().count(x) == with_key(s, x.key()).to_multiset().count(x),
    decreases s.len(),
{
    broadcast use vstd::seq_lib::group_to_multiset_ensures;

    reveal(Seq::filter);
    if s.len() > 0 {
        let front = s.drop_last();
        assert(s =~= front.push(s.last()));
        lemma_count_in_run(front, x);
        lemma_with_key_push(front, s.last(), x.key());
    } else {
        assert(with_key(s, x.key()) =~= s);
    }
}

/// Sorting neither loses nor invents nor repeats an element.
pub proof fn law_stable_sort_is_permutation<T: Keyed>(input: Seq<T>, output: Seq<T>)
    requires
        stably_sorted(input, output),
    ensures
        output.to_multiset() == input.to_multiset(),
{
    assert forall|x: T| output.to_multiset().count(x) == input.to_multiset().count(x) by {
        lemma_count_in_run(input, x);
        lemma_count_in_run(output, x);
        assert(with_key(output, x.key()) == with_key(input, x.key()));
    }
    assert(output.to_multiset() =~= input.to_multiset());
}

/// Where an element of the sorted sequence stood in the original one.
pub proof fn lemma_sorted_element_has_source<T: Keyed>(
    input: Seq<T>,
    output: Seq<T>,
    i: int,
) -> (j: int)
    requires
        stably_sorted(input, output),
        0 <= i < output.len(),
    ensures
        0 <= j < input.len(),
        input[j] == output[i],
{
    broadcast use vstd::seq_lib::group_to_multiset_ensures;

    law_stable_sort_is_permutation(input, output);
    assert(output.to_multiset().count(output[i]) > 0) by {
        assert(output.contains(output[i]));
    }
    assert(input.contains(output[i]));
    input.index_of(output[i])
}

/// Sorting leaves alone what is in order already.
pub proof fn law_sorted_input_is_kept<T: Keyed>(input: Seq<T>, output: Seq<T>)
    requires
        sorted_by_key(input),
        stably_sorted(input, output),
    ensures
        output == input,
{
    law_stable_sort_is_unique(input, input, output);
}

/// Sorted elements ascend by their keys, and those with equal keys come in the order in
/// which the input has them.
pub proof fn law_stable_sort_ascends<T: Keyed>(
    input: Seq<T>,
    output: Seq<T>,
    k: int,
    has_key: spec_fn(T) -> bool,
)
    requires
        stably_sorted(input, output),
        forall|t: T| #[trigger] has_key(t) <==> t.key() == k,
    ensures
        forall|i: int, j: int|
            0 <= i < j < output.len() ==> (#[trigger] output[i]).key() <= (
            #[trigger] output[j]).key(),
        output.filter(has_key) == input.filter(has_key),
{
    assert(with_key(output, k) == with_key(input, k));
    lemma_run_is_filter(output, k, has_key);
    lemma_run_is_filter(input, k, has_key);
}

proof fn lemma_run_is_filter<T: Keyed>(s: Seq<T>, k: int, has_key: spec_fn(T) -> bool)
    requires
        forall|t: T| #[trigger] has_key(t) <==> t.key() == k,
    ensures
        s.filter(has_key) == with_key(s, k),
    decreases s.len(),
{
    reveal(Seq::filter);
    if s.len() > 0 {
        lemma_run_is_filter(s.drop_last(), k, has_key);
        assert(has_key(s.last()) <==> s.last().key() == k);
    }
}

} // verus!
