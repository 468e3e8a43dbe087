//! Sorting by name.
//!
//! A list is sorted through the positions of its elements: the order of a list of
//! keys is the list of positions, from the least key to the greatest. Equal keys
//! keep the order in which they stand.

use crate::text;
use crate::text::str_le;
use vstd::prelude::*;

verus! {

/// An order with position `n` put in: behind every position whose key is not
/// greater, as far back as it can go.
pub open spec fn insert_position(keys: Seq<Seq<char>>, order: Seq<usize>, n: usize) -> Seq<usize>
    decreases order.len(),
{
    if order.len() == 0 || text::lex_le(keys[order.last() as int], keys[n as int]) {
        order.push(n)
    } else {
        insert_position(keys, order.drop_last(), n).push(order.last())
    }
}

/// The order of the first `n` keys.
pub open spec fn stable_order(keys: Seq<Seq<char>>, n: nat) -> Seq<usize>
    decreases n,
{
    if n == 0 {
        Seq::empty()
    } else {
        insert_position(keys, stable_order(keys, (n - 1) as nat), (n - 1) as usize)
    }
}

/// Whether every position below `n` stands exactly once in an order.
pub open spec fn is_permutation(order: Seq<usize>, n: nat) -> bool {
    &&& order.len() == n
    &&& forall|i: int| 0 <= i < order.len() ==> (#[trigger] order[i]) < n
    &&& forall|i: int, j: int|
        0 <= i < j < order.len() ==> #[trigger] order[i] != #[trigger] order[j]
}

/// Whether an order goes from the least key to the greatest, equal keys as they
/// stand.
pub open spec fn is_sorted(keys: Seq<Seq<char>>, order: Seq<usize>) -> bool {
    forall|i: int, j: int|
        0 <= i < j < order.len() ==> {
            &&& text::lex_le(keys[#[trigger] order[i] as int], keys[#[trigger] order[j] as int])
            &&& keys[order[i] as int] == keys[order[j] as int] ==> order[i] < order[j]
        }
}

proof fn lemma_insert(keys: Seq<Seq<char>>, order: Seq<usize>, n: usize, p: int)
    requires
        0 <= p <= order.len(),
        p > 0 ==> text::lex_le(keys[order[p - 1] as int], keys[n as int]),
        forall|k: int|
            p <= k < order.len() ==> !text::lex_le(
                keys[#[trigger] order[k] as int],
                keys[n as int],
            ),
    ensures
        insert_position(keys, order, n) == order.insert(p, n),
    decreases order.len(),
{
    if p == order.len() {
        assert(order.insert(p, n) =~= order.push(n));
    } else {
        let head = order.drop_last();
        assert(!text::lex_le(keys[order[order.len() - 1] as int], keys[n as int]));
        assert forall|k: int| p <= k < head.len() implies !text::lex_le(
            keys[#[trigger] head[k] as int],
            keys[n as int],
        ) by {
            assert(head[k] == order[k]);
        }
        lemma_insert(keys, head, n, p);
        assert(head.insert(p, n).push(order.last()) =~= order.insert(p, n));
    }
}

/// The place where `insert_position` puts a position.
proof fn lemma_insert_place(keys: Seq<Seq<char>>, order: Seq<usize>, n: usize) -> (p: int)
    requires
        is_sorted(keys, order),
    ensures
        0 <= p <= order.len(),
        insert_position(keys, order, n) == order.insert(p, n),
        forall|k: int|
            0 <= k < p ==> text::lex_le(keys[#[trigger] order[k] as int], keys[n as int]),
        forall|k: int|
            p <= k < order.len() ==> !text::lex_le(
                keys[#[trigger] order[k] as int],
                keys[n as int],
            ),
    decreases order.len(),
{
    if order.len() == 0 || text::lex_le(keys[order.last() as int], keys[n as int]) {
        assert(order.insert(order.len() as int, n) =~= order.push(n));
        assert forall|k: int| 0 <= k < order.len() implies text::lex_le(
            keys[#[trigger] order[k] as int],
            keys[n as int],
        ) by {
            if k < order.len() - 1 {
                assert(text::lex_le(
                    keys[order[k] as int],
                    keys[order[order.len() - 1] as int],
                ));
                text::lemma_lex_transitive(
                    keys[order[k] as int],
                    keys[order.last() as int],
                    keys[n as int],
                );
            }
        }
        order.len() as int
    } else {
        let head = order.drop_last();
        assert(is_sorted(keys, head)) by {
            assert forall|i: int, j: int| 0 <= i < j < head.len() implies {
                &&& text::lex_le(keys[#[trigger] head[i] as int], keys[#[trigger] head[j] as int])
                &&& keys[head[i] as int] == keys[head[j] as int] ==> head[i] < head[j]
            } by {
                assert(head[i] == order[i] && head[j] == order[j]);
            }
        }
        let p = lemma_insert_place(keys, head, n);
        assert(head.insert(p, n).push(order.last()) =~= order.insert(p, n));
        assert forall|k: int| 0 <= k < p implies text::lex_le(
            keys[#[trigger] order[k] as int],
            keys[n as int],
        ) by {
            assert(head[k] == order[k]);
        }
        assert forall|k: int| p <= k < order.len() implies !text::lex_le(
            keys[#[trigger] order[k] as int],
            keys[n as int],
        ) by {
            if k < head.len() {
                assert(head[k] == order[k]);
            }
        }
        p
    }
}

/// The order of a list of keys holds every position once and is sorted.
pub proof fn law_stable_order_sorts(keys: Seq<Seq<char>>, n: nat)
    requires
        n <= keys.len(),
        n <= usize::MAX,
    ensures
        is_permutation(stable_order(keys, n), n),
        is_sorted(keys, stable_order(keys, n)),
    decreases n,
{
    if n > 0 {
        let order = stable_order(keys, (n - 1) as nat);
        let x = (n - 1) as usize;
        law_stable_order_sorts(keys, (n - 1) as nat);
        let p = lemma_insert_place(keys, order, x);
        let next = order.insert(p, x);
        assert forall|i: int, j: int| 0 <= i < j < next.len() implies {
            &&& #[trigger] next[i] != #[trigger] next[j]
            &&& text::lex_le(keys[next[i] as int], keys[next[j] as int])
            &&& keys[next[i] as int] == keys[next[j] as int] ==> next[i] < next[j]
        } by {
            let a = if i < p { i } else { i - 1 };
            let b = if j < p { j } else { j - 1 };
            if i == p {
                assert(next[j] == order[b]);
                text::lemma_lex_total(keys[x as int], keys[order[b] as int]);
            } else if j == p {
                assert(next[i] == order[a]);
            } else {
                assert(next[i] == order[a] && next[j] == order[b]);
            }
        }
        assert forall|i: int| 0 <= i < next.len() implies (#[trigger] next[i]) < n by {
            if i < p {
                assert(next[i] == order[i]);
            } else if i > p {
                assert(next[i] == order[i - 1]);
            }
        }
    }
}

/// The positions of a list of keys, from the least key to the greatest.
pub fn order_of(keys: &Vec<String>) -> (r: Vec<usize>)
    ensures
        r@ == stable_order(text::strs(keys@), keys@.len()),
        is_permutation(r@, keys@.len()),
        is_sorted(text::strs(keys@), r@),
{
    let ghost views = text::strs(keys@);
    let mut order: Vec<usize> = Vec::new();
    let mut n: usize = 0;
    while n < keys.len()
        invariant
            n <= keys@.len(),
            views == text::strs(keys@),
            order@ == stable_order(views, n as nat),
            is_permutation(order@, n as nat),
        decreases keys@.len() - n,
    {
        let mut p: usize = order.len();
        while p > 0 && !str_le(keys[order[p - 1]].as_str(), keys[n].as_str())
            invariant
                n < keys@.len(),
                p <= order@.len(),
                views == text::strs(keys@),
                is_permutation(order@, n as nat),
                forall|k: int|
                    p <= k < order@.len() ==> !text::lex_le(
                        views[#[trigger] order@[k] as int],
                        views[n as int],
                    ),
            decreases p,
        {
            p = p - 1;
        }
        proof {
            lemma_insert(views, order@, n, p as int);
            law_stable_order_sorts(views, n as nat + 1);
        }
        order.insert(p, n);
        n = n + 1;
    }
    proof {
        law_stable_order_sorts(views, keys@.len());
    }
    order
}

} // verus!
