//! Drawing a few items from a list with numbers supplied by the caller.
//!
//! The node answers address requests with a random part of its address book.
//! The randomness comes from outside: the caller hands in a list of numbers,
//! and the functions here are exact about which items each list selects.

use vstd::prelude::*;

verus! {

/// The position that draw number `k` selects in a pool of `n > 0` items.  When
/// the draws have run out, the first item is taken.
pub open spec fn picked_position(n: nat, draws: Seq<u64>, k: nat) -> int {
    if k < draws.len() {
        draws[k as int] as int % n as int
    } else {
        0
    }
}

/// The items that the draws from number `k` on select from `pool`, without
/// replacement, until `count` items are drawn or the pool is empty.
pub open spec fn sample<A>(pool: Seq<A>, draws: Seq<u64>, k: nat, count: nat) -> Seq<A>
    decreases count,
{
    if count == 0 || pool.len() == 0 {
        Seq::empty()
    } else {
        let i = picked_position(pool.len(), draws, k);
        seq![pool[i]] + sample(pool.remove(i), draws, k + 1, (count - 1) as nat)
    }
}

/// A sample has `count` items, or the whole pool if that is smaller.
pub proof fn lemma_sample_len<A>(pool: Seq<A>, draws: Seq<u64>, k: nat, count: nat)
    ensures
        sample(pool, draws, k, count).len() == if count <= pool.len() {
            count
        } else {
            pool.len()
        },
    decreases count,
{
    if count != 0 && pool.len() != 0 {
        let i = picked_position(pool.len(), draws, k);
        lemma_sample_len(pool.remove(i), draws, k + 1, (count - 1) as nat);
    }
}

/// Every item of a sample comes from the pool.
pub proof fn lemma_sample_from_pool<A>(pool: Seq<A>, draws: Seq<u64>, k: nat, count: nat)
    ensures
        forall|j: int| 0 <= j < sample(pool, draws, k, count).len() ==> pool.contains(#[trigger] sample(pool, draws, k, count)[j]),
    decreases count,
{
    if count != 0 && pool.len() != 0 {
        let i = picked_position(pool.len(), draws, k);
        let rest = pool.remove(i);
        lemma_sample_from_pool(rest, draws, k + 1, (count - 1) as nat);
        let tail = sample(rest, draws, k + 1, (count - 1) as nat);
        assert forall|j: int| 0 <= j < sample(pool, draws, k, count).len() implies pool.contains(
            #[trigger] sample(pool, draws, k, count)[j],
        ) by {
            if j == 0 {
                assert(pool[i] == sample(pool, draws, k, count)[0]);
            } else {
                assert(sample(pool, draws, k, count)[j] == tail[j - 1]);
                assert(rest.contains(tail[j - 1]));
                let p = choose|p: int| 0 <= p < rest.len() && rest[p] == tail[j - 1];
                let origin = if p < i { p } else { p + 1 };
                assert(pool[origin] == rest[p]);
            }
        }
    }
}

/// A sample of a pool without repetitions has no repetitions.
pub proof fn lemma_sample_no_duplicates<A>(pool: Seq<A>, draws: Seq<u64>, k: nat, count: nat)
    requires
        pool.no_duplicates(),
    ensures
        sample(pool, draws, k, count).no_duplicates(),
    decreases count,
{
    if count != 0 && pool.len() != 0 {
        let i = picked_position(pool.len(), draws, k);
        let rest = pool.remove(i);
        assert(rest.no_duplicates()) by {
            assert forall|a: int, b: int| 0 <= a < rest.len() && 0 <= b < rest.len() && a != b implies rest[a] != rest[b] by {
                let a0 = if a < i { a } else { a + 1 };
                let b0 = if b < i { b } else { b + 1 };
                assert(rest[a] == pool[a0]);
                assert(rest[b] == pool[b0]);
            }
        }
        lemma_sample_no_duplicates(rest, draws, k + 1, (count - 1) as nat);
        lemma_sample_from_pool(rest, draws, k + 1, (count - 1) as nat);
        let tail = sample(rest, draws, k + 1, (count - 1) as nat);
        let whole = sample(pool, draws, k, count);
        assert forall|a: int, b: int| 0 <= a < whole.len() && 0 <= b < whole.len() && a != b implies whole[a] != whole[b] by {
            if a == 0 || b == 0 {
                let other = if a == 0 { b } else { a };
                assert(whole[other] == tail[other - 1]);
                assert(rest.contains(tail[other - 1]));
                let p = choose|p: int| 0 <= p < rest.len() && rest[p] == tail[other - 1];
                let origin = if p < i { p } else { p + 1 };
                assert(pool[origin] == rest[p]);
                assert(origin != i);
            } else {
                assert(whole[a] == tail[a - 1]);
                assert(whole[b] == tail[b - 1]);
            }
        }
    }
}

/// Where the pool is no larger than the number asked for, the sample holds
/// every item of the pool.
pub proof fn lemma_sample_takes_all<A>(pool: Seq<A>, draws: Seq<u64>, k: nat, count: nat, item: A)
    requires
        pool.len() <= count,
        pool.contains(item),
    ensures
        sample(pool, draws, k, count).contains(item),
    decreases count,
{
    let i = picked_position(pool.len(), draws, k);
    let whole = sample(pool, draws, k, count);
    let rest = pool.remove(i);
    let tail = sample(rest, draws, k + 1, (count - 1) as nat);
    if pool[i] == item {
        assert(whole[0] == item);
    } else {
        let p = choose|p: int| 0 <= p < pool.len() && pool[p] == item;
        let shifted = if p < i { p } else { p - 1 };
        assert(rest[shifted] == pool[p]);
        lemma_sample_takes_all(rest, draws, k + 1, (count - 1) as nat, item);
        let q = choose|q: int| 0 <= q < tail.len() && tail[q] == item;
        assert(whole[q + 1] == tail[q]);
    }
}

/// Draws a sample of `pool`.
pub fn draw_sample<A: Copy>(pool: &Vec<A>, draws: &Vec<u64>, count: usize) -> (picked: Vec<A>)
    ensures
        picked@ == sample(pool@, draws@, 0, count as nat),
{
    let mut rest: Vec<A> = Vec::new();
    let mut c: usize = 0;
    while c < pool.len()
        invariant
            c <= pool.len(),
            rest@ == pool@.subrange(0, c as int),
        decreases pool.len() - c,
    {
        rest.push(pool[c]);
        assert(rest@ =~= pool@.subrange(0, c as int + 1));
        c += 1;
    }
    assert(rest@ =~= pool@);
    let mut picked: Vec<A> = Vec::new();
    let mut k: usize = 0;
    assert(picked@ + sample(rest@, draws@, 0, count as nat) =~= sample(pool@, draws@, 0, count as nat));
    while k < count && rest.len() > 0
        invariant
            k <= count,
            picked@ + sample(rest@, draws@, k as nat, (count - k) as nat) == sample(pool@, draws@, 0, count as nat),
        decreases count - k,
    {
        let n = rest.len();
        let i: usize = if k < draws.len() {
            (draws[k] % (n as u64)) as usize
        } else {
            0
        };
        assert(i as int == picked_position(rest@.len(), draws@, k as nat));
        let ghost before = rest@;
        let ghost so_far = picked@;
        let item = rest.remove(i);
        picked.push(item);
        assert(picked@ + sample(rest@, draws@, (k + 1) as nat, (count - k - 1) as nat) =~= so_far + sample(
            before,
            draws@,
            k as nat,
            (count - k) as nat,
        ));
        k += 1;
    }
    assert(sample(rest@, draws@, k as nat, (count - k) as nat) =~= Seq::<A>::empty());
    assert(picked@ =~= picked@ + Seq::<A>::empty());
    picked
}

} // verus!
