use vstd::prelude::*;

use crate::model::Pool;
use crate::model::Subscription;

verus! {

/// The key under which a subscription record is stored.
pub open spec fn sub_key(s: Subscription) -> (u64, u64) {
    (s.pool_id, s.subscriber)
}

/// No two records in the sequence share a (pool id, subscriber) key.
pub open spec fn unique_keys(s: Seq<Subscription>) -> bool {
    forall|i: int, j: int|
        0 <= i < j < s.len() ==> sub_key(#[trigger] s[i]) != sub_key(#[trigger] s[j])
}

/// The pools of a registry sequence as a map keyed by pool id, under the
/// layout that slot i holds the pool with id i + 1.
pub open spec fn pools_map_of(s: Seq<Pool>) -> Map<u64, Pool> {
    Map::new(|id: u64| 1 <= id <= s.len(), |id: u64| s[id - 1])
}

/// The subscriptions of a ledger sequence as a map keyed by
/// (pool id, subscriber); a later record wins over an earlier one.
pub open spec fn subs_map_of(s: Seq<Subscription>) -> Map<(u64, u64), Subscription>
    decreases s.len(),
{
    if s.len() == 0 {
        Map::empty()
    } else {
        subs_map_of(s.drop_last()).insert(sub_key(s.last()), s.last())
    }
}

pub proof fn lemma_pools_map_of_push(s: Seq<Pool>, p: Pool)
    requires
        s.len() < u64::MAX,
    ensures
        pools_map_of(s.push(p)) =~= pools_map_of(s).insert((s.len() + 1) as u64, p),
{
    let a = pools_map_of(s.push(p));
    let b = pools_map_of(s).insert((s.len() + 1) as u64, p);
    assert forall|id: u64| a.dom().contains(id) implies b.dom().contains(id) && a[id] == b[id] by {
        if id <= s.len() {
            assert(s.push(p)[id - 1] == s[id - 1]);
        } else {
            assert(s.push(p)[id - 1] == p);
        }
    }
    assert forall|id: u64| b.dom().contains(id) implies a.dom().contains(id) by {}
}

pub proof fn lemma_pools_map_of_update(s: Seq<Pool>, i: int, p: Pool)
    requires
        0 <= i < s.len(),
        s.len() <= u64::MAX,
    ensures
        pools_map_of(s.update(i, p)) =~= pools_map_of(s).insert((i + 1) as u64, p),
{
    let a = pools_map_of(s.update(i, p));
    let b = pools_map_of(s).insert((i + 1) as u64, p);
    assert forall|id: u64| a.dom().contains(id) implies b.dom().contains(id) && a[id] == b[id] by {
        if id - 1 == i {
            assert(s.update(i, p)[id - 1] == p);
        } else {
            assert(s.update(i, p)[id - 1] == s[id - 1]);
        }
    }
    assert forall|id: u64| b.dom().contains(id) implies a.dom().contains(id) by {}
}

pub proof fn lemma_subs_map_of_push(s: Seq<Subscription>, x: Subscription)
    ensures
        subs_map_of(s.push(x)) =~= subs_map_of(s).insert(sub_key(x), x),
{
    assert(s.push(x).drop_last() =~= s);
    assert(s.push(x).last() == x);
}

/// A key is in the map exactly when some record in the sequence carries it.
pub proof fn lemma_subs_map_of_contains(s: Seq<Subscription>, k: (u64, u64))
    ensures
        subs_map_of(s).dom().contains(k) <==> exists|i: int|
            0 <= i < s.len() && sub_key(#[trigger] s[i]) == k,
    decreases s.len(),
{
    if s.len() > 0 {
        lemma_subs_map_of_contains(s.drop_last(), k);
        if subs_map_of(s).dom().contains(k) {
            if sub_key(s.last()) == k {
                assert(sub_key(s[s.len() - 1]) == k);
            } else {
                let i = choose|i: int|
                    0 <= i < s.drop_last().len() && sub_key(#[trigger] s.drop_last()[i]) == k;
                assert(sub_key(s[i]) == k);
            }
        }
        if exists|i: int| 0 <= i < s.len() && sub_key(#[trigger] s[i]) == k {
            let i = choose|i: int| 0 <= i < s.len() && sub_key(#[trigger] s[i]) == k;
            if i < s.len() - 1 {
                assert(sub_key(s.drop_last()[i]) == k);
            }
        }
    }
}

/// Under unique keys, each record is found in the map under its own key.
pub proof fn lemma_subs_map_of_index(s: Seq<Subscription>, i: int)
    requires
        unique_keys(s),
        0 <= i < s.len(),
    ensures
        subs_map_of(s).dom().contains(sub_key(s[i])),
        subs_map_of(s)[sub_key(s[i])] == s[i],
    decreases s.len(),
{
    if i == s.len() - 1 {
        assert(s.last() == s[i]);
    } else {
        assert(unique_keys(s.drop_last())) by {
            assert forall|a: int, b: int|
                0 <= a < b < s.drop_last().len() implies sub_key(
                #[trigger] s.drop_last()[a],
            ) != sub_key(#[trigger] s.drop_last()[b]) by {
                assert(s.drop_last()[a] == s[a]);
                assert(s.drop_last()[b] == s[b]);
            }
        }
        assert(s.drop_last()[i] == s[i]);
        lemma_subs_map_of_index(s.drop_last(), i);
        assert(sub_key(s[i]) != sub_key(s.last())) by {
            assert(sub_key(s[i]) != sub_key(s[s.len() - 1]));
        }
    }
}

/// Under unique keys, replacing the one record that carries a key updates the
/// map at that key alone.
pub proof fn lemma_subs_map_of_update(s: Seq<Subscription>, i: int, x: Subscription)
    requires
        unique_keys(s),
        0 <= i < s.len(),
        sub_key(x) == sub_key(s[i]),
    ensures
        subs_map_of(s.update(i, x)) =~= subs_map_of(s).insert(sub_key(x), x),
    decreases s.len(),
{
    let t = s.update(i, x);
    if i == s.len() - 1 {
        assert(t.drop_last() =~= s.drop_last());
        assert(t.last() == x);
        assert(subs_map_of(t) =~= subs_map_of(s.drop_last()).insert(sub_key(x), x));
        assert(subs_map_of(s).insert(sub_key(x), x) =~= subs_map_of(s.drop_last()).insert(
            sub_key(s.last()),
            s.last(),
        ).insert(sub_key(x), x));
    } else {
        assert(unique_keys(s.drop_last())) by {
            assert forall|a: int, b: int|
                0 <= a < b < s.drop_last().len() implies sub_key(
                #[trigger] s.drop_last()[a],
            ) != sub_key(#[trigger] s.drop_last()[b]) by {
                assert(s.drop_last()[a] == s[a]);
                assert(s.drop_last()[b] == s[b]);
            }
        }
        assert(s.drop_last()[i] == s[i]);
        lemma_subs_map_of_update(s.drop_last(), i, x);
        assert(t.drop_last() =~= s.drop_last().update(i, x));
        assert(t.last() == s.last());
        // The final record keeps a key distinct from the updated one, so the
        // two insertions commute.
        assert(sub_key(s[i]) != sub_key(s[s.len() - 1]));
        assert(subs_map_of(t) =~= subs_map_of(s.drop_last()).insert(sub_key(x), x).insert(
            sub_key(s.last()),
            s.last(),
        ));
    }
}

} // verus!
