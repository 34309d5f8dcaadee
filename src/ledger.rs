use vstd::prelude::*;
use crate::types::{Address, Delegation};

verus! {

/// Whether `d` is the record of `user` in pool `pool_id`.
pub open spec fn holds_key(d: Delegation, user: Address, pool_id: u64) -> bool {
    d.user == user && d.pool_id == pool_id
}

/// Whether some record of `s` belongs to (`user`, `pool_id`).
pub open spec fn has_key(s: Seq<Delegation>, user: Address, pool_id: u64) -> bool {
    exists|i: int| 0 <= i < s.len() && #[trigger] holds_key(s[i], user, pool_id)
}

/// The position of the record of (`user`, `pool_id`) in `s`, where there is one.
pub open spec fn key_index(s: Seq<Delegation>, user: Address, pool_id: u64) -> int {
    choose|i: int| 0 <= i < s.len() && #[trigger] holds_key(s[i], user, pool_id)
}

/// The record of (`user`, `pool_id`) in `s`, if any.
pub open spec fn lookup(s: Seq<Delegation>, user: Address, pool_id: u64) -> Option<Delegation> {
    if has_key(s, user, pool_id) {
        Some(s[key_index(s, user, pool_id)])
    } else {
        None
    }
}

/// `s` with `d` in place of the record of its key, or appended where it has none.
pub open spec fn upsert(s: Seq<Delegation>, d: Delegation) -> Seq<Delegation> {
    if has_key(s, d.user, d.pool_id) {
        s.update(key_index(s, d.user, d.pool_id), d)
    } else {
        s.push(d)
    }
}

/// No two records share a (user, pool) key.
pub open spec fn keys_unique(s: Seq<Delegation>) -> bool {
    forall|i: int, j: int|
        0 <= i < s.len() && 0 <= j < s.len() && i != j ==> !holds_key(
            #[trigger] s[i],
            (#[trigger] s[j]).user,
            s[j].pool_id,
        )
}

/// In a ledger with unique keys, the record found at `i` is the one `lookup` gives.
pub proof fn lemma_lookup_at(s: Seq<Delegation>, i: int, user: Address, pool_id: u64)
    requires
        keys_unique(s),
        0 <= i < s.len(),
        holds_key(s[i], user, pool_id),
    ensures
        key_index(s, user, pool_id) == i,
        lookup(s, user, pool_id) == Some(s[i]),
{
    assert(has_key(s, user, pool_id));
    let j = key_index(s, user, pool_id);
    assert(holds_key(s[j], user, pool_id));
    if j != i {
        assert(!holds_key(s[i], s[j].user, s[j].pool_id));
    }
}

/// Writing a record keeps keys unique, and the record is then what `lookup` gives.
pub proof fn lemma_upsert(s: Seq<Delegation>, d: Delegation)
    requires
        keys_unique(s),
    ensures
        keys_unique(upsert(s, d)),
        lookup(upsert(s, d), d.user, d.pool_id) == Some(d),
{
    let t = upsert(s, d);
    if has_key(s, d.user, d.pool_id) {
        let k = key_index(s, d.user, d.pool_id);
        assert(holds_key(s[k], d.user, d.pool_id));
        assert forall|i: int, j: int|
            0 <= i < t.len() && 0 <= j < t.len() && i != j implies !holds_key(
            #[trigger] t[i],
            (#[trigger] t[j]).user,
            t[j].pool_id,
        ) by {
            if i == k {
                assert(!holds_key(s[j], s[k].user, s[k].pool_id));
            } else if j == k {
                assert(!holds_key(s[i], s[k].user, s[k].pool_id));
            } else {
                assert(!holds_key(s[i], s[j].user, s[j].pool_id));
            }
        }
        lemma_lookup_at(t, k, d.user, d.pool_id);
    } else {
        let n = s.len() as int;
        assert forall|i: int, j: int|
            0 <= i < t.len() && 0 <= j < t.len() && i != j implies !holds_key(
            #[trigger] t[i],
            (#[trigger] t[j]).user,
            t[j].pool_id,
        ) by {
            if i == n {
                assert(!holds_key(s[j], d.user, d.pool_id));
            } else if j == n {
                assert(!holds_key(s[i], d.user, d.pool_id));
            } else {
                assert(!holds_key(s[i], s[j].user, s[j].pool_id));
            }
        }
        lemma_lookup_at(t, n, d.user, d.pool_id);
    }
}

/// Writing a valid record into a ledger of valid records leaves only valid records.
pub proof fn lemma_upsert_valid(s: Seq<Delegation>, d: Delegation)
    requires
        forall|i: int| 0 <= i < s.len() ==> (#[trigger] s[i]).valid(),
        d.valid(),
    ensures
        forall|i: int| 0 <= i < upsert(s, d).len() ==> (#[trigger] upsert(s, d)[i]).valid(),
{
}

/// The position of the record of (`user`, `pool_id`), if any.
pub fn find_delegation(v: &Vec<Delegation>, user: Address, pool_id: u64) -> (r: Option<usize>)
    requires
        keys_unique(v@),
    ensures
        match r {
            Some(i) => i < v@.len() && key_index(v@, user, pool_id) == i && lookup(v@, user, pool_id)
                == Some(v@[i as int]),
            None => !has_key(v@, user, pool_id) && lookup(v@, user, pool_id) == None::<Delegation>,
        },
{
    let mut i: usize = 0;
    while i < v.len()
        invariant
            0 <= i <= v@.len(),
            keys_unique(v@),
            forall|j: int| 0 <= j < i ==> !#[trigger] holds_key(v@[j], user, pool_id),
        decreases v@.len() - i,
    {
        if v[i].user == user && v[i].pool_id == pool_id {
            proof {
                lemma_lookup_at(v@, i as int, user, pool_id);
            }
            return Some(i);
        }
        i += 1;
    }
    None
}

/// Writes `d` as the record of its key, replacing any earlier one.
pub fn upsert_delegation(v: &mut Vec<Delegation>, d: Delegation)
    requires
        keys_unique(old(v)@),
    ensures
        final(v)@ == upsert(old(v)@, d),
        keys_unique(final(v)@),
        (forall|i: int| 0 <= i < old(v)@.len() ==> (#[trigger] old(v)@[i]).valid()) && d.valid()
            ==> forall|i: int| 0 <= i < final(v)@.len() ==> (#[trigger] final(v)@[i]).valid(),
        lookup(final(v)@, d.user, d.pool_id) == Some(d),
{
    proof {
        lemma_upsert(v@, d);
        if (forall|i: int| 0 <= i < v@.len() ==> (#[trigger] v@[i]).valid()) && d.valid() {
            lemma_upsert_valid(v@, d);
        }
    }
    match find_delegation(v, d.user, d.pool_id) {
        Some(i) => {
            v[i] = d;
        },
        None => {
            v.push(d);
        },
    }
}

} // verus!
